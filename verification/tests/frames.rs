use discord_bot::text::{chars_vec, is_whitespace_char, same_text, same_text_ignoring_ascii_case};
use discord_bot::workspace::paths::{parse_frames, FramesError, Workspace};

/// The frames of a text, read with the standard library's line and trim functions.
fn reference_frames(content: &str) -> Option<Vec<String>> {
    let mut frames = Vec::new();
    let mut current = String::new();
    for line in content.lines() {
        if line.trim() == "---" {
            if !current.trim().is_empty() {
                frames.push(current.trim_end().to_string());
                current.clear();
            }
        } else {
            current.push_str(line);
            current.push('\n');
        }
    }
    if !current.trim().is_empty() {
        frames.push(current.trim_end().to_string());
    }
    if frames.is_empty() {
        None
    } else {
        Some(frames)
    }
}

#[test]
fn frames_split_on_dash_lines() {
    let frames = parse_frames("a\nb\n---\nc\n").unwrap();
    assert_eq!(frames, vec!["a\nb".to_string(), "c".to_string()]);
}

#[test]
fn separators_may_have_surrounding_whitespace() {
    let frames = parse_frames("one\n  ---  \r\ntwo\r\n\t---\nthree").unwrap();
    assert_eq!(frames, vec!["one", "two", "three"]);
}

#[test]
fn blank_frames_carry_into_the_next() {
    let frames = parse_frames("---\n  \n---\nx\n---\n").unwrap();
    assert_eq!(frames, vec!["  \nx"]);
}

#[test]
fn frames_lose_trailing_whitespace_only() {
    let frames = parse_frames("  [■□□□]  \n\n---\n").unwrap();
    assert_eq!(frames, vec!["  [■□□□]"]);
}

#[test]
fn text_without_frames_is_refused() {
    assert_eq!(parse_frames(""), Err(FramesError::NoFrames));
    assert_eq!(parse_frames("---\n---\n"), Err(FramesError::NoFrames));
    assert_eq!(parse_frames(" \n\t\n---\n   "), Err(FramesError::NoFrames));
    assert_eq!(FramesError::NoFrames.message(), "El archivo no tiene frames");
}

#[test]
fn a_bare_carriage_return_at_the_end_stays() {
    assert_eq!(parse_frames("x\r").unwrap(), reference_frames("x\r").unwrap());
    assert_eq!(parse_frames("--- \r").ok(), reference_frames("--- \r"));
}

#[test]
fn frames_agree_with_the_line_reader() {
    let pieces = ["a", "b", " ", "\t", "-", "--", "---", "----", "\n", "\r", "\r\n", "\u{a0}", "■", "x y", "\u{2028}"];
    let mut state: u64 = 3;
    for _ in 0..20_000 {
        let mut text = String::new();
        state = state.wrapping_mul(6364136223846793005).wrapping_add(1);
        let len = (state >> 60) as usize;
        for _ in 0..len * 2 {
            state = state.wrapping_mul(6364136223846793005).wrapping_add(1);
            text.push_str(pieces[(state >> 33) as usize % pieces.len()]);
        }
        assert_eq!(parse_frames(&text).ok(), reference_frames(&text), "text {text:?}");
    }
}

#[test]
fn whitespace_matches_the_standard_library() {
    for n in 0u32..=0x10FFFF {
        if let Some(c) = char::from_u32(n) {
            assert_eq!(is_whitespace_char(c), c.is_whitespace(), "char {n:#x}");
        }
    }
}

#[test]
fn text_comparisons() {
    assert_eq!(chars_vec("añb"), vec!['a', 'ñ', 'b']);
    assert!(same_text("status", "status"));
    assert!(!same_text("status", "statu"));
    assert!(same_text_ignoring_ascii_case("!STATUS", "!status"));
    assert!(!same_text_ignoring_ascii_case("!STATÚS", "!status"));
}

#[test]
fn workspace_paths_follow_the_executable() {
    let ws = Workspace::from_exe_path("/opt/bot/bin/bot").unwrap();
    assert_eq!(ws.path_app, "/opt/bot/bin/discord-bot");
    assert_eq!(ws.folder_audio, "/opt/bot/bin/discord-bot/audio");
    assert_eq!(ws.folder_animations, "/opt/bot/bin/discord-bot/animations");
    assert_eq!(ws.get_animation_file("animated_embed.txt"), "/opt/bot/bin/discord-bot/animations/animated_embed.txt");
    assert_eq!(ws.audio_file_path(), "/opt/bot/bin/discord-bot/audio/tts.wav");
    assert_eq!(ws.get_audio_file(true), Some("/opt/bot/bin/discord-bot/audio/tts.wav".to_string()));
    assert_eq!(ws.get_audio_file(false), None);
}

#[test]
fn an_executable_path_without_parent_is_refused() {
    let err = Workspace::from_exe_path("").err().unwrap();
    assert_eq!(err.message(), "No se pudo obtener el directorio del ejecutable");
    assert!(Workspace::from_exe_path("/").is_err());
}

#[test]
fn written_frames_read_back() {
    let frames = vec![
        "[■□□□]".to_string(),
        "  line one\n\nline three".to_string(),
        "x".to_string(),
    ];
    let text = frames.join("\n---\n");
    assert_eq!(parse_frames(&text).unwrap(), frames);
}

#[test]
fn every_frame_is_clean() {
    let frames = parse_frames("a  \n\t\n---\n\n  b\t\n---\n ").unwrap();
    assert_eq!(frames, vec!["a", "\n  b"]);
    for f in frames {
        assert!(!f.trim().is_empty());
        assert!(!f.ends_with(char::is_whitespace));
    }
}

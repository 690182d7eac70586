use discord_bot::commands::audio::VoiceReply;
use discord_bot::commands::voice::{enqueue_step, play_step, EnqueueAction, EnqueueEvent, EnqueueState};

#[test]
fn enqueue_flow_success_answers_queued() {
    let (s, a) = enqueue_step(EnqueueState::Start, EnqueueEvent::Invoked { guild: Some(1), cached: true, channel: Some(2) });
    assert_eq!(s, EnqueueState::Joining);
    assert!(matches!(a, EnqueueAction::Join { guild: 1, channel: 2 }));
    let (s, a) = enqueue_step(s, EnqueueEvent::Joined(true));
    assert_eq!(s, EnqueueState::FindingAudio);
    assert!(matches!(a, EnqueueAction::FindAudio));
    let (s, a) = enqueue_step(s, EnqueueEvent::AudioFound(Some("/x/tts.wav".to_string())));
    assert_eq!(s, EnqueueState::Enqueuing);
    match a {
        EnqueueAction::Enqueue(p) => assert_eq!(p, "/x/tts.wav"),
        _ => panic!("expected enqueue"),
    }
    let (s, a) = enqueue_step(s, EnqueueEvent::Queued);
    assert_eq!(s, EnqueueState::Done);
    assert!(matches!(a, EnqueueAction::Reply(VoiceReply::Queued)));
}

#[test]
fn enqueue_flow_failures_are_silent_except_outside_voice() {
    let (_, a) = enqueue_step(EnqueueState::Start, EnqueueEvent::Invoked { guild: None, cached: true, channel: Some(2) });
    assert!(matches!(a, EnqueueAction::Finish));
    let (_, a) = enqueue_step(EnqueueState::Start, EnqueueEvent::Invoked { guild: Some(1), cached: false, channel: Some(2) });
    assert!(matches!(a, EnqueueAction::Finish));
    let (s, a) = enqueue_step(EnqueueState::Start, EnqueueEvent::Invoked { guild: Some(1), cached: true, channel: None });
    assert_eq!(s, EnqueueState::Done);
    assert!(matches!(a, EnqueueAction::Reply(VoiceReply::MustBeInVoice)));
    let (s, a) = enqueue_step(EnqueueState::Joining, EnqueueEvent::Joined(false));
    assert_eq!(s, EnqueueState::Done);
    assert!(matches!(a, EnqueueAction::Finish));
    let (_, a) = enqueue_step(EnqueueState::FindingAudio, EnqueueEvent::AudioFound(None));
    assert!(matches!(a, EnqueueAction::Finish));
    let (s, a) = enqueue_step(EnqueueState::Done, EnqueueEvent::Queued);
    assert_eq!(s, EnqueueState::Done);
    assert!(matches!(a, EnqueueAction::Finish));
}

#[test]
fn play_flow_plays_the_found_audio_without_answering() {
    let (s, _) = play_step(EnqueueState::Start, EnqueueEvent::Invoked { guild: Some(1), cached: true, channel: Some(2) });
    let (s, _) = play_step(s, EnqueueEvent::Joined(true));
    let (s, a) = play_step(s, EnqueueEvent::AudioFound(Some("/x/tts.wav".to_string())));
    assert_eq!(s, EnqueueState::Done);
    match a {
        EnqueueAction::Play(p) => assert_eq!(p, "/x/tts.wav"),
        _ => panic!("expected play"),
    }
    let (_, a) = play_step(EnqueueState::Start, EnqueueEvent::Invoked { guild: Some(1), cached: true, channel: None });
    assert!(matches!(a, EnqueueAction::Reply(VoiceReply::MustBeInVoice)));
}

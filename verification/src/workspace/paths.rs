//! The bot's working directories and the animation files kept in them.
//!
//! An animation file holds frames separated by lines that read `---`
//! (surrounding whitespace allowed); `parse_frames` turns the text of such a
//! file into its frames.
use crate::text::{
    is_blank, is_blank_chars, is_whitespace, lemma_trim_end_facts, string_of_chars, trim,
    trim_end, trim_end_len, trim_start, trim_start_pos,
};
use vstd::prelude::*;

verus! {

// ----- lines of a text, in the sense of `str::lines` -----

/// The text after the last `'\n'` of `s` (all of `s` when it has none).
pub open spec fn pending_line(s: Seq<char>) -> Seq<char>
    decreases s.len(),
{
    if s.len() == 0 {
        seq![]
    } else if s.last() == '\n' {
        seq![]
    } else {
        pending_line(s.drop_last()).push(s.last())
    }
}

/// A line without the `'\r'` that ended it before its `'\n'`, if any.
pub open spec fn strip_cr(line: Seq<char>) -> Seq<char> {
    if line.len() > 0 && line.last() == '\r' {
        line.drop_last()
    } else {
        line
    }
}

/// The lines of `s` that a `'\n'` ends, each without its line ending
/// (`"\n"` or `"\r\n"`).
pub open spec fn complete_lines(s: Seq<char>) -> Seq<Seq<char>>
    decreases s.len(),
{
    if s.len() == 0 {
        seq![]
    } else if s.last() == '\n' {
        complete_lines(s.drop_last()).push(strip_cr(pending_line(s.drop_last())))
    } else {
        complete_lines(s.drop_last())
    }
}

/// The lines of `s`: those that a line ending closes, then the text after
/// the last line ending when it is not empty.
pub open spec fn lines(s: Seq<char>) -> Seq<Seq<char>> {
    if pending_line(s).len() > 0 {
        complete_lines(s).push(pending_line(s))
    } else {
        complete_lines(s)
    }
}

// ----- frames -----

/// The character sequence `---`.
pub open spec fn dashes() -> Seq<char> {
    seq!['-', '-', '-']
}

/// A line that separates two frames: `---` with optional surrounding whitespace.
pub open spec fn is_separator(line: Seq<char>) -> bool {
    trim(line) == dashes()
}

/// The frames found so far and the text of the frame being read.
pub type ScanState = (Seq<Seq<char>>, Seq<char>);

/// Reads one line: a separator closes the frame being read unless that frame
/// is blank (a blank one stays open and keeps its text); any other line is
/// added to the frame being read, followed by `'\n'`.
pub open spec fn scan_line(st: ScanState, line: Seq<char>) -> ScanState {
    if is_separator(line) {
        if is_blank(st.1) {
            st
        } else {
            (st.0.push(trim_end(st.1)), seq![])
        }
    } else {
        (st.0, st.1 + line.push('\n'))
    }
}

/// Reads the lines in order, starting with no frames and an empty frame.
pub open spec fn scan_lines(ls: Seq<Seq<char>>) -> ScanState
    decreases ls.len(),
{
    if ls.len() == 0 {
        (seq![], seq![])
    } else {
        scan_line(scan_lines(ls.drop_last()), ls.last())
    }
}

/// The frames of an animation text: those closed by separators, then the
/// last one if it is not blank; each without trailing whitespace.
pub open spec fn frames_of(content: Seq<char>) -> Seq<Seq<char>> {
    let st = scan_lines(lines(content));
    if is_blank(st.1) {
        st.0
    } else {
        st.0.push(trim_end(st.1))
    }
}

/// The texts of a sequence of strings.
pub open spec fn texts(v: Seq<String>) -> Seq<Seq<char>> {
    v.map_values(|s: String| s@)
}

/// Why an animation text was refused.
#[derive(Debug, Clone, Copy, PartialEq, Eq)]
pub enum FramesError {
    /// The text has no frame.
    NoFrames,
}

impl FramesError {
    /// The message of the error.
    pub fn message(&self) -> (m: &'static str)
        ensures
            m@ == "El archivo no tiene frames"@,
    {
        "El archivo no tiene frames"
    }
}

/// Whether a line is a separator.
fn separator_line(line: &Vec<char>) -> (b: bool)
    ensures
        b == is_separator(line@),
{
    let k = trim_end_len(line);
    let trimmed = string_of_chars(line, 0, k);
    let mut head: Vec<char> = Vec::new();
    let mut i: usize = 0;
    while i < k
        invariant
            i <= k <= line.len(),
            head@ == line@.take(i as int),
        decreases k - i,
    {
        head.push(line[i]);
        assert(line@.take(i + 1) =~= line@.take(i as int).push(line@[i as int]));
        i = i + 1;
    }
    let a = trim_start_pos(&head);
    assert(trim(line@) == head@.subrange(a as int, k as int));
    if k - a == 3 {
        let r = head[a] == '-' && head[a + 1] == '-' && head[a + 2] == '-';
        proof {
            let t = head@.subrange(a as int, k as int);
            if r {
                assert(t =~= dashes());
            } else {
                assert(t[0] != '-' || t[1] != '-' || t[2] != '-');
                assert(t != dashes());
            }
        }
        r
    } else {
        assert(head@.subrange(a as int, k as int).len() != dashes().len());
        false
    }
}

/// Reads one line into the frames and the frame being read.
fn scan_one_line(frames: &mut Vec<String>, current: &mut Vec<char>, line: &Vec<char>)
    ensures
        (texts(final(frames)@), final(current)@) == scan_line(
            (texts(old(frames)@), old(current)@),
            line@,
        ),
{
    if separator_line(line) {
        if !is_blank_chars(current) {
            let k = trim_end_len(current);
            let frame = string_of_chars(current, 0, k);
            frames.push(frame);
            *current = Vec::new();
            assert(texts(frames@) =~= texts(old(frames)@).push(trim_end(old(current)@)));
            assert(current@ =~= Seq::<char>::empty());
        }
    } else {
        let mut i: usize = 0;
        let ghost start = current@;
        while i < line.len()
            invariant
                i <= line.len(),
                current@ == start + line@.take(i as int),
            decreases line.len() - i,
        {
            current.push(line[i]);
            assert(line@.take(i + 1) =~= line@.take(i as int).push(line@[i as int]));
            assert(start + line@.take(i + 1) =~= (start + line@.take(i as int)).push(
                line@[i as int],
            ));
            i = i + 1;
        }
        current.push('\n');
        assert(line@.take(line.len() as int) =~= line@);
        assert(current@ =~= start + line@.push('\n'));
    }
}

/// `s` followed by one character, read line by line.
proof fn lemma_lines_push(s: Seq<char>, c: char)
    ensures
        c == '\n' ==> complete_lines(s.push(c)) == complete_lines(s).push(
            strip_cr(pending_line(s)),
        ),
        c == '\n' ==> pending_line(s.push(c)) == Seq::<char>::empty(),
        c != '\n' ==> complete_lines(s.push(c)) == complete_lines(s),
        c != '\n' ==> pending_line(s.push(c)) == pending_line(s).push(c),
{
    assert(s.push(c).drop_last() =~= s);
}

/// The line without its final `'\r'`, if any.
fn strip_carriage_return(line: Vec<char>) -> (out: Vec<char>)
    ensures
        out@ == strip_cr(line@),
{
    let mut line = line;
    if line.len() > 0 && line[line.len() - 1] == '\r' {
        line.pop();
    }
    line
}

/// The frames of an animation text.
///
/// Succeeds exactly when the text has at least one frame; the frames are
/// then `frames_of` the text.
pub fn parse_frames(content: &str) -> (res: Result<Vec<String>, FramesError>)
    ensures
        match res {
            Ok(frames) => texts(frames@) == frames_of(content@) && frames@.len() > 0,
            Err(e) => e == FramesError::NoFrames && frames_of(content@).len() == 0,
        },
{
    let mut frames: Vec<String> = Vec::new();
    let mut current: Vec<char> = Vec::new();
    let mut line: Vec<char> = Vec::new();
    assert(texts(frames@) =~= Seq::<Seq<char>>::empty());
    for c in it: content.chars()
        invariant
            it.seq() == content@,
            line@ == pending_line(content@.take(it.index())),
            (texts(frames@), current@) == scan_lines(complete_lines(content@.take(it.index()))),
    {
        let ghost prefix = content@.take(it.index());
        proof {
            lemma_lines_push(prefix, c);
            assert(content@.take(it.index() + 1) =~= prefix.push(c));
        }
        if c == '\n' {
            let whole = strip_carriage_return(line);
            scan_one_line(&mut frames, &mut current, &whole);
            line = Vec::new();
            proof {
                let ls = complete_lines(prefix.push(c));
                assert(ls.drop_last() =~= complete_lines(prefix));
            }
            assert(line@ =~= Seq::<char>::empty());
        } else {
            line.push(c);
        }
    }
    assert(content@.take(content@.len() as int) =~= content@);
    if line.len() > 0 {
        scan_one_line(&mut frames, &mut current, &line);
        assert(lines(content@).drop_last() =~= complete_lines(content@));
    }
    if !is_blank_chars(&current) {
        let k = trim_end_len(&current);
        let frame = string_of_chars(&current, 0, k);
        frames.push(frame);
        assert(texts(frames@) =~= frames_of(content@));
    }
    if frames.len() == 0 {
        Err(FramesError::NoFrames)
    } else {
        Ok(frames)
    }
}

// ----- laws of the frame reader -----

/// A frame as the reader gives it: not blank, and not ending in whitespace.
pub open spec fn is_clean_frame(f: Seq<char>) -> bool {
    !is_blank(f) && !is_whitespace(f.last())
}

/// Trimming the end of a text that is not blank gives a clean frame.
proof fn lemma_trimmed_is_clean(s: Seq<char>)
    requires
        !is_blank(s),
    ensures
        is_clean_frame(trim_end(s)),
{
    lemma_trim_end_facts(s);
    let t = trim_end(s);
    assert(!is_whitespace(t[t.len() - 1]));
}

/// The frames read so far are clean.
proof fn lemma_scan_clean(ls: Seq<Seq<char>>)
    ensures
        forall|i: int|
            0 <= i < scan_lines(ls).0.len() ==> is_clean_frame(#[trigger] scan_lines(ls).0[i]),
    decreases ls.len(),
{
    if ls.len() > 0 {
        lemma_scan_clean(ls.drop_last());
        let st = scan_lines(ls.drop_last());
        if is_separator(ls.last()) && !is_blank(st.1) {
            lemma_trimmed_is_clean(st.1);
        }
    }
}

/// Every frame that the reader gives is clean: not blank, and not ending in
/// whitespace.
pub proof fn law_frames_are_clean(content: Seq<char>)
    ensures
        forall|i: int|
            0 <= i < frames_of(content).len() ==> is_clean_frame(#[trigger] frames_of(content)[i]),
{
    let st = scan_lines(lines(content));
    lemma_scan_clean(lines(content));
    if !is_blank(st.1) {
        lemma_trimmed_is_clean(st.1);
    }
}

/// Lines that are all blank or separators.
pub open spec fn only_blank_or_separators(ls: Seq<Seq<char>>) -> bool {
    forall|i: int| 0 <= i < ls.len() ==> is_blank(#[trigger] ls[i]) || is_separator(ls[i])
}

/// Nothing is read, and the frame being read is blank, exactly while the lines
/// are blank or separators.
proof fn lemma_scan_nothing(ls: Seq<Seq<char>>)
    ensures
        (scan_lines(ls).0.len() == 0 && is_blank(scan_lines(ls).1)) == only_blank_or_separators(
            ls,
        ),
    decreases ls.len(),
{
    if ls.len() > 0 {
        let p = ls.drop_last();
        let l = ls.last();
        lemma_scan_nothing(p);
        let st = scan_lines(p);
        assert(only_blank_or_separators(ls) == (only_blank_or_separators(p) && (is_blank(l)
            || is_separator(l)))) by {
            if only_blank_or_separators(ls) {
                assert forall|i: int| 0 <= i < p.len() implies is_blank(#[trigger] p[i])
                    || is_separator(p[i]) by {
                    assert(p[i] == ls[i]);
                }
                assert(ls[ls.len() - 1] == l);
            }
            if only_blank_or_separators(p) && (is_blank(l) || is_separator(l)) {
                assert forall|i: int| 0 <= i < ls.len() implies is_blank(#[trigger] ls[i])
                    || is_separator(ls[i]) by {
                    if i < p.len() {
                        assert(p[i] == ls[i]);
                    }
                }
            }
        }
        if !is_separator(l) {
            let c = st.1 + l.push('\n');
            assert(is_blank(c) == (is_blank(st.1) && is_blank(l))) by {
                if is_blank(c) {
                    assert forall|i: int| 0 <= i < st.1.len() implies is_whitespace(
                        #[trigger] st.1[i],
                    ) by {
                        assert(c[i] == st.1[i]);
                    }
                    assert forall|i: int| 0 <= i < l.len() implies is_whitespace(#[trigger] l[i]) by {
                        assert(c[st.1.len() + i] == l[i]);
                    }
                }
                if is_blank(st.1) && is_blank(l) {
                    assert forall|i: int| 0 <= i < c.len() implies is_whitespace(#[trigger] c[i]) by {
                        if i < st.1.len() {
                            assert(c[i] == st.1[i]);
                        } else if i < st.1.len() + l.len() {
                            assert(c[i] == l[i - st.1.len()]);
                        } else {
                            assert(c[i] == '\n');
                        }
                    }
                }
            }
        }
    }
}

/// An animation text has no frame exactly when each of its lines is blank or
/// a separator.
pub proof fn law_no_frames_iff_only_blank_or_separator_lines(content: Seq<char>)
    ensures
        (frames_of(content).len() == 0) == only_blank_or_separators(lines(content)),
{
    lemma_scan_nothing(lines(content));
}

// ----- writing frames and reading them back -----

/// The text between two frames of a file: a line that reads `---`.
pub open spec fn separator_text() -> Seq<char> {
    seq!['\n', '-', '-', '-', '\n']
}

/// The text of an animation file holding `frames`, separated by `---` lines.
pub open spec fn join_frames(frames: Seq<Seq<char>>) -> Seq<char>
    decreases frames.len(),
{
    if frames.len() <= 1 {
        if frames.len() == 1 {
            frames[0]
        } else {
            seq![]
        }
    } else {
        join_frames(frames.drop_last()) + separator_text() + frames.last()
    }
}

/// A text without carriage returns.
pub open spec fn no_cr(s: Seq<char>) -> bool {
    forall|i: int| 0 <= i < s.len() ==> s[i] != '\r'
}

/// A frame that can be written to a file and read back: clean (see
/// `is_clean_frame`), without carriage returns, and none of its lines a
/// separator.
pub open spec fn is_writable_frame(f: Seq<char>) -> bool {
    &&& is_clean_frame(f)
    &&& no_cr(f)
    &&& forall|i: int| 0 <= i < lines(f).len() ==> !is_separator(#[trigger] lines(f)[i])
}

/// The text of `s` up to and including its last `'\n'`.
pub open spec fn line_body(s: Seq<char>) -> Seq<char> {
    s.take(s.len() - pending_line(s).len())
}

/// The pending line is the end of the text, after its last `'\n'`.
proof fn lemma_pending_is_suffix(s: Seq<char>)
    ensures
        pending_line(s).len() <= s.len(),
        pending_line(s) == s.subrange(s.len() - pending_line(s).len(), s.len() as int),
        pending_line(s).len() < s.len() ==> s[s.len() - pending_line(s).len() - 1] == '\n',
        s.len() > 0 && s.last() != '\n' ==> pending_line(s).len() > 0,
    decreases s.len(),
{
    if s.len() > 0 {
        lemma_pending_is_suffix(s.drop_last());
        if s.last() != '\n' {
            let p = s.drop_last();
            assert(pending_line(s) =~= s.subrange(s.len() - pending_line(s).len(), s.len() as int))
                by {
                assert(pending_line(p) == p.subrange(p.len() - pending_line(p).len(), p.len() as int));
            }
            if pending_line(s).len() < s.len() {
                assert(s[s.len() - pending_line(s).len() - 1] == p[p.len() - pending_line(p).len() - 1]);
            }
        } else {
            assert(s.subrange(s.len() as int, s.len() as int) =~= Seq::<char>::empty());
        }
    } else {
        assert(s.subrange(0, 0) =~= Seq::<char>::empty());
    }
}

/// The text is its line body followed by its pending line.
proof fn lemma_body_then_pending(s: Seq<char>)
    ensures
        line_body(s) + pending_line(s) == s,
{
    lemma_pending_is_suffix(s);
    assert(line_body(s) + pending_line(s) =~= s);
}

/// Reading the text of a frame after a text that ends a line: the lines of the
/// frame that a `'\n'` ends join the frame being read, and the frame's last
/// line stays pending.
proof fn lemma_read_frame_text(a: Seq<char>, f: Seq<char>)
    requires
        pending_line(a).len() == 0,
        no_cr(f),
        forall|i: int|
            0 <= i < complete_lines(f).len() ==> !is_separator(#[trigger] complete_lines(f)[i]),
    ensures
        scan_lines(complete_lines(a + f)) == (
            scan_lines(complete_lines(a)).0,
            scan_lines(complete_lines(a)).1 + line_body(f),
        ),
        pending_line(a + f) == pending_line(f),
    decreases f.len(),
{
    if f.len() == 0 {
        assert(a + f =~= a);
        assert(line_body(f) =~= Seq::<char>::empty());
        assert(scan_lines(complete_lines(a)).1 + line_body(f) =~= scan_lines(complete_lines(a)).1);
    } else {
        let g = f.drop_last();
        let c = f.last();
        assert(f =~= g.push(c));
        assert(a + f =~= (a + g).push(c));
        lemma_lines_push(g, c);
        lemma_lines_push(a + g, c);
        assert forall|i: int| 0 <= i < complete_lines(g).len() implies !is_separator(
            #[trigger] complete_lines(g)[i],
        ) by {
            assert(complete_lines(g)[i] == complete_lines(f)[i]);
        }
        assert(no_cr(g)) by {
            assert forall|i: int| 0 <= i < g.len() implies g[i] != '\r' by {
                assert(g[i] == f[i]);
            }
        }
        lemma_read_frame_text(a, g);
        lemma_pending_is_suffix(g);
        lemma_pending_is_suffix(f);
        let st = scan_lines(complete_lines(a));
        if c == '\n' {
            let pl = pending_line(g);
            assert(strip_cr(pl) == pl) by {
                if pl.len() > 0 {
                    assert(pl.last() == g[g.len() - 1]);
                }
            }
            let cl = complete_lines(f);
            assert(cl.last() == pl);
            assert(!is_separator(cl[cl.len() - 1]));
            assert(complete_lines(a + f) == complete_lines(a + g).push(pl));
            assert(complete_lines(a + f).drop_last() =~= complete_lines(a + g));
            lemma_body_then_pending(g);
            assert(line_body(f) =~= f);
            assert(line_body(g) + pl.push('\n') =~= f);
            assert(st.1 + line_body(g) + pl.push('\n') =~= st.1 + line_body(f));
        } else {
            assert(line_body(f) =~= line_body(g));
        }
    }
}

/// Reading the text of all but the last frame of a file, and the body of
/// the last, leaves the last frame's last line pending.
proof fn lemma_read_joined(frames: Seq<Seq<char>>)
    requires
        frames.len() > 0,
        forall|i: int| 0 <= i < frames.len() ==> is_writable_frame(#[trigger] frames[i]),
    ensures
        scan_lines(complete_lines(join_frames(frames))) == (
            frames.drop_last(),
            line_body(frames.last()),
        ),
        pending_line(join_frames(frames)) == pending_line(frames.last()),
    decreases frames.len(),
{
    let f = frames.last();
    assert(is_writable_frame(frames[frames.len() - 1]));
    lemma_complete_lines_of_writable(f);
    if frames.len() == 1 {
        assert(complete_lines(Seq::<char>::empty()) =~= Seq::<Seq<char>>::empty());
        assert(Seq::<char>::empty() + f =~= f);
        lemma_read_frame_text(Seq::<char>::empty(), f);
        assert(Seq::<char>::empty() + line_body(f) =~= line_body(f));
        assert(frames.drop_last() =~= Seq::<Seq<char>>::empty());
    } else {
        let gs = frames.drop_last();
        assert forall|i: int| 0 <= i < gs.len() implies is_writable_frame(#[trigger] gs[i]) by {
            assert(gs[i] == frames[i]);
        }
        lemma_read_joined(gs);
        let d = join_frames(gs);
        let g = gs.last();
        assert(is_writable_frame(gs[gs.len() - 1]));
        lemma_last_line_of_writable(g);
        // "\n": the last line of g is read
        let s1 = d.push('\n');
        lemma_lines_push(d, '\n');
        assert(complete_lines(s1).drop_last() =~= complete_lines(d));
        lemma_body_then_pending(g);
        assert(scan_lines(complete_lines(s1)) == (gs.drop_last(), line_body(g) + pending_line(
            g,
        ).push('\n')));
        assert(line_body(g) + pending_line(g).push('\n') =~= g.push('\n'));
        // "---"
        let s2 = s1.push('-');
        let s3 = s2.push('-');
        let s4 = s3.push('-');
        lemma_lines_push(s1, '-');
        lemma_lines_push(s2, '-');
        lemma_lines_push(s3, '-');
        assert(pending_line(s4) =~= dashes());
        // "\n": the separator closes g
        let s5 = s4.push('\n');
        lemma_lines_push(s4, '\n');
        assert(complete_lines(s5).drop_last() =~= complete_lines(s4));
        lemma_dashes_separator();
        lemma_trim_end_after_newline(g);
        assert(!is_blank(g.push('\n'))) by {
            lemma_trim_end_facts(g);
            assert(g.push('\n')[g.len() - 1] == g.last());
        }
        assert(gs.drop_last().push(g) =~= gs);
        assert(scan_lines(complete_lines(s5)) == (gs, Seq::<char>::empty()));
        // the last frame
        assert(s5 =~= d + separator_text());
        assert(join_frames(frames) =~= s5 + f);
        lemma_read_frame_text(s5, f);
        assert(Seq::<char>::empty() + line_body(f) =~= line_body(f));
    }
}

/// The lines of a writable frame that a `'\n'` ends are not separators.
proof fn lemma_complete_lines_of_writable(f: Seq<char>)
    requires
        is_writable_frame(f),
    ensures
        forall|i: int|
            0 <= i < complete_lines(f).len() ==> !is_separator(#[trigger] complete_lines(f)[i]),
{
    assert forall|i: int| 0 <= i < complete_lines(f).len() implies !is_separator(
        #[trigger] complete_lines(f)[i],
    ) by {
        assert(complete_lines(f)[i] == lines(f)[i]);
    }
}

/// The last line of a writable frame is pending, not empty, and not a separator.
proof fn lemma_last_line_of_writable(f: Seq<char>)
    requires
        is_writable_frame(f),
    ensures
        pending_line(f).len() > 0,
        !is_separator(pending_line(f)),
        strip_cr(pending_line(f)) == pending_line(f),
        lines(f) == complete_lines(f).push(pending_line(f)),
{
    lemma_trim_end_facts(f);
    assert(!is_whitespace(f.last()));
    lemma_pending_is_suffix(f);
    let n = lines(f).len();
    assert(lines(f)[n - 1] == pending_line(f));
    assert(pending_line(f).last() == f.last());
}

/// `---` is a separator.
proof fn lemma_dashes_separator()
    ensures
        is_separator(dashes()),
{
    let d = dashes();
    assert(!is_whitespace(d.last()));
    assert(trim_end(d) == d);
    assert(!is_whitespace(d[0]));
    assert(trim_start(d) == d);
}

/// A clean frame followed by a line break trims back to the frame.
proof fn lemma_trim_end_after_newline(g: Seq<char>)
    requires
        is_clean_frame(g),
    ensures
        trim_end(g.push('\n')) == g,
{
    assert(g.push('\n').drop_last() =~= g);
    assert(is_whitespace('\n'));
    lemma_trim_end_facts(g);
    assert(g.len() > 0);
    assert(!is_whitespace(g.last()));
}

/// Frames written to a file, one after the other with a `---` line between
/// them, are read back as they were: the reader gives back exactly the
/// frames, provided each is clean, has no carriage return and no separator
/// line.
pub proof fn law_written_frames_read_back(frames: Seq<Seq<char>>)
    requires
        frames.len() > 0,
        forall|i: int| 0 <= i < frames.len() ==> is_writable_frame(#[trigger] frames[i]),
    ensures
        frames_of(join_frames(frames)) == frames,
{
    lemma_read_joined(frames);
    let f = frames.last();
    assert(is_writable_frame(frames[frames.len() - 1]));
    lemma_last_line_of_writable(f);
    let c = join_frames(frames);
    assert(lines(c) == complete_lines(c).push(pending_line(f)));
    assert(lines(c).drop_last() =~= complete_lines(c));
    lemma_body_then_pending(f);
    assert(line_body(f) + pending_line(f).push('\n') =~= f.push('\n'));
    lemma_trim_end_after_newline(f);
    assert(!is_blank(f.push('\n'))) by {
        lemma_trim_end_facts(f);
        assert(f.push('\n')[f.len() - 1] == f.last());
    }
    assert(frames.drop_last().push(f) =~= frames);
}

// ----- directories -----

/// The directory of the bot, next to its executable.
pub const APP_DIR: &'static str = "discord-bot";

/// The directory of the audio files, in the bot's directory.
pub const AUDIO_DIR: &'static str = "audio";

/// The directory of the animation files, in the bot's directory.
pub const ANIM_DIR: &'static str = "animations";

/// The audio file the bot plays.
pub const AUDIO_FILE: &'static str = "tts.wav";

/// Names the text of `Path::new(base).join(name)`: the path `name` adjoined to
/// `base` by the platform's rules.
pub uninterp spec fn joined_path(base: Seq<char>, name: Seq<char>) -> Seq<char>;

/// Names the text of `Path::new(p).parent()`: the path without its last
/// component, if it has one.
pub uninterp spec fn parent_path(p: Seq<char>) -> Option<Seq<char>>;

/// `Path::join` on texts. The contract claims only that the result is a
/// function of the two texts; how the platform joins them is not stated.
#[verifier::external_body]
fn join_path(base: &str, name: &str) -> (p: String)
    ensures
        p@ == joined_path(base@, name@),
{
    std::path::Path::new(base).join(name).to_string_lossy().into_owned()
}

/// `Path::parent` on a text. The contract claims that the result is a
/// function of the text and, as the documentation says, that the empty path
/// has no parent; which other paths have none, and what the parent is, is
/// not stated.
#[verifier::external_body]
fn path_parent(p: &str) -> (r: Option<String>)
    ensures
        r.deep_view() == parent_path(p@),
        p@.len() == 0 ==> r is None,
{
    std::path::Path::new(p).parent().map(|q| q.to_string_lossy().into_owned())
}

/// The directories of the bot: its own, and those of its audio and animation files.
pub struct Workspace {
    pub path_app: String,
    pub folder_audio: String,
    pub folder_animations: String,
}

/// Why the directories of the bot cannot be placed.
#[derive(Debug, Clone, Copy, PartialEq, Eq, Structural)]
pub enum WorkspaceError {
    /// The path of the executable has no parent directory.
    NoExecutableDir,
}

impl WorkspaceError {
    /// The message of the error.
    pub fn message(&self) -> (m: &'static str)
        ensures
            m@ == "No se pudo obtener el directorio del ejecutable"@,
    {
        "No se pudo obtener el directorio del ejecutable"
    }
}

impl Workspace {
    /// The directories of the bot for an executable at `exe_path`: the bot's
    /// directory next to the executable, the audio and animation directories
    /// inside it. Fails when the executable's path has no parent.
    pub fn from_exe_path(exe_path: &str) -> (res: Result<Workspace, WorkspaceError>)
        ensures
            match parent_path(exe_path@) {
                None => res == Err::<Workspace, WorkspaceError>(WorkspaceError::NoExecutableDir),
                Some(dir) => res matches Ok(ws) && ws.path_app@ == joined_path(dir, APP_DIR@)
                    && ws.folder_audio@ == joined_path(ws.path_app@, AUDIO_DIR@)
                    && ws.folder_animations@ == joined_path(ws.path_app@, ANIM_DIR@),
            },
    {
        let dir = match path_parent(exe_path) {
            Some(d) => d,
            None => return Err(WorkspaceError::NoExecutableDir),
        };
        let path_app = join_path(dir.as_str(), APP_DIR);
        let folder_audio = join_path(path_app.as_str(), AUDIO_DIR);
        let folder_animations = join_path(path_app.as_str(), ANIM_DIR);
        Ok(Workspace { path_app, folder_audio, folder_animations })
    }

    /// The path of the audio file.
    pub fn audio_file_path(&self) -> (p: String)
        ensures
            p@ == joined_path(self.folder_audio@, AUDIO_FILE@),
    {
        join_path(self.folder_audio.as_str(), AUDIO_FILE)
    }

    /// The audio file, when `is_file` says that its path (`audio_file_path`)
    /// names a file.
    pub fn get_audio_file(&self, is_file: bool) -> (p: Option<String>)
        ensures
            match p {
                Some(path) => is_file && path@ == joined_path(self.folder_audio@, AUDIO_FILE@),
                None => !is_file,
            },
    {
        let path = self.audio_file_path();
        if is_file {
            Some(path)
        } else {
            None
        }
    }

    /// The path of the animation file `name`.
    pub fn get_animation_file(&self, name: &str) -> (p: String)
        ensures
            p@ == joined_path(self.folder_animations@, name@),
    {
        join_path(self.folder_animations.as_str(), name)
    }
}

} // verus!

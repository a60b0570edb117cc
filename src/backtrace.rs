use crate::notice::{frames_view, opt_view, BacktraceInfo, FrameView};
use crate::text::{
    chars_of, has_prefix, is_white, lacks, lemma_number_text, lemma_split_concat,
    lemma_split_single, lemma_trim_unchanged, parse_usize, parse_usize_spec, split_bounds,
    split_on, trim, trim_bounds,
};
use vstd::prelude::*;

verus! {

/// The prefix that marks a line naming a source position.
pub open spec fn position_marker() -> Seq<char> {
    seq!['a', 't', ' ']
}

/// The frame that a position line `at <pos>` closes, after a function line that
/// named `function` (or none).
pub open spec fn position_frame(function: Option<Seq<char>>, pos: Seq<char>) -> FrameView {
    let parts = split_on(pos, ':');
    FrameView {
        file: Some(parts[0]),
        function,
        line: if parts.len() > 1 {
            parse_usize_spec(parts[1])
        } else {
            None
        },
        column: if parts.len() > 2 {
            parse_usize_spec(parts[2])
        } else {
            None
        },
        code: None,
    }
}

/// The frame that holds a function name alone.
pub open spec fn function_frame(function: Seq<char>) -> FrameView {
    FrameView { file: None, function: Some(function), line: None, column: None, code: None }
}

/// The parser's state: the frames emitted so far, and the function line waiting
/// for its position line.
pub type ParseState = (Seq<FrameView>, Option<Seq<char>>);

/// One raw line read in `st`.
pub open spec fn parse_step(st: ParseState, raw: Seq<char>) -> ParseState {
    let t = trim(raw);
    if t.len() == 0 {
        st
    } else if has_prefix(t, position_marker()) {
        (st.0.push(position_frame(st.1, t.subrange(3, t.len() as int))), None)
    } else {
        (st.0, Some(t))
    }
}

/// The state after reading `lines` in order from the start.
pub open spec fn parse_lines(lines: Seq<Seq<char>>) -> ParseState
    decreases lines.len(),
{
    if lines.len() == 0 {
        (Seq::empty(), None)
    } else {
        parse_step(parse_lines(lines.drop_last()), lines.last())
    }
}

/// The frames of a backtrace text: each position line closes a frame; a function
/// line that no position line follows is dropped, but for the last one.
pub open spec fn parse_backtrace_spec(s: Seq<char>) -> Seq<FrameView> {
    let st = parse_lines(split_on(s, '\n'));
    match st.1 {
        Some(f) => st.0.push(function_frame(f)),
        None => st.0,
    }
}

fn text_of(s: &str, a: usize, b: usize) -> (r: String)
    requires
        a <= b <= s@.len(),
    ensures
        r@ == s@.subrange(a as int, b as int),
{
    String::from_str(s.substring_char(a, b))
}

/// Turns a backtrace text into its frames.
pub fn parse_backtrace(raw: &str) -> (r: Vec<BacktraceInfo>)
    ensures
        frames_view(r@) == parse_backtrace_spec(raw@),
{
    let c = chars_of(raw);
    let n = c.len();
    let lines = split_bounds(&c, 0, n, '\n');
    let ghost all = split_on(c@.subrange(0, n as int), '\n');
    assert(c@.subrange(0, n as int) =~= raw@);
    let mut frames: Vec<BacktraceInfo> = Vec::new();
    let mut pending: Option<String> = None;
    let mut k: usize = 0;
    assert(all.take(0).len() == 0);
    while k < lines.len()
        invariant
            c@ == raw@,
            n == c@.len(),
            all == split_on(raw@, '\n'),
            lines@.len() == all.len(),
            forall|j: int|
                0 <= j < lines@.len() ==> 0 <= (#[trigger] lines@[j]).0 <= lines@[j].1 <= n
                    && c@.subrange(lines@[j].0 as int, lines@[j].1 as int) == all[j],
            k <= lines@.len(),
            frames_view(frames@) == parse_lines(all.take(k as int)).0,
            opt_view(pending) == parse_lines(all.take(k as int)).1,
        decreases lines.len() - k,
    {
        let (lo, hi) = lines[k];
        let (a, b) = trim_bounds(&c, lo, hi);
        let ghost t = c@.subrange(a as int, b as int);
        let ghost prev = parse_lines(all.take(k as int));
        assert(all.take(k + 1).drop_last() =~= all.take(k as int));
        assert(all.take(k + 1).last() == all[k as int]);
        assert(t == trim(all[k as int]));
        if a == b {
        } else if b - a >= 3 && c[a] == 'a' && c[a + 1] == 't' && c[a + 2] == ' ' {
            assert(has_prefix(t, position_marker())) by {
                assert(t.subrange(0, 3) =~= position_marker());
            }
            let parts = split_bounds(&c, a + 3, b, ':');
            assert(c@.subrange(a + 3, b as int) =~= t.subrange(3, t.len() as int));
            let file = text_of(raw, parts[0].0, parts[0].1);
            let line = if parts.len() > 1 {
                parse_usize(&c, parts[1].0, parts[1].1)
            } else {
                None
            };
            let column = if parts.len() > 2 {
                parse_usize(&c, parts[2].0, parts[2].1)
            } else {
                None
            };
            let frame = BacktraceInfo {
                file: Some(file),
                function: pending,
                line,
                column,
                code: None,
            };
            assert(frame@ == position_frame(prev.1, t.subrange(3, t.len() as int)));
            frames.push(frame);
            pending = None;
        } else {
            assert(!has_prefix(t, position_marker())) by {
                if has_prefix(t, position_marker()) {
                    assert(t.subrange(0, 3)[0] == t[0]);
                    assert(t.subrange(0, 3)[1] == t[1]);
                    assert(t.subrange(0, 3)[2] == t[2]);
                }
            }
            pending = Some(text_of(raw, a, b));
        }
        k = k + 1;
        assert(frames_view(frames@) =~= parse_lines(all.take(k as int)).0);
    }
    assert(all.take(lines.len() as int) =~= all);
    match pending {
        Some(f) => {
            frames.push(
                BacktraceInfo { file: None, function: Some(f), line: None, column: None, code: None },
            );
        },
        None => {},
    }
    assert(frames_view(frames@) =~= parse_backtrace_spec(raw@));
    frames
}

/// The line `at <file>:<line>:<column>`.
pub open spec fn position_line(file: Seq<char>, line: Seq<char>, column: Seq<char>) -> Seq<
    char,
> {
    position_marker() + file + seq![':'] + line + seq![':'] + column
}

/// A line that names a function: not blank, not padded, no position line.
pub open spec fn is_function_line(f: Seq<char>) -> bool {
    f.len() > 0 && trim(f) == f && !has_prefix(f, position_marker()) && lacks(f, '\n')
}

/// A frame written as a function line and a position line: function, file, line
/// and column, with numbers that read as a `usize`.
pub type FrameLines = (Seq<char>, Seq<char>, Seq<char>, Seq<char>);

pub open spec fn frame_lines_ok(p: FrameLines) -> bool {
    &&& is_function_line(p.0)
    &&& lacks(p.1, ':')
    &&& lacks(p.1, '\n')
    &&& parse_usize_spec(p.2) is Some
    &&& parse_usize_spec(p.3) is Some
}

/// The lines that write the frames `ps`, two for each.
pub open spec fn lines_of_frames(ps: Seq<FrameLines>) -> Seq<Seq<char>>
    decreases ps.len(),
{
    if ps.len() == 0 {
        Seq::empty()
    } else {
        let p = ps.last();
        lines_of_frames(ps.drop_last()) + seq![p.0, position_line(p.1, p.2, p.3)]
    }
}

/// The frame that `p` writes, all four parts set.
pub open spec fn frame_of_lines(p: FrameLines) -> FrameView {
    FrameView {
        file: Some(p.1),
        function: Some(p.0),
        line: parse_usize_spec(p.2),
        column: parse_usize_spec(p.3),
        code: None,
    }
}

pub open spec fn frames_of_lines(ps: Seq<FrameLines>) -> Seq<FrameView>
    decreases ps.len(),
{
    if ps.len() == 0 {
        Seq::empty()
    } else {
        frames_of_lines(ps.drop_last()).push(frame_of_lines(ps.last()))
    }
}

proof fn lemma_frame_lines_step(st: ParseState, p: FrameLines)
    requires
        frame_lines_ok(p),
    ensures
        parse_step(parse_step(st, p.0), position_line(p.1, p.2, p.3)) == (
            st.0.push(frame_of_lines(p)),
            None::<Seq<char>>,
        ),
{
    let t = position_line(p.1, p.2, p.3);
    lemma_number_text(p.2, ':');
    lemma_number_text(p.3, ':');
    assert(t[0] == 'a');
    assert(t.last() == p.3.last());
    lemma_trim_unchanged(t);
    assert(t.subrange(0, 3) =~= position_marker());
    let pos = t.subrange(3, t.len() as int);
    assert(pos =~= p.1.push(':') + (p.2.push(':') + p.3));
    lemma_split_concat(p.1, p.2.push(':') + p.3, ':');
    lemma_split_concat(p.2, p.3, ':');
    lemma_split_single(p.1, ':');
    lemma_split_single(p.2, ':');
    lemma_split_single(p.3, ':');
    assert(split_on(pos, ':') =~= seq![p.1, p.2, p.3]);
}

proof fn lemma_lines_of_frames(ps: Seq<FrameLines>)
    requires
        forall|k: int| 0 <= k < ps.len() ==> frame_lines_ok(#[trigger] ps[k]),
    ensures
        parse_lines(lines_of_frames(ps)) == (frames_of_lines(ps), None::<Seq<char>>),
    decreases ps.len(),
{
    if ps.len() > 0 {
        let p = ps.last();
        let rest = ps.drop_last();
        assert forall|k: int| 0 <= k < rest.len() implies frame_lines_ok(#[trigger] rest[k]) by {
            assert(rest[k] == ps[k]);
        }
        lemma_lines_of_frames(rest);
        assert(frame_lines_ok(ps[ps.len() - 1]));
        let l = lines_of_frames(ps);
        let l0 = lines_of_frames(rest);
        assert(l.drop_last() =~= l0.push(p.0));
        assert(l.drop_last().drop_last() =~= l0);
        assert(l.last() == position_line(p.1, p.2, p.3));
        assert(l.drop_last().last() == p.0);
        lemma_frame_lines_step(parse_lines(l0), p);
        assert(parse_lines(l.drop_last()) == parse_step(parse_lines(l0), p.0));
        assert(parse_lines(l) == parse_step(parse_lines(l.drop_last()), l.last()));
        assert(frames_of_lines(ps) == frames_of_lines(rest).push(frame_of_lines(p)));
    }
}

/// A text that alternates function lines and `at <file>:<line>:<column>` lines
/// gives one frame for each such pair, with every part set and the numbers read
/// from the text.
pub proof fn lemma_alternating_lines(s: Seq<char>, ps: Seq<FrameLines>)
    requires
        forall|k: int| 0 <= k < ps.len() ==> frame_lines_ok(#[trigger] ps[k]),
        split_on(s, '\n') == lines_of_frames(ps),
    ensures
        parse_backtrace_spec(s) == frames_of_lines(ps),
        forall|k: int|
            0 <= k < ps.len() ==> (#[trigger] frames_of_lines(ps)[k]) == frame_of_lines(ps[k]),
{
    lemma_lines_of_frames(ps);
    lemma_frames_of_lines_index(ps);
}

proof fn lemma_frames_of_lines_index(ps: Seq<FrameLines>)
    ensures
        frames_of_lines(ps).len() == ps.len(),
        forall|k: int|
            0 <= k < ps.len() ==> (#[trigger] frames_of_lines(ps)[k]) == frame_of_lines(ps[k]),
    decreases ps.len(),
{
    if ps.len() > 0 {
        lemma_frames_of_lines_index(ps.drop_last());
        assert forall|k: int| 0 <= k < ps.len() implies (#[trigger] frames_of_lines(ps)[k])
            == frame_of_lines(ps[k]) by {
            if k < ps.len() - 1 {
                assert(ps.drop_last()[k] == ps[k]);
            }
        }
    }
}

/// The state after reading `lines` in order, starting from `st`.
pub open spec fn parse_lines_from(st: ParseState, lines: Seq<Seq<char>>) -> ParseState
    decreases lines.len(),
{
    if lines.len() == 0 {
        st
    } else {
        parse_step(parse_lines_from(st, lines.drop_last()), lines.last())
    }
}

/// A line that names a function once trimmed: not blank, no position line.
pub open spec fn names_function(raw: Seq<char>) -> bool {
    trim(raw).len() > 0 && !has_prefix(trim(raw), position_marker())
}

proof fn lemma_parse_lines_concat(a: Seq<Seq<char>>, m: Seq<Seq<char>>)
    ensures
        parse_lines(a + m) == parse_lines_from(parse_lines(a), m),
    decreases m.len(),
{
    if m.len() == 0 {
        assert(a + m =~= a);
    } else {
        lemma_parse_lines_concat(a, m.drop_last());
        assert((a + m).drop_last() =~= a + m.drop_last());
        assert((a + m).last() == m.last());
    }
}

proof fn lemma_blank_lines(st: ParseState, b: Seq<Seq<char>>)
    requires
        forall|k: int| 0 <= k < b.len() ==> trim(#[trigger] b[k]).len() == 0,
    ensures
        parse_lines_from(st, b) == st,
    decreases b.len(),
{
    if b.len() > 0 {
        assert forall|k: int| 0 <= k < b.drop_last().len() implies trim(
            #[trigger] b.drop_last()[k],
        ).len() == 0 by {
            assert(b.drop_last()[k] == b[k]);
        }
        lemma_blank_lines(st, b.drop_last());
        assert(trim(b[b.len() - 1]).len() == 0);
    }
}

proof fn lemma_frames_kept(st: ParseState, m: Seq<Seq<char>>)
    ensures
        st.0.len() <= parse_lines_from(st, m).0.len(),
        forall|i: int| 0 <= i < st.0.len() ==> #[trigger] parse_lines_from(st, m).0[i] == st.0[i],
    decreases m.len(),
{
    if m.len() > 0 {
        lemma_frames_kept(st, m.drop_last());
    }
}

/// In a whole text, a function line that another function line follows is
/// dropped: the text reads as it would without it.
pub proof fn lemma_function_line_dropped_in_text(
    s: Seq<char>,
    s2: Seq<char>,
    a: Seq<Seq<char>>,
    f: Seq<char>,
    g: Seq<char>,
    m: Seq<Seq<char>>,
)
    requires
        split_on(s, '\n') == a + seq![f, g] + m,
        split_on(s2, '\n') == a + seq![g] + m,
        names_function(f),
        names_function(g),
    ensures
        parse_backtrace_spec(s) == parse_backtrace_spec(s2),
{
    let l1 = a + seq![f, g];
    let l2 = a + seq![g];
    lemma_parse_lines_concat(l1, m);
    lemma_parse_lines_concat(l2, m);
    assert(l1.drop_last() =~= a.push(f));
    assert(a.push(f).drop_last() =~= a);
    assert(l2.drop_last() =~= a);
    assert(parse_lines(a.push(f)) == parse_step(parse_lines(a), f));
    assert(parse_lines(l1) == parse_step(parse_lines(l1.drop_last()), g));
    assert(parse_lines(l2) == parse_step(parse_lines(l2.drop_last()), g));
}

/// In a whole text, a function line that only blank lines follow is kept, as a
/// frame of the trimmed function name alone, after the frames before it.
pub proof fn lemma_last_function_line_kept_in_text(
    s: Seq<char>,
    a: Seq<Seq<char>>,
    f: Seq<char>,
    b: Seq<Seq<char>>,
)
    requires
        split_on(s, '\n') == a + seq![f] + b,
        names_function(f),
        forall|k: int| 0 <= k < b.len() ==> trim(#[trigger] b[k]).len() == 0,
    ensures
        parse_backtrace_spec(s) == parse_lines(a).0.push(function_frame(trim(f))),
{
    let l = a + seq![f];
    lemma_parse_lines_concat(l, b);
    lemma_blank_lines(parse_lines(l), b);
    assert(l.drop_last() =~= a);
    assert(parse_lines(l) == parse_step(parse_lines(l.drop_last()), f));
}

/// In a whole text, a position line gives the frame at the place that the lines
/// before it leave: its file always set, and a line or column only where that
/// part reads as a number.
pub proof fn lemma_position_line_in_text(
    s: Seq<char>,
    a: Seq<Seq<char>>,
    p: Seq<char>,
    m: Seq<Seq<char>>,
)
    requires
        split_on(s, '\n') == a + seq![p] + m,
        has_prefix(trim(p), position_marker()),
    ensures
        ({
            let k = parse_lines(a).0.len() as int;
            let t = trim(p);
            let parts = split_on(t.subrange(3, t.len() as int), ':');
            let f = parse_backtrace_spec(s)[k];
            &&& k < parse_backtrace_spec(s).len()
            &&& f == position_frame(parse_lines(a).1, t.subrange(3, t.len() as int))
            &&& f.file == Some(parts[0])
            &&& (parts.len() < 2 || parse_usize_spec(parts[1]) is None) ==> f.line is None
            &&& (parts.len() < 3 || parse_usize_spec(parts[2]) is None) ==> f.column is None
        }),
{
    let l = a + seq![p];
    lemma_parse_lines_concat(l, m);
    assert(l.drop_last() =~= a);
    assert(parse_lines(l) == parse_step(parse_lines(l.drop_last()), p));
    let st = parse_lines(l);
    let k = parse_lines(a).0.len() as int;
    assert(st.0[k] == position_frame(parse_lines(a).1, trim(p).subrange(3, trim(p).len() as int)));
    lemma_frames_kept(st, m);
    let fin = parse_lines_from(st, m);
    assert(parse_backtrace_spec(s)[k] == fin.0[k]);
}

/// An empty text has no frames.
pub proof fn lemma_empty_text()
    ensures
        parse_backtrace_spec(Seq::empty()) == Seq::<FrameView>::empty(),
{
    let lines = split_on(Seq::<char>::empty(), '\n');
    assert(lines =~= seq![Seq::<char>::empty()]);
    assert(lines.drop_last() =~= Seq::<Seq<char>>::empty());
    assert(trim(Seq::<char>::empty()) =~= Seq::<char>::empty());
    assert(parse_lines(lines) == parse_step(parse_lines(lines.drop_last()), lines.last()));
}

} // verus!

//! The line breaker: a pure function from text, width limit and wrap policy
//! to an ordered sequence of line descriptors.

use vstd::prelude::*;
use crate::font::FontMetrics;

verus! {

/// The largest text length the width and coordinate arithmetic is sized
/// for; with character widths below `2^16`, every sum stays well inside
/// 64-bit integers.
pub const MAX_TEXT_LEN: usize = 0xFFFF_FF00;

/// Whether a text of `len` characters is within the supported size.
pub open spec fn fits(len: int) -> bool {
    len <= MAX_TEXT_LEN
}

/// The rule for choosing a break point when a line would exceed the width
/// limit.
#[derive(Clone, Copy, Debug, PartialEq, Eq, Structural)]
pub enum Wrap {
    /// Break at the most recent whitespace before the width-exceeding
    /// character, consuming the whitespace into the earlier line; fall back
    /// to breaking at the exceeding character when the line holds no
    /// whitespace.
    Whitespace,
    /// Break immediately before the first width-exceeding character.
    Character,
}

/// How a visual line ends.
#[derive(Clone, Copy, Debug, PartialEq, Eq, Structural)]
pub enum BreakKind {
    /// The line runs to the end of the text; only the last line has this kind.
    End,
    /// The line ends at a literal newline, which belongs to the line's range
    /// but is not a cursor position on it.
    Newline,
    /// The line was wrapped at a whitespace character, which was consumed
    /// into the line's range but is not a cursor position on it.
    WrapWhitespace,
    /// The line was wrapped immediately before a width-exceeding character;
    /// no character was consumed by the break.
    WrapCharacter,
}

/// One visual line after wrapping: the half-open range `[start, end)` of
/// character positions of the text that the line covers, and the kind of
/// break that ended it.  Consecutive descriptors tile the text exactly
/// (see [`wf_infos`]).
#[derive(Clone, Copy, Debug, PartialEq, Eq, Structural)]
pub struct LineInfo {
    /// Character position of the first character of the line.
    pub start: usize,
    /// Character position one past the last character of the line
    /// (break character included, when the break consumed one).
    pub end: usize,
    /// How the line ends.
    pub kind: BreakKind,
}

/// How many characters of the line's range belong to the break itself
/// (and are therefore not cursor positions on the line).
pub open spec fn break_len(kind: BreakKind) -> int {
    match kind {
        BreakKind::End => 0,
        BreakKind::Newline => 1,
        BreakKind::WrapWhitespace => 1,
        BreakKind::WrapCharacter => 0,
    }
}

/// The number of cursor positions on the line is `line_char_len + 1`:
/// a cursor may sit before each non-break character and after the last one.
pub open spec fn line_char_len(info: LineInfo) -> int {
    info.end - info.start - break_len(info.kind)
}

/// The characters the whitespace wrap policy may break at.
pub open spec fn is_break_ws(c: char) -> bool {
    c == ' ' || c == '\t'
}

/// Where the line that starts at `line_start` ends.  The scan walks from
/// `cur` with `acc` the accumulated width of the characters consumed so far
/// on this line and `last_ws` the position of the most recent whitespace
/// consumed on it, if any.  Returns the end of the line's range and the kind
/// of break:
///
/// - a literal newline always ends the line, and is consumed into it;
/// - under the whitespace policy, a whitespace character is always consumed
///   into the line as a break opportunity and never triggers a break
///   itself, so a break consumes the trailing whitespace into the earlier
///   line;
/// - otherwise, once the accumulated width would exceed `max_width`, the
///   line breaks per `policy`; a line always keeps at least one character,
///   so a single over-wide character cannot stall the scan;
/// - the end of the text ends the last line.
pub open spec fn scan_line<F: FontMetrics>(
    text: Seq<char>,
    font: F,
    max_width: u32,
    policy: Wrap,
    line_start: int,
    cur: int,
    acc: int,
    last_ws: Option<int>,
) -> (int, BreakKind)
    decreases text.len() - cur,
{
    if !(0 <= cur < text.len()) {
        (text.len() as int, BreakKind::End)
    } else {
        let c = text[cur];
        if c == '\n' {
            (cur + 1, BreakKind::Newline)
        } else if policy == Wrap::Whitespace && is_break_ws(c) {
            scan_line(
                text,
                font,
                max_width,
                policy,
                line_start,
                cur + 1,
                acc + font.char_width(c) as int,
                Option::Some(cur),
            )
        } else if acc + font.char_width(c) as int > max_width as int && cur > line_start {
            match policy {
                Wrap::Whitespace => match last_ws {
                    Option::Some(w) => (w + 1, BreakKind::WrapWhitespace),
                    Option::None => (cur, BreakKind::WrapCharacter),
                },
                Wrap::Character => (cur, BreakKind::WrapCharacter),
            }
        } else {
            scan_line(
                text,
                font,
                max_width,
                policy,
                line_start,
                cur + 1,
                acc + font.char_width(c) as int,
                if is_break_ws(c) { Option::Some(cur) } else { last_ws },
            )
        }
    }
}

/// Bounds on the result of [`scan_line`]: the end stays inside the text,
/// a broken line is never empty, and a width-induced break always leaves
/// text for a following line.
pub proof fn lemma_scan_line_props<F: FontMetrics>(
    text: Seq<char>,
    font: F,
    max_width: u32,
    policy: Wrap,
    line_start: int,
    cur: int,
    acc: int,
    last_ws: Option<int>,
)
    requires
        0 <= line_start <= cur,
        cur <= text.len(),
        match last_ws {
            Option::Some(w) => line_start <= w < cur,
            Option::None => true,
        },
    ensures
        ({
            let (end, kind) = scan_line(text, font, max_width, policy, line_start, cur, acc, last_ws);
            &&& line_start <= end <= text.len()
            &&& (kind == BreakKind::End ==> end == text.len())
            &&& (kind != BreakKind::End ==> line_start < end)
            &&& ((kind == BreakKind::WrapWhitespace || kind == BreakKind::WrapCharacter)
                ==> end < text.len())
        }),
    decreases text.len() - cur,
{
    if 0 <= cur < text.len() {
        let c = text[cur];
        if c == '\n' {
        } else if policy == Wrap::Whitespace && is_break_ws(c) {
            lemma_scan_line_props(
                text,
                font,
                max_width,
                policy,
                line_start,
                cur + 1,
                acc + font.char_width(c) as int,
                Option::Some(cur),
            );
        } else if acc + font.char_width(c) as int > max_width as int && cur > line_start {
        } else {
            lemma_scan_line_props(
                text,
                font,
                max_width,
                policy,
                line_start,
                cur + 1,
                acc + font.char_width(c) as int,
                if is_break_ws(c) { Option::Some(cur) } else { last_ws },
            );
        }
    }
}

/// The sequence of line descriptors for the suffix of `text` that starts at
/// position `pos`.  Lines are emitted in order until one runs to the end of
/// the text; empty text yields exactly one descriptor spanning the empty
/// range.
pub open spec fn wrap_from<F: FontMetrics>(
    text: Seq<char>,
    font: F,
    max_width: u32,
    policy: Wrap,
    pos: int,
) -> Seq<LineInfo>
    decreases text.len() - pos,
    when 0 <= pos <= text.len()
    via wrap_from_decreases::<F>
{
    let (end, kind) = scan_line(text, font, max_width, policy, pos, pos, 0, Option::None);
    let info = LineInfo { start: pos as usize, end: end as usize, kind };
    if kind == BreakKind::End {
        seq![info]
    } else {
        seq![info] + wrap_from(text, font, max_width, policy, end)
    }
}

#[via_fn]
proof fn wrap_from_decreases<F: FontMetrics>(
    text: Seq<char>,
    font: F,
    max_width: u32,
    policy: Wrap,
    pos: int,
) {
    lemma_scan_line_props(text, font, max_width, policy, pos, pos, 0, Option::None);
}

/// The full line-descriptor sequence for `text`: the mathematical meaning of
/// [`wrap_lines`].  Identical inputs always yield identical descriptor
/// sequences, so re-wrapping the same text is idempotent by construction.
pub open spec fn spec_wrap<F: FontMetrics>(
    text: Seq<char>,
    font: F,
    max_width: u32,
    policy: Wrap,
) -> Seq<LineInfo> {
    wrap_from(text, font, max_width, policy, 0)
}

/// Well-formedness of a descriptor sequence against a text of `text_len`
/// characters: at least one line exists, the ranges tile `[0, text_len)` in
/// order with no gap or overlap, each range is long enough to contain its
/// break, and exactly the last line runs to the end of the text.
pub open spec fn wf_infos(infos: Seq<LineInfo>, text_len: int) -> bool {
    &&& infos.len() >= 1
    &&& infos.len() <= text_len + 1
    &&& infos[0].start == 0
    &&& infos[infos.len() - 1].end == text_len
    &&& infos[infos.len() - 1].kind == BreakKind::End
    &&& (forall|i: int|
        0 <= i < infos.len() ==> (#[trigger] infos[i]).start + break_len(infos[i].kind)
            <= infos[i].end <= text_len)
    &&& (forall|i: int, j: int| #![trigger infos[i], infos[j]]
        0 <= i && j == i + 1 && j < infos.len() ==> infos[i].end == infos[j].start
            && infos[i].kind != BreakKind::End)
}

/// The descriptors produced for the suffix starting at `pos` tile
/// `[pos, text.len())` exactly.
#[verifier::rlimit(100)]
pub proof fn lemma_wrap_from_wf<F: FontMetrics>(
    text: Seq<char>,
    font: F,
    max_width: u32,
    policy: Wrap,
    pos: int,
)
    requires
        text.len() <= usize::MAX,
        0 <= pos <= text.len(),
    ensures
        ({
            let s = wrap_from(text, font, max_width, policy, pos);
            &&& s.len() >= 1
            &&& s.len() <= text.len() - pos + 1
            &&& s[0].start == pos
            &&& s[s.len() - 1].end == text.len()
            &&& s[s.len() - 1].kind == BreakKind::End
            &&& (forall|i: int|
                0 <= i < s.len() ==> (#[trigger] s[i]).start + break_len(s[i].kind)
                    <= s[i].end <= text.len())
            &&& (forall|i: int, j: int| #![trigger s[i], s[j]]
                0 <= i && j == i + 1 && j < s.len() ==> s[i].end == s[j].start
                    && s[i].kind != BreakKind::End)
        }),
    decreases text.len() - pos,
{
    lemma_scan_line_props(text, font, max_width, policy, pos, pos, 0, Option::None);
    let (end, kind) = scan_line(text, font, max_width, policy, pos, pos, 0, Option::None);
    let info = LineInfo { start: pos as usize, end: end as usize, kind };
    let s = wrap_from(text, font, max_width, policy, pos);
    if kind == BreakKind::End {
        assert(s == seq![info]);
        assert(s[0] == info);
    } else {
        lemma_wrap_from_wf(text, font, max_width, policy, end);
        let rest = wrap_from(text, font, max_width, policy, end);
        assert(s == seq![info] + rest);
        assert(s.len() == 1 + rest.len());
        assert(s[0] == info);
        assert forall|i: int| 1 <= i < s.len() implies s[i] == rest[i - 1] by {
            assert(s[i] == (seq![info] + rest)[i]);
        }
        assert(s[s.len() - 1] == rest[rest.len() - 1]);
        assert(s[s.len() - 1].end == text.len());
        assert(s[s.len() - 1].kind == BreakKind::End);
        assert forall|i: int|
            0 <= i < s.len() implies (#[trigger] s[i]).start + break_len(s[i].kind)
                <= s[i].end <= text.len() by {
            if i >= 1 {
                assert(s[i] == rest[i - 1]);
            }
        }
        assert forall|i: int, j: int| #![trigger s[i], s[j]]
            0 <= i && j == i + 1 && j < s.len() implies s[i].end == s[j].start
                && s[i].kind != BreakKind::End by {
            if i == 0 {
                assert(s[1] == rest[0]);
            } else {
                assert(s[i] == rest[i - 1]);
                assert(s[j] == rest[i]);
            }
        }
    }
}

/// Coverage invariant of the line breaker: for every text, the descriptor
/// ranges, concatenated in order, cover the whole text exactly once with no
/// gap or overlap.
#[verifier::rlimit(100)]
pub proof fn lemma_wrap_coverage<F: FontMetrics>(
    text: Seq<char>,
    font: F,
    max_width: u32,
    policy: Wrap,
)
    requires
        text.len() <= usize::MAX,
    ensures
        wf_infos(spec_wrap(text, font, max_width, policy), text.len() as int),
{
    lemma_wrap_from_wf(text, font, max_width, policy, 0);
    let s = spec_wrap(text, font, max_width, policy);
    let w = wrap_from(text, font, max_width, policy, 0);
    assert(s == w);
    assert forall|i: int|
        0 <= i < s.len() implies (#[trigger] s[i]).start + break_len(s[i].kind)
            <= s[i].end <= text.len() by {
        assert(w[i].start + break_len(w[i].kind) <= w[i].end <= text.len());
    }
    assert forall|i: int, j: int| #![trigger s[i], s[j]]
        0 <= i && j == i + 1 && j < s.len() implies s[i].end == s[j].start
            && s[i].kind != BreakKind::End by {
        assert(w[i].end == w[j].start && w[i].kind != BreakKind::End);
    }
}

/// The concatenation of the text slices of the descriptors from line `i`
/// on, in order.
pub open spec fn spec_lines_concat(infos: Seq<LineInfo>, text: Seq<char>, i: int) -> Seq<char>
    decreases infos.len() - i,
{
    if !(0 <= i < infos.len()) {
        Seq::empty()
    } else {
        text.subrange(infos[i].start as int, infos[i].end as int) + spec_lines_concat(
            infos,
            text,
            i + 1,
        )
    }
}

/// From line `i` on, the concatenated slices are exactly the text from
/// line `i`'s start to the end.
proof fn lemma_lines_concat_from(infos: Seq<LineInfo>, text: Seq<char>, i: int)
    requires
        wf_infos(infos, text.len() as int),
        0 <= i < infos.len(),
    ensures
        spec_lines_concat(infos, text, i) == text.subrange(infos[i].start as int, text.len() as int),
    decreases infos.len() - i,
{
    assert(infos[i].start + break_len(infos[i].kind) <= infos[i].end <= text.len());
    if i == infos.len() - 1 {
        assert(infos[i].end == text.len());
        assert(spec_lines_concat(infos, text, i + 1) == Seq::<char>::empty());
        assert(spec_lines_concat(infos, text, i) == text.subrange(
            infos[i].start as int,
            infos[i].end as int,
        ) + Seq::<char>::empty());
        assert(text.subrange(infos[i].start as int, infos[i].end as int) + Seq::<char>::empty()
            =~= text.subrange(infos[i].start as int, text.len() as int));
    } else {
        assert(infos[i].end == infos[i + 1].start && infos[i].kind != BreakKind::End);
        assert(infos[i + 1].start + break_len(infos[i + 1].kind) <= infos[i + 1].end
            <= text.len());
        lemma_lines_concat_from(infos, text, i + 1);
        let head = text.subrange(infos[i].start as int, infos[i].end as int);
        let tail = text.subrange(infos[i + 1].start as int, text.len() as int);
        let whole = text.subrange(infos[i].start as int, text.len() as int);
        assert(spec_lines_concat(infos, text, i) == head + tail);
        assert((head + tail).len() == whole.len());
        assert forall|j: int| 0 <= j < whole.len() implies (head + tail)[j] == whole[j] by {
            if j < head.len() {
                assert((head + tail)[j] == text[infos[i].start + j]);
            } else {
                assert((head + tail)[j] == tail[j - head.len()]);
                assert(tail[j - head.len()] == text[infos[i + 1].start + (j - head.len())]);
            }
        }
        assert(head + tail =~= whole);
    }
}

/// The other face of the coverage invariant: the text slices of the
/// descriptors, concatenated in order, equal the full text.
pub proof fn lemma_coverage_concat(infos: Seq<LineInfo>, text: Seq<char>)
    requires
        wf_infos(infos, text.len() as int),
    ensures
        spec_lines_concat(infos, text, 0) == text,
{
    lemma_lines_concat_from(infos, text, 0);
    assert(text.subrange(0, text.len() as int) =~= text);
}

/// View of an executable whitespace marker as the spec-level one.
pub open spec fn ws_view(o: Option<usize>) -> Option<int> {
    match o {
        Option::Some(w) => Option::Some(w as int),
        Option::None => Option::None,
    }
}

/// Scan one line starting at `pos`, per [`scan_line`].
fn scan_one_line<F: FontMetrics>(
    text: &Vec<char>,
    font: &F,
    max_width: u32,
    policy: Wrap,
    pos: usize,
) -> (r: (usize, BreakKind))
    requires
        pos <= text@.len(),
        fits(text@.len() as int),
    ensures
        ({
            let (end, kind) = scan_line(text@, *font, max_width, policy, pos as int, pos as int, 0, Option::None);
            r.0 == end && r.1 == kind
        }),
{
    let mut cur: usize = pos;
    let mut acc: u64 = 0;
    let mut last_ws: Option<usize> = None;
    loop
        invariant
            pos <= cur <= text@.len(),
            text@.len() <= MAX_TEXT_LEN,
            acc as int <= (cur - pos) * (u16::MAX as int),
            match last_ws {
                Option::Some(w) => pos <= w < cur,
                Option::None => true,
            },
            scan_line(text@, *font, max_width, policy, pos as int, pos as int, 0, Option::None)
                == scan_line(text@, *font, max_width, policy, pos as int, cur as int, acc as int, ws_view(last_ws)),
        decreases text@.len() - cur,
    {
        if cur == text.len() {
            return (cur, BreakKind::End);
        }
        let c = text[cur];
        if c == '\n' {
            return (cur + 1, BreakKind::Newline);
        }
        let w = font.measure(c);
        let is_ws_policy = matches!(policy, Wrap::Whitespace) && (c == ' ' || c == '\t');
        if is_ws_policy {
            acc = acc + w as u64;
            last_ws = Some(cur);
            cur = cur + 1;
        } else {
            if acc + w as u64 > max_width as u64 && cur > pos {
                match policy {
                    Wrap::Whitespace => match last_ws {
                        Some(wpos) => {
                            return (wpos + 1, BreakKind::WrapWhitespace);
                        },
                        None => {
                            return (cur, BreakKind::WrapCharacter);
                        },
                    },
                    Wrap::Character => {
                        return (cur, BreakKind::WrapCharacter);
                    },
                }
            }
            acc = acc + w as u64;
            if c == ' ' || c == '\t' {
                last_ws = Some(cur);
            }
            cur = cur + 1;
        }
    }
}

/// Wrap `text` into visual lines.  The result is pinned to [`spec_wrap`],
/// so wrapping the same text with the same font, width and policy twice
/// yields identical descriptor sequences, and the ranges tile the text
/// exactly.
pub fn wrap_lines<F: FontMetrics>(
    text: &Vec<char>,
    font: &F,
    max_width: u32,
    policy: Wrap,
) -> (infos: Vec<LineInfo>)
    requires
        fits(text@.len() as int),
    ensures
        infos@ == spec_wrap(text@, *font, max_width, policy),
        wf_infos(infos@, text@.len() as int),
{
    let mut infos: Vec<LineInfo> = Vec::new();
    let mut pos: usize = 0;
    proof {
        assert(infos@ + wrap_from(text@, *font, max_width, policy, 0) =~= wrap_from(
            text@,
            *font,
            max_width,
            policy,
            0,
        ));
    }
    loop
        invariant
            pos <= text@.len(),
            text@.len() <= MAX_TEXT_LEN,
            spec_wrap(text@, *font, max_width, policy) == infos@ + wrap_from(
                text@,
                *font,
                max_width,
                policy,
                pos as int,
            ),
        decreases text@.len() - pos,
    {
        let (end, kind) = scan_one_line(text, font, max_width, policy, pos);
        proof {
            lemma_scan_line_props(text@, *font, max_width, policy, pos as int, pos as int, 0, Option::None);
        }
        let info = LineInfo { start: pos, end, kind };
        let is_end = matches!(kind, BreakKind::End);
        infos.push(info);
        proof {
            let rest = wrap_from(text@, *font, max_width, policy, pos as int);
            if is_end {
                assert(rest =~= seq![info]);
                assert(spec_wrap(text@, *font, max_width, policy) =~= infos@);
                lemma_wrap_coverage(text@, *font, max_width, policy);
            } else {
                assert(rest =~= seq![info] + wrap_from(text@, *font, max_width, policy, end as int));
                assert(spec_wrap(text@, *font, max_width, policy) =~= infos@ + wrap_from(
                    text@,
                    *font,
                    max_width,
                    policy,
                    end as int,
                ));
            }
        }
        if is_end {
            return infos;
        }
        pos = end;
    }
}

} // verus!

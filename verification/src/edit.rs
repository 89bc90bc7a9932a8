//! The edit engine: the single place where the text mutates.  An edit
//! splices characters into the buffer, recomputes the line descriptors, and
//! either commits all three of (text, cursor, descriptors) or — when the
//! height restriction rejects the result — commits nothing.

use vstd::prelude::*;
use crate::cursor::{
    Cursor, Index, cursor_range, index_before, lines_sized, spec_cursor_range, spec_index_after,
    spec_index_before,
};
use crate::font::FontMetrics;
use crate::layout::{TextLayout, spec_block_height};
use crate::line::{LineInfo, MAX_TEXT_LEN, Wrap, fits, spec_wrap, wf_infos, wrap_lines};

verus! {

/// The text with characters `[start, end)` replaced by `s`.
pub open spec fn spec_splice(text: Seq<char>, start: int, end: int, s: Seq<char>) -> Seq<char>
    recommends
        0 <= start <= end <= text.len(),
{
    text.subrange(0, start) + s + text.subrange(end, text.len() as int)
}

/// Whether a block of `n_lines` lines passes the height restriction: when
/// the restriction is on, the wrapped block must be strictly shorter than
/// the bounding rectangle.
pub open spec fn spec_height_ok(
    n_lines: int,
    font_size: u16,
    line_spacing: u16,
    rect_h: u32,
    restrict: bool,
) -> bool {
    !restrict || spec_block_height(n_lines, font_size, line_spacing) < rect_h
}

/// The index denoting count `n`, or the buffer origin when `n` is out of
/// range (unreachable for the counts the edit engine produces).
pub open spec fn spec_index_or_origin(infos: Seq<LineInfo>, n: int) -> Index {
    match spec_index_before(infos, n) {
        Option::Some(idx) => idx,
        Option::None => Index { line: 0, char: 0 },
    }
}

/// The meaning of [`insert_text`]: replace the cursor's normalized range
/// with `s`, re-wrap, and either commit the new (text, cursor, descriptors)
/// triple or reject it wholesale when the height restriction (or the
/// supported text size) is exceeded.
pub open spec fn spec_insert<F: FontMetrics>(
    text: Seq<char>,
    infos: Seq<LineInfo>,
    cursor: Cursor,
    s: Seq<char>,
    font: F,
    lp: TextLayout,
    policy: Wrap,
    restrict: bool,
) -> Option<(Seq<char>, Cursor, Seq<LineInfo>)> {
    let (a, b) = spec_cursor_range(infos, cursor);
    let nt = spec_splice(text, a as int, b as int, s);
    let ni = spec_wrap(nt, font, lp.rect.w, policy);
    if nt.len() <= MAX_TEXT_LEN && spec_height_ok(
        ni.len() as int,
        lp.font_size,
        lp.line_spacing,
        lp.rect.h,
        restrict,
    ) {
        Option::Some((nt, Cursor::Idx(spec_index_or_origin(ni, a + s.len())), ni))
    } else {
        Option::None
    }
}

/// The meaning of [`delete_one`]: a caret removes the character just before
/// it (a no-op at the buffer start or for a stale caret); a selection
/// removes its normalized range and collapses to a caret.  Deletion never
/// grows the block, so it is not height-checked.
pub open spec fn spec_delete<F: FontMetrics>(
    text: Seq<char>,
    infos: Seq<LineInfo>,
    cursor: Cursor,
    font: F,
    lp: TextLayout,
    policy: Wrap,
) -> Option<(Seq<char>, Cursor, Seq<LineInfo>)> {
    match cursor {
        Cursor::Idx(idx) => match spec_index_after(infos, idx) {
            Option::Some(i) => if i > 0 {
                let nt = spec_splice(text, i - 1, i as int, Seq::empty());
                let ni = spec_wrap(nt, font, lp.rect.w, policy);
                Option::Some((nt, Cursor::Idx(spec_index_or_origin(ni, i - 1)), ni))
            } else {
                Option::None
            },
            Option::None => Option::None,
        },
        Cursor::Selection { start, end } => {
            let (a, b) = spec_cursor_range(infos, cursor);
            let nt = spec_splice(text, a as int, b as int, Seq::empty());
            let ni = spec_wrap(nt, font, lp.rect.w, policy);
            Option::Some((nt, Cursor::Idx(spec_index_or_origin(ni, a as int)), ni))
        },
    }
}

/// Under well-formed descriptors, a cursor's normalized range lies within
/// the text.
pub proof fn lemma_cursor_range_bounds(infos: Seq<LineInfo>, text_len: int, cursor: Cursor)
    requires
        wf_infos(infos, text_len),
    ensures
        ({
            let (a, b) = spec_cursor_range(infos, cursor);
            0 <= a <= b <= text_len
        }),
{
    assert forall|idx: Index| true implies crate::cursor::spec_count_or_zero(infos, idx)
        <= text_len by {
        if crate::cursor::valid_index(infos, idx) {
            assert(infos[idx.line as int].start + crate::line::break_len(
                infos[idx.line as int].kind,
            ) <= infos[idx.line as int].end <= text_len);
        }
    }
}

/// An accepted insertion changes the total character count by exactly the
/// count of the inserted string minus the removed range's length.
pub proof fn lemma_insert_length<F: FontMetrics>(
    text: Seq<char>,
    infos: Seq<LineInfo>,
    cursor: Cursor,
    s: Seq<char>,
    font: F,
    lp: TextLayout,
    policy: Wrap,
    restrict: bool,
)
    requires
        wf_infos(infos, text.len() as int),
        spec_insert(text, infos, cursor, s, font, lp, policy, restrict) is Some,
    ensures
        ({
            let (a, b) = spec_cursor_range(infos, cursor);
            let nt = spec_insert(text, infos, cursor, s, font, lp, policy, restrict)->Some_0.0;
            nt.len() == text.len() - (b - a) + s.len()
        }),
{
    lemma_cursor_range_bounds(infos, text.len() as int, cursor);
}

/// An accepted edit hands back a caret that is valid against the edit's
/// own new descriptors: the edit engine never produces a stale cursor.
pub proof fn lemma_edit_cursor_valid<F: FontMetrics>(
    text: Seq<char>,
    infos: Seq<LineInfo>,
    cursor: Cursor,
    s: Seq<char>,
    font: F,
    lp: TextLayout,
    policy: Wrap,
    restrict: bool,
)
    requires
        wf_infos(infos, text.len() as int),
        fits(text.len() as int),
    ensures
        (match spec_insert(text, infos, cursor, s, font, lp, policy, restrict) {
            Option::Some(t) => crate::cursor::valid_cursor(t.2, t.1),
            Option::None => true,
        }),
        (match spec_delete(text, infos, cursor, font, lp, policy) {
            Option::Some(t) => crate::cursor::valid_cursor(t.2, t.1),
            Option::None => true,
        }),
{
    lemma_cursor_range_bounds(infos, text.len() as int, cursor);
    let (a, b) = spec_cursor_range(infos, cursor);
    match spec_insert(text, infos, cursor, s, font, lp, policy, restrict) {
        Option::Some(t) => {
            let nt = spec_splice(text, a as int, b as int, s);
            let ni = spec_wrap(nt, font, lp.rect.w, policy);
            crate::line::lemma_wrap_coverage(nt, font, lp.rect.w, policy);
            crate::cursor::lemma_index_round_trip(ni, nt.len() as int, a + s.len());
        },
        Option::None => {},
    }
    match cursor {
        Cursor::Idx(idx) => match spec_index_after(infos, idx) {
            Option::Some(i) => {
                if i > 0 {
                    assert(infos[idx.line as int].start + crate::line::break_len(
                        infos[idx.line as int].kind,
                    ) <= infos[idx.line as int].end <= text.len());
                    let nt = spec_splice(text, i - 1, i as int, Seq::empty());
                    let ni = spec_wrap(nt, font, lp.rect.w, policy);
                    crate::line::lemma_wrap_coverage(nt, font, lp.rect.w, policy);
                    crate::cursor::lemma_index_round_trip(ni, nt.len() as int, i - 1);
                }
            },
            Option::None => {},
        },
        Cursor::Selection { start: _, end: _ } => {
            let nt = spec_splice(text, a as int, b as int, Seq::empty());
            let ni = spec_wrap(nt, font, lp.rect.w, policy);
            crate::line::lemma_wrap_coverage(nt, font, lp.rect.w, policy);
            crate::cursor::lemma_index_round_trip(ni, nt.len() as int, a as int);
        },
    }
}

/// Replace characters `[a, b)` of the text by `s`.
fn splice_exec(text: &Vec<char>, a: usize, b: usize, s: &Vec<char>) -> (nt: Vec<char>)
    requires
        a <= b <= text@.len(),
    ensures
        nt@ == spec_splice(text@, a as int, b as int, s@),
{
    let mut nt: Vec<char> = Vec::new();
    let mut i: usize = 0;
    while i < a
        invariant
            i <= a <= text@.len(),
            nt@ == text@.subrange(0, i as int),
        decreases a - i,
    {
        nt.push(text[i]);
        proof {
            assert(nt@ =~= text@.subrange(0, i + 1));
        }
        i = i + 1;
    }
    let mut k: usize = 0;
    while k < s.len()
        invariant
            k <= s@.len(),
            a <= text@.len(),
            nt@ == text@.subrange(0, a as int) + s@.subrange(0, k as int),
        decreases s@.len() - k,
    {
        nt.push(s[k]);
        proof {
            assert(nt@ =~= text@.subrange(0, a as int) + s@.subrange(0, k + 1));
        }
        k = k + 1;
    }
    proof {
        assert(s@.subrange(0, s@.len() as int) =~= s@);
    }
    let mut m: usize = b;
    while m < text.len()
        invariant
            b <= m <= text@.len(),
            a <= b,
            nt@ == text@.subrange(0, a as int) + s@ + text@.subrange(b as int, m as int),
        decreases text@.len() - m,
    {
        nt.push(text[m]);
        proof {
            assert(nt@ =~= text@.subrange(0, a as int) + s@ + text@.subrange(b as int, m + 1));
        }
        m = m + 1;
    }
    nt
}

/// Insert `string` at the cursor (replacing a selection's range), per
/// [`spec_insert`].  Returns the new text, the new caret, and the new
/// descriptors, or `None` when the edit is rejected; on rejection nothing
/// is mutated, since nothing is returned.
pub fn insert_text<F: FontMetrics>(
    string: &Vec<char>,
    cursor: &Cursor,
    text: &Vec<char>,
    infos: &Vec<LineInfo>,
    font: &F,
    lp: &TextLayout,
    policy: Wrap,
    restrict: bool,
) -> (r: Option<(Vec<char>, Cursor, Vec<LineInfo>)>)
    requires
        wf_infos(infos@, text@.len() as int),
        fits(text@.len() as int),
    ensures
        ({
            let sr = spec_insert(text@, infos@, *cursor, string@, *font, *lp, policy, restrict);
            match r {
                Option::Some(t) => {
                    &&& sr is Some
                    &&& t.0@ == sr->Some_0.0
                    &&& t.1 == sr->Some_0.1
                    &&& t.2@ == sr->Some_0.2
                },
                Option::None => sr is None,
            }
        }),
{
    proof {
        lemma_cursor_range_bounds(infos@, text@.len() as int, *cursor);
    }
    let (a, b) = cursor_range(infos, cursor);
    let base = text.len() - (b - a);
    let ok_len = string.len() <= MAX_TEXT_LEN && base as u64 + string.len() as u64
        <= MAX_TEXT_LEN as u64;
    proof {
        let snt = spec_splice(text@, a as int, b as int, string@);
        assert(snt.len() == base + string@.len());
    }
    if ok_len {
        let nt = splice_exec(text, a, b, string);
        let ni = wrap_lines(&nt, font, lp.rect.w, policy);
        let n_lines = ni.len();
        let fs_sp: u64 = lp.font_size as u64 + lp.line_spacing as u64;
        proof {
            vstd::arithmetic::mul::lemma_mul_upper_bound(
                n_lines as int,
                0x1_0000_0001,
                fs_sp as int,
                0x1fffe,
            );
            vstd::arithmetic::mul::lemma_mul_inequality(1, n_lines as int, fs_sp as int);
        }
        let bh: u64 = n_lines as u64 * fs_sp - lp.line_spacing as u64;
        if !restrict || bh < lp.rect.h as u64 {
            let ncount = a + string.len();
            proof {
                assert(lines_sized(ni@));
            }
            let nc = match index_before(&ni, ncount) {
                Some(idx) => idx,
                None => Index { line: 0, char: 0 },
            };
            Some((nt, Cursor::Idx(nc), ni))
        } else {
            None
        }
    } else {
        None
    }
}

/// Delete at the cursor, per [`spec_delete`]: the character before a caret,
/// or a selection's normalized range.  Returns `None` (a no-op) at the
/// buffer start or for a stale caret.
pub fn delete_one<F: FontMetrics>(
    cursor: &Cursor,
    text: &Vec<char>,
    infos: &Vec<LineInfo>,
    font: &F,
    lp: &TextLayout,
    policy: Wrap,
) -> (r: Option<(Vec<char>, Cursor, Vec<LineInfo>)>)
    requires
        wf_infos(infos@, text@.len() as int),
        fits(text@.len() as int),
    ensures
        ({
            let sr = spec_delete(text@, infos@, *cursor, *font, *lp, policy);
            match r {
                Option::Some(t) => {
                    &&& sr is Some
                    &&& t.0@ == sr->Some_0.0
                    &&& t.1 == sr->Some_0.1
                    &&& t.2@ == sr->Some_0.2
                },
                Option::None => sr is None,
            }
        }),
{
    let empty: Vec<char> = Vec::new();
    match *cursor {
        Cursor::Idx(idx) => {
            match crate::cursor::index_after(infos, idx) {
                Some(i) => {
                    if i > 0 {
                        proof {
                            assert(infos@[idx.line as int].start + crate::line::break_len(
                                infos@[idx.line as int].kind,
                            ) <= infos@[idx.line as int].end <= text@.len());
                        }
                        let nt = splice_exec(text, i - 1, i, &empty);
                        let ni = wrap_lines(&nt, font, lp.rect.w, policy);
                        proof {
                            assert(lines_sized(ni@));
                        }
                        let nc = match index_before(&ni, i - 1) {
                            Some(nidx) => nidx,
                            None => Index { line: 0, char: 0 },
                        };
                        Some((nt, Cursor::Idx(nc), ni))
                    } else {
                        None
                    }
                },
                None => None,
            }
        },
        Cursor::Selection { start: _, end: _ } => {
            proof {
                lemma_cursor_range_bounds(infos@, text@.len() as int, *cursor);
            }
            let (a, b) = cursor_range(infos, cursor);
            let nt = splice_exec(text, a, b, &empty);
            let ni = wrap_lines(&nt, font, lp.rect.w, policy);
            proof {
                assert(lines_sized(ni@));
            }
            let nc = match index_before(&ni, a) {
                Some(nidx) => nidx,
                None => Index { line: 0, char: 0 },
            };
            Some((nt, Cursor::Idx(nc), ni))
        },
    }
}

} // verus!

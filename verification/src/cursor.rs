//! The cursor/selection model: `(line, char)` indices over a line-descriptor
//! sequence, conversions between indices and absolute character counts, and
//! saturating cursor movement.

use vstd::prelude::*;
use crate::line::{BreakKind, LineInfo, break_len, line_char_len, wf_infos};

verus! {

/// A cursor position: the `char`-th cursor slot on visual line `line`
/// (0-based; `char` may equal the line's character count, denoting "end of
/// line").  An `Index` is only meaningful against the specific descriptor
/// sequence it was computed with.
#[derive(Clone, Copy, Debug, PartialEq, Eq, Structural)]
pub struct Index {
    /// The visual line the cursor sits on.
    pub line: usize,
    /// The cursor slot on that line, in `[0, line length]`.
    pub char: usize,
}

/// The position of the cursor over the text: either a caret at one index, or
/// a directed selection between two indices.
#[derive(Clone, Copy, Debug, PartialEq, Eq, Structural)]
pub enum Cursor {
    /// A caret at the given index.
    Idx(Index),
    /// A selection between two indices.
    Selection {
        /// The fixed anchor, set where the selection started.
        start: Index,
        /// The live boundary; may lie before or after `start` in text order.
        end: Index,
    },
}

/// Every line's range is long enough to contain its break: the one clause of
/// [`wf_infos`] that the index arithmetic below needs.
pub open spec fn lines_sized(infos: Seq<LineInfo>) -> bool {
    forall|i: int|
        0 <= i < infos.len() ==> (#[trigger] infos[i]).start + break_len(infos[i].kind)
            <= infos[i].end
}

/// An index is valid against a descriptor sequence when its line exists and
/// its `char` slot is within that line's cursor slots.
pub open spec fn valid_index(infos: Seq<LineInfo>, idx: Index) -> bool {
    idx.line < infos.len() && idx.char <= line_char_len(infos[idx.line as int])
}

/// The absolute character count of the text position `idx` denotes: the
/// number of characters that precede the cursor.  `None` when `idx` is not
/// valid against `infos`.
pub open spec fn spec_index_after(infos: Seq<LineInfo>, idx: Index) -> Option<usize> {
    if valid_index(infos, idx) {
        Option::Some((infos[idx.line as int].start + idx.char) as usize)
    } else {
        Option::None
    }
}

/// First-match scan for the line containing absolute count `n`, from line
/// `i` on: the earliest line on which `n` is a cursor slot.
pub open spec fn spec_index_before_from(infos: Seq<LineInfo>, n: int, i: int) -> Option<Index>
    decreases infos.len() - i,
{
    if !(0 <= i < infos.len()) {
        Option::None
    } else if infos[i].start <= n <= infos[i].start + line_char_len(infos[i]) {
        Option::Some(Index { line: i as usize, char: (n - infos[i].start) as usize })
    } else {
        spec_index_before_from(infos, n, i + 1)
    }
}

/// The index denoting absolute character count `n`: the earliest cursor slot
/// with exactly `n` characters before it.  `None` when `n` exceeds the text.
pub open spec fn spec_index_before(infos: Seq<LineInfo>, n: int) -> Option<Index> {
    spec_index_before_from(infos, n, 0)
}

/// How many characters of the line's range the break consumed.
pub fn break_chars(kind: BreakKind) -> (b: usize)
    ensures
        b as int == break_len(kind),
{
    match kind {
        BreakKind::End => 0,
        BreakKind::Newline => 1,
        BreakKind::WrapWhitespace => 1,
        BreakKind::WrapCharacter => 0,
    }
}

/// The number of the line's characters that carry cursor slots.
pub fn line_len(info: &LineInfo) -> (n: usize)
    requires
        info.start + break_len(info.kind) <= info.end,
    ensures
        n as int == line_char_len(*info),
{
    info.end - info.start - break_chars(info.kind)
}

/// Convert an index to the absolute character count it denotes; `None` when
/// the index is not valid against `infos`.
pub fn index_after(infos: &Vec<LineInfo>, idx: Index) -> (r: Option<usize>)
    requires
        lines_sized(infos@),
    ensures
        r == spec_index_after(infos@, idx),
{
    if idx.line < infos.len() {
        let info = infos[idx.line];
        let llen = line_len(&info);
        if idx.char <= llen {
            Some(info.start + idx.char)
        } else {
            None
        }
    } else {
        None
    }
}

/// Convert an absolute character count back to an index, choosing the
/// earliest line on which the count is a cursor slot; `None` when the count
/// exceeds the text.
pub fn index_before(infos: &Vec<LineInfo>, n: usize) -> (r: Option<Index>)
    requires
        lines_sized(infos@),
    ensures
        r == spec_index_before(infos@, n as int),
{
    let mut i: usize = 0;
    loop
        invariant
            i <= infos@.len(),
            lines_sized(infos@),
            spec_index_before(infos@, n as int) == spec_index_before_from(infos@, n as int, i as int),
        decreases infos@.len() - i,
    {
        if i == infos.len() {
            return None;
        }
        let info = infos[i];
        let llen = line_len(&info);
        if info.start <= n && n <= info.start + llen {
            return Some(Index { line: i, char: n - info.start });
        }
        i = i + 1;
    }
}

/// Round-trip law of the index conversions: every absolute character count
/// within the text is denoted by exactly the index that [`spec_index_before`]
/// chooses, and converting that index back yields the same count.
pub proof fn lemma_index_round_trip(infos: Seq<LineInfo>, text_len: int, n: int)
    requires
        wf_infos(infos, text_len),
        infos.len() <= usize::MAX,
        0 <= n <= text_len,
    ensures
        ({
            let r = spec_index_before(infos, n);
            &&& r is Some
            &&& valid_index(infos, r->Some_0)
            &&& spec_index_after(infos, r->Some_0) == Option::<usize>::Some(n as usize)
        }),
{
    assert(text_len <= usize::MAX) by {
        assert(infos[infos.len() - 1].end == text_len);
    }
    lemma_index_before_from_some(infos, text_len, n, 0);
}

/// Helper induction for [`lemma_index_round_trip`]: once the scan reaches a
/// line that starts at or before `n`, it finds a line containing `n`.
proof fn lemma_index_before_from_some(infos: Seq<LineInfo>, text_len: int, n: int, i: int)
    requires
        wf_infos(infos, text_len),
        infos.len() <= usize::MAX,
        0 <= i < infos.len(),
        infos[i].start <= n <= text_len,
        n <= usize::MAX,
    ensures
        ({
            let r = spec_index_before_from(infos, n, i);
            &&& r is Some
            &&& valid_index(infos, r->Some_0)
            &&& spec_index_after(infos, r->Some_0) == Option::<usize>::Some(n as usize)
        }),
    decreases infos.len() - i,
{
    if infos[i].start <= n <= infos[i].start + line_char_len(infos[i]) {
        let idx = Index { line: i as usize, char: (n - infos[i].start) as usize };
        assert(valid_index(infos, idx));
    } else {
        assert(n > infos[i].start + line_char_len(infos[i]));
        if i == infos.len() - 1 {
            assert(infos[i].kind == BreakKind::End);
            assert(line_char_len(infos[i]) == infos[i].end - infos[i].start);
            assert(infos[i].start + line_char_len(infos[i]) == text_len);
            assert(false);
        } else {
            assert(infos[i].end == infos[i + 1].start);
            assert(infos[i + 1].start <= n) by {
                assert(infos[i].start + line_char_len(infos[i]) + break_len(infos[i].kind)
                    == infos[i].end);
                assert(break_len(infos[i].kind) <= 1);
            }
            lemma_index_before_from_some(infos, text_len, n, i + 1);
        }
    }
}

/// Move one cursor slot backwards, wrapping to the end of the previous line;
/// saturates at the very start of the buffer.  A stale index whose previous
/// line does not exist is returned unchanged.
pub open spec fn spec_previous(infos: Seq<LineInfo>, idx: Index) -> Index {
    if idx.char > 0 {
        Index { line: idx.line, char: (idx.char - 1) as usize }
    } else if idx.line > 0 && idx.line - 1 < infos.len() {
        Index { line: (idx.line - 1) as usize, char: line_char_len(infos[idx.line - 1]) as usize }
    } else {
        idx
    }
}

/// Move one cursor slot forwards, wrapping to the start of the next line;
/// saturates at the very end of the buffer.  A stale index whose line does
/// not exist is returned unchanged.
pub open spec fn spec_next(infos: Seq<LineInfo>, idx: Index) -> Index {
    if idx.line >= infos.len() {
        idx
    } else if idx.char < line_char_len(infos[idx.line as int]) {
        Index { line: idx.line, char: (idx.char + 1) as usize }
    } else if idx.line + 1 < infos.len() {
        Index { line: (idx.line + 1) as usize, char: 0 }
    } else {
        idx
    }
}

/// The last cursor slot of the buffer: the end of the last line.
pub open spec fn spec_last_index(infos: Seq<LineInfo>) -> Index {
    Index {
        line: (infos.len() - 1) as usize,
        char: line_char_len(infos[infos.len() - 1]) as usize,
    }
}

/// Move the cursor to the previous slot (saturating at the buffer start).
pub fn previous(infos: &Vec<LineInfo>, idx: Index) -> (r: Index)
    requires
        lines_sized(infos@),
    ensures
        r == spec_previous(infos@, idx),
{
    if idx.char > 0 {
        Index { line: idx.line, char: idx.char - 1 }
    } else if idx.line > 0 && idx.line - 1 < infos.len() {
        let info = infos[idx.line - 1];
        Index { line: idx.line - 1, char: line_len(&info) }
    } else {
        idx
    }
}

/// Move the cursor to the next slot (saturating at the buffer end).
pub fn next(infos: &Vec<LineInfo>, idx: Index) -> (r: Index)
    requires
        lines_sized(infos@),
    ensures
        r == spec_next(infos@, idx),
{
    let nlines = infos.len();
    if idx.line >= nlines {
        return idx;
    }
    let info = infos[idx.line];
    let llen = line_len(&info);
    if idx.char < llen {
        Index { line: idx.line, char: idx.char + 1 }
    } else if idx.line + 1 < nlines {
        Index { line: idx.line + 1, char: 0 }
    } else {
        idx
    }
}

/// Boundary saturation of cursor movement: `previous` at the first slot and
/// `next` at the last slot return their argument unchanged.
pub proof fn lemma_boundary_saturation(infos: Seq<LineInfo>, text_len: int)
    requires
        wf_infos(infos, text_len),
        infos.len() <= usize::MAX,
    ensures
        (spec_previous(infos, Index { line: 0, char: 0 }) == Index { line: 0, char: 0 }),
        (spec_next(infos, spec_last_index(infos)) == spec_last_index(infos)),
{
    assert(infos[infos.len() - 1].start + break_len(infos[infos.len() - 1].kind)
        <= infos[infos.len() - 1].end);
}

/// A cursor is valid against a descriptor sequence when each of its
/// indices is.
pub open spec fn valid_cursor(infos: Seq<LineInfo>, cursor: Cursor) -> bool {
    match cursor {
        Cursor::Idx(idx) => valid_index(infos, idx),
        Cursor::Selection { start, end } => valid_index(infos, start) && valid_index(infos, end),
    }
}

/// Saturating movement keeps a valid index valid.
pub proof fn lemma_moves_preserve_validity(infos: Seq<LineInfo>, idx: Index)
    requires
        lines_sized(infos),
        valid_index(infos, idx),
    ensures
        valid_index(infos, spec_previous(infos, idx)),
        valid_index(infos, spec_next(infos, idx)),
{
    if idx.char == 0 && idx.line > 0 {
        assert(infos[idx.line - 1].start + break_len(infos[idx.line - 1].kind)
            <= infos[idx.line - 1].end);
    }
    if idx.line + 1 < infos.len() {
        assert(infos[idx.line + 1].start + break_len(infos[idx.line + 1].kind)
            <= infos[idx.line + 1].end);
    }
}

/// Selecting the whole buffer yields a valid selection.
pub proof fn lemma_select_all_valid(infos: Seq<LineInfo>, text_len: int)
    requires
        wf_infos(infos, text_len),
        infos.len() <= usize::MAX,
        text_len <= usize::MAX,
    ensures
        valid_cursor(infos, spec_select_all(infos, text_len as usize)),
{
    assert(infos[0].start + break_len(infos[0].kind) <= infos[0].end);
    lemma_index_round_trip(infos, text_len, text_len);
}

/// Lexicographic order on indices; against one current descriptor sequence
/// it coincides with text order on valid indices.
pub open spec fn lex_le(a: Index, b: Index) -> bool {
    a.line < b.line || (a.line == b.line && a.char <= b.char)
}

/// The earlier of two indices in lexicographic order.
pub open spec fn spec_min_index(a: Index, b: Index) -> Index {
    if lex_le(a, b) {
        a
    } else {
        b
    }
}

/// The later of two indices in lexicographic order.
pub open spec fn spec_max_index(a: Index, b: Index) -> Index {
    if lex_le(a, b) {
        b
    } else {
        a
    }
}

/// The earlier of two indices.
pub fn min_index(a: Index, b: Index) -> (r: Index)
    ensures
        r == spec_min_index(a, b),
{
    if a.line < b.line || (a.line == b.line && a.char <= b.char) {
        a
    } else {
        b
    }
}

/// The later of two indices.
pub fn max_index(a: Index, b: Index) -> (r: Index)
    ensures
        r == spec_max_index(a, b),
{
    if a.line < b.line || (a.line == b.line && a.char <= b.char) {
        b
    } else {
        a
    }
}

/// The absolute character count an index denotes, clamped to the buffer
/// start when the index is stale or out of range.
pub open spec fn spec_count_or_zero(infos: Seq<LineInfo>, idx: Index) -> usize {
    match spec_index_after(infos, idx) {
        Option::Some(n) => n,
        Option::None => 0,
    }
}

/// The normalized absolute character range a cursor covers: a caret covers
/// the empty range at its own count; a selection covers the range between
/// its two boundaries, in text order.  Out-of-range indices clamp to the
/// buffer start.
pub open spec fn spec_cursor_range(infos: Seq<LineInfo>, cursor: Cursor) -> (usize, usize) {
    match cursor {
        Cursor::Idx(idx) => {
            let a = spec_count_or_zero(infos, idx);
            (a, a)
        },
        Cursor::Selection { start, end } => {
            let a = spec_count_or_zero(infos, start);
            let b = spec_count_or_zero(infos, end);
            if a <= b {
                (a, b)
            } else {
                (b, a)
            }
        },
    }
}

/// Normalize a cursor to the absolute character range it covers.
pub fn cursor_range(infos: &Vec<LineInfo>, cursor: &Cursor) -> (r: (usize, usize))
    requires
        lines_sized(infos@),
    ensures
        r == spec_cursor_range(infos@, *cursor),
        r.0 <= r.1,
{
    match *cursor {
        Cursor::Idx(idx) => {
            let a = match index_after(infos, idx) {
                Some(n) => n,
                None => 0,
            };
            (a, a)
        },
        Cursor::Selection { start, end } => {
            let a = match index_after(infos, start) {
                Some(n) => n,
                None => 0,
            };
            let b = match index_after(infos, end) {
                Some(n) => n,
                None => 0,
            };
            if a <= b {
                (a, b)
            } else {
                (b, a)
            }
        },
    }
}

/// Select the whole buffer: anchor at the first slot, live end at the last
/// reachable slot (the slot denoting `total_chars`).
pub open spec fn spec_select_all(infos: Seq<LineInfo>, total_chars: usize) -> Cursor {
    Cursor::Selection {
        start: Index { line: 0, char: 0 },
        end: match spec_index_before(infos, total_chars as int) {
            Option::Some(idx) => idx,
            Option::None => Index { line: 0, char: 0 },
        },
    }
}

/// Select the whole buffer.
pub fn select_all(infos: &Vec<LineInfo>, total_chars: usize) -> (r: Cursor)
    requires
        lines_sized(infos@),
    ensures
        r == spec_select_all(infos@, total_chars),
{
    let end = match index_before(infos, total_chars) {
        Some(idx) => idx,
        None => Index { line: 0, char: 0 },
    };
    Cursor::Selection { start: Index { line: 0, char: 0 }, end }
}

} // verus!

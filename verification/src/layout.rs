//! The index/coordinate mapper: given line descriptors, font metrics,
//! alignment and a bounding rectangle, computes where each cursor slot is
//! drawn, and answers nearest-index queries for pointer positions.
//!
//! Coordinates are in integer layout units, `x` increasing rightwards and
//! `y` increasing downwards; `Align::Start` means left (respectively top).

use vstd::prelude::*;
use vstd::arithmetic::mul::{lemma_mul_inequality, lemma_mul_upper_bound};
use crate::cursor::{Index, line_len, valid_index};
use crate::font::FontMetrics;
use crate::line::{LineInfo, MAX_TEXT_LEN, break_len, fits, line_char_len, wf_infos};

verus! {

/// Alignment of an extent within a containing span.
#[derive(Clone, Copy, Debug, PartialEq, Eq, Structural)]
pub enum Align {
    /// Align to the left (horizontally) or top (vertically).
    Start,
    /// Center within the span.
    Middle,
    /// Align to the right (horizontally) or bottom (vertically).
    End,
}

/// The bounding rectangle the text block is laid out in.
#[derive(Clone, Copy, Debug, PartialEq, Eq, Structural)]
pub struct Rect {
    /// Leftmost x coordinate.
    pub left: i32,
    /// Topmost y coordinate.
    pub top: i32,
    /// Width.
    pub w: u32,
    /// Height.
    pub h: u32,
}

/// A pointer position.
#[derive(Clone, Copy, Debug, PartialEq, Eq, Structural)]
pub struct Point {
    /// x coordinate.
    pub x: i32,
    /// y coordinate.
    pub y: i32,
}

/// The layout parameters a caret or nearest-index query depends on.
#[derive(Clone, Copy, Debug, PartialEq, Eq, Structural)]
pub struct TextLayout {
    /// The bounding rectangle.
    pub rect: Rect,
    /// Horizontal alignment of each line within the rectangle.
    pub x_align: Align,
    /// Vertical alignment of the whole block within the rectangle.
    pub y_align: Align,
    /// The height of one line of text.
    pub font_size: u16,
    /// The vertical space between consecutive lines.
    pub line_spacing: u16,
}

/// The resolved position of one cursor slot: its x coordinate and the
/// vertical band `[top, bottom)` of its line.
#[derive(Clone, Copy, Debug, PartialEq, Eq, Structural)]
pub struct CaretPos {
    /// x coordinate of the caret.
    pub x: i64,
    /// Top of the line's vertical band.
    pub top: i64,
    /// Bottom of the line's vertical band (exclusive).
    pub bottom: i64,
}

/// The summed advance widths of `text[from..to]`.
pub open spec fn width_sum<F: FontMetrics>(text: Seq<char>, font: F, from: int, to: int) -> int
    decreases to - from,
{
    if from >= to {
        0
    } else {
        width_sum(text, font, from, to - 1) + font.char_width(text[to - 1]) as int
    }
}

/// A width sum is non-negative and at most `u16::MAX` per character.
pub proof fn lemma_width_sum_bounds<F: FontMetrics>(text: Seq<char>, font: F, from: int, to: int)
    requires
        from <= to,
    ensures
        0 <= width_sum(text, font, from, to) <= (to - from) * (u16::MAX as int),
    decreases to - from,
{
    if from < to {
        lemma_width_sum_bounds(text, font, from, to - 1);
    }
}

/// Appending one character extends a width sum.
pub proof fn lemma_width_sum_step<F: FontMetrics>(text: Seq<char>, font: F, from: int, mid: int)
    requires
        from <= mid,
    ensures
        width_sum(text, font, from, mid + 1) == width_sum(text, font, from, mid)
            + font.char_width(text[mid]) as int,
{
}

/// The height of a block of `n_lines` lines (at least one).
pub open spec fn spec_block_height(n_lines: int, font_size: u16, line_spacing: u16) -> int {
    n_lines * (font_size + line_spacing) - line_spacing
}

/// Offset of an extent aligned within a span of the given size.
pub open spec fn spec_align_offset(align: Align, extent: int, space: int) -> int {
    match align {
        Align::Start => 0,
        Align::Middle => if space >= extent {
            (space - extent) / 2
        } else {
            -((extent - space) / 2)
        },
        Align::End => space - extent,
    }
}

/// Top y coordinate of the whole block of `n_lines` lines.
pub open spec fn spec_block_top(lp: TextLayout, n_lines: int) -> int {
    lp.rect.top + spec_align_offset(
        lp.y_align,
        spec_block_height(n_lines, lp.font_size, lp.line_spacing),
        lp.rect.h as int,
    )
}

/// Top y coordinate of line `i` of `n_lines`.
pub open spec fn spec_line_top(lp: TextLayout, n_lines: int, i: int) -> int {
    spec_block_top(lp, n_lines) + i * (lp.font_size + lp.line_spacing)
}

/// The summed advance width of the cursor-bearing characters of a line.
pub open spec fn spec_line_width<F: FontMetrics>(text: Seq<char>, font: F, info: LineInfo) -> int {
    width_sum(text, font, info.start as int, info.start + line_char_len(info))
}

/// x coordinate of cursor slot 0 of the line.
pub open spec fn spec_line_x0<F: FontMetrics>(
    text: Seq<char>,
    font: F,
    lp: TextLayout,
    info: LineInfo,
) -> int {
    lp.rect.left + spec_align_offset(
        lp.x_align,
        spec_line_width(text, font, info),
        lp.rect.w as int,
    )
}

/// x coordinate of cursor slot `ch` of the line.
pub open spec fn spec_x_at<F: FontMetrics>(
    text: Seq<char>,
    font: F,
    lp: TextLayout,
    info: LineInfo,
    ch: int,
) -> int {
    spec_line_x0(text, font, lp, info) + width_sum(text, font, info.start as int, info.start + ch)
}

/// The resolved position of cursor slot `ch` on line `i` of `n_lines`.
pub open spec fn spec_caret_pos<F: FontMetrics>(
    text: Seq<char>,
    font: F,
    lp: TextLayout,
    n_lines: int,
    info: LineInfo,
    i: int,
    ch: int,
) -> CaretPos {
    CaretPos {
        x: spec_x_at(text, font, lp, info, ch) as i64,
        top: spec_line_top(lp, n_lines, i) as i64,
        bottom: (spec_line_top(lp, n_lines, i) + lp.font_size) as i64,
    }
}

/// Where cursor slot `idx` is drawn; `None` when `idx` is not valid against
/// `infos`.
pub open spec fn spec_position_of<F: FontMetrics>(
    text: Seq<char>,
    font: F,
    lp: TextLayout,
    infos: Seq<LineInfo>,
    idx: Index,
) -> Option<CaretPos> {
    if valid_index(infos, idx) {
        Option::Some(
            spec_caret_pos(
                text,
                font,
                lp,
                infos.len() as int,
                infos[idx.line as int],
                idx.line as int,
                idx.char as int,
            ),
        )
    } else {
        Option::None
    }
}

/// Vertical distance from `y` to the band of line `i`: zero inside the
/// band, else the distance to its nearer edge.
pub open spec fn spec_vdist(lp: TextLayout, n_lines: int, i: int, y: int) -> int {
    let top = spec_line_top(lp, n_lines, i);
    let bottom = top + lp.font_size;
    if y < top {
        top - y
    } else if y >= bottom {
        y - bottom + 1
    } else {
        0
    }
}

/// The line among `[0, k)` vertically nearest to `y` (ties to the earlier
/// line).
pub open spec fn spec_nearest_line(lp: TextLayout, n_lines: int, y: int, k: int) -> int
    decreases k,
{
    if k <= 1 {
        0
    } else {
        let best = spec_nearest_line(lp, n_lines, y, k - 1);
        if spec_vdist(lp, n_lines, k - 1, y) < spec_vdist(lp, n_lines, best, y) {
            k - 1
        } else {
            best
        }
    }
}

/// Horizontal distance between `x` and a slot coordinate.
pub open spec fn spec_hdist(x: int, slot_x: int) -> int {
    if x >= slot_x {
        x - slot_x
    } else {
        slot_x - x
    }
}

/// The cursor slot among `[0, k)` of the line horizontally nearest to `x`
/// (ties to the earlier slot).
pub open spec fn spec_nearest_char<F: FontMetrics>(
    text: Seq<char>,
    font: F,
    lp: TextLayout,
    info: LineInfo,
    x: int,
    k: int,
) -> int
    decreases k,
{
    if k <= 1 {
        0
    } else {
        let best = spec_nearest_char(text, font, lp, info, x, k - 1);
        if spec_hdist(x, spec_x_at(text, font, lp, info, k - 1))
            < spec_hdist(x, spec_x_at(text, font, lp, info, best)) {
            k - 1
        } else {
            best
        }
    }
}

/// An argmin over `[0, k)` lies in `[0, k)`.
pub proof fn lemma_nearest_char_range<F: FontMetrics>(
    text: Seq<char>,
    font: F,
    lp: TextLayout,
    info: LineInfo,
    x: int,
    k: int,
)
    requires
        k >= 1,
    ensures
        0 <= spec_nearest_char(text, font, lp, info, x, k) < k,
    decreases k,
{
    if k > 1 {
        lemma_nearest_char_range(text, font, lp, info, x, k - 1);
    }
}

/// An argmin over `[0, k)` lies in `[0, k)`.
pub proof fn lemma_nearest_line_range(lp: TextLayout, n_lines: int, y: int, k: int)
    requires
        k >= 1,
    ensures
        0 <= spec_nearest_line(lp, n_lines, y, k) < k,
    decreases k,
{
    if k > 1 {
        lemma_nearest_line_range(lp, n_lines, y, k - 1);
    }
}

/// The index nearest to a point: the nearest slot, by horizontal distance,
/// on the vertically nearest line.
pub open spec fn spec_nearest_index<F: FontMetrics>(
    text: Seq<char>,
    font: F,
    lp: TextLayout,
    infos: Seq<LineInfo>,
    p: Point,
) -> Index {
    let li = spec_nearest_line(lp, infos.len() as int, p.y as int, infos.len() as int);
    let ch = spec_nearest_char(
        text,
        font,
        lp,
        infos[li],
        p.x as int,
        line_char_len(infos[li]) + 1,
    );
    Index { line: li as usize, char: ch as usize }
}

/// The index nearest to `x` on one given line; `None` when the line does
/// not exist.
pub open spec fn spec_nearest_index_on_line<F: FontMetrics>(
    text: Seq<char>,
    font: F,
    lp: TextLayout,
    infos: Seq<LineInfo>,
    x: int,
    line: int,
) -> Option<Index> {
    if 0 <= line < infos.len() {
        let ch = spec_nearest_char(
            text,
            font,
            lp,
            infos[line],
            x,
            line_char_len(infos[line]) + 1,
        );
        Option::Some(Index { line: line as usize, char: ch as usize })
    } else {
        Option::None
    }
}

/// Vertical cursor movement: resolve the current x position, clamp the
/// target line into range, and take the nearest slot on it; a stale index
/// that resolves to no position is returned unchanged.
pub open spec fn spec_move_vertical<F: FontMetrics>(
    text: Seq<char>,
    font: F,
    lp: TextLayout,
    infos: Seq<LineInfo>,
    idx: Index,
    up: bool,
) -> Index {
    match spec_position_of(text, font, lp, infos, idx) {
        Option::None => idx,
        Option::Some(cp) => {
            let target: int = if up {
                if idx.line > 0 {
                    idx.line - 1
                } else {
                    0
                }
            } else {
                if idx.line + 1 < infos.len() {
                    idx.line + 1
                } else {
                    infos.len() - 1
                }
            };
            match spec_nearest_index_on_line(text, font, lp, infos, cp.x as int, target) {
                Option::Some(r) => r,
                Option::None => idx,
            }
        },
    }
}

/// Nearest-index queries always resolve to a valid index, and vertical
/// movement keeps a valid index valid.
pub proof fn lemma_queries_yield_valid_index<F: FontMetrics>(
    text: Seq<char>,
    font: F,
    lp: TextLayout,
    infos: Seq<LineInfo>,
    p: Point,
    idx: Index,
    up: bool,
)
    requires
        wf_infos(infos, text.len() as int),
        infos.len() <= usize::MAX,
    ensures
        valid_index(infos, spec_nearest_index(text, font, lp, infos, p)),
        valid_index(infos, idx) ==> valid_index(
            infos,
            spec_move_vertical(text, font, lp, infos, idx, up),
        ),
{
    let n = infos.len() as int;
    lemma_nearest_line_range(lp, n, p.y as int, n);
    let li = spec_nearest_line(lp, n, p.y as int, n);
    assert(infos[li].start + break_len(infos[li].kind) <= infos[li].end);
    lemma_nearest_char_range(text, font, lp, infos[li], p.x as int, line_char_len(infos[li]) + 1);
    if valid_index(infos, idx) {
        match spec_position_of(text, font, lp, infos, idx) {
            Option::None => {},
            Option::Some(cp) => {
                let target: int = if up {
                    if idx.line > 0 {
                        idx.line - 1
                    } else {
                        0
                    }
                } else {
                    if idx.line + 1 < infos.len() {
                        idx.line + 1
                    } else {
                        infos.len() - 1
                    }
                };
                assert(0 <= target < infos.len());
                assert(infos[target].start + break_len(infos[target].kind) <= infos[target].end);
                lemma_nearest_char_range(
                    text,
                    font,
                    lp,
                    infos[target],
                    cp.x as int,
                    line_char_len(infos[target]) + 1,
                );
            },
        }
    }
}

/// A selection highlight rectangle: the horizontal span of the selected
/// slots of one line, over that line's vertical band.
#[derive(Clone, Copy, Debug, PartialEq, Eq, Structural)]
pub struct HighlightRect {
    /// x coordinate of the selection's first covered slot on the line.
    pub left: i64,
    /// x coordinate of the selection's last covered slot on the line.
    pub right: i64,
    /// Top of the line's vertical band.
    pub top: i64,
    /// Bottom of the line's vertical band (exclusive).
    pub bottom: i64,
}

/// The highlight rectangle of line `i` for the covered slot range
/// `[lo, hi]` (absolute character counts).
pub open spec fn spec_highlight<F: FontMetrics>(
    text: Seq<char>,
    font: F,
    lp: TextLayout,
    n_lines: int,
    info: LineInfo,
    i: int,
    lo: int,
    hi: int,
) -> HighlightRect {
    HighlightRect {
        left: spec_x_at(text, font, lp, info, lo - info.start) as i64,
        right: spec_x_at(text, font, lp, info, hi - info.start) as i64,
        top: spec_line_top(lp, n_lines, i) as i64,
        bottom: (spec_line_top(lp, n_lines, i) + lp.font_size) as i64,
    }
}

/// The selection highlight rectangles for the absolute character range
/// `[a, b]`, from line `i` on: one rectangle per line on which the range
/// covers at least one character's width.
pub open spec fn spec_selection_rects_from<F: FontMetrics>(
    text: Seq<char>,
    font: F,
    lp: TextLayout,
    infos: Seq<LineInfo>,
    a: int,
    b: int,
    i: int,
) -> Seq<HighlightRect>
    decreases infos.len() - i,
{
    if !(0 <= i < infos.len()) {
        Seq::empty()
    } else {
        let info = infos[i];
        let lo = if a > info.start { a } else { info.start as int };
        let cap = info.start + line_char_len(info);
        let hi = if b < cap { b } else { cap };
        let rest = spec_selection_rects_from(text, font, lp, infos, a, b, i + 1);
        if lo < hi {
            seq![
                spec_highlight(text, font, lp, infos.len() as int, info, i, lo, hi),
            ] + rest
        } else {
            rest
        }
    }
}

/// The selection highlight rectangles for the absolute character range
/// `[a, b]`: one per covered visual line, in line order.  A line on which
/// the range covers no character width (including every line of an empty
/// selection) gets no rectangle.
pub open spec fn spec_selection_rects<F: FontMetrics>(
    text: Seq<char>,
    font: F,
    lp: TextLayout,
    infos: Seq<LineInfo>,
    a: int,
    b: int,
) -> Seq<HighlightRect> {
    spec_selection_rects_from(text, font, lp, infos, a, b, 0)
}

/// Sum the advance widths of `text[from..to]`.
fn sum_widths<F: FontMetrics>(text: &Vec<char>, font: &F, from: usize, to: usize) -> (s: u64)
    requires
        from <= to <= text@.len(),
        fits(text@.len() as int),
    ensures
        s as int == width_sum(text@, *font, from as int, to as int),
        s as int <= (to - from) * (u16::MAX as int),
{
    let mut s: u64 = 0;
    let mut i: usize = from;
    while i < to
        invariant
            from <= i <= to <= text@.len(),
            to <= MAX_TEXT_LEN,
            s as int == width_sum(text@, *font, from as int, i as int),
            s as int <= (i - from) * (u16::MAX as int),
        decreases to - i,
    {
        let w = font.measure(text[i]);
        proof {
            lemma_width_sum_step(text@, *font, from as int, i as int);
        }
        s = s + w as u64;
        i = i + 1;
    }
    s
}

/// Offset of an extent aligned within a span, per [`spec_align_offset`].
fn align_off(align: Align, extent: u64, space: u64) -> (r: i64)
    requires
        extent <= 0x8_0000_0000_0000,
        space <= u32::MAX,
    ensures
        r as int == spec_align_offset(align, extent as int, space as int),
        -(extent as int) <= r as int <= space as int,
{
    match align {
        Align::Start => 0,
        Align::Middle => {
            if space >= extent {
                ((space - extent) / 2) as i64
            } else {
                -(((extent - space) / 2) as i64)
            }
        },
        Align::End => space as i64 - extent as i64,
    }
}

/// Top y coordinate of line `i` of `n_lines`, per [`spec_line_top`].
fn line_top_at(lp: &TextLayout, n_lines: usize, i: usize) -> (r: i64)
    requires
        1 <= n_lines,
        n_lines <= MAX_TEXT_LEN as int + 1,
        i < n_lines,
    ensures
        r as int == spec_line_top(*lp, n_lines as int, i as int),
        -0x8_0000_0000_0000 <= r as int <= 0x8_0000_0000_0000,
{
    let fs_sp: u64 = lp.font_size as u64 + lp.line_spacing as u64;
    proof {
        lemma_mul_upper_bound(n_lines as int, 0x1_0000_0001, fs_sp as int, 0x1fffe);
        lemma_mul_inequality(1, n_lines as int, fs_sp as int);
        lemma_mul_inequality(i as int, n_lines as int, fs_sp as int);
        vstd::arithmetic::mul::lemma_mul_nonnegative(i as int, fs_sp as int);
        lemma_mul_upper_bound(i as int, 0x1_0000_0001, fs_sp as int, 0x1fffe);
    }
    let bh: u64 = n_lines as u64 * fs_sp - lp.line_spacing as u64;
    let top0: i64 = lp.rect.top as i64 + align_off(lp.y_align, bh, lp.rect.h as u64);
    top0 + (i as u64 * fs_sp) as i64
}

/// Where cursor slot `idx` is drawn: its x coordinate and its line's
/// vertical band.  `None` when `idx` is not valid against `infos`.
pub fn position_of<F: FontMetrics>(
    text: &Vec<char>,
    infos: &Vec<LineInfo>,
    font: &F,
    lp: &TextLayout,
    idx: Index,
) -> (r: Option<CaretPos>)
    requires
        wf_infos(infos@, text@.len() as int),
        fits(text@.len() as int),
    ensures
        r == spec_position_of(text@, *font, *lp, infos@, idx),
        (match r {
            Option::Some(cp) => -0x10_0000_0000_0000 <= cp.x as int <= 0x10_0000_0000_0000,
            Option::None => true,
        }),
{
    let nlines = infos.len();
    if idx.line >= nlines {
        return None;
    }
    let info = infos[idx.line];
    proof {
        assert(infos@[idx.line as int].start + break_len(infos@[idx.line as int].kind)
            <= infos@[idx.line as int].end <= text@.len());
    }
    let llen = line_len(&info);
    if idx.char > llen {
        return None;
    }
    let top = line_top_at(lp, nlines, idx.line);
    let bottom = top + lp.font_size as i64;
    let lw = sum_widths(text, font, info.start, info.start + llen);
    let x0: i64 = lp.rect.left as i64 + align_off(lp.x_align, lw, lp.rect.w as u64);
    let px = sum_widths(text, font, info.start, info.start + idx.char);
    proof {
        lemma_width_sum_bounds(text@, *font, info.start as int, info.start + idx.char);
    }
    Some(CaretPos { x: x0 + px as i64, top, bottom })
}

/// Vertical distance from `y` to the band of line `i`.
fn vdist_at(lp: &TextLayout, n_lines: usize, i: usize, y: i32) -> (d: u64)
    requires
        1 <= n_lines,
        n_lines <= MAX_TEXT_LEN as int + 1,
        i < n_lines,
    ensures
        d as int == spec_vdist(*lp, n_lines as int, i as int, y as int),
{
    let top = line_top_at(lp, n_lines, i);
    let bottom = top + lp.font_size as i64;
    let y64 = y as i64;
    if y64 < top {
        (top - y64) as u64
    } else if y64 >= bottom {
        (y64 - bottom + 1) as u64
    } else {
        0
    }
}

/// Absolute difference of two bounded coordinates.
fn hdist64(x: i64, slot_x: i64) -> (d: u64)
    requires
        -0x10_0000_0000_0000 <= x as int <= 0x10_0000_0000_0000,
        -0x10_0000_0000_0000 <= slot_x as int <= 0x10_0000_0000_0000,
    ensures
        d as int == spec_hdist(x as int, slot_x as int),
{
    if x >= slot_x {
        (x - slot_x) as u64
    } else {
        (slot_x - x) as u64
    }
}

/// The nearest cursor slot to `x` on the line `info`, whose cursor-bearing
/// character count is `llen`.
fn nearest_char_on<F: FontMetrics>(
    text: &Vec<char>,
    font: &F,
    lp: &TextLayout,
    info: &LineInfo,
    x: i64,
    llen: usize,
) -> (c: usize)
    requires
        info.start + break_len(info.kind) <= info.end <= text@.len(),
        fits(text@.len() as int),
        llen as int == line_char_len(*info),
        -0x10_0000_0000_0000 <= x as int <= 0x10_0000_0000_0000,
    ensures
        c as int == spec_nearest_char(text@, *font, *lp, *info, x as int, llen as int + 1),
        c <= llen,
{
    let lw = sum_widths(text, font, info.start, info.start + llen);
    let x0: i64 = lp.rect.left as i64 + align_off(lp.x_align, lw, lp.rect.w as u64);
    let ghost gx0 = x0 as int;
    let mut xj: i64 = x0;
    let mut best: usize = 0;
    let mut bestd: u64 = hdist64(x, xj);
    let mut j: usize = 1;
    proof {
        assert(width_sum(text@, *font, info.start as int, info.start as int) == 0);
    }
    while j <= llen
        invariant
            1 <= j <= llen + 1,
            best <= llen,
            info.start + break_len(info.kind) <= info.end <= text@.len(),
            fits(text@.len() as int),
            llen as int == line_char_len(*info),
            -0x10_0000_0000_0000 <= x as int <= 0x10_0000_0000_0000,
            -0x9_0000_0000_0000 <= gx0 <= 0x9_0000_0000_0000,
            gx0 == spec_line_x0(text@, *font, *lp, *info),
            xj as int == gx0 + width_sum(text@, *font, info.start as int, info.start + j - 1),
            best as int == spec_nearest_char(text@, *font, *lp, *info, x as int, j as int),
            bestd as int == spec_hdist(
                x as int,
                spec_x_at(text@, *font, *lp, *info, best as int),
            ),
        decreases llen + 1 - j,
    {
        let w = font.measure(text[info.start + j - 1]);
        proof {
            lemma_width_sum_bounds(text@, *font, info.start as int, info.start + j - 1);
            lemma_width_sum_bounds(text@, *font, info.start as int, info.start + j);
            lemma_width_sum_step(text@, *font, info.start as int, info.start + j - 1);
        }
        let xn: i64 = xj + w as i64;
        let d = hdist64(x, xn);
        proof {
            lemma_width_sum_bounds(
                text@,
                *font,
                info.start as int,
                info.start + spec_nearest_char(text@, *font, *lp, *info, x as int, j as int),
            );
        }
        if d < bestd {
            best = j;
            bestd = d;
        }
        xj = xn;
        j = j + 1;
    }
    best
}

/// The index nearest to the point `p`: the nearest slot, by horizontal
/// distance, on the vertically nearest line.  A point past the end of the
/// text resolves to the nearest valid slot, never to an error.
pub fn nearest_index<F: FontMetrics>(
    text: &Vec<char>,
    infos: &Vec<LineInfo>,
    font: &F,
    lp: &TextLayout,
    p: Point,
) -> (r: Index)
    requires
        wf_infos(infos@, text@.len() as int),
        fits(text@.len() as int),
    ensures
        r == spec_nearest_index(text@, *font, *lp, infos@, p),
        valid_index(infos@, r),
{
    let nlines = infos.len();
    let mut bestl: usize = 0;
    let mut bestd: u64 = vdist_at(lp, nlines, 0, p.y);
    let mut i: usize = 1;
    while i < nlines
        invariant
            1 <= i <= nlines,
            nlines == infos@.len(),
            1 <= nlines,
            nlines <= MAX_TEXT_LEN as int + 1,
            bestl < i,
            bestl as int == spec_nearest_line(*lp, nlines as int, p.y as int, i as int),
            bestd as int == spec_vdist(*lp, nlines as int, bestl as int, p.y as int),
        decreases nlines - i,
    {
        let d = vdist_at(lp, nlines, i, p.y);
        if d < bestd {
            bestl = i;
            bestd = d;
        }
        i = i + 1;
    }
    let info = infos[bestl];
    proof {
        assert(infos@[bestl as int].start + break_len(infos@[bestl as int].kind)
            <= infos@[bestl as int].end <= text@.len());
    }
    let llen = line_len(&info);
    let c = nearest_char_on(text, font, lp, &info, p.x as i64, llen);
    Index { line: bestl, char: c }
}

/// The index nearest to `x` on one given line; `None` when the line does
/// not exist.  Used for vertical cursor movement, to preserve the
/// horizontal target position.
pub fn nearest_index_on_line<F: FontMetrics>(
    text: &Vec<char>,
    infos: &Vec<LineInfo>,
    font: &F,
    lp: &TextLayout,
    x: i64,
    line: usize,
) -> (r: Option<Index>)
    requires
        wf_infos(infos@, text@.len() as int),
        fits(text@.len() as int),
        -0x10_0000_0000_0000 <= x as int <= 0x10_0000_0000_0000,
    ensures
        r == spec_nearest_index_on_line(text@, *font, *lp, infos@, x as int, line as int),
{
    let nlines = infos.len();
    if line >= nlines {
        return None;
    }
    let info = infos[line];
    proof {
        assert(infos@[line as int].start + break_len(infos@[line as int].kind)
            <= infos@[line as int].end <= text@.len());
    }
    let llen = line_len(&info);
    let c = nearest_char_on(text, font, lp, &info, x, llen);
    Some(Index { line, char: c })
}

/// The selection highlight rectangles for the normalized absolute
/// character range `[a, b]`: one per covered visual line, in line order,
/// for downstream rendering of a non-empty selection.
pub fn selection_rects<F: FontMetrics>(
    text: &Vec<char>,
    infos: &Vec<LineInfo>,
    font: &F,
    lp: &TextLayout,
    a: usize,
    b: usize,
) -> (r: Vec<HighlightRect>)
    requires
        wf_infos(infos@, text@.len() as int),
        fits(text@.len() as int),
        a <= b <= text@.len(),
    ensures
        r@ == spec_selection_rects(text@, *font, *lp, infos@, a as int, b as int),
{
    let nlines = infos.len();
    let mut out: Vec<HighlightRect> = Vec::new();
    let mut i: usize = 0;
    proof {
        assert(out@ + spec_selection_rects_from(text@, *font, *lp, infos@, a as int, b as int, 0)
            =~= spec_selection_rects_from(text@, *font, *lp, infos@, a as int, b as int, 0));
    }
    while i < nlines
        invariant
            i <= nlines,
            nlines == infos@.len(),
            wf_infos(infos@, text@.len() as int),
            fits(text@.len() as int),
            a <= b <= text@.len(),
            (spec_selection_rects(text@, *font, *lp, infos@, a as int, b as int) == out@
                + spec_selection_rects_from(text@, *font, *lp, infos@, a as int, b as int, i as int)),
        decreases nlines - i,
    {
        let info = infos[i];
        proof {
            assert(infos@[i as int].start + break_len(infos@[i as int].kind)
                <= infos@[i as int].end <= text@.len());
        }
        let llen = line_len(&info);
        let lo = if a > info.start {
            a
        } else {
            info.start
        };
        let cap = info.start + llen;
        let hi = if b < cap {
            b
        } else {
            cap
        };
        let ghost rest = spec_selection_rects_from(
            text@,
            *font,
            *lp,
            infos@,
            a as int,
            b as int,
            i as int + 1,
        );
        if lo < hi {
            let top = line_top_at(lp, nlines, i);
            let lw = sum_widths(text, font, info.start, info.start + llen);
            let x0: i64 = lp.rect.left as i64 + align_off(lp.x_align, lw, lp.rect.w as u64);
            let pl = sum_widths(text, font, info.start, lo);
            let pr = sum_widths(text, font, info.start, hi);
            proof {
                lemma_width_sum_bounds(text@, *font, info.start as int, lo as int);
                lemma_width_sum_bounds(text@, *font, info.start as int, hi as int);
            }
            let rect = HighlightRect {
                left: x0 + pl as i64,
                right: x0 + pr as i64,
                top,
                bottom: top + lp.font_size as i64,
            };
            out.push(rect);
            proof {
                assert(spec_selection_rects_from(
                    text@,
                    *font,
                    *lp,
                    infos@,
                    a as int,
                    b as int,
                    i as int,
                ) =~= seq![rect] + rest);
            }
        } else {
            proof {
                assert(spec_selection_rects_from(
                    text@,
                    *font,
                    *lp,
                    infos@,
                    a as int,
                    b as int,
                    i as int,
                ) =~= rest);
            }
        }
        i = i + 1;
    }
    out
}

/// Vertical cursor movement, per [`spec_move_vertical`].
pub fn move_vertical<F: FontMetrics>(
    text: &Vec<char>,
    infos: &Vec<LineInfo>,
    font: &F,
    lp: &TextLayout,
    idx: Index,
    up: bool,
) -> (r: Index)
    requires
        wf_infos(infos@, text@.len() as int),
        fits(text@.len() as int),
    ensures
        r == spec_move_vertical(text@, *font, *lp, infos@, idx, up),
{
    let nlines = infos.len();
    match position_of(text, infos, font, lp, idx) {
        None => idx,
        Some(cp) => {
            let target: usize = if up {
                if idx.line > 0 {
                    idx.line - 1
                } else {
                    0
                }
            } else {
                if idx.line + 1 < nlines {
                    idx.line + 1
                } else {
                    nlines - 1
                }
            };
            match nearest_index_on_line(text, infos, font, lp, cp.x, target) {
                Some(r) => r,
                None => idx,
            }
        },
    }
}

} // verus!

use text_edit::cursor::{
    Cursor, Index, cursor_range, index_after, index_before, max_index, min_index, next, previous,
    select_all,
};
use text_edit::font::MonoFont;
use text_edit::layout::{
    Align, HighlightRect, Point, Rect, TextLayout, move_vertical, nearest_index,
    nearest_index_on_line, position_of, selection_rects,
};
use text_edit::line::{Wrap, wrap_lines};

fn chars(s: &str) -> Vec<char> {
    s.chars().collect()
}

fn idx(line: usize, ch: usize) -> Index {
    Index { line, char: ch }
}

fn layout(w: u32, h: u32) -> TextLayout {
    TextLayout {
        rect: Rect { left: 0, top: 0, w, h },
        x_align: Align::Start,
        y_align: Align::Start,
        font_size: 10,
        line_spacing: 0,
    }
}

#[test]
fn index_conversion_round_trips() {
    let font = MonoFont { width: 1 };
    for s in ["", "ab cd ef", "a\nb\n", "hello world"] {
        let text = chars(s);
        let infos = wrap_lines(&text, &font, 3, Wrap::Whitespace);
        for n in 0..=text.len() {
            let i = index_before(&infos, n).expect("count within text");
            assert_eq!(index_after(&infos, i), Some(n));
        }
        assert_eq!(index_before(&infos, text.len() + 1), None);
    }
}

#[test]
fn previous_saturates_at_origin() {
    let font = MonoFont { width: 1 };
    let text = chars("abc");
    let infos = wrap_lines(&text, &font, 100, Wrap::Whitespace);
    assert_eq!(previous(&infos, idx(0, 0)), idx(0, 0));
    assert_eq!(previous(&infos, idx(0, 2)), idx(0, 1));
}

#[test]
fn next_saturates_at_last_index() {
    let font = MonoFont { width: 1 };
    let text = chars("abc");
    let infos = wrap_lines(&text, &font, 100, Wrap::Whitespace);
    assert_eq!(next(&infos, idx(0, 3)), idx(0, 3));
    assert_eq!(next(&infos, idx(0, 1)), idx(0, 2));
}

#[test]
fn movement_crosses_line_boundaries() {
    let font = MonoFont { width: 1 };
    let text = chars("a\nb");
    let infos = wrap_lines(&text, &font, 100, Wrap::Whitespace);
    // line 0 holds one cursor-bearing character; its newline is no slot.
    assert_eq!(next(&infos, idx(0, 1)), idx(1, 0));
    assert_eq!(previous(&infos, idx(1, 0)), idx(0, 1));
}

#[test]
fn select_all_of_empty_text_is_origin_selection() {
    let font = MonoFont { width: 1 };
    let text = chars("");
    let infos = wrap_lines(&text, &font, 10, Wrap::Whitespace);
    let c = select_all(&infos, 0);
    assert_eq!(c, Cursor::Selection { start: idx(0, 0), end: idx(0, 0) });
}

#[test]
fn select_all_reaches_last_slot() {
    let font = MonoFont { width: 1 };
    let text = chars("ab\ncd");
    let infos = wrap_lines(&text, &font, 100, Wrap::Whitespace);
    let c = select_all(&infos, text.len());
    assert_eq!(c, Cursor::Selection { start: idx(0, 0), end: idx(1, 2) });
}

#[test]
fn min_max_index_are_lexicographic() {
    let a = idx(0, 3);
    let b = idx(1, 0);
    assert_eq!(min_index(a, b), a);
    assert_eq!(max_index(a, b), b);
    assert_eq!(min_index(b, a), a);
    assert_eq!(max_index(b, a), b);
    assert_eq!(min_index(a, a), a);
}

#[test]
fn cursor_range_normalizes_selection_order() {
    let font = MonoFont { width: 1 };
    let text = chars("abcd");
    let infos = wrap_lines(&text, &font, 100, Wrap::Whitespace);
    let sel = Cursor::Selection { start: idx(0, 3), end: idx(0, 1) };
    assert_eq!(cursor_range(&infos, &sel), (1, 3));
    let caret = Cursor::Idx(idx(0, 2));
    assert_eq!(cursor_range(&infos, &caret), (2, 2));
}

#[test]
fn caret_positions_follow_alignment() {
    let font = MonoFont { width: 1 };
    let text = chars("ab");
    let infos = wrap_lines(&text, &font, 10, Wrap::Whitespace);
    let mut lp = layout(10, 100);
    let at_origin = position_of(&text, &infos, &font, &lp, idx(0, 0)).unwrap();
    assert_eq!((at_origin.x, at_origin.top, at_origin.bottom), (0, 0, 10));
    let at_end = position_of(&text, &infos, &font, &lp, idx(0, 2)).unwrap();
    assert_eq!(at_end.x, 2);
    lp.x_align = Align::End;
    let right_aligned = position_of(&text, &infos, &font, &lp, idx(0, 0)).unwrap();
    assert_eq!(right_aligned.x, 8);
    lp.x_align = Align::Middle;
    let centered = position_of(&text, &infos, &font, &lp, idx(0, 0)).unwrap();
    assert_eq!(centered.x, 4);
    lp.x_align = Align::Start;
    lp.y_align = Align::End;
    let bottom_aligned = position_of(&text, &infos, &font, &lp, idx(0, 0)).unwrap();
    assert_eq!((bottom_aligned.top, bottom_aligned.bottom), (90, 100));
}

#[test]
fn caret_position_none_for_missing_line() {
    let font = MonoFont { width: 1 };
    let text = chars("ab");
    let infos = wrap_lines(&text, &font, 10, Wrap::Whitespace);
    let lp = layout(10, 100);
    assert_eq!(position_of(&text, &infos, &font, &lp, idx(5, 0)), None);
    assert_eq!(position_of(&text, &infos, &font, &lp, idx(0, 3)), None);
}

#[test]
fn line_bands_include_spacing() {
    let font = MonoFont { width: 1 };
    let text = chars("a\nb");
    let infos = wrap_lines(&text, &font, 100, Wrap::Whitespace);
    let mut lp = layout(100, 100);
    lp.line_spacing = 2;
    let first = position_of(&text, &infos, &font, &lp, idx(0, 0)).unwrap();
    let second = position_of(&text, &infos, &font, &lp, idx(1, 0)).unwrap();
    assert_eq!((first.top, first.bottom), (0, 10));
    assert_eq!((second.top, second.bottom), (12, 22));
}

#[test]
fn pointer_past_line_end_resolves_to_last_slot() {
    let font = MonoFont { width: 1 };
    let text = chars("ab");
    let infos = wrap_lines(&text, &font, 100, Wrap::Whitespace);
    let lp = layout(100, 100);
    let i = nearest_index(&text, &infos, &font, &lp, Point { x: 50, y: 99 });
    assert_eq!(i, idx(0, 2));
}

#[test]
fn pointer_picks_nearest_slot_and_line() {
    let font = MonoFont { width: 1 };
    let text = chars("ab\ncd");
    let infos = wrap_lines(&text, &font, 100, Wrap::Whitespace);
    let lp = layout(100, 100);
    assert_eq!(nearest_index(&text, &infos, &font, &lp, Point { x: 1, y: 5 }), idx(0, 1));
    assert_eq!(nearest_index(&text, &infos, &font, &lp, Point { x: 0, y: 15 }), idx(1, 0));
    // above the block: the first line wins
    assert_eq!(nearest_index(&text, &infos, &font, &lp, Point { x: 0, y: -50 }), idx(0, 0));
}

#[test]
fn nearest_on_missing_line_is_none() {
    let font = MonoFont { width: 1 };
    let text = chars("ab");
    let infos = wrap_lines(&text, &font, 100, Wrap::Whitespace);
    let lp = layout(100, 100);
    assert_eq!(nearest_index_on_line(&text, &infos, &font, &lp, 0, 3), None);
    assert_eq!(nearest_index_on_line(&text, &infos, &font, &lp, 1, 0), Some(idx(0, 1)));
}

#[test]
fn selection_rects_cover_each_selected_line() {
    let font = MonoFont { width: 1 };
    let text = chars("ab\ncd");
    let infos = wrap_lines(&text, &font, 100, Wrap::Whitespace);
    let lp = layout(100, 100);
    // characters 1..4 ("b" and "c"): one rectangle on each line
    let rects = selection_rects(&text, &infos, &font, &lp, 1, 4);
    assert_eq!(
        rects,
        vec![
            HighlightRect { left: 1, right: 2, top: 0, bottom: 10 },
            HighlightRect { left: 0, right: 1, top: 10, bottom: 20 },
        ]
    );
    // an empty selection yields no rectangles
    assert_eq!(selection_rects(&text, &infos, &font, &lp, 2, 2), vec![]);
}

#[test]
fn vertical_movement_preserves_horizontal_position() {
    let font = MonoFont { width: 1 };
    let text = chars("ab\ncd");
    let infos = wrap_lines(&text, &font, 100, Wrap::Whitespace);
    let lp = layout(100, 100);
    assert_eq!(move_vertical(&text, &infos, &font, &lp, idx(0, 1), false), idx(1, 1));
    assert_eq!(move_vertical(&text, &infos, &font, &lp, idx(1, 2), true), idx(0, 2));
    // clamped at the edges: moving up from the first line stays on it
    assert_eq!(move_vertical(&text, &infos, &font, &lp, idx(0, 1), true), idx(0, 1));
    assert_eq!(move_vertical(&text, &infos, &font, &lp, idx(1, 1), false), idx(1, 1));
}

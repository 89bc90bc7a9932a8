use text_edit::cursor::{Cursor, Index};
use text_edit::edit::{delete_one, insert_text};
use text_edit::font::MonoFont;
use text_edit::layout::{Align, Point, Rect, TextLayout};
use text_edit::line::{BreakKind, LineInfo, Wrap, wrap_lines};
use text_edit::text_edit::{
    Button, Drag, Event, Key, Modifiers, State, Style, TextEdit, update,
};

fn chars(s: &str) -> Vec<char> {
    s.chars().collect()
}

fn idx(line: usize, ch: usize) -> Index {
    Index { line, char: ch }
}

fn layout(w: u32, h: u32) -> TextLayout {
    TextLayout {
        rect: Rect { left: 0, top: 0, w, h },
        x_align: Align::Start,
        y_align: Align::Start,
        font_size: 10,
        line_spacing: 0,
    }
}

fn style() -> Style {
    Style {
        font_size: 10,
        x_align: Align::Start,
        y_align: Align::Start,
        line_spacing: 0,
        line_wrap: Wrap::Whitespace,
        restrict_to_height: true,
    }
}

fn fresh_state(text: &Vec<char>, st: &Style, rect: &Rect) -> State {
    let font = MonoFont { width: 1 };
    State {
        cursor: Cursor::Idx(idx(0, 0)),
        drag: None,
        line_infos: wrap_lines(text, &font, rect.w, st.line_wrap),
    }
}

fn no_mods() -> Modifiers {
    Modifiers { ctrl: false }
}

fn ctrl() -> Modifiers {
    Modifiers { ctrl: true }
}

fn key_press(k: Key, m: Modifiers) -> Event {
    Event::Press(Button::Keyboard(k, m))
}

#[test]
fn insert_at_caret_moves_cursor_past_insertion() {
    // text "ab", width large enough for no wrapping, caret at the origin:
    // inserting "X" gives "Xab" with the caret after the "X".
    let font = MonoFont { width: 1 };
    let text = chars("ab");
    let infos = wrap_lines(&text, &font, 100, Wrap::Whitespace);
    let lp = layout(100, 100);
    let (nt, nc, _ni) = insert_text(
        &chars("X"),
        &Cursor::Idx(idx(0, 0)),
        &text,
        &infos,
        &font,
        &lp,
        Wrap::Whitespace,
        true,
    )
    .expect("fits");
    assert_eq!(nt, chars("Xab"));
    assert_eq!(nc, Cursor::Idx(idx(0, 1)));
}

#[test]
fn insert_replaces_selection_and_keeps_length_relation() {
    let font = MonoFont { width: 1 };
    let text = chars("abcd");
    let infos = wrap_lines(&text, &font, 100, Wrap::Whitespace);
    let lp = layout(100, 100);
    let sel = Cursor::Selection { start: idx(0, 3), end: idx(0, 1) };
    let (nt, nc, _ni) = insert_text(
        &chars("XY"),
        &sel,
        &text,
        &infos,
        &font,
        &lp,
        Wrap::Whitespace,
        true,
    )
    .expect("fits");
    assert_eq!(nt, chars("aXYd"));
    // removed 2 characters, inserted 2: total length unchanged
    assert_eq!(nt.len(), text.len() - 2 + 2);
    assert_eq!(nc, Cursor::Idx(idx(0, 3)));
}

#[test]
fn height_restriction_rejects_overflowing_insert() {
    let font = MonoFont { width: 1 };
    let text = chars("a");
    let infos = wrap_lines(&text, &font, 100, Wrap::Whitespace);
    // one line of height 10 fits a rect of height 25; two lines would not
    // fit a rect of height 15
    let lp = layout(100, 15);
    let r = insert_text(
        &chars("\n"),
        &Cursor::Idx(idx(0, 1)),
        &text,
        &infos,
        &font,
        &lp,
        Wrap::Whitespace,
        true,
    );
    assert!(r.is_none());
    // the same insert is accepted with the restriction off
    let r2 = insert_text(
        &chars("\n"),
        &Cursor::Idx(idx(0, 1)),
        &text,
        &infos,
        &font,
        &lp,
        Wrap::Whitespace,
        false,
    );
    assert!(r2.is_some());
}

#[test]
fn backspace_at_origin_is_a_no_op() {
    let font = MonoFont { width: 1 };
    let text = chars("abc");
    let infos = wrap_lines(&text, &font, 100, Wrap::Whitespace);
    let lp = layout(100, 100);
    let r = delete_one(&Cursor::Idx(idx(0, 0)), &text, &infos, &font, &lp, Wrap::Whitespace);
    assert!(r.is_none());
}

#[test]
fn backspace_removes_char_before_caret() {
    let font = MonoFont { width: 1 };
    let text = chars("abc");
    let infos = wrap_lines(&text, &font, 100, Wrap::Whitespace);
    let lp = layout(100, 100);
    let (nt, nc, _ni) = delete_one(
        &Cursor::Idx(idx(0, 2)),
        &text,
        &infos,
        &font,
        &lp,
        Wrap::Whitespace,
    )
    .expect("changes");
    assert_eq!(nt, chars("ac"));
    assert_eq!(nc, Cursor::Idx(idx(0, 1)));
}

#[test]
fn backspace_removes_selection() {
    let font = MonoFont { width: 1 };
    let text = chars("abc");
    let infos = wrap_lines(&text, &font, 100, Wrap::Whitespace);
    let lp = layout(100, 100);
    let sel = Cursor::Selection { start: idx(0, 2), end: idx(0, 0) };
    let (nt, nc, _ni) = delete_one(&sel, &text, &infos, &font, &lp, Wrap::Whitespace)
        .expect("changes");
    assert_eq!(nt, chars("c"));
    assert_eq!(nc, Cursor::Idx(idx(0, 0)));
}

#[test]
fn update_applies_text_event() {
    let font = MonoFont { width: 1 };
    let st = style();
    let rect = Rect { left: 0, top: 0, w: 100, h: 100 };
    let text = chars("ab");
    let state = fresh_state(&text, &st, &rect);
    let events = vec![Event::Text { string: chars("X"), modifiers: no_mods() }];
    let (ns, changed) = update(&state, &text, &events, &font, &st, &rect);
    assert_eq!(changed, Some(chars("Xab")));
    assert_eq!(ns.cursor, Cursor::Idx(idx(0, 1)));
}

#[test]
fn update_rejected_edit_leaves_state_untouched() {
    let font = MonoFont { width: 1 };
    let st = style();
    // two lines of height 10 do not fit a rect of height 15
    let rect = Rect { left: 0, top: 0, w: 100, h: 15 };
    let text = chars("a");
    let state = fresh_state(&text, &st, &rect);
    let events = vec![key_press(Key::Return, no_mods())];
    let (ns, changed) = update(&state, &text, &events, &font, &st, &rect);
    assert_eq!(changed, None);
    assert!(ns == state);
    assert_eq!(ns.cursor, Cursor::Idx(idx(0, 0)));
    assert_eq!(ns.line_infos, state.line_infos);
}

#[test]
fn update_accepts_newline_when_height_allows() {
    let font = MonoFont { width: 1 };
    let st = style();
    let rect = Rect { left: 0, top: 0, w: 100, h: 25 };
    let text = chars("a");
    let state = fresh_state(&text, &st, &rect);
    let events = vec![key_press(Key::Return, no_mods())];
    let (ns, changed) = update(&state, &text, &events, &font, &st, &rect);
    assert_eq!(changed, Some(chars("\na")));
    assert_eq!(ns.cursor, Cursor::Idx(idx(1, 0)));
    assert_eq!(ns.line_infos.len(), 2);
}

#[test]
fn update_filters_ctrl_and_arrow_glyph_text() {
    let font = MonoFont { width: 1 };
    let st = style();
    let rect = Rect { left: 0, top: 0, w: 100, h: 100 };
    let text = chars("ab");
    let state = fresh_state(&text, &st, &rect);
    let events = vec![
        Event::Text { string: chars("X"), modifiers: ctrl() },
        Event::Text { string: chars(""), modifiers: no_mods() },
        Event::Text { string: vec!['\u{f700}'], modifiers: no_mods() },
        Event::Text { string: vec!['\u{f703}'], modifiers: no_mods() },
    ];
    let (ns, changed) = update(&state, &text, &events, &font, &st, &rect);
    assert_eq!(changed, None);
    assert_eq!(ns.cursor, Cursor::Idx(idx(0, 0)));
}

#[test]
fn update_press_sets_caret_and_drag() {
    let font = MonoFont { width: 1 };
    let st = style();
    let rect = Rect { left: 0, top: 0, w: 100, h: 100 };
    let text = chars("ab");
    let state = fresh_state(&text, &st, &rect);
    // a press far past the end of the only line resolves to its last slot
    let events = vec![Event::Press(Button::LeftMouse(Point { x: 50, y: 50 }))];
    let (ns, changed) = update(&state, &text, &events, &font, &st, &rect);
    assert_eq!(changed, None);
    assert_eq!(ns.cursor, Cursor::Idx(idx(0, 2)));
    assert_eq!(ns.drag, Some(Drag::Selecting));
}

#[test]
fn update_drag_extends_selection_until_release() {
    let font = MonoFont { width: 1 };
    let st = style();
    let rect = Rect { left: 0, top: 0, w: 100, h: 100 };
    let text = chars("ab");
    let state = fresh_state(&text, &st, &rect);
    let events = vec![
        Event::Press(Button::LeftMouse(Point { x: 0, y: 5 })),
        Event::DragTo { left: true, to: Point { x: 50, y: 5 } },
        Event::Release(Button::LeftMouse(Point { x: 50, y: 5 })),
    ];
    let (ns, changed) = update(&state, &text, &events, &font, &st, &rect);
    assert_eq!(changed, None);
    assert_eq!(ns.cursor, Cursor::Selection { start: idx(0, 0), end: idx(0, 2) });
    assert_eq!(ns.drag, None);
}

#[test]
fn drag_state_persists_across_cycles() {
    let font = MonoFont { width: 1 };
    let st = style();
    let rect = Rect { left: 0, top: 0, w: 100, h: 100 };
    let text = chars("ab");
    let state = fresh_state(&text, &st, &rect);
    let press = vec![Event::Press(Button::LeftMouse(Point { x: 0, y: 5 }))];
    let (after_press, _c) = update(&state, &text, &press, &font, &st, &rect);
    assert_eq!(after_press.drag, Some(Drag::Selecting));
    // the next cycle sees the persisted drag state and extends the selection
    let drag = vec![Event::DragTo { left: true, to: Point { x: 50, y: 5 } }];
    let (after_drag, _c) = update(&after_press, &text, &drag, &font, &st, &rect);
    assert_eq!(after_drag.cursor, Cursor::Selection { start: idx(0, 0), end: idx(0, 2) });
    assert_eq!(after_drag.drag, Some(Drag::Selecting));
}

#[test]
fn update_drag_without_gesture_is_ignored() {
    let font = MonoFont { width: 1 };
    let st = style();
    let rect = Rect { left: 0, top: 0, w: 100, h: 100 };
    let text = chars("ab");
    let state = fresh_state(&text, &st, &rect);
    let events = vec![Event::DragTo { left: true, to: Point { x: 50, y: 5 } }];
    let (ns, _changed) = update(&state, &text, &events, &font, &st, &rect);
    assert_eq!(ns.cursor, Cursor::Idx(idx(0, 0)));
    assert_eq!(ns.drag, None);
}

#[test]
fn update_arrow_keys_move_caret() {
    let font = MonoFont { width: 1 };
    let st = style();
    let rect = Rect { left: 0, top: 0, w: 100, h: 100 };
    let text = chars("ab\ncd");
    let mut state = fresh_state(&text, &st, &rect);
    state.cursor = Cursor::Idx(idx(0, 1));
    let events = vec![key_press(Key::Right, no_mods())];
    let (ns, _c) = update(&state, &text, &events, &font, &st, &rect);
    assert_eq!(ns.cursor, Cursor::Idx(idx(0, 2)));
    let events = vec![key_press(Key::Left, no_mods())];
    let (ns, _c) = update(&state, &text, &events, &font, &st, &rect);
    assert_eq!(ns.cursor, Cursor::Idx(idx(0, 0)));
    let events = vec![key_press(Key::Down, no_mods())];
    let (ns, _c) = update(&state, &text, &events, &font, &st, &rect);
    assert_eq!(ns.cursor, Cursor::Idx(idx(1, 1)));
    let events = vec![key_press(Key::Up, no_mods())];
    let (ns, _c) = update(&state, &text, &events, &font, &st, &rect);
    assert_eq!(ns.cursor, Cursor::Idx(idx(0, 1)));
}

#[test]
fn update_left_right_collapse_selection() {
    let font = MonoFont { width: 1 };
    let st = style();
    let rect = Rect { left: 0, top: 0, w: 100, h: 100 };
    let text = chars("abcd");
    let mut state = fresh_state(&text, &st, &rect);
    state.cursor = Cursor::Selection { start: idx(0, 3), end: idx(0, 1) };
    let (ns, _c) = update(&state, &text, &vec![key_press(Key::Left, no_mods())], &font, &st, &rect);
    assert_eq!(ns.cursor, Cursor::Idx(idx(0, 1)));
    let (ns, _c) = update(&state, &text, &vec![key_press(Key::Right, no_mods())], &font, &st, &rect);
    assert_eq!(ns.cursor, Cursor::Idx(idx(0, 3)));
}

#[test]
fn update_ctrl_a_selects_all() {
    let font = MonoFont { width: 1 };
    let st = style();
    let rect = Rect { left: 0, top: 0, w: 100, h: 100 };
    let text = chars("ab\ncd");
    let state = fresh_state(&text, &st, &rect);
    let (ns, _c) = update(&state, &text, &vec![key_press(Key::A, ctrl())], &font, &st, &rect);
    assert_eq!(ns.cursor, Cursor::Selection { start: idx(0, 0), end: idx(1, 2) });
    // without Ctrl the key is ignored
    let (ns2, _c) = update(&state, &text, &vec![key_press(Key::A, no_mods())], &font, &st, &rect);
    assert_eq!(ns2.cursor, Cursor::Idx(idx(0, 0)));
}

#[test]
fn update_backspace_on_origin_changes_nothing() {
    let font = MonoFont { width: 1 };
    let st = style();
    let rect = Rect { left: 0, top: 0, w: 100, h: 100 };
    let text = chars("abc");
    let state = fresh_state(&text, &st, &rect);
    let (ns, changed) = update(
        &state,
        &text,
        &vec![key_press(Key::Backspace, no_mods())],
        &font,
        &st,
        &rect,
    );
    assert_eq!(changed, None);
    assert_eq!(ns.cursor, Cursor::Idx(idx(0, 0)));
}

#[test]
fn update_later_events_see_earlier_mutations() {
    let font = MonoFont { width: 1 };
    let st = style();
    let rect = Rect { left: 0, top: 0, w: 100, h: 100 };
    let text = chars("");
    let state = fresh_state(&text, &st, &rect);
    let events = vec![
        Event::Text { string: chars("ab"), modifiers: no_mods() },
        key_press(Key::Backspace, no_mods()),
        Event::Text { string: chars("c"), modifiers: no_mods() },
    ];
    let (ns, changed) = update(&state, &text, &events, &font, &st, &rect);
    assert_eq!(changed, Some(chars("ac")));
    assert_eq!(ns.cursor, Cursor::Idx(idx(0, 2)));
}

#[test]
fn builders_set_style_fields() {
    let te = TextEdit::new(chars("hi"));
    assert_eq!(te.style.line_wrap, Wrap::Whitespace);
    assert_eq!(te.style.x_align, Align::Start);
    assert_eq!(te.style.y_align, Align::Start);
    assert!(te.style.restrict_to_height);
    let te = te
        .wrap_by_character()
        .align_text_right()
        .align_text_bottom()
        .font_size(12)
        .line_spacing(3)
        .restrict_to_height(false);
    assert_eq!(te.style.line_wrap, Wrap::Character);
    assert_eq!(te.style.x_align, Align::End);
    assert_eq!(te.style.y_align, Align::End);
    assert_eq!(te.style.font_size, 12);
    assert_eq!(te.style.line_spacing, 3);
    assert!(!te.style.restrict_to_height);
    let te = te.align_text_middle();
    assert_eq!(te.style.x_align, Align::Middle);
    assert_eq!(te.style.y_align, Align::Middle);
    let te = te.wrap_by_whitespace().align_text_left().align_text_top();
    assert_eq!(te.style(), Style {
        font_size: 12,
        x_align: Align::Start,
        y_align: Align::Start,
        line_spacing: 3,
        line_wrap: Wrap::Whitespace,
        restrict_to_height: false,
    });
}

#[test]
fn init_state_is_origin_caret() {
    let te = TextEdit::new(chars("hi"));
    let s = te.init_state();
    assert_eq!(s.cursor, Cursor::Idx(idx(0, 0)));
    assert_eq!(s.drag, None);
    assert!(s.line_infos.is_empty());
}

#[test]
fn state_equality_is_by_value() {
    let a = State {
        cursor: Cursor::Idx(idx(0, 0)),
        drag: None,
        line_infos: vec![LineInfo { start: 0, end: 2, kind: BreakKind::End }],
    };
    let b = State {
        cursor: Cursor::Idx(idx(0, 0)),
        drag: None,
        line_infos: vec![LineInfo { start: 0, end: 2, kind: BreakKind::End }],
    };
    assert!(a == b);
    let c = State { drag: Some(Drag::Selecting), ..b.clone() };
    assert!(!(a == c));
    let d = State {
        cursor: Cursor::Idx(idx(0, 0)),
        drag: None,
        line_infos: vec![LineInfo { start: 0, end: 3, kind: BreakKind::End }],
    };
    assert!(!(a == d));
}

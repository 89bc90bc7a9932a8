//! The widget state and the interaction reducer: folds one update cycle's
//! classified input events against the line breaker, the coordinate mapper,
//! the cursor model and the edit engine, producing the next persisted state
//! and, when an edit was applied, the new text.

use vstd::prelude::*;
use crate::cursor::{
    Cursor, Index, max_index, min_index, next, previous, select_all, spec_max_index,
    spec_min_index, spec_next, spec_previous, spec_select_all,
};
use crate::edit::{delete_one, insert_text, lemma_edit_cursor_valid, spec_delete, spec_insert};
use crate::font::FontMetrics;
use crate::layout::{
    Align, Point, Rect, TextLayout, move_vertical, nearest_index, spec_move_vertical,
    spec_nearest_index,
};
use crate::line::{
    LineInfo, Wrap, fits, lemma_wrap_coverage, spec_wrap, wf_infos, wrap_lines,
};

verus! {

/// Whether some sort of dragging is currently occurring.
#[derive(Clone, Copy, Debug, PartialEq, Eq, Structural)]
pub enum Drag {
    /// The drag is selecting a range of text.
    Selecting,
    /// The drag is moving a selection of text.  Recognized but deliberately
    /// without behaviour: the reducer treats it as a no-op.
    MoveSelection,
}

/// The keys the reducer reacts to; anything else is `Other` and ignored.
#[derive(Clone, Copy, Debug, PartialEq, Eq, Structural)]
pub enum Key {
    /// Delete backwards.
    Backspace,
    /// Move left, or collapse a selection to its earlier end.
    Left,
    /// Move right, or collapse a selection to its later end.
    Right,
    /// Move to the nearest slot one line up.
    Up,
    /// Move to the nearest slot one line down.
    Down,
    /// With Ctrl: select all.
    A,
    /// Reachable binding with deliberately no action.
    E,
    /// Insert a newline.
    Return,
    /// Any other key.
    Other,
}

/// Modifier flags carried by key and text events.
#[derive(Clone, Copy, Debug, PartialEq, Eq, Structural)]
pub struct Modifiers {
    /// Whether Ctrl is held.
    pub ctrl: bool,
}

/// The button a press or release event carries.
#[derive(Clone, Copy, Debug, PartialEq, Eq, Structural)]
pub enum Button {
    /// The left mouse button, at the given position (in the same coordinate
    /// space as the bounding rectangle).
    LeftMouse(Point),
    /// A keyboard key with its modifiers.
    Keyboard(Key, Modifiers),
    /// Any other button; ignored.
    Other,
}

/// One classified input event of an update cycle.
#[derive(Clone, Debug, PartialEq)]
pub enum Event {
    /// A button or key was pressed.
    Press(Button),
    /// A button was released.
    Release(Button),
    /// Text arrived from the keyboard.
    Text {
        /// The characters to insert.
        string: Vec<char>,
        /// Modifiers held while the text arrived.
        modifiers: Modifiers,
    },
    /// The pointer was dragged.
    DragTo {
        /// Whether the left button is held.
        left: bool,
        /// Where the pointer moved to.
        to: Point,
    },
}

/// The state that persists between update cycles.
#[derive(Clone, Debug)]
pub struct State {
    /// The cursor or selection.
    pub cursor: Cursor,
    /// An in-progress drag gesture, if any.
    pub drag: Option<Drag>,
    /// The line descriptors of the text as of the last cycle.
    pub line_infos: Vec<LineInfo>,
}

/// Element-wise equality of two descriptor sequences.
fn infos_equal(a: &Vec<LineInfo>, b: &Vec<LineInfo>) -> (r: bool)
    ensures
        r == (a@ == b@),
{
    if a.len() != b.len() {
        return false;
    }
    let mut i: usize = 0;
    while i < a.len()
        invariant
            i <= a@.len(),
            a@.len() == b@.len(),
            forall|j: int| 0 <= j < i ==> a@[j] == b@[j],
        decreases a@.len() - i,
    {
        if a[i] != b[i] {
            return false;
        }
        i = i + 1;
    }
    proof {
        assert(a@ =~= b@);
    }
    true
}

impl PartialEq for State {
    /// Whether two persisted states are equal by value; callers use this to
    /// detect no-op cycles cheaply.
    fn eq(&self, other: &State) -> (r: bool) {
        let cursor_eq = self.cursor == other.cursor;
        let drag_eq = match (self.drag, other.drag) {
            (None, None) => true,
            (Some(a), Some(b)) => a == b,
            _ => false,
        };
        cursor_eq && drag_eq && infos_equal(&self.line_infos, &other.line_infos)
    }
}

impl vstd::std_specs::cmp::PartialEqSpecImpl for State {
    open spec fn obeys_eq_spec() -> bool {
        true
    }

    open spec fn eq_spec(&self, other: &State) -> bool {
        self.cursor == other.cursor && self.drag == other.drag && self.line_infos@
            == other.line_infos@
    }
}

/// Styling of the text edit.
#[derive(Clone, Copy, Debug, PartialEq, Eq, Structural)]
pub struct Style {
    /// The font size, which is also the height of one line.
    pub font_size: u16,
    /// Horizontal alignment of each line within the bounding rectangle.
    pub x_align: Align,
    /// Vertical alignment of the block within the bounding rectangle.
    pub y_align: Align,
    /// Vertical space between lines.
    pub line_spacing: u16,
    /// The way text wraps at the end of a line.
    pub line_wrap: Wrap,
    /// Reject edits whose wrapped text would not fit the rectangle's height.
    pub restrict_to_height: bool,
}

/// A multi-line text-editing widget configuration: the text to show and the
/// styling to lay it out with.
#[derive(Clone, Debug)]
pub struct TextEdit {
    /// The text.
    pub text: Vec<char>,
    /// The styling.
    pub style: Style,
}

/// The default styling: left-aligned, top-aligned, whitespace wrapping,
/// height-restricted, with a medium font size.
pub open spec fn spec_default_style() -> Style {
    Style {
        font_size: 18,
        x_align: Align::Start,
        y_align: Align::Start,
        line_spacing: 1,
        line_wrap: Wrap::Whitespace,
        restrict_to_height: true,
    }
}

/// The layout parameters the reducer derives from style and rectangle.
pub open spec fn spec_layout(style: Style, rect: Rect) -> TextLayout {
    TextLayout {
        rect: rect,
        x_align: style.x_align,
        y_align: style.y_align,
        font_size: style.font_size,
        line_spacing: style.line_spacing,
    }
}

/// The snapshot one event transforms: the text, its descriptors, the cursor
/// and drag state, and whether any edit has been applied this cycle.
pub struct CycleModel {
    /// The text.
    pub text: Seq<char>,
    /// Its line descriptors.
    pub infos: Seq<LineInfo>,
    /// The cursor or selection.
    pub cursor: Cursor,
    /// An in-progress drag gesture, if any.
    pub drag: Option<Drag>,
    /// Whether an edit has been applied this cycle.
    pub edited: bool,
}

/// The anchor an in-progress gesture extends from: a caret itself, or a
/// selection's fixed end.
pub open spec fn spec_anchor(cursor: Cursor) -> Index {
    match cursor {
        Cursor::Idx(idx) => idx,
        Cursor::Selection { start, end } => start,
    }
}

/// The four arrow-key glyphs some platforms deliver as text; they are
/// filtered out of text insertion.
pub open spec fn is_arrow_glyph(s: Seq<char>) -> bool {
    s.len() == 1 && (s[0] == '\u{f700}' || s[0] == '\u{f701}' || s[0] == '\u{f702}' || s[0]
        == '\u{f703}')
}

/// Apply an insertion (or its rejection) to the snapshot.
pub open spec fn apply_insert<F: FontMetrics>(
    font: F,
    style: Style,
    rect: Rect,
    m: CycleModel,
    s: Seq<char>,
) -> CycleModel {
    match spec_insert(
        m.text,
        m.infos,
        m.cursor,
        s,
        font,
        spec_layout(style, rect),
        style.line_wrap,
        style.restrict_to_height,
    ) {
        Option::Some(t) => CycleModel {
            text: t.0,
            infos: t.2,
            cursor: t.1,
            drag: m.drag,
            edited: true,
        },
        Option::None => m,
    }
}

/// The transition a key press performs.
pub open spec fn spec_key<F: FontMetrics>(
    font: F,
    style: Style,
    rect: Rect,
    m: CycleModel,
    key: Key,
    mods: Modifiers,
) -> CycleModel {
    let lp = spec_layout(style, rect);
    match key {
        Key::Backspace => match spec_delete(m.text, m.infos, m.cursor, font, lp, style.line_wrap) {
            Option::Some(t) => CycleModel {
                text: t.0,
                infos: t.2,
                cursor: t.1,
                drag: m.drag,
                edited: true,
            },
            Option::None => m,
        },
        Key::Left => if !mods.ctrl {
            match m.cursor {
                Cursor::Idx(idx) => CycleModel {
                    cursor: Cursor::Idx(spec_previous(m.infos, idx)),
                    ..m
                },
                Cursor::Selection { start, end } => CycleModel {
                    cursor: Cursor::Idx(spec_min_index(start, end)),
                    ..m
                },
            }
        } else {
            m
        },
        Key::Right => if !mods.ctrl {
            match m.cursor {
                Cursor::Idx(idx) => CycleModel { cursor: Cursor::Idx(spec_next(m.infos, idx)), ..m },
                Cursor::Selection { start, end } => CycleModel {
                    cursor: Cursor::Idx(spec_max_index(start, end)),
                    ..m
                },
            }
        } else {
            m
        },
        Key::Up => CycleModel {
            cursor: Cursor::Idx(
                spec_move_vertical(m.text, font, lp, m.infos, spec_anchor(m.cursor), true),
            ),
            ..m
        },
        Key::Down => CycleModel {
            cursor: Cursor::Idx(
                spec_move_vertical(m.text, font, lp, m.infos, spec_anchor(m.cursor), false),
            ),
            ..m
        },
        Key::A => if mods.ctrl {
            CycleModel { cursor: spec_select_all(m.infos, m.text.len() as usize), ..m }
        } else {
            m
        },
        Key::E => m,
        Key::Return => apply_insert(font, style, rect, m, seq!['\n']),
        Key::Other => m,
    }
}

/// The transition table of the interaction reducer: how one event
/// transforms the snapshot.
pub open spec fn spec_step<F: FontMetrics>(
    font: F,
    style: Style,
    rect: Rect,
    m: CycleModel,
    ev: Event,
) -> CycleModel {
    let lp = spec_layout(style, rect);
    match ev {
        Event::Press(button) => match button {
            Button::LeftMouse(p) => CycleModel {
                cursor: Cursor::Idx(spec_nearest_index(m.text, font, lp, m.infos, p)),
                drag: Option::Some(Drag::Selecting),
                ..m
            },
            Button::Keyboard(key, mods) => spec_key(font, style, rect, m, key, mods),
            Button::Other => m,
        },
        Event::Release(button) => match button {
            Button::LeftMouse(_) => CycleModel { drag: Option::None, ..m },
            _ => m,
        },
        Event::Text { string, modifiers } => if modifiers.ctrl || string@.len() == 0
            || is_arrow_glyph(string@) {
            m
        } else {
            apply_insert(font, style, rect, m, string@)
        },
        Event::DragTo { left, to } => if left {
            match m.drag {
                Option::Some(Drag::Selecting) => CycleModel {
                    cursor: Cursor::Selection {
                        start: spec_anchor(m.cursor),
                        end: spec_nearest_index(m.text, font, lp, m.infos, to),
                    },
                    ..m
                },
                _ => m,
            }
        } else {
            m
        },
    }
}

/// Fold a cycle's events, in arrival order, over the snapshot.
pub open spec fn spec_run<F: FontMetrics>(
    font: F,
    style: Style,
    rect: Rect,
    m: CycleModel,
    events: Seq<Event>,
) -> CycleModel
    decreases events.len(),
{
    if events.len() == 0 {
        m
    } else {
        spec_run(font, style, rect, spec_step(font, style, rect, m, events[0]), events.drop_first())
    }
}

/// The meaning of one whole update cycle: wrap the current text, then fold
/// the events.
pub open spec fn spec_update<F: FontMetrics>(
    font: F,
    style: Style,
    rect: Rect,
    cursor: Cursor,
    drag: Option<Drag>,
    text: Seq<char>,
    events: Seq<Event>,
) -> CycleModel {
    spec_run(
        font,
        style,
        rect,
        CycleModel {
            text: text,
            infos: spec_wrap(text, font, rect.w, style.line_wrap),
            cursor: cursor,
            drag: drag,
            edited: false,
        },
        events,
    )
}

/// A rejected edit leaves the snapshot untouched: when the height
/// restriction (or the supported size) rejects an insertion, the text, the
/// descriptors, the cursor and the drag state all stay exactly as they
/// were.
pub proof fn lemma_reject_preserves_state<F: FontMetrics>(
    font: F,
    style: Style,
    rect: Rect,
    m: CycleModel,
    s: Seq<char>,
)
    requires
        spec_insert(
            m.text,
            m.infos,
            m.cursor,
            s,
            font,
            spec_layout(style, rect),
            style.line_wrap,
            style.restrict_to_height,
        ) is None,
    ensures
        apply_insert(font, style, rect, m, s) == m,
{
}

/// Each step keeps the snapshot consistent: the descriptors stay exactly
/// the wrapping of the text, the text stays within the supported size, and
/// the text only changes when the step records an edit.
pub proof fn lemma_step_preserves_wf<F: FontMetrics>(
    font: F,
    style: Style,
    rect: Rect,
    m: CycleModel,
    ev: Event,
)
    requires
        m.infos == spec_wrap(m.text, font, rect.w, style.line_wrap),
        fits(m.text.len() as int),
    ensures
        ({
            let m2 = spec_step(font, style, rect, m, ev);
            &&& m2.infos == spec_wrap(m2.text, font, rect.w, style.line_wrap)
            &&& fits(m2.text.len() as int)
            &&& (!m2.edited ==> m2.text == m.text && m2.infos == m.infos && m2.edited == m.edited)
        }),
{
    lemma_wrap_coverage(m.text, font, rect.w, style.line_wrap);
    crate::edit::lemma_cursor_range_bounds(m.infos, m.text.len() as int, m.cursor);
    match ev {
        Event::Press(button) => match button {
            Button::Keyboard(key, mods) => match key {
                Key::Backspace => {
                    if m.cursor is Idx {
                        let idx = m.cursor->Idx_0;
                        match crate::cursor::spec_index_after(m.infos, idx) {
                            Option::Some(i) => {
                                if i > 0 {
                                    assert(m.infos[idx.line as int].start + crate::line::break_len(
                                        m.infos[idx.line as int].kind,
                                    ) <= m.infos[idx.line as int].end <= m.text.len());
                                }
                            },
                            Option::None => {},
                        }
                    }
                },
                _ => {},
            },
            _ => {},
        },
        _ => {},
    }
}

/// The fold of a cycle's events keeps the snapshot consistent, and reports
/// an unchanged text whenever no edit was applied.
pub proof fn lemma_run_preserves_wf<F: FontMetrics>(
    font: F,
    style: Style,
    rect: Rect,
    m: CycleModel,
    events: Seq<Event>,
)
    requires
        m.infos == spec_wrap(m.text, font, rect.w, style.line_wrap),
        fits(m.text.len() as int),
    ensures
        ({
            let m2 = spec_run(font, style, rect, m, events);
            &&& m2.infos == spec_wrap(m2.text, font, rect.w, style.line_wrap)
            &&& fits(m2.text.len() as int)
            &&& (!m2.edited ==> m2.text == m.text && m2.edited == m.edited)
        }),
    decreases events.len(),
{
    if events.len() > 0 {
        lemma_step_preserves_wf(font, style, rect, m, events[0]);
        lemma_run_preserves_wf(
            font,
            style,
            rect,
            spec_step(font, style, rect, m, events[0]),
            events.drop_first(),
        );
    }
}

/// One step never produces a stale cursor: when the cursor is valid
/// against the current descriptors, it stays valid against the descriptors
/// the step hands on — the invariant behind every index-to-count
/// conversion the reducer performs.
pub proof fn lemma_step_preserves_cursor_valid<F: FontMetrics>(
    font: F,
    style: Style,
    rect: Rect,
    m: CycleModel,
    ev: Event,
)
    requires
        m.infos == spec_wrap(m.text, font, rect.w, style.line_wrap),
        fits(m.text.len() as int),
        crate::cursor::valid_cursor(m.infos, m.cursor),
    ensures
        ({
            let m2 = spec_step(font, style, rect, m, ev);
            crate::cursor::valid_cursor(m2.infos, m2.cursor)
        }),
{
    lemma_wrap_coverage(m.text, font, rect.w, style.line_wrap);
    let lp = spec_layout(style, rect);
    let anchor = spec_anchor(m.cursor);
    match ev {
        Event::Press(button) => match button {
            Button::LeftMouse(p) => {
                crate::layout::lemma_queries_yield_valid_index(
                    m.text,
                    font,
                    lp,
                    m.infos,
                    p,
                    anchor,
                    true,
                );
            },
            Button::Keyboard(key, mods) => match key {
                Key::Backspace => {
                    lemma_edit_cursor_valid(
                        m.text,
                        m.infos,
                        m.cursor,
                        Seq::empty(),
                        font,
                        lp,
                        style.line_wrap,
                        style.restrict_to_height,
                    );
                },
                Key::Left | Key::Right => {
                    match m.cursor {
                        Cursor::Idx(idx) => {
                            crate::cursor::lemma_moves_preserve_validity(m.infos, idx);
                        },
                        Cursor::Selection { start: _, end: _ } => {},
                    }
                },
                Key::Up => {
                    crate::layout::lemma_queries_yield_valid_index(
                        m.text,
                        font,
                        lp,
                        m.infos,
                        Point { x: 0, y: 0 },
                        anchor,
                        true,
                    );
                },
                Key::Down => {
                    crate::layout::lemma_queries_yield_valid_index(
                        m.text,
                        font,
                        lp,
                        m.infos,
                        Point { x: 0, y: 0 },
                        anchor,
                        false,
                    );
                },
                Key::A => {
                    if mods.ctrl {
                        crate::cursor::lemma_select_all_valid(m.infos, m.text.len() as int);
                    }
                },
                Key::Return => {
                    lemma_edit_cursor_valid(
                        m.text,
                        m.infos,
                        m.cursor,
                        seq!['\n'],
                        font,
                        lp,
                        style.line_wrap,
                        style.restrict_to_height,
                    );
                },
                Key::E | Key::Other => {},
            },
            Button::Other => {},
        },
        Event::Release(_) => {},
        Event::Text { string, modifiers } => {
            if !(modifiers.ctrl || string@.len() == 0 || is_arrow_glyph(string@)) {
                lemma_edit_cursor_valid(
                    m.text,
                    m.infos,
                    m.cursor,
                    string@,
                    font,
                    lp,
                    style.line_wrap,
                    style.restrict_to_height,
                );
            }
        },
        Event::DragTo { left, to } => {
            if left && m.drag == Option::Some(Drag::Selecting) {
                crate::layout::lemma_queries_yield_valid_index(
                    m.text,
                    font,
                    lp,
                    m.infos,
                    to,
                    anchor,
                    true,
                );
            }
        },
    }
}

/// The cursor-validity invariant holds across a whole cycle's fold.
pub proof fn lemma_run_preserves_cursor_valid<F: FontMetrics>(
    font: F,
    style: Style,
    rect: Rect,
    m: CycleModel,
    events: Seq<Event>,
)
    requires
        m.infos == spec_wrap(m.text, font, rect.w, style.line_wrap),
        fits(m.text.len() as int),
        crate::cursor::valid_cursor(m.infos, m.cursor),
    ensures
        ({
            let m2 = spec_run(font, style, rect, m, events);
            crate::cursor::valid_cursor(m2.infos, m2.cursor)
        }),
    decreases events.len(),
{
    if events.len() > 0 {
        lemma_step_preserves_wf(font, style, rect, m, events[0]);
        lemma_step_preserves_cursor_valid(font, style, rect, m, events[0]);
        lemma_run_preserves_cursor_valid(
            font,
            style,
            rect,
            spec_step(font, style, rect, m, events[0]),
            events.drop_first(),
        );
    }
}

/// The reducer never produces a stale cursor: a cycle that starts with a
/// cursor valid against the wrapping of its text ends with a cursor valid
/// against the descriptors it persists.
pub proof fn lemma_update_cursor_valid<F: FontMetrics>(
    font: F,
    style: Style,
    rect: Rect,
    cursor: Cursor,
    drag: Option<Drag>,
    text: Seq<char>,
    events: Seq<Event>,
)
    requires
        fits(text.len() as int),
        crate::cursor::valid_cursor(spec_wrap(text, font, rect.w, style.line_wrap), cursor),
    ensures
        ({
            let m = spec_update(font, style, rect, cursor, drag, text, events);
            crate::cursor::valid_cursor(m.infos, m.cursor)
        }),
{
    lemma_run_preserves_cursor_valid(
        font,
        style,
        rect,
        CycleModel {
            text: text,
            infos: spec_wrap(text, font, rect.w, style.line_wrap),
            cursor: cursor,
            drag: drag,
            edited: false,
        },
        events,
    );
}

/// A copy of the text buffer.
fn copy_text(text: &Vec<char>) -> (r: Vec<char>)
    ensures
        r@ == text@,
{
    let mut r: Vec<char> = Vec::new();
    let mut i: usize = 0;
    while i < text.len()
        invariant
            i <= text@.len(),
            r@ == text@.subrange(0, i as int),
        decreases text@.len() - i,
    {
        r.push(text[i]);
        proof {
            assert(r@ =~= text@.subrange(0, i + 1));
        }
        i = i + 1;
    }
    proof {
        assert(text@.subrange(0, text@.len() as int) =~= text@);
    }
    r
}

/// Whether a text event's payload is one of the filtered arrow-key glyphs.
fn arrow_glyph(string: &Vec<char>) -> (b: bool)
    ensures
        b == is_arrow_glyph(string@),
{
    if string.len() == 1 {
        let c = string[0];
        c == '\u{f700}' || c == '\u{f701}' || c == '\u{f702}' || c == '\u{f703}'
    } else {
        false
    }
}

/// Run one update cycle: recompute the line descriptors for the given text,
/// fold the cycle's events in arrival order per the transition table, and
/// return the next persisted state together with the new text — `Some` when
/// an edit was applied this cycle, `None` (text untouched) otherwise.
pub fn update<F: FontMetrics>(
    state: &State,
    text: &Vec<char>,
    events: &Vec<Event>,
    font: &F,
    style: &Style,
    rect: &Rect,
) -> (r: (State, Option<Vec<char>>))
    requires
        fits(text@.len() as int),
    ensures
        ({
            let m = spec_update(*font, *style, *rect, state.cursor, state.drag, text@, events@);
            &&& r.0.cursor == m.cursor
            &&& r.0.drag == m.drag
            &&& r.0.line_infos@ == m.infos
            &&& (m.edited ==> r.1 is Some && r.1->Some_0@ == m.text)
            &&& (!m.edited ==> r.1 is None && m.text == text@)
            &&& wf_infos(r.0.line_infos@, m.text.len() as int)
        }),
{
    let lp = TextLayout {
        rect: *rect,
        x_align: style.x_align,
        y_align: style.y_align,
        font_size: style.font_size,
        line_spacing: style.line_spacing,
    };
    let mut infos = wrap_lines(text, font, rect.w, style.line_wrap);
    let mut cursor = state.cursor;
    let mut drag = state.drag;
    let mut cur_text = copy_text(text);
    let mut edited = false;
    proof {
        assert(events@.skip(0) =~= events@);
    }
    let mut e: usize = 0;
    while e < events.len()
        invariant
            e <= events@.len(),
            (lp == spec_layout(*style, *rect)),
            infos@ == spec_wrap(cur_text@, *font, rect.w, style.line_wrap),
            fits(cur_text@.len() as int),
            (spec_update(*font, *style, *rect, state.cursor, state.drag, text@, events@)
                == spec_run(
                *font,
                *style,
                *rect,
                CycleModel {
                    text: cur_text@,
                    infos: infos@,
                    cursor: cursor,
                    drag: drag,
                    edited: edited,
                },
                events@.skip(e as int),
            )),
            !edited ==> cur_text@ == text@,
        decreases events@.len() - e,
    {
        let ghost m0 = CycleModel {
            text: cur_text@,
            infos: infos@,
            cursor: cursor,
            drag: drag,
            edited: edited,
        };
        proof {
            lemma_wrap_coverage(cur_text@, *font, rect.w, style.line_wrap);
            lemma_step_preserves_wf(*font, *style, *rect, m0, events@[e as int]);
        }
        match &events[e] {
            Event::Press(button) => match button {
                Button::LeftMouse(p) => {
                    let idx = nearest_index(&cur_text, &infos, font, &lp, *p);
                    cursor = Cursor::Idx(idx);
                    drag = Some(Drag::Selecting);
                },
                Button::Keyboard(key, mods) => match key {
                    Key::Backspace => {
                        match delete_one(&cursor, &cur_text, &infos, font, &lp, style.line_wrap) {
                            Some(t) => {
                                cur_text = t.0;
                                cursor = t.1;
                                infos = t.2;
                                edited = true;
                            },
                            None => {},
                        }
                    },
                    Key::Left => {
                        if !mods.ctrl {
                            match cursor {
                                Cursor::Idx(idx) => {
                                    cursor = Cursor::Idx(previous(&infos, idx));
                                },
                                Cursor::Selection { start, end } => {
                                    cursor = Cursor::Idx(min_index(start, end));
                                },
                            }
                        }
                    },
                    Key::Right => {
                        if !mods.ctrl {
                            match cursor {
                                Cursor::Idx(idx) => {
                                    cursor = Cursor::Idx(next(&infos, idx));
                                },
                                Cursor::Selection { start, end } => {
                                    cursor = Cursor::Idx(max_index(start, end));
                                },
                            }
                        }
                    },
                    Key::Up => {
                        let anchor = match cursor {
                            Cursor::Idx(idx) => idx,
                            Cursor::Selection { start, end: _ } => start,
                        };
                        cursor = Cursor::Idx(
                            move_vertical(&cur_text, &infos, font, &lp, anchor, true),
                        );
                    },
                    Key::Down => {
                        let anchor = match cursor {
                            Cursor::Idx(idx) => idx,
                            Cursor::Selection { start, end: _ } => start,
                        };
                        cursor = Cursor::Idx(
                            move_vertical(&cur_text, &infos, font, &lp, anchor, false),
                        );
                    },
                    Key::A => {
                        if mods.ctrl {
                            cursor = select_all(&infos, cur_text.len());
                        }
                    },
                    Key::E => {},
                    Key::Return => {
                        let mut nl: Vec<char> = Vec::new();
                        nl.push('\n');
                        proof {
                            assert(nl@ =~= seq!['\n']);
                        }
                        match insert_text(
                            &nl,
                            &cursor,
                            &cur_text,
                            &infos,
                            font,
                            &lp,
                            style.line_wrap,
                            style.restrict_to_height,
                        ) {
                            Some(t) => {
                                cur_text = t.0;
                                cursor = t.1;
                                infos = t.2;
                                edited = true;
                            },
                            None => {},
                        }
                    },
                    Key::Other => {},
                },
                Button::Other => {},
            },
            Event::Release(button) => match button {
                Button::LeftMouse(_) => {
                    drag = None;
                },
                _ => {},
            },
            Event::Text { string, modifiers } => {
                let skip_it = modifiers.ctrl || string.len() == 0 || arrow_glyph(string);
                if !skip_it {
                    match insert_text(
                        string,
                        &cursor,
                        &cur_text,
                        &infos,
                        font,
                        &lp,
                        style.line_wrap,
                        style.restrict_to_height,
                    ) {
                        Some(t) => {
                            cur_text = t.0;
                            cursor = t.1;
                            infos = t.2;
                            edited = true;
                        },
                        None => {},
                    }
                }
            },
            Event::DragTo { left, to } => {
                if *left {
                    match drag {
                        Some(Drag::Selecting) => {
                            let anchor = match cursor {
                                Cursor::Idx(idx) => idx,
                                Cursor::Selection { start, end: _ } => start,
                            };
                            let endi = nearest_index(&cur_text, &infos, font, &lp, *to);
                            cursor = Cursor::Selection { start: anchor, end: endi };
                        },
                        Some(Drag::MoveSelection) => {},
                        None => {},
                    }
                }
            },
        }
        proof {
            let m1 = CycleModel {
                text: cur_text@,
                infos: infos@,
                cursor: cursor,
                drag: drag,
                edited: edited,
            };
            assert(m1 == spec_step(*font, *style, *rect, m0, events@[e as int]));
            assert(events@.skip(e as int)[0] == events@[e as int]);
            assert(events@.skip(e as int).drop_first() =~= events@.skip(e as int + 1));
        }
        e = e + 1;
    }
    proof {
        assert(events@.skip(events@.len() as int) =~= Seq::<Event>::empty());
        lemma_wrap_coverage(cur_text@, *font, rect.w, style.line_wrap);
    }
    let new_state = State { cursor, drag, line_infos: infos };
    if edited {
        (new_state, Some(cur_text))
    } else {
        (new_state, None)
    }
}

impl TextEdit {
    /// Construct a text edit showing `text`, with the default styling.
    pub fn new(text: Vec<char>) -> (r: TextEdit)
        ensures
            r.text@ == text@,
            r.style == spec_default_style(),
    {
        TextEdit {
            text,
            style: Style {
                font_size: 18,
                x_align: Align::Start,
                y_align: Align::Start,
                line_spacing: 1,
                line_wrap: Wrap::Whitespace,
                restrict_to_height: true,
            },
        }
    }

    /// The state a freshly created widget persists: a caret at the origin,
    /// no drag, no descriptors yet.
    pub fn init_state(&self) -> (s: State)
        ensures
            (s.cursor == Cursor::Idx(Index { line: 0, char: 0 })),
            s.drag is None,
            s.line_infos@ == Seq::<LineInfo>::empty(),
    {
        State { cursor: Cursor::Idx(Index { line: 0, char: 0 }), drag: None, line_infos: Vec::new() }
    }

    /// The current styling.
    pub fn style(&self) -> (s: Style)
        ensures
            s == self.style,
    {
        self.style
    }

    /// Set the font size.
    pub fn font_size(self, size: u16) -> (r: Self)
        ensures
            r.text@ == self.text@,
            (r.style == Style { font_size: size, ..self.style }),
    {
        TextEdit { style: Style { font_size: size, ..self.style }, ..self }
    }

    /// Set the horizontal alignment of the text.
    pub fn x_align_text(self, align: Align) -> (r: Self)
        ensures
            r.text@ == self.text@,
            (r.style == Style { x_align: align, ..self.style }),
    {
        TextEdit { style: Style { x_align: align, ..self.style }, ..self }
    }

    /// Set the vertical alignment of the text.
    pub fn y_align_text(self, align: Align) -> (r: Self)
        ensures
            r.text@ == self.text@,
            (r.style == Style { y_align: align, ..self.style }),
    {
        TextEdit { style: Style { y_align: align, ..self.style }, ..self }
    }

    /// Set the way text wraps at the end of a line.
    pub fn line_wrap(self, wrap: Wrap) -> (r: Self)
        ensures
            r.text@ == self.text@,
            (r.style == Style { line_wrap: wrap, ..self.style }),
    {
        TextEdit { style: Style { line_wrap: wrap, ..self.style }, ..self }
    }

    /// Set the vertical space between lines.
    pub fn line_spacing(self, spacing: u16) -> (r: Self)
        ensures
            r.text@ == self.text@,
            (r.style == Style { line_spacing: spacing, ..self.style }),
    {
        TextEdit { style: Style { line_spacing: spacing, ..self.style }, ..self }
    }

    /// Set whether edits that would overflow the rectangle's height are
    /// rejected.
    pub fn restrict_to_height(self, restrict: bool) -> (r: Self)
        ensures
            r.text@ == self.text@,
            (r.style == Style { restrict_to_height: restrict, ..self.style }),
    {
        TextEdit { style: Style { restrict_to_height: restrict, ..self.style }, ..self }
    }

    /// Wrap text at the whitespace that precedes the first width-exceeding
    /// character.  This is the default setting.
    pub fn wrap_by_whitespace(self) -> (r: Self)
        ensures
            r.text@ == self.text@,
            (r.style == Style { line_wrap: Wrap::Whitespace, ..self.style }),
    {
        self.line_wrap(Wrap::Whitespace)
    }

    /// Wrap text at the first width-exceeding character.
    pub fn wrap_by_character(self) -> (r: Self)
        ensures
            r.text@ == self.text@,
            (r.style == Style { line_wrap: Wrap::Character, ..self.style }),
    {
        self.line_wrap(Wrap::Character)
    }

    /// Align the text to the left of the bounding rectangle.
    pub fn align_text_left(self) -> (r: Self)
        ensures
            r.text@ == self.text@,
            (r.style == Style { x_align: Align::Start, ..self.style }),
    {
        self.x_align_text(Align::Start)
    }

    /// Align the text to the horizontal middle of the bounding rectangle.
    pub fn align_text_x_middle(self) -> (r: Self)
        ensures
            r.text@ == self.text@,
            (r.style == Style { x_align: Align::Middle, ..self.style }),
    {
        self.x_align_text(Align::Middle)
    }

    /// Align the text to the right of the bounding rectangle.
    pub fn align_text_right(self) -> (r: Self)
        ensures
            r.text@ == self.text@,
            (r.style == Style { x_align: Align::End, ..self.style }),
    {
        self.x_align_text(Align::End)
    }

    /// Align the text to the bottom of the bounding rectangle.
    pub fn align_text_bottom(self) -> (r: Self)
        ensures
            r.text@ == self.text@,
            (r.style == Style { y_align: Align::End, ..self.style }),
    {
        self.y_align_text(Align::End)
    }

    /// Align the text to the vertical middle of the bounding rectangle.
    pub fn align_text_y_middle(self) -> (r: Self)
        ensures
            r.text@ == self.text@,
            (r.style == Style { y_align: Align::Middle, ..self.style }),
    {
        self.y_align_text(Align::Middle)
    }

    /// Align the text to the top of the bounding rectangle.
    pub fn align_text_top(self) -> (r: Self)
        ensures
            r.text@ == self.text@,
            (r.style == Style { y_align: Align::Start, ..self.style }),
    {
        self.y_align_text(Align::Start)
    }

    /// Align the text to the middle of the bounding rectangle, both ways.
    pub fn align_text_middle(self) -> (r: Self)
        ensures
            r.text@ == self.text@,
            (r.style == Style { x_align: Align::Middle, y_align: Align::Middle, ..self.style }),
    {
        self.align_text_x_middle().align_text_y_middle()
    }
}

} // verus!

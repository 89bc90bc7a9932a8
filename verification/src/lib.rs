//! An in-memory multi-line text-editing core.
//!
//! The crate keeps three representations consistent after every mutation:
//! the raw text (a sequence of Unicode scalar values), the derived
//! line-wrapping metadata, and the cursor/selection indices.  It is organised
//! bottom-up:
//!
//! - [`font`]: the abstract glyph-measuring capability that wrapping depends on;
//! - [`line`]: the line breaker, a pure function from text, width limit and
//!   wrap policy to a sequence of line descriptors;
//! - [`cursor`]: the cursor/selection model and the conversions between
//!   `(line, char)` indices and absolute character counts;
//! - [`layout`]: the index/coordinate mapper (caret positions, nearest-index
//!   queries);
//! - [`edit`]: the edit engine (insertion, deletion, height restriction);
//! - [`text_edit`]: the widget state and the interaction reducer that folds a
//!   cycle's input events into the next state.

pub mod cursor;
pub mod edit;
pub mod font;
pub mod layout;
pub mod line;
pub mod text_edit;

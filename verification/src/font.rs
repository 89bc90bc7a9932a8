use vstd::prelude::*;

verus! {

/// The glyph-measuring capability that line wrapping and caret placement
/// depend on.  A font must be deterministic: the width of a character is a
/// function of the character alone, fixed for the lifetime of the value.
///
/// Widths are in integer layout units (for instance, pixels).  The bound
/// `u16` keeps every per-line sum comfortably inside the integer types the
/// layout code computes with.
pub trait FontMetrics: Sized {
    /// The advance width of `c`, as a mathematical function of `c`.
    spec fn char_width(&self, c: char) -> u16;

    /// Measure one character; the result is exactly `char_width`.
    fn measure(&self, c: char) -> (w: u16)
        ensures
            w == self.char_width(c),
    ;
}

/// A font in which every character has the same advance width: the simplest
/// deterministic metrics provider, sufficient for exercising every layout
/// path.
#[derive(Clone, Copy, Debug, PartialEq, Eq, Structural)]
pub struct MonoFont {
    /// The advance width shared by all characters.
    pub width: u16,
}

impl FontMetrics for MonoFont {
    open spec fn char_width(&self, c: char) -> u16 {
        self.width
    }

    fn measure(&self, c: char) -> (w: u16) {
        self.width
    }
}

} // verus!

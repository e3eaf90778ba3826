//! Positions, image extents and outlines.

use vstd::prelude::*;

verus! {

/// The largest number of rows or columns of a score matrix: one more than the
/// largest image extent.
pub const MAX_SIDE: usize = 0x8000_0000;

/// The top-left corner of a needle placement, in haystack coordinates:
/// `x` is the column, `y` the row.
#[derive(Clone, Copy, Debug, PartialEq, Eq, Structural)]
pub struct Position {
    pub x: i32,
    pub y: i32,
}

/// The size of an image: its row and column counts, neither negative.
#[derive(Clone, Copy, Debug, PartialEq, Eq, Structural)]
pub struct Extent {
    rows: i32,
    cols: i32,
}

impl Extent {
    /// Neither count is negative.
    #[verifier::type_invariant]
    pub open spec fn wf(self) -> bool {
        self.spec_rows() >= 0 && self.spec_cols() >= 0
    }

    /// The row count.
    pub closed spec fn spec_rows(&self) -> i32 {
        self.rows
    }

    /// The column count.
    pub closed spec fn spec_cols(&self) -> i32 {
        self.cols
    }

    /// An extent of the given counts, if neither is negative.
    pub fn new(rows: i32, cols: i32) -> (e: Option<Extent>)
        ensures
            e is Some <==> rows >= 0 && cols >= 0,
            e matches Some(x) ==> x.wf() && x.spec_rows() == rows && x.spec_cols() == cols,
    {
        if rows >= 0 && cols >= 0 {
            Some(Extent { rows, cols })
        } else {
            None
        }
    }

    /// The row count.
    #[verifier::when_used_as_spec(spec_rows)]
    pub fn rows(&self) -> (r: i32)
        ensures
            r == self.spec_rows(),
            r >= 0,
    {
        proof {
            use_type_invariant(self);
        }
        self.rows
    }

    /// The column count.
    #[verifier::when_used_as_spec(spec_cols)]
    pub fn cols(&self) -> (c: i32)
        ensures
            c == self.spec_cols(),
            c >= 0,
    {
        proof {
            use_type_invariant(self);
        }
        self.cols
    }
}

/// A rectangle outline to draw: its top-left corner, its size and the width of
/// its line, all in pixels.
#[derive(Clone, Copy, Debug, PartialEq, Eq, Structural)]
pub struct Outline {
    pub x: i32,
    pub y: i32,
    pub width: i32,
    pub height: i32,
    pub thickness: i32,
}

} // verus!

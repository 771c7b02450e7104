//! Shapes of two-dimensional arrays and how matrix operations combine them.

use vstd::prelude::*;

verus! {

/// The extent of a matrix: `rows` by `cols`. A column vector has `cols == 1`.
#[derive(Clone, Copy, Debug, PartialEq, Eq, Structural)]
pub struct Shape {
    pub rows: usize,
    pub cols: usize,
}

impl Shape {
    /// The shape of a column vector with `rows` entries.
    pub open spec fn column(rows: usize) -> Shape {
        Shape { rows, cols: 1 }
    }

    /// The shape of the empty placeholder that stands at the input layer.
    pub open spec fn empty() -> Shape {
        Shape { rows: 0, cols: 0 }
    }

    /// The shape of the transposed matrix.
    pub open spec fn transposed(self) -> Shape {
        Shape { rows: self.cols, cols: self.rows }
    }

    /// The shape of the matrix product `self · rhs`, defined when the inner
    /// extents agree.
    pub open spec fn product(self, rhs: Shape) -> Option<Shape> {
        if self.cols == rhs.rows {
            Some(Shape { rows: self.rows, cols: rhs.cols })
        } else {
            None
        }
    }

    /// Transposes the shape.
    pub fn t(&self) -> (r: Shape)
        ensures
            r == self.transposed(),
    {
        Shape { rows: self.cols, cols: self.rows }
    }

    /// The shape of `self · rhs`, or `None` when the product is undefined.
    pub fn dot(&self, rhs: &Shape) -> (r: Option<Shape>)
        ensures
            r == self.product(*rhs),
    {
        if self.cols == rhs.rows {
            Some(Shape { rows: self.rows, cols: rhs.cols })
        } else {
            None
        }
    }
}

} // verus!

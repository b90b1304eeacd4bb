use vstd::prelude::*;

verus! {

/// Row and column extents of a two-dimensional array.
///
/// Every value is held in this canonical form: a scalar is 1×1 and a flat
/// sequence of length `n` is an `n`×1 column.
#[derive(Clone, Copy, Debug, PartialEq, Eq, Structural)]
pub struct Shape {
    pub rows: usize,
    pub cols: usize,
}

impl Shape {
    /// Number of cells of an array of this shape.
    pub open spec fn cells(self) -> int {
        self.rows * self.cols
    }

    /// The shape of a bare scalar.
    pub fn scalar() -> (r: Shape)
        ensures
            r == (Shape { rows: 1, cols: 1 }),
    {
        Shape { rows: 1, cols: 1 }
    }

    /// The shape of a flat sequence of `n` values: an `n`×1 column.
    pub fn column(n: usize) -> (r: Shape)
        ensures
            r == (Shape { rows: n, cols: 1 }),
    {
        Shape { rows: n, cols: 1 }
    }

    /// The shape of a `rows`×`cols` array.
    pub fn matrix(rows: usize, cols: usize) -> (r: Shape)
        ensures
            r == (Shape { rows, cols }),
    {
        Shape { rows, cols }
    }

    /// Whether this is the 1×1 shape of a scalar.
    pub fn is_scalar(&self) -> (r: bool)
        ensures
            r == (self.rows == 1 && self.cols == 1),
    {
        self.rows == 1 && self.cols == 1
    }

    /// Whether both shapes have the same number of cells.
    pub fn same_cells(&self, other: &Shape) -> (r: bool)
        ensures
            r == (self.cells() == other.cells()),
    {
        let a: u128 = self.rows as u128;
        let b: u128 = self.cols as u128;
        let c: u128 = other.rows as u128;
        let d: u128 = other.cols as u128;
        assert(a * b <= 0xffff_ffff_ffff_ffffu128 * 0xffff_ffff_ffff_ffffu128) by (nonlinear_arith)
            requires
                a <= 0xffff_ffff_ffff_ffffu128,
                b <= 0xffff_ffff_ffff_ffffu128,
        ;
        assert(c * d <= 0xffff_ffff_ffff_ffffu128 * 0xffff_ffff_ffff_ffffu128) by (nonlinear_arith)
            requires
                c <= 0xffff_ffff_ffff_ffffu128,
                d <= 0xffff_ffff_ffff_ffffu128,
        ;
        a * b == c * d
    }
}

} // verus!

//! A bounded two-dimensional buffer of styled cells with bounds-checked
//! mutation and line-scroll recycling.

use vstd::prelude::*;

use crate::style::{default_symbol, Symbol};

verus! {

/// A rejected grid mutation: the offending coordinate and the bound it
/// overran.
#[derive(Debug, Clone, Copy, PartialEq, Eq, Structural)]
pub enum OutOfBoundsError {
    XOutOfBounds(usize, usize),
    YOutOfBounds(usize, usize),
    IndexOutOfBounds(usize, usize),
}

/// A rejected grid construction: one of the requested dimensions was zero.
#[derive(Debug, Clone, Copy, PartialEq, Eq, Structural)]
pub struct InvalidDimension {
    pub width: usize,
    pub height: usize,
}

/// One endpoint of a flat-index range over the grid's cells.
#[derive(Debug, Clone, Copy)]
pub enum IndexBound {
    Included(usize),
    Excluded(usize),
    Unbounded,
}

/// The first flat index a range starting at `b` covers.
pub open spec fn start_index(b: IndexBound) -> int {
    match b {
        IndexBound::Included(x) => x as int,
        IndexBound::Excluded(x) => x as int + 1,
        IndexBound::Unbounded => 0,
    }
}

/// The first flat index past a range ending at `b`, in a buffer of `len`
/// cells.
pub open spec fn end_index(b: IndexBound, len: int) -> int {
    match b {
        IndexBound::Included(x) => x as int + 1,
        IndexBound::Excluded(x) => x as int,
        IndexBound::Unbounded => len,
    }
}

/// A row of `width` default cells.
pub open spec fn default_row(width: nat) -> Seq<Symbol> {
    Seq::new(width, |i: int| default_symbol())
}

/// A fixed-size grid of styled cells, stored row-major in one flat buffer.
///
/// The cell at `(x, y)` lives at flat index `y * width + x`. The buffer's
/// length is `width * height` at all times; neither dimension changes after
/// construction.
pub struct TextGrid {
    width: usize,
    height: usize,
    grid: Vec<Symbol>,
}

impl TextGrid {
    /// The number of columns.
    pub closed spec fn spec_width(&self) -> usize {
        self.width
    }

    /// The number of rows.
    pub closed spec fn spec_height(&self) -> usize {
        self.height
    }

    /// The cells in row-major order.
    pub closed spec fn cells(&self) -> Seq<Symbol> {
        self.grid@
    }

    /// The buffer invariant: flat length matches the dimensions, and both
    /// dimensions are positive.
    pub open spec fn wf(&self) -> bool {
        &&& self.cells().len() == self.spec_width() * self.spec_height()
        &&& self.spec_width() >= 1
        &&& self.spec_height() >= 1
    }

    /// The cell at column `x`, row `y`.
    pub open spec fn cell_at(&self, x: int, y: int) -> Symbol {
        self.cells()[y * self.spec_width() + x]
    }

    /// Row `y`, as a sequence of `width` cells.
    pub open spec fn row(&self, y: int) -> Seq<Symbol> {
        self.cells().subrange(y * self.spec_width(), (y + 1) * self.spec_width())
    }

    /// Allocates a `width * height` grid of default cells. A zero dimension
    /// is rejected with `InvalidDimension`.
    pub fn new(width: usize, height: usize) -> (r: Result<TextGrid, InvalidDimension>)
        requires
            width * height <= usize::MAX,
        ensures
            match r {
                Ok(g) => {
                    &&& width >= 1 && height >= 1
                    &&& g.wf()
                    &&& g.spec_width() == width
                    &&& g.spec_height() == height
                    &&& forall|i: int| 0 <= i < g.cells().len() ==> g.cells()[i] == default_symbol()
                },
                Err(e) => (width == 0 || height == 0) && e == (InvalidDimension { width, height }),
            },
    {
        if width == 0 || height == 0 {
            return Err(InvalidDimension { width, height });
        }
        let n = width * height;
        let mut grid: Vec<Symbol> = Vec::new();
        let mut i: usize = 0;
        while i < n
            invariant
                i <= n,
                grid@.len() == i,
                forall|j: int| 0 <= j < i ==> grid@[j] == default_symbol(),
            decreases n - i,
        {
            grid.push(Symbol::default());
            i = i + 1;
        }
        Ok(TextGrid { width, height, grid })
    }

    /// The number of columns.
    pub fn width(&self) -> (r: usize)
        ensures
            r == self.spec_width(),
    {
        self.width
    }

    /// The number of rows.
    pub fn height(&self) -> (r: usize)
        ensures
            r == self.spec_height(),
    {
        self.height
    }

    /// Reads the cell at `(x, y)`; out-of-bounds coordinates are rejected,
    /// `x` checked first.
    pub fn get(&self, x: usize, y: usize) -> (r: Result<Symbol, OutOfBoundsError>)
        requires
            self.wf(),
        ensures
            match r {
                Ok(s) => x < self.spec_width() && y < self.spec_height() && s == self.cell_at(
                    x as int,
                    y as int,
                ),
                Err(e) => match e {
                    OutOfBoundsError::XOutOfBounds(a, b) => a == x && b == self.spec_width() && x
                        >= self.spec_width(),
                    OutOfBoundsError::YOutOfBounds(a, b) => x < self.spec_width() && a == y && b
                        == self.spec_height() && y >= self.spec_height(),
                    OutOfBoundsError::IndexOutOfBounds(_, _) => false,
                },
            },
    {
        if x >= self.width {
            return Err(OutOfBoundsError::XOutOfBounds(x, self.width));
        }
        if y >= self.height {
            return Err(OutOfBoundsError::YOutOfBounds(y, self.height));
        }
        let n = self.grid.len();
        proof {
            lemma_flat_index_in_bounds(x as int, y as int, self.spec_width() as int, self.spec_height() as int);
            assert(y * self.spec_width() + x < n);
        }
        Ok(self.grid[y * self.width + x])
    }

    /// Overwrites the cell at `(x, y)`; out-of-bounds coordinates are
    /// rejected, `x` checked first, and leave the buffer unchanged.
    pub fn set_symbol(&mut self, x: usize, y: usize, symbol: Symbol) -> (r: Result<
        (),
        OutOfBoundsError,
    >)
        requires
            old(self).wf(),
        ensures
            final(self).wf(),
            final(self).spec_width() == old(self).spec_width(),
            final(self).spec_height() == old(self).spec_height(),
            match r {
                Ok(()) => x < old(self).spec_width() && y < old(self).spec_height()
                    && final(self).cells() == old(self).cells().update(
                    y * old(self).spec_width() + x,
                    symbol,
                ),
                Err(e) => *final(self) == *old(self) && match e {
                    OutOfBoundsError::XOutOfBounds(a, b) => a == x && b == old(self).spec_width()
                        && x >= old(self).spec_width(),
                    OutOfBoundsError::YOutOfBounds(a, b) => x < old(self).spec_width() && a == y
                        && b == old(self).spec_height() && y >= old(self).spec_height(),
                    OutOfBoundsError::IndexOutOfBounds(_, _) => false,
                },
            },
    {
        if x >= self.width {
            return Err(OutOfBoundsError::XOutOfBounds(x, self.width));
        }
        if y >= self.height {
            return Err(OutOfBoundsError::YOutOfBounds(y, self.height));
        }
        let n = self.grid.len();
        proof {
            lemma_flat_index_in_bounds(x as int, y as int, self.spec_width() as int, self.spec_height() as int);
            assert(y * self.spec_width() + x < n);
        }
        self.grid[y * self.width + x] = symbol;
        Ok(())
    }

    /// Fills the flat index range `[start, end)` (after normalizing the two
    /// bounds) with copies of `symbol`. An endpoint past the buffer's length
    /// is rejected with `IndexOutOfBounds`, the start checked first, and
    /// leaves the buffer unchanged.
    pub fn fill_range(&mut self, start: IndexBound, end: IndexBound, symbol: Symbol) -> (r: Result<
        (),
        OutOfBoundsError,
    >)
        requires
            old(self).wf(),
            start matches IndexBound::Excluded(x) ==> x < usize::MAX,
            end matches IndexBound::Included(x) ==> x < usize::MAX,
            ({
                let len = old(self).cells().len() as int;
                let s = start_index(start);
                let e = end_index(end, len);
                s <= len && e <= len ==> s <= e
            }),
        ensures
            final(self).wf(),
            final(self).spec_width() == old(self).spec_width(),
            final(self).spec_height() == old(self).spec_height(),
            ({
                let len = old(self).cells().len() as int;
                let s = start_index(start);
                let e = end_index(end, len);
                match r {
                    Ok(()) => {
                        &&& s <= len && e <= len
                        &&& final(self).cells().len() == len
                        &&& forall|i: int|
                            0 <= i < len ==> final(self).cells()[i] == if s <= i < e {
                                symbol
                            } else {
                                old(self).cells()[i]
                            }
                    },
                    Err(err) => *final(self) == *old(self) && match err {
                        OutOfBoundsError::IndexOutOfBounds(a, b) => b == len && ((s > len && a == s)
                            || (s <= len && e > len && a == e)),
                        _ => false,
                    },
                }
            }),
    {
        let len = self.grid.len();
        let s = match start {
            IndexBound::Included(x) => x,
            IndexBound::Excluded(x) => x + 1,
            IndexBound::Unbounded => 0,
        };
        if s > len {
            return Err(OutOfBoundsError::IndexOutOfBounds(s, len));
        }
        let e = match end {
            IndexBound::Included(x) => x + 1,
            IndexBound::Excluded(x) => x,
            IndexBound::Unbounded => len,
        };
        if e > len {
            return Err(OutOfBoundsError::IndexOutOfBounds(e, len));
        }
        let mut i = s;
        while i < e
            invariant
                s <= i <= e <= self.grid@.len(),
                self.grid@.len() == old(self).cells().len(),
                self.width == old(self).spec_width(),
                self.height == old(self).spec_height(),
                forall|j: int|
                    0 <= j < self.grid@.len() ==> self.grid@[j] == if s <= j < i {
                        symbol
                    } else {
                        old(self).cells()[j]
                    },
            decreases e - i,
        {
            self.grid[i] = symbol;
            i = i + 1;
        }
        Ok(())
    }

    /// Scrolls the grid one line up: every row takes the contents of the row
    /// below it, and the last row is cleared to default cells. Dimensions and
    /// allocation are untouched.
    pub fn push_row(&mut self)
        requires
            old(self).wf(),
        ensures
            final(self).wf(),
            final(self).spec_width() == old(self).spec_width(),
            final(self).spec_height() == old(self).spec_height(),
            forall|y: int|
                0 <= y < old(self).spec_height() - 1 ==> final(self).row(y) == old(self).row(y + 1),
            final(self).row(old(self).spec_height() - 1) == default_row(
                old(self).spec_width() as nat,
            ),
    {
        let w = self.width;
        let h = self.height;
        let n = self.grid.len();
        let ghost orig = self.grid@;
        let mut y: usize = 0;
        while y < h - 1
            invariant
                old(self).wf(),
                w == old(self).spec_width(),
                h == old(self).spec_height(),
                self.width == w,
                self.height == h,
                y <= h - 1,
                orig == old(self).cells(),
                n == orig.len(),
                self.grid@.len() == n,
                forall|i: int| 0 <= i < y * w ==> self.grid@[i] == orig[i + w],
                forall|i: int| y * w <= i < n ==> self.grid@[i] == orig[i],
            decreases h - 1 - y,
        {
            let mut x: usize = 0;
            while x < w
                invariant
                    old(self).wf(),
                    w == old(self).spec_width(),
                    h == old(self).spec_height(),
                    self.width == w,
                    self.height == h,
                    y < h - 1,
                    x <= w,
                    orig == old(self).cells(),
                    n == orig.len(),
                    self.grid@.len() == n,
                    forall|i: int| 0 <= i < y * w + x ==> self.grid@[i] == orig[i + w],
                    forall|i: int| y * w + x <= i < n ==> self.grid@[i] == orig[i],
                decreases w - x,
            {
                proof {
                    lemma_flat_index_in_bounds(x as int, y as int, w as int, h as int);
                    lemma_flat_index_in_bounds(x as int, y as int + 1, w as int, h as int);
                    assert((y as int + 1) * w == y as int * w + w) by (nonlinear_arith);
                }
                let src = self.grid[(y + 1) * w + x];
                self.grid[y * w + x] = src;
                x = x + 1;
            }
            proof {
                assert((y as int + 1) * w == y as int * w + w) by (nonlinear_arith);
            }
            y = y + 1;
        }
        proof {
            assert((h as int - 1) * w + w == h as int * w) by (nonlinear_arith);
            assert((h as int - 1) * w >= 0) by (nonlinear_arith)
                requires h as int >= 1, w as int >= 0;
            assert(w * h == h * w) by (nonlinear_arith);
        }
        let base = n - w;
        proof {
            assert(base == (h as int - 1) * w);
        }
        let mut x: usize = 0;
        while x < w
            invariant
                old(self).wf(),
                w == old(self).spec_width(),
                h == old(self).spec_height(),
                self.width == w,
                self.height == h,
                x <= w,
                base == (h - 1) * w,
                base + w == n,
                orig == old(self).cells(),
                n == orig.len(),
                self.grid@.len() == n,
                forall|i: int| 0 <= i < base ==> self.grid@[i] == orig[i + w],
                forall|i: int| base <= i < base + x ==> self.grid@[i] == default_symbol(),
                forall|i: int| base + x <= i < n ==> self.grid@[i] == orig[i],
            decreases w - x,
        {
            self.grid[base + x] = Symbol::default();
            x = x + 1;
        }
        proof {
            let fw = w as int;
            let fh = h as int;
            assert forall|yy: int| 0 <= yy < fh - 1 implies self.row(yy) == old(self).row(yy + 1) by {
                assert((yy + 1) * fw == yy * fw + fw) by (nonlinear_arith);
                assert((yy + 2) * fw == (yy + 1) * fw + fw) by (nonlinear_arith);
                assert((yy + 1) * fw <= (fh - 1) * fw) by (nonlinear_arith)
                    requires yy + 1 <= fh - 1, fw >= 0;
                assert(yy * fw >= 0) by (nonlinear_arith)
                    requires yy >= 0, fw >= 0;
                assert(self.row(yy) =~= old(self).row(yy + 1));
            }
            assert(self.row(fh - 1) =~= default_row(w as nat));
        }
    }

    /// The grid's rows, top to bottom, each a vector of `width` cells.
    pub fn rows(&self) -> (r: Vec<Vec<Symbol>>)
        requires
            self.wf(),
        ensures
            r@.len() == self.spec_height(),
            forall|y: int| 0 <= y < self.spec_height() ==> r@[y]@ == self.row(y),
    {
        let w = self.width;
        let h = self.height;
        let n = self.grid.len();
        let mut r: Vec<Vec<Symbol>> = Vec::new();
        let mut y: usize = 0;
        while y < h
            invariant
                self.wf(),
                w == self.spec_width(),
                h == self.spec_height(),
                n == self.cells().len(),
                y <= h,
                r@.len() == y,
                forall|i: int| 0 <= i < y ==> r@[i]@ == self.row(i),
            decreases h - y,
        {
            let mut row: Vec<Symbol> = Vec::new();
            let mut x: usize = 0;
            while x < w
                invariant
                    self.wf(),
                    w == self.spec_width(),
                    h == self.spec_height(),
                    n == self.cells().len(),
                    y < h,
                    x <= w,
                    row@.len() == x,
                    forall|j: int| 0 <= j < x ==> row@[j] == self.cell_at(j, y as int),
                decreases w - x,
            {
                proof {
                    lemma_flat_index_in_bounds(x as int, y as int, w as int, h as int);
                    assert(y * (w as int) + x < n);
                }
                row.push(self.grid[y * w + x]);
                x = x + 1;
            }
            proof {
                assert((y as int + 1) * w == y as int * w + w) by (nonlinear_arith);
                assert((y as int + 1) * w <= h as int * w) by (nonlinear_arith)
                    requires y as int + 1 <= h as int, w as int >= 0;
                assert(y as int * w >= 0) by (nonlinear_arith)
                    requires y as int >= 0, w as int >= 0;
                assert(row@ =~= self.row(y as int));
            }
            r.push(row);
            y = y + 1;
        }
        r
    }
}

/// Writing a cell and then reading the same position yields exactly the
/// written cell, and no other position changes. Together with
/// `set_symbol`'s error contract — which leaves the buffer untouched — this
/// is the grid's read-after-write law.
pub proof fn lemma_set_then_get(g0: TextGrid, g1: TextGrid, x: usize, y: usize, s: Symbol)
    requires
        g0.wf(),
        x < g0.spec_width(),
        y < g0.spec_height(),
        g1.spec_width() == g0.spec_width(),
        g1.spec_height() == g0.spec_height(),
        g1.cells() == g0.cells().update(y * g0.spec_width() + x, s),
    ensures
        g1.cell_at(x as int, y as int) == s,
        forall|i: int, j: int|
            0 <= i < g0.spec_width() && 0 <= j < g0.spec_height() && !(i == x && j == y)
                ==> g1.cell_at(i, j) == g0.cell_at(i, j),
{
    let w = g0.spec_width() as int;
    let h = g0.spec_height() as int;
    lemma_flat_index_in_bounds(x as int, y as int, w, h);
    assert forall|i: int, j: int|
        0 <= i < w && 0 <= j < h && !(i == x && j == y) implies g1.cell_at(i, j) == g0.cell_at(
        i,
        j,
    ) by {
        lemma_flat_index_in_bounds(i, j, w, h);
        assert(j * w + i != y * w + x) by (nonlinear_arith)
            requires
                0 <= i < w,
                0 <= x < w,
                j >= 0,
                y >= 0,
                !(i == x && j == y);
    }
}

/// A cell's row-major flat index lies inside the buffer.
proof fn lemma_flat_index_in_bounds(x: int, y: int, w: int, h: int)
    requires
        0 <= x < w,
        0 <= y < h,
    ensures
        0 <= y * w + x < w * h,
{
    assert(y * w + x < w * h) by (nonlinear_arith)
        requires 0 <= x < w, 0 <= y < h;
    assert(y * w >= 0) by (nonlinear_arith)
        requires y >= 0, w >= 0;
}

/// A borrowed grid, packaged for embedding in a widget tree.
pub struct Textgrid<'a> {
    grid: &'a TextGrid,
}

impl<'a> Textgrid<'a> {
    /// The grid this widget draws.
    pub closed spec fn spec_grid(&self) -> &'a TextGrid {
        self.grid
    }

    /// Wraps a borrowed grid.
    pub fn new(grid: &'a TextGrid) -> (r: Self)
        ensures
            r.spec_grid() == grid,
    {
        Textgrid { grid }
    }
}

} // verus!

use vstd::prelude::*;

use crate::cell::{Cell, StyleFlags};
use crate::region::{Region, PAGE_HEIGHT, PAGE_WIDTH};

verus! {

/// Number of cells on a page: 160 columns by 51 rows, row by row.
pub const GRID_LEN: usize = 8160;

/// Position of column `x` of row `y` in the row-major grid.
pub open spec fn cell_index(x: int, y: int) -> int {
    y * PAGE_WIDTH + x
}

/// The grid after writing `text` from column `x` of row `y`.
///
/// Characters that would fall at or beyond column 160 are dropped, and a row
/// at or beyond 51 leaves the grid unchanged.
pub open spec fn written(grid: Seq<Cell>, x: int, y: int, text: Seq<char>, style: StyleFlags) -> Seq<
    Cell,
> {
    Seq::new(
        grid.len(),
        |k: int|
            if 0 <= y < PAGE_HEIGHT && cell_index(x, y) <= k < cell_index(x, y) + text.len() && k
                < cell_index(PAGE_WIDTH as int, y) {
                Cell::of_char(text[k - cell_index(x, y)], style)
            } else {
                grid[k]
            },
    )
}

/// A write that starts right of the last column or below the last row changes nothing.
pub proof fn lemma_write_outside_is_dropped(grid: Seq<Cell>, x: int, y: int, text: Seq<char>, style: StyleFlags)
    requires
        x >= PAGE_WIDTH || y >= PAGE_HEIGHT || y < 0,
    ensures
        written(grid, x, y, text, style) == grid,
{
    assert(written(grid, x, y, text, style) =~= grid);
}

/// Outside the rectangle at (`x`, `y`) of size `w` by `h`, `after` holds the same cells as `before`.
pub open spec fn same_outside(before: Seq<Cell>, after: Seq<Cell>, x: int, y: int, w: int, h: int) -> bool {
    &&& after.len() == before.len()
    &&& forall|cx: int, cy: int|
        0 <= cx < PAGE_WIDTH && 0 <= cy < PAGE_HEIGHT && !(x <= cx < x + w && y <= cy < y + h)
            ==> #[trigger] after[cell_index(cx, cy)] == before[cell_index(cx, cy)]
}

/// Outside `region`, `after` holds the same cells as `before`.
pub open spec fn inside_only(before: Seq<Cell>, after: Seq<Cell>, region: Region) -> bool {
    same_outside(
        before,
        after,
        region.spec_x() as int,
        region.spec_y() as int,
        region.spec_width() as int,
        region.spec_height() as int,
    )
}

/// A write that lies inside a rectangle of the page leaves the rest alone.
pub proof fn lemma_written_inside(
    grid: Seq<Cell>,
    x: int,
    y: int,
    text: Seq<char>,
    style: StyleFlags,
    rx: int,
    ry: int,
    rw: int,
    rh: int,
)
    requires
        grid.len() == GRID_LEN,
        0 <= rx <= x,
        x + text.len() <= rx + rw || x >= PAGE_WIDTH,
        rx + rw <= PAGE_WIDTH,
        ry <= y < ry + rh,
    ensures
        same_outside(grid, written(grid, x, y, text, style), rx, ry, rw, rh),
{
    let g1 = written(grid, x, y, text, style);
    assert forall|cx: int, cy: int|
        0 <= cx < PAGE_WIDTH && 0 <= cy < PAGE_HEIGHT && !(rx <= cx < rx + rw && ry <= cy < ry
            + rh) implies #[trigger] g1[cell_index(cx, cy)] == grid[cell_index(cx, cy)] by {
        let k = cell_index(cx, cy);
        assert(0 <= k < GRID_LEN);
        if 0 <= y < PAGE_HEIGHT && cell_index(x, y) <= k < cell_index(x, y) + text.len() && k
            < cell_index(PAGE_WIDTH as int, y) {
            assert(cy == y);
            assert(false);
        }
    }
}

/// Being unchanged outside a rectangle carries over a chain of steps.
pub proof fn lemma_same_outside_trans(
    a: Seq<Cell>,
    b: Seq<Cell>,
    c: Seq<Cell>,
    x: int,
    y: int,
    w: int,
    h: int,
)
    requires
        same_outside(a, b, x, y, w, h),
        same_outside(b, c, x, y, w, h),
    ensures
        same_outside(a, c, x, y, w, h),
{
    assert forall|cx: int, cy: int|
        0 <= cx < PAGE_WIDTH && 0 <= cy < PAGE_HEIGHT && !(x <= cx < x + w && y <= cy < y + h)
            implies #[trigger] c[cell_index(cx, cy)] == a[cell_index(cx, cy)] by {
        assert(b[cell_index(cx, cy)] == a[cell_index(cx, cy)]);
    }
}

/// Unchanged outside a rectangle means unchanged outside any larger one.
pub proof fn lemma_same_outside_widen(
    a: Seq<Cell>,
    b: Seq<Cell>,
    x: int,
    y: int,
    w: int,
    h: int,
    x2: int,
    y2: int,
    w2: int,
    h2: int,
)
    requires
        same_outside(a, b, x, y, w, h),
        x2 <= x,
        y2 <= y,
        x + w <= x2 + w2,
        y + h <= y2 + h2,
    ensures
        same_outside(a, b, x2, y2, w2, h2),
{
    assert forall|cx: int, cy: int|
        0 <= cx < PAGE_WIDTH && 0 <= cy < PAGE_HEIGHT && !(x2 <= cx < x2 + w2 && y2 <= cy < y2
            + h2) implies #[trigger] b[cell_index(cx, cy)] == a[cell_index(cx, cy)] by {
    }
}

/// `n` copies of `ch`.
pub open spec fn repeat_char(ch: char, n: nat) -> Seq<char> {
    Seq::new(n, |i: int| ch)
}

/// The grid after filling `height` rows of `width` columns from (`x`, `y`) with `ch`.
pub open spec fn filled(
    grid: Seq<Cell>,
    x: int,
    y: int,
    width: nat,
    height: nat,
    ch: char,
    style: StyleFlags,
) -> Seq<Cell>
    decreases height,
{
    if height == 0 {
        grid
    } else {
        written(
            filled(grid, x, y, width, (height - 1) as nat, ch, style),
            x,
            y + height - 1,
            repeat_char(ch, width),
            style,
        )
    }
}

/// The grid of a fresh page: every cell blank.
pub open spec fn blank_grid() -> Seq<Cell> {
    Seq::new(GRID_LEN as nat, |k: int| Cell::spec_empty())
}

/// One row of a grid.
pub open spec fn grid_row(grid: Seq<Cell>, y: int) -> Seq<Cell> {
    grid.subrange(cell_index(0, y), cell_index(PAGE_WIDTH as int, y))
}

/// A frozen 160 by 51 page.
#[derive(Debug)]
pub struct Page {
    cells: Vec<Cell>,
}

impl Page {
    #[verifier::type_invariant]
    spec fn full_grid(self) -> bool {
        self.cells@.len() == GRID_LEN
    }

    /// The page's cells, row by row.
    pub closed spec fn grid(&self) -> Seq<Cell> {
        self.cells@
    }

    /// Starts a new, blank page.
    pub fn builder() -> (b: PageBuilder)
        ensures
            b.grid() == blank_grid(),
    {
        PageBuilder::new()
    }

    /// The number of cells, which is always 160 times 51.
    pub fn grid_len(&self) -> (n: usize)
        ensures
            n == GRID_LEN,
            self.grid().len() == GRID_LEN,
    {
        proof {
            use_type_invariant(self);
        }
        self.cells.len()
    }

    /// The cell at index `i` of the row-major grid.
    pub fn cell_at(&self, i: usize) -> (c: Cell)
        requires
            i < self.grid().len(),
        ensures
            c == self.grid()[i as int],
    {
        self.cells[i]
    }

    /// The cell at column `x` of row `y`, or `None` outside the page.
    pub fn get_cell(&self, x: u16, y: u16) -> (r: Option<Cell>)
        ensures
            x < PAGE_WIDTH && y < PAGE_HEIGHT ==> r == Some(self.grid()[cell_index(x as int, y as int)]),
            !(x < PAGE_WIDTH && y < PAGE_HEIGHT) ==> r is None,
    {
        proof {
            use_type_invariant(self);
        }
        if x < PAGE_WIDTH && y < PAGE_HEIGHT {
            Some(self.cells[y as usize * 160 + x as usize])
        } else {
            None
        }
    }

    /// A copy of the grid as 51 rows of 160 cells.
    pub fn cells(&self) -> (rows: Vec<Vec<Cell>>)
        ensures
            rows@.len() == PAGE_HEIGHT,
            forall|y: int| 0 <= y < PAGE_HEIGHT ==> #[trigger] rows@[y]@ == grid_row(self.grid(), y),
    {
        proof {
            use_type_invariant(self);
        }
        let mut rows: Vec<Vec<Cell>> = Vec::new();
        let mut y: usize = 0;
        while y < 51
            invariant
                y <= 51,
                self.cells@.len() == GRID_LEN,
                rows@.len() == y,
                forall|r: int| 0 <= r < y ==> #[trigger] rows@[r]@ == grid_row(self.grid(), r),
            decreases 51 - y,
        {
            let mut row: Vec<Cell> = Vec::new();
            let mut x: usize = 0;
            while x < 160
                invariant
                    x <= 160,
                    y < 51,
                    self.cells@.len() == GRID_LEN,
                    row@ == self.cells@.subrange(y * 160, y * 160 + x),
                decreases 160 - x,
            {
                row.push(self.cells[y * 160 + x]);
                x = x + 1;
                assert(row@ =~= self.cells@.subrange(y * 160, y * 160 + x));
            }
            rows.push(row);
            y = y + 1;
        }
        rows
    }
}

impl Clone for Page {
    fn clone(&self) -> (p: Page)
        ensures
            p.grid() == self.grid(),
    {
        proof {
            use_type_invariant(self);
        }
        let cells = self.cells.clone();
        assert(cells@ =~= self.cells@);
        Page { cells }
    }
}

/// The writable phase of a page; `build` freezes it.
pub struct PageBuilder {
    cells: Vec<Cell>,
}

impl PageBuilder {
    #[verifier::type_invariant]
    spec fn full_grid(self) -> bool {
        self.cells@.len() == GRID_LEN
    }

    /// The cells written so far, row by row.
    pub closed spec fn grid(&self) -> Seq<Cell> {
        self.cells@
    }

    /// A builder whose cells are all blank.
    pub fn new() -> (b: PageBuilder)
        ensures
            b.grid() == blank_grid(),
    {
        let mut cells: Vec<Cell> = Vec::new();
        let mut i: usize = 0;
        while i < GRID_LEN
            invariant
                i <= GRID_LEN,
                cells@ == Seq::new(i as nat, |k: int| Cell::spec_empty()),
            decreases GRID_LEN - i,
        {
            cells.push(Cell::empty());
            i = i + 1;
            assert(cells@ =~= Seq::new(i as nat, |k: int| Cell::spec_empty()));
        }
        PageBuilder { cells }
    }

    /// The number of cells, which is always 160 times 51.
    pub fn grid_len(&self) -> (n: usize)
        ensures
            n == GRID_LEN,
            self.grid().len() == GRID_LEN,
    {
        proof {
            use_type_invariant(self);
        }
        self.cells.len()
    }

    /// The cell at column `x` of row `y`, or `None` outside the page.
    pub fn get_cell(&self, x: u16, y: u16) -> (r: Option<Cell>)
        ensures
            x < PAGE_WIDTH && y < PAGE_HEIGHT ==> r == Some(self.grid()[cell_index(x as int, y as int)]),
            !(x < PAGE_WIDTH && y < PAGE_HEIGHT) ==> r is None,
    {
        proof {
            use_type_invariant(self);
        }
        if x < PAGE_WIDTH && y < PAGE_HEIGHT {
            Some(self.cells[y as usize * 160 + x as usize])
        } else {
            None
        }
    }

    /// Writes one character; outside the page the write is silently dropped.
    pub fn write_at(&mut self, x: u16, y: u16, ch: char, style: StyleFlags)
        ensures
            final(self).grid() == written(old(self).grid(), x as int, y as int, seq![ch], style),
    {
        proof {
            use_type_invariant(&*self);
        }
        if x < PAGE_WIDTH && y < PAGE_HEIGHT {
            let i = y as usize * 160 + x as usize;
            self.cells[i] = Cell::new(ch, style);
        }
        assert(self.cells@ =~= written(old(self).grid(), x as int, y as int, seq![ch], style));
    }

    /// Writes `text` from (`x`, `y`); what passes column 159 is silently dropped.
    pub fn write_str(&mut self, x: u16, y: u16, text: &str, style: StyleFlags)
        ensures
            final(self).grid() == written(old(self).grid(), x as int, y as int, text@, style),
    {
        proof {
            use_type_invariant(&*self);
        }
        let ghost g0 = self.cells@;
        let mut current_x: u16 = x;
        let mut done: bool = false;
        for ch in it: text.chars()
            invariant
                it.seq() == text@,
                self.cells@.len() == GRID_LEN,
                g0.len() == GRID_LEN,
                !done ==> current_x == x + it.index(),
                !done ==> self.cells@ == written(g0, x as int, y as int, text@.take(it.index() as int), style),
                done ==> self.cells@ == written(g0, x as int, y as int, text@, style),
        {
            if !done {
                if current_x >= PAGE_WIDTH {
                    done = true;
                    assert(self.cells@ =~= written(g0, x as int, y as int, text@, style));
                } else {
                    self.write_at(current_x, y, ch, style);
                    current_x = current_x + 1;
                    assert(self.cells@ =~= written(g0, x as int, y as int, text@.take(it.index() + 1), style));
                }
            }
        }
        assert(text@.take(text@.len() as int) =~= text@);
    }

    /// Writes the first `count` characters of `chars` from (`x`, `y`); what
    /// passes column 159 is dropped.
    pub fn write_chars(&mut self, x: u16, y: u16, chars: &Vec<char>, count: usize, style: StyleFlags)
        requires
            count <= chars@.len(),
        ensures
            final(self).grid() == written(old(self).grid(), x as int, y as int, chars@.take(count as int), style),
    {
        proof {
            use_type_invariant(&*self);
        }
        let ghost g0 = self.cells@;
        let mut i: usize = 0;
        while i < count
            invariant
                count <= chars@.len(),
                i <= count,
                g0 == old(self).grid(),
                g0.len() == GRID_LEN,
                self.cells@.len() == GRID_LEN,
                self.cells@ == written(g0, x as int, y as int, chars@.take(i as int), style),
            decreases count - i,
        {
            if i < 160 && (x as usize) < 160 - i {
                self.write_at(x + i as u16, y, chars[i], style);
            }
            i = i + 1;
            assert(self.cells@ =~= written(g0, x as int, y as int, chars@.take(i as int), style));
        }
    }

    /// Fills every cell of `region` with `ch`.
    pub fn fill_region(&mut self, region: Region, ch: char, style: StyleFlags)
        ensures
            final(self).grid() == filled(
                old(self).grid(),
                region.spec_x() as int,
                region.spec_y() as int,
                region.spec_width() as nat,
                region.spec_height() as nat,
                ch,
                style,
            ),
    {
        proof {
            use_type_invariant(&*self);
        }
        let x0 = region.x();
        let y0 = region.y();
        let w = region.width();
        let h = region.height();
        let ghost g0 = self.cells@;
        let mut r: u16 = 0;
        while r < h
            invariant
                0 < w && 0 < h && x0 + w <= 160 && y0 + h <= 51,
                r <= h,
                self.cells@.len() == GRID_LEN,
                self.cells@ == filled(g0, x0 as int, y0 as int, w as nat, r as nat, ch, style),
            decreases h - r,
        {
            let ghost before = self.cells@;
            let mut c: u16 = 0;
            while c < w
                invariant
                    0 < w && 0 < h && x0 + w <= 160 && y0 + h <= 51,
                    r < h,
                    c <= w,
                    self.cells@.len() == GRID_LEN,
                    before.len() == GRID_LEN,
                    self.cells@ == written(before, x0 as int, (y0 + r) as int, repeat_char(ch, c as nat), style),
                decreases w - c,
            {
                self.write_at(x0 + c, y0 + r, ch, style);
                c = c + 1;
                assert(self.cells@ =~= written(before, x0 as int, (y0 + r) as int, repeat_char(ch, c as nat), style));
            }
            r = r + 1;
        }
    }

    /// Freezes the builder into an immutable page.
    pub fn build(self) -> (p: Page)
        ensures
            p.grid() == self.grid(),
    {
        proof {
            use_type_invariant(&self);
        }
        Page { cells: self.cells }
    }
}

} // verus!

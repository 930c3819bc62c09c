//! A fixed-size rectangular grid of cells, stored row-major in one flat
//! buffer, with bounded access, neighbor queries and the next-generation
//! transform of Conway's Game of Life.

use vstd::prelude::*;

use crate::cell::{Cell, LocatedCell, Position};

verus! {

/// A rectangular grid of cells. The buffer holds exactly
/// `width * height` cells, row-major: the cell at (x, y) lives at index
/// `y * width + x`. A grid with either dimension 0 holds an empty buffer and
/// has no valid positions.
#[derive(Clone, Debug, PartialEq)]
pub struct World {
    pub width: usize,
    pub height: usize,
    pub cells: Vec<Cell>,
}

/// Conway's rule for one cell: an alive cell survives exactly when it has two
/// or three live neighbors; a dead cell is born exactly when it has three.
pub open spec fn next_cell(c: Cell, live: int) -> Cell {
    if c.is_alive() {
        if 2 <= live && live <= 3 {
            Cell::Alive
        } else {
            Cell::Dead
        }
    } else {
        if live == 3 {
            Cell::Alive
        } else {
            Cell::Dead
        }
    }
}

/// The row-major buffer index of an in-bounds coordinate lies within the
/// buffer, and distinct in-bounds coordinates have distinct indices.
pub proof fn lemma_row_major_index(w: int, h: int, x1: int, y1: int, x2: int, y2: int)
    by (nonlinear_arith)
    requires
        0 <= x1 < w,
        0 <= y1 < h,
        0 <= x2 < w,
        0 <= y2 < h,
    ensures
        0 <= y1 * w + x1 < w * h,
        y1 * w + x1 == y2 * w + x2 ==> x1 == x2 && y1 == y2,
        y1 < y2 || (y1 == y2 && x1 < x2) ==> y1 * w + x1 < y2 * w + x2,
{
}

impl World {
    /// The grid's single invariant: the buffer length is exactly
    /// `width * height`.
    pub open spec fn wf(self) -> bool {
        self.cells@.len() == self.width * self.height
    }

    /// Whether (x, y) is a valid coordinate of this grid.
    pub open spec fn in_bounds(self, x: int, y: int) -> bool {
        0 <= x < self.width && 0 <= y < self.height
    }

    /// The cell stored at the in-bounds coordinate (x, y).
    pub open spec fn cell_at(self, x: int, y: int) -> Cell {
        self.cells@[y * self.width + x]
    }

    /// Every in-bounds cell of this grid is dead.
    pub open spec fn all_dead(self) -> bool {
        forall|x: int, y: int| self.in_bounds(x, y) ==> self.cell_at(x, y) == Cell::Dead
    }

    /// `other` holds the same cell at every in-bounds coordinate of `self`.
    pub open spec fn same_cells(self, other: World) -> bool {
        &&& other.width == self.width
        &&& other.height == self.height
        &&& forall|x: int, y: int|
            self.in_bounds(x, y) ==> other.cell_at(x, y) == self.cell_at(x, y)
    }

    /// `next` is one generation after `self`: same dimensions, and every cell
    /// follows Conway's rule applied to `self`'s neighbor counts.
    pub open spec fn steps_to(self, next: World) -> bool {
        &&& next.width == self.width
        &&& next.height == self.height
        &&& forall|x: int, y: int|
            self.in_bounds(x, y) ==> next.cell_at(x, y) == next_cell(
                self.cell_at(x, y),
                self.spec_live_neighbors(x, y),
            )
    }

    /// The neighbor of (x, y) in direction (dx, dy) exists and is alive.
    /// A displacement that leaves the grid counts as no live neighbor.
    pub open spec fn nbr_alive(self, x: int, y: int, dx: int, dy: int) -> bool {
        self.in_bounds(x + dx, y + dy) && self.cell_at(x + dx, y + dy).is_alive()
    }

    /// 1 when the neighbor of (x, y) in direction (dx, dy) is alive, else 0.
    pub open spec fn nbr_ind(self, x: int, y: int, dx: int, dy: int) -> int {
        if self.nbr_alive(x, y, dx, dy) {
            1
        } else {
            0
        }
    }

    /// How many of the eight Moore neighbors of (x, y) are alive. Kept opaque
    /// so that callers reason about the count as one value; proofs that need
    /// the eight summands reveal it.
    #[verifier::opaque]
    pub open spec fn spec_live_neighbors(self, x: int, y: int) -> int {
        self.nbr_ind(x, y, -1, -1) + self.nbr_ind(x, y, 0, -1) + self.nbr_ind(x, y, 1, -1)
            + self.nbr_ind(x, y, -1, 0) + self.nbr_ind(x, y, 1, 0) + self.nbr_ind(x, y, -1, 1)
            + self.nbr_ind(x, y, 0, 1) + self.nbr_ind(x, y, 1, 1)
    }

    /// Constructs a grid of the given dimensions with every cell dead. When
    /// the cell count is 0 the buffer is empty.
    pub fn new(width: usize, height: usize) -> (r: World)
        requires
            width * height <= usize::MAX,
        ensures
            r.wf(),
            r.width == width,
            r.height == height,
            r.all_dead(),
    {
        let size = width * height;
        let mut cells: Vec<Cell> = Vec::new();
        let mut n: usize = 0;
        while n < size
            invariant
                cells@.len() == n,
                n <= size,
                forall|i: int| 0 <= i < n ==> cells@[i] == Cell::Dead,
            decreases size - n,
        {
            cells.push(Cell::Dead);
            n = n + 1;
        }
        let r = World { width, height, cells };
        proof {
            assert forall|x: int, y: int| r.in_bounds(x, y) implies r.cell_at(x, y)
                == Cell::Dead by {
                lemma_row_major_index(width as int, height as int, x, y, x, y);
            }
        }
        r
    }

    /// The grid's width.
    pub fn width(&self) -> (r: usize)
        ensures
            r == self.width,
    {
        self.width
    }

    /// The grid's height.
    pub fn height(&self) -> (r: usize)
        ensures
            r == self.height,
    {
        self.height
    }

    /// Bounded read access: the cell at `position`, or `None` exactly when
    /// `position` is out of bounds. Never panics.
    pub fn get(&self, position: (usize, usize)) -> (r: Option<Cell>)
        requires
            self.wf(),
        ensures
            r is None <==> !self.in_bounds(position.0 as int, position.1 as int),
            r matches Some(c) ==> c == self.cell_at(position.0 as int, position.1 as int),
    {
        let (x, y) = position;
        if x < self.width && y < self.height {
            proof {
                lemma_row_major_index(
                    self.width as int,
                    self.height as int,
                    x as int,
                    y as int,
                    x as int,
                    y as int,
                );
            }
            let _len = self.cells.len();
            Some(self.cells[y * self.width + x])
        } else {
            None
        }
    }

    /// Bounded write access: stores `cell` at `position` and reports whether
    /// the position was in bounds; an out-of-bounds write changes nothing.
    pub fn set(&mut self, position: (usize, usize), cell: Cell) -> (ok: bool)
        requires
            old(self).wf(),
        ensures
            final(self).wf(),
            final(self).width == old(self).width,
            final(self).height == old(self).height,
            ok <==> old(self).in_bounds(position.0 as int, position.1 as int),
            ok ==> final(self).cell_at(position.0 as int, position.1 as int) == cell,
            ok ==> forall|x: int, y: int|
                old(self).in_bounds(x, y) && !(x == position.0 && y == position.1)
                    ==> final(self).cell_at(x, y) == old(self).cell_at(x, y),
            !ok ==> *final(self) == *old(self),
    {
        let (x, y) = position;
        if x < self.width && y < self.height {
            proof {
                lemma_row_major_index(
                    self.width as int,
                    self.height as int,
                    x as int,
                    y as int,
                    x as int,
                    y as int,
                );
            }
            let _len = self.cells.len();
            let index = y * self.width + x;
            self.cells.set(index, cell);
            proof {
                assert forall|xx: int, yy: int|
                    old(self).in_bounds(xx, yy) && !(xx == x && yy == y)
                    implies final(self).cell_at(xx, yy) == old(self).cell_at(xx, yy) by {
                    lemma_row_major_index(
                        self.width as int,
                        self.height as int,
                        xx,
                        yy,
                        x as int,
                        y as int,
                    );
                }
            }
            true
        } else {
            false
        }
    }

    /// Whether the neighbor of `pos` in the given direction is alive. A
    /// displacement that leaves the grid in any direction, negative
    /// coordinates included, yields `false` rather than an error.
    pub fn has_live_neighbor(&self, pos: (usize, usize), position: Position) -> (r: bool)
        requires
            self.wf(),
        ensures
            r == self.nbr_alive(
                pos.0 as int,
                pos.1 as int,
                position.spec_offset().0,
                position.spec_offset().1,
            ),
    {
        let (x, y) = pos;
        let (dx, dy) = position.offset();
        if (dx < 0 && x == 0) || (dy < 0 && y == 0) || (dx > 0 && x == usize::MAX) || (dy > 0
            && y == usize::MAX) {
            return false;
        }
        let nx = if dx < 0 {
            x - 1
        } else if dx > 0 {
            x + 1
        } else {
            x
        };
        let ny = if dy < 0 {
            y - 1
        } else if dy > 0 {
            y + 1
        } else {
            y
        };
        match self.get((nx, ny)) {
            Some(cell) => cell.alive(),
            None => false,
        }
    }

    /// How many of the eight Moore neighbors of `pos` are alive; at most 8.
    pub fn live_neighbors(&self, pos: (usize, usize)) -> (r: usize)
        requires
            self.wf(),
        ensures
            r == self.spec_live_neighbors(pos.0 as int, pos.1 as int),
            r <= 8,
    {
        proof {
            reveal(World::spec_live_neighbors);
        }
        let mut count: usize = 0;
        if self.has_live_neighbor(pos, Position::TopLeft) {
            count = count + 1;
        }
        if self.has_live_neighbor(pos, Position::Top) {
            count = count + 1;
        }
        if self.has_live_neighbor(pos, Position::TopRight) {
            count = count + 1;
        }
        if self.has_live_neighbor(pos, Position::Left) {
            count = count + 1;
        }
        if self.has_live_neighbor(pos, Position::Right) {
            count = count + 1;
        }
        if self.has_live_neighbor(pos, Position::BottomLeft) {
            count = count + 1;
        }
        if self.has_live_neighbor(pos, Position::Bottom) {
            count = count + 1;
        }
        if self.has_live_neighbor(pos, Position::BottomRight) {
            count = count + 1;
        }
        count
    }

    /// One generation of Conway's rules: a new grid of the same dimensions in
    /// which every cell's state follows from its old state and its old
    /// neighbor count. The whole next generation is computed from one
    /// consistent snapshot of the prior one.
    #[verifier::rlimit(60)]
    pub fn tick(self) -> (r: World)
        requires
            self.wf(),
        ensures
            r.wf(),
            self.steps_to(r),
    {
        let mut cells: Vec<Cell> = Vec::new();
        let mut y: usize = 0;
        while y < self.height
            invariant
                self.wf(),
                y <= self.height,
                cells@.len() == y * self.width,
                forall|xx: int, yy: int|
                    0 <= yy < y && 0 <= xx < self.width ==> cells@[yy * self.width + xx]
                        == next_cell(
                        self.cell_at(xx, yy),
                        self.spec_live_neighbors(xx, yy),
                    ),
            decreases self.height - y,
        {
            let mut x: usize = 0;
            while x < self.width
                invariant
                    self.wf(),
                    y < self.height,
                    x <= self.width,
                    cells@.len() == y * self.width + x,
                    forall|xx: int, yy: int|
                        (0 <= yy < y && 0 <= xx < self.width) || (yy == y && 0 <= xx < x)
                            ==> cells@[yy * self.width + xx] == next_cell(
                            self.cell_at(xx, yy),
                            self.spec_live_neighbors(xx, yy),
                        ),
                decreases self.width - x,
            {
                proof {
                    lemma_row_major_index(
                        self.width as int,
                        self.height as int,
                        x as int,
                        y as int,
                        x as int,
                        y as int,
                    );
                }
                let neighbors = self.live_neighbors((x, y));
                let _len = self.cells.len();
                let state = self.cells[y * self.width + x];
                let next = if state.alive() {
                    if 2 <= neighbors && neighbors <= 3 {
                        Cell::Alive
                    } else {
                        Cell::Dead
                    }
                } else {
                    if neighbors == 3 {
                        Cell::Alive
                    } else {
                        Cell::Dead
                    }
                };
                cells.push(next);
                proof {
                    assert forall|xx: int, yy: int|
                        (0 <= yy < y && 0 <= xx < self.width) || (yy == y && 0 <= xx < x + 1)
                        implies cells@[yy * self.width + xx] == next_cell(
                        self.cell_at(xx, yy),
                        self.spec_live_neighbors(xx, yy),
                    ) by {
                        lemma_row_major_index(
                            self.width as int,
                            self.height as int,
                            xx,
                            yy,
                            x as int,
                            y as int,
                        );
                    }
                }
                x = x + 1;
            }
            proof {
                assert((y + 1) * self.width == y * self.width + self.width) by (nonlinear_arith);
            }
            y = y + 1;
        }
        let r = World { width: self.width, height: self.height, cells };
        proof {
            assert(r.cells@.len() == self.height * self.width);
            assert(self.width * self.height == self.height * self.width) by (nonlinear_arith);
            assert forall|x: int, y: int| self.in_bounds(x, y) implies r.cell_at(x, y)
                == next_cell(self.cell_at(x, y), self.spec_live_neighbors(x, y)) by {
                lemma_row_major_index(self.width as int, self.height as int, x, y, x, y);
            }
        }
        r
    }

    /// The glyphs of row `y`, left to right.
    pub open spec fn row_spec(self, y: int) -> Seq<char> {
        Seq::new(self.width as nat, |x: int| self.cell_at(x, y).glyph())
    }

    /// The text of the first `rows` rows: rows joined by a newline, with no
    /// trailing newline after the last row.
    pub open spec fn render_upto(self, rows: int) -> Seq<char>
        decreases rows,
    {
        if rows <= 0 {
            Seq::empty()
        } else if rows == 1 {
            self.row_spec(0)
        } else {
            self.render_upto(rows - 1) + seq!['\n'] + self.row_spec(rows - 1)
        }
    }

    /// The grid's full text: one glyph per cell, rows joined by a newline.
    pub open spec fn render_spec(self) -> Seq<char> {
        self.render_upto(self.height as int)
    }

    /// Renders the grid body as text: one fixed glyph per cell, rows joined
    /// by a newline, no trailing newline after the last row.
    pub fn render(&self) -> (r: String)
        requires
            self.wf(),
        ensures
            r@ == self.render_spec(),
    {
        proof {
            reveal_strlit("\n");
            reveal_strlit("@");
            reveal_strlit(".");
        }
        let mut out = String::new();
        let mut y: usize = 0;
        while y < self.height
            invariant
                self.wf(),
                y <= self.height,
                out@ == self.render_upto(y as int),
            decreases self.height - y,
        {
            if y > 0 {
                out.append("\n");
                proof {
                    reveal_strlit("\n");
                    assert(out@ =~= self.render_upto(y as int) + seq!['\n']);
                }
            }
            let ghost pre = out@;
            let mut x: usize = 0;
            while x < self.width
                invariant
                    self.wf(),
                    y < self.height,
                    x <= self.width,
                    out@ == pre + self.row_spec(y as int).take(x as int),
                decreases self.width - x,
            {
                proof {
                    lemma_row_major_index(
                        self.width as int,
                        self.height as int,
                        x as int,
                        y as int,
                        x as int,
                        y as int,
                    );
                }
                let _len = self.cells.len();
                let cell = self.cells[y * self.width + x];
                if cell.alive() {
                    out.append("@");
                } else {
                    out.append(".");
                }
                proof {
                    reveal_strlit("@");
                    reveal_strlit(".");
                    assert(self.row_spec(y as int)[x as int] == self.cell_at(
                        x as int,
                        y as int,
                    ).glyph());
                    assert(out@ =~= pre + self.row_spec(y as int).take(x as int + 1));
                }
                x = x + 1;
            }
            proof {
                assert(self.row_spec(y as int).take(self.width as int) =~= self.row_spec(
                    y as int,
                ));
                assert(out@ =~= self.render_upto(y as int + 1));
            }
            y = y + 1;
        }
        out
    }

    /// A fresh row-major walk over this grid, starting at the first cell.
    pub fn iter(&self) -> (r: WorldIterator)
        ensures
            r.world == self,
            r.index == 0,
    {
        WorldIterator::new(self)
    }
}

impl Default for World {
    /// The empty grid: no columns, no rows, no cells.
    fn default() -> (r: World)
        ensures
            r.wf(),
            r.width == 0,
            r.height == 0,
    {
        World::new(0, 0)
    }
}

/// In a grid whose cells are all dead, every in-bounds position has zero
/// live neighbors.
pub proof fn lemma_all_dead_no_live_neighbors(g: World, x: int, y: int)
    requires
        g.wf(),
        g.all_dead(),
        g.in_bounds(x, y),
    ensures
        g.spec_live_neighbors(x, y) == 0,
{
    reveal(World::spec_live_neighbors);
}

/// Whether the live cells of `g` are exactly the 2x2 block of cells whose
/// top-left corner is (bx, by), the block lying fully in bounds.
pub open spec fn is_lone_block(g: World, bx: int, by: int) -> bool {
    &&& 0 <= bx
    &&& bx + 1 < g.width
    &&& 0 <= by
    &&& by + 1 < g.height
    &&& forall|x: int, y: int|
        g.in_bounds(x, y) ==> ((#[trigger] g.cell_at(x, y)).is_alive() <==> (bx <= x <= bx + 1
            && by <= y <= by + 1))
}

/// One cell's step under Conway's rule when the grid is a lone 2x2 block:
/// the cell keeps its state.
proof fn lemma_block_cell_step(g: World, bx: int, by: int, x: int, y: int)
    requires
        g.wf(),
        is_lone_block(g, bx, by),
        g.in_bounds(x, y),
    ensures
        next_cell(g.cell_at(x, y), g.spec_live_neighbors(x, y)) == g.cell_at(x, y),
{
    reveal(World::spec_live_neighbors);
    assert(g.nbr_ind(x, y, -1, -1) == if bx <= x - 1 <= bx + 1 && by <= y - 1 <= by + 1 {
        1int
    } else {
        0int
    });
    assert(g.nbr_ind(x, y, 0, -1) == if bx <= x <= bx + 1 && by <= y - 1 <= by + 1 {
        1int
    } else {
        0int
    });
    assert(g.nbr_ind(x, y, 1, -1) == if bx <= x + 1 <= bx + 1 && by <= y - 1 <= by + 1 {
        1int
    } else {
        0int
    });
    assert(g.nbr_ind(x, y, -1, 0) == if bx <= x - 1 <= bx + 1 && by <= y <= by + 1 {
        1int
    } else {
        0int
    });
    assert(g.nbr_ind(x, y, 1, 0) == if bx <= x + 1 <= bx + 1 && by <= y <= by + 1 {
        1int
    } else {
        0int
    });
    assert(g.nbr_ind(x, y, -1, 1) == if bx <= x - 1 <= bx + 1 && by <= y + 1 <= by + 1 {
        1int
    } else {
        0int
    });
    assert(g.nbr_ind(x, y, 0, 1) == if bx <= x <= bx + 1 && by <= y + 1 <= by + 1 {
        1int
    } else {
        0int
    });
    assert(g.nbr_ind(x, y, 1, 1) == if bx <= x + 1 <= bx + 1 && by <= y + 1 <= by + 1 {
        1int
    } else {
        0int
    });
    if bx <= x <= bx + 1 && by <= y <= by + 1 {
        assert(g.spec_live_neighbors(x, y) == 3);
        assert(g.cell_at(x, y).is_alive());
    } else {
        assert(g.spec_live_neighbors(x, y) <= 2);
        assert(!g.cell_at(x, y).is_alive());
    }
}

/// Still-life invariance: a grid whose live cells are exactly a 2x2 block of
/// alive cells, in bounds and surrounded by dead cells, is unchanged by one
/// generation step.
pub proof fn lemma_block_still_life(g: World, next: World, bx: int, by: int)
    requires
        g.wf(),
        is_lone_block(g, bx, by),
        g.steps_to(next),
    ensures
        g.same_cells(next),
{
    assert forall|x: int, y: int| g.in_bounds(x, y) implies next.cell_at(x, y) == g.cell_at(
        x,
        y,
    ) by {
        lemma_block_cell_step(g, bx, by, x, y);
    }
}

/// An indexable value that denotes a single cell of a grid: either a linear
/// buffer index or an (x, y) coordinate.
pub trait WorldIndex {
    /// The buffer index this value denotes in `world`, if it is in range.
    spec fn spec_index_in(&self, world: World) -> Option<int>;

    /// Computes the buffer index, or `None` when this value denotes no cell
    /// of `world`.
    fn to_index(&self, world: &World) -> (r: Option<usize>)
        requires
            world.wf(),
        ensures
            match (r, self.spec_index_in(*world)) {
                (Some(i), Some(j)) => i as int == j && 0 <= j < world.cells@.len(),
                (None, None) => true,
                _ => false,
            },
    ;
}

impl WorldIndex for usize {
    /// A linear index denotes the cell at that buffer offset.
    open spec fn spec_index_in(&self, world: World) -> Option<int> {
        if *self < world.width * world.height {
            Some(*self as int)
        } else {
            None
        }
    }

    fn to_index(&self, world: &World) -> (r: Option<usize>) {
        let len = world.cells.len();
        if *self < len {
            Some(*self)
        } else {
            None
        }
    }
}

impl WorldIndex for (usize, usize) {
    /// A coordinate pair denotes the cell at row-major position
    /// `y * width + x`, in range exactly when both coordinates are in bounds.
    open spec fn spec_index_in(&self, world: World) -> Option<int> {
        if world.in_bounds(self.0 as int, self.1 as int) {
            Some(self.1 * world.width + self.0)
        } else {
            None
        }
    }

    fn to_index(&self, world: &World) -> (r: Option<usize>) {
        let (x, y) = *self;
        if x < world.width && y < world.height {
            proof {
                lemma_row_major_index(
                    world.width as int,
                    world.height as int,
                    x as int,
                    y as int,
                    x as int,
                    y as int,
                );
            }
            let _len = world.cells.len();
            Some(y * world.width + x)
        } else {
            None
        }
    }
}

/// A restartable row-major walk over a grid: yields every cell exactly once,
/// paired with its (x, y) coordinate, rows ascending and each row left to
/// right.
pub struct WorldIterator<'a> {
    pub world: &'a World,
    pub index: usize,
}

impl<'a> WorldIterator<'a> {
    /// A walk over `world` positioned at the first cell.
    pub fn new(world: &'a World) -> (r: Self)
        ensures
            r.world == world,
            r.index == 0,
    {
        WorldIterator { world, index: 0 }
    }

    /// Yields the cell under the cursor with its coordinate and advances, or
    /// `None` once every cell has been yielded.
    pub fn next(&mut self) -> (r: Option<LocatedCell>)
        requires
            old(self).world.wf(),
        ensures
            final(self).world == old(self).world,
            old(self).index < old(self).world.cells@.len() ==> {
                &&& final(self).index == old(self).index + 1
                &&& r matches Some(lc)
                    && lc.position.0 == old(self).index as int % old(self).world.width as int
                    && lc.position.1 == old(self).index as int / old(self).world.width as int
                    && old(self).world.in_bounds(lc.position.0 as int, lc.position.1 as int)
                    && lc.state == old(self).world.cell_at(
                    lc.position.0 as int,
                    lc.position.1 as int,
                )
            },
            old(self).index >= old(self).world.cells@.len() ==> r is None && final(self).index
                == old(self).index,
    {
        let len = self.world.cells.len();
        if self.index < len {
            proof {
                assert(0int * (self.world.height as int) == 0) by (nonlinear_arith);
                assert(self.world.width > 0);
            }
            let x = self.index % self.world.width;
            let y = self.index / self.world.width;
            proof {
                let i = self.index as int;
                let w = self.world.width as int;
                let h = self.world.height as int;
                vstd::arithmetic::div_mod::lemma_fundamental_div_mod(i, w);
                assert(i / w < h) by (nonlinear_arith)
                    requires
                        w > 0,
                        h >= 0,
                        0 <= i < w * h,
                ;
                assert((i / w) * w + i % w == i) by (nonlinear_arith)
                    requires
                        w > 0,
                        i == w * (i / w) + i % w,
                ;
            }
            let state = self.world.cells[self.index];
            let result = LocatedCell { position: (x, y), state };
            self.index = self.index + 1;
            Some(result)
        } else {
            None
        }
    }
}

} // verus!

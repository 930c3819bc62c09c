//! The state of a single grid square, and the eight Moore-neighborhood
//! directions around a square.

use vstd::prelude::*;

verus! {

/// One square of the grid: dead or alive. Copied freely; it has no identity
/// beyond its value.
#[derive(Clone, Copy, Debug, PartialEq, Eq, Structural)]
pub enum Cell {
    Dead,
    Alive,
}

impl Cell {
    /// Whether this cell is alive, as a mathematical predicate.
    pub open spec fn is_alive(self) -> bool {
        self is Alive
    }

    /// The cell with the opposite state.
    pub open spec fn spec_flipped(self) -> Cell {
        match self {
            Cell::Dead => Cell::Alive,
            Cell::Alive => Cell::Dead,
        }
    }

    /// The glyph this cell renders as.
    pub open spec fn glyph(self) -> char {
        match self {
            Cell::Dead => '.',
            Cell::Alive => '@',
        }
    }

    /// True exactly when the cell is alive.
    pub fn alive(&self) -> (r: bool)
        ensures
            r == self.is_alive(),
    {
        matches!(self, Cell::Alive)
    }

    /// Returns the cell with the opposite state.
    pub fn flipped(&self) -> (r: Cell)
        ensures
            r == self.spec_flipped(),
    {
        match self {
            Cell::Dead => Cell::Alive,
            Cell::Alive => Cell::Dead,
        }
    }

    /// Flips this cell in place, dead to alive and alive to dead.
    pub fn flip(&mut self)
        ensures
            *final(self) == old(self).spec_flipped(),
    {
        *self = self.flipped();
    }

    /// The glyph this cell renders as: one fixed character per state.
    pub fn block(&self) -> (r: char)
        ensures
            r == self.glyph(),
    {
        match self {
            Cell::Dead => '.',
            Cell::Alive => '@',
        }
    }
}

impl Default for Cell {
    /// A cell starts out dead.
    fn default() -> (r: Self)
        ensures
            r == Cell::Dead,
    {
        Cell::Dead
    }
}

/// Flipping a cell twice restores its original state.
pub proof fn lemma_flip_involution(c: Cell)
    ensures
        c.spec_flipped().spec_flipped() == c,
{
}

/// A grid coordinate paired with the cell found there; produced by iteration,
/// never stored in the grid itself.
#[derive(Clone, Copy, Debug)]
pub struct LocatedCell {
    pub position: (usize, usize),
    pub state: Cell,
}

/// One of the eight directions of the Moore neighborhood: every (dx, dy) in
/// {-1, 0, 1} squared except (0, 0).
#[derive(Clone, Copy, Debug)]
pub enum Position {
    TopLeft,
    Top,
    TopRight,
    Left,
    Right,
    BottomLeft,
    Bottom,
    BottomRight,
}

impl Position {
    /// The (dx, dy) displacement of this direction.
    pub open spec fn spec_offset(self) -> (int, int) {
        match self {
            Position::TopLeft => (-1int, -1int),
            Position::Top => (0int, -1int),
            Position::TopRight => (1int, -1int),
            Position::Left => (-1int, 0int),
            Position::Right => (1int, 0int),
            Position::BottomLeft => (-1int, 1int),
            Position::Bottom => (0int, 1int),
            Position::BottomRight => (1int, 1int),
        }
    }

    /// The (dx, dy) displacement of this direction.
    pub fn offset(&self) -> (r: (isize, isize))
        ensures
            r.0 as int == self.spec_offset().0,
            r.1 as int == self.spec_offset().1,
    {
        match self {
            Position::TopLeft => (-1, -1),
            Position::Top => (0, -1),
            Position::TopRight => (1, -1),
            Position::Left => (-1, 0),
            Position::Right => (1, 0),
            Position::BottomLeft => (-1, 1),
            Position::Bottom => (0, 1),
            Position::BottomRight => (1, 1),
        }
    }

    /// All eight directions, each exactly once.
    pub fn all() -> (r: [Position; 8])
        ensures
            r@ == seq![
                Position::TopLeft,
                Position::Top,
                Position::TopRight,
                Position::Left,
                Position::Right,
                Position::BottomLeft,
                Position::Bottom,
                Position::BottomRight,
            ],
    {
        [
            Position::TopLeft,
            Position::Top,
            Position::TopRight,
            Position::Left,
            Position::Right,
            Position::BottomLeft,
            Position::Bottom,
            Position::BottomRight,
        ]
    }
}

} // verus!

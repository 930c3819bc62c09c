//! The interaction state machine: sizing a grid, drawing on it, then
//! simulating it. It consumes abstract user intents and produces the next
//! state as a value; a quit intent terminates the session from any state.

use vstd::prelude::*;

use crate::cell::Cell;
use crate::world::World;

verus! {

/// The largest width or height the sizing phase will grow to. Growth clamps
/// here so that the cell count stays far below any machine limit.
pub const MAX_DIM: usize = 4096;

/// An abstract user action, independent of the physical input device. The
/// absence of an action within a frame is `None` at the `Option<Intent>`
/// level.
#[derive(Clone, Copy, Debug, PartialEq, Eq, Structural)]
pub enum Intent {
    Up,
    Down,
    Left,
    Right,
    Toggle,
    Confirm,
    Quit,
}

/// The sizing phase: candidate grid dimensions, and whether the last intent
/// changed them (a redraw hint for the display layer).
#[derive(Clone, Debug, PartialEq)]
pub struct Scale {
    pub width: usize,
    pub height: usize,
    pub updated: bool,
}

/// The drawing phase: a cursor, clamped to the grid, over the grid being
/// painted.
#[derive(Clone, Debug, PartialEq)]
pub struct Draw {
    pub x: usize,
    pub y: usize,
    pub world: World,
}

/// The simulating phase: the grid together with how many generations it has
/// advanced.
#[derive(Clone, Debug, PartialEq)]
pub struct Simulate {
    pub generation: usize,
    pub world: World,
}

/// The session: exactly one phase is active at a time.
#[derive(Clone, Debug, PartialEq)]
pub enum State {
    Scale(Scale),
    Draw(Draw),
    Simulate(Simulate),
}

/// A dimension shrunk by one, clamped below at 1: sizing never reaches 0.
pub open spec fn shrink(v: usize) -> usize {
    if v <= 1 {
        1usize
    } else {
        (v - 1) as usize
    }
}

/// A dimension grown by one, clamped above at `MAX_DIM`.
pub open spec fn grow(v: usize) -> usize {
    if v >= MAX_DIM {
        MAX_DIM
    } else {
        (v + 1) as usize
    }
}

/// A cursor coordinate moved one step toward 0, stopping at 0.
pub open spec fn step_down(v: usize) -> usize {
    if v == 0 {
        0usize
    } else {
        (v - 1) as usize
    }
}

/// A cursor coordinate moved one step up, clamped to stay below `limit`.
pub open spec fn step_up(v: usize, limit: usize) -> usize {
    if v + 1 < limit {
        (v + 1) as usize
    } else {
        (limit - 1) as usize
    }
}

impl Scale {
    /// Sizing dimensions are always at least 1 and at most `MAX_DIM`.
    pub open spec fn wf(self) -> bool {
        &&& 1 <= self.width <= MAX_DIM
        &&& 1 <= self.height <= MAX_DIM
    }
}

impl Draw {
    /// The cursor always lies on the grid; this forces both dimensions to be
    /// at least 1.
    pub open spec fn wf(self) -> bool {
        &&& self.world.wf()
        &&& self.x < self.world.width
        &&& self.y < self.world.height
    }
}

impl Simulate {
    pub open spec fn wf(self) -> bool {
        self.world.wf()
    }
}

impl State {
    /// The active phase's invariant.
    pub open spec fn wf(self) -> bool {
        match self {
            State::Scale(s) => s.wf(),
            State::Draw(d) => d.wf(),
            State::Simulate(s) => s.wf(),
        }
    }
}

/// What one intent does to the sizing phase: arrows resize (clamped) and set
/// the redraw hint; confirm allocates the all-dead grid and moves to drawing
/// with the cursor at the origin; any other intent clears the redraw hint;
/// no intent changes nothing.
pub open spec fn scale_step(s: Scale, intent: Option<Intent>, r: State) -> bool {
    match intent {
        None => r == State::Scale(s),
        Some(Intent::Up) => r == State::Scale(
            (Scale { width: s.width, height: shrink(s.height), updated: true }),
        ),
        Some(Intent::Down) => r == State::Scale(
            (Scale { width: s.width, height: grow(s.height), updated: true }),
        ),
        Some(Intent::Left) => r == State::Scale(
            (Scale { width: shrink(s.width), height: s.height, updated: true }),
        ),
        Some(Intent::Right) => r == State::Scale(
            (Scale { width: grow(s.width), height: s.height, updated: true }),
        ),
        Some(Intent::Confirm) => {
            &&& r matches State::Draw(d)
            &&& d.x == 0
            &&& d.y == 0
            &&& d.world.wf()
            &&& d.world.width == s.width
            &&& d.world.height == s.height
            &&& d.world.all_dead()
        },
        Some(Intent::Toggle) | Some(Intent::Quit) => r == State::Scale(
            (Scale { width: s.width, height: s.height, updated: false }),
        ),
    }
}

/// What one intent does to the drawing phase: arrows move the cursor,
/// clamped to the grid; toggle flips the cell under the cursor; confirm
/// moves the grid unchanged into the simulating phase at generation 0; any
/// other intent, or none, changes nothing.
pub open spec fn draw_step(d: Draw, intent: Option<Intent>, r: State) -> bool {
    match intent {
        None => r == State::Draw(d),
        Some(Intent::Up) => r == State::Draw(
            (Draw { x: d.x, y: step_down(d.y), world: d.world }),
        ),
        Some(Intent::Down) => r == State::Draw(
            (Draw { x: d.x, y: step_up(d.y, d.world.height), world: d.world }),
        ),
        Some(Intent::Left) => r == State::Draw(
            (Draw { x: step_down(d.x), y: d.y, world: d.world }),
        ),
        Some(Intent::Right) => r == State::Draw(
            (Draw { x: step_up(d.x, d.world.width), y: d.y, world: d.world }),
        ),
        Some(Intent::Toggle) => {
            &&& r matches State::Draw(d2)
            &&& d2.x == d.x
            &&& d2.y == d.y
            &&& d2.world.wf()
            &&& d2.world.width == d.world.width
            &&& d2.world.height == d.world.height
            &&& d2.world.cell_at(d.x as int, d.y as int) == d.world.cell_at(
                d.x as int,
                d.y as int,
            ).spec_flipped()
            &&& forall|x: int, y: int|
                d.world.in_bounds(x, y) && !(x == d.x && y == d.y)
                    ==> d2.world.cell_at(x, y) == d.world.cell_at(x, y)
        },
        Some(Intent::Confirm) => r == State::Simulate(
            (Simulate { generation: 0, world: d.world }),
        ),
        Some(Intent::Quit) => r == State::Draw(d),
    }
}

/// What one frame does to the simulating phase: the grid advances one
/// generation and the counter increases by one, whatever the intent.
pub open spec fn simulate_step(s: Simulate, r: State) -> bool {
    &&& r matches State::Simulate(s2)
    &&& s2.generation == s.generation + 1
    &&& s2.world.wf()
    &&& s.world.steps_to(s2.world)
}

/// The whole machine's transition for a non-quit frame.
pub open spec fn state_step(st: State, intent: Option<Intent>, r: State) -> bool {
    match st {
        State::Scale(s) => scale_step(s, intent, r),
        State::Draw(d) => draw_step(d, intent, r),
        State::Simulate(s) => simulate_step(s, r),
    }
}

/// Sizing bounds: applying Up to a sizing phase of height 1 keeps the height
/// at 1 — it neither underflows to 0 nor wraps. Repeating Up therefore keeps
/// the height at 1 forever.
pub proof fn lemma_sizing_up_keeps_floor(s: Scale, r: State)
    requires
        s.wf(),
        s.height == 1,
        scale_step(s, Some(Intent::Up), r),
    ensures
        r == State::Scale((Scale { width: s.width, height: 1, updated: true })),
{
}

/// Drawing cursor bounds: applying Right with the cursor on the last column
/// keeps it on the last column — clamped, not wrapped. Repeating Right
/// therefore keeps it there forever.
pub proof fn lemma_cursor_right_clamped(d: Draw, r: State)
    requires
        d.wf(),
        d.x == d.world.width - 1,
        draw_step(d, Some(Intent::Right), r),
    ensures
        r == State::Draw(
            (Draw { x: (d.world.width - 1) as usize, y: d.y, world: d.world }),
        ),
{
}

/// Mode transitions: confirming from sizing yields the drawing phase with an
/// all-dead grid of the chosen dimensions and the cursor at the origin;
/// confirming again yields the simulating phase at generation 0, holding the
/// drawing grid unchanged.
pub proof fn lemma_confirm_twice(s: Scale, st1: State, st2: State)
    requires
        s.wf(),
        scale_step(s, Some(Intent::Confirm), st1),
        st1 matches State::Draw(d) && draw_step(d, Some(Intent::Confirm), st2),
    ensures
        st1 matches State::Draw(d) ==> d.x == 0 && d.y == 0 && d.world.width == s.width
            && d.world.height == s.height && d.world.all_dead(),
        st1 matches State::Draw(d) ==> st2 == State::Simulate(
            (Simulate { generation: 0, world: d.world }),
        ),
        st2 matches State::Simulate(m) && m.generation == 0 && m.world.width == s.width
            && m.world.height == s.height && m.world.all_dead(),
{
}

/// Round trip: toggling the same cell twice in the drawing phase restores
/// every cell of the grid and leaves the cursor where it was.
pub proof fn lemma_toggle_round_trip(d0: Draw, st1: State, st2: State)
    requires
        d0.wf(),
        draw_step(d0, Some(Intent::Toggle), st1),
        st1 matches State::Draw(d1) && draw_step(d1, Some(Intent::Toggle), st2),
    ensures
        st2 matches State::Draw(d2) && d2.x == d0.x && d2.y == d0.y && d0.world.same_cells(
            d2.world,
        ),
{
    let d1 = st1->Draw_0;
    let d2 = st2->Draw_0;
    assert forall|x: int, y: int| d0.world.in_bounds(x, y) implies d2.world.cell_at(x, y)
        == d0.world.cell_at(x, y) by {
        if x == d0.x && y == d0.y {
            assert(d2.world.cell_at(x, y) == d0.world.cell_at(x, y).spec_flipped().spec_flipped());
        } else {
            assert(d1.world.cell_at(x, y) == d0.world.cell_at(x, y));
            assert(d1.world.in_bounds(x, y));
            assert(d2.world.cell_at(x, y) == d1.world.cell_at(x, y));
        }
    }
}

impl Scale {
    /// Applies one intent to the sizing phase.
    pub fn update(self, intent: Option<Intent>) -> (r: State)
        requires
            self.wf(),
        ensures
            r.wf(),
            scale_step(self, intent, r),
    {
        match intent {
            None => State::Scale(self),
            Some(i) => {
                let mut s = self;
                s.updated = matches!(
                    i,
                    Intent::Up | Intent::Down | Intent::Left | Intent::Right
                );
                match i {
                    Intent::Up => {
                        s.height = if s.height <= 1 {
                            1
                        } else {
                            s.height - 1
                        };
                    },
                    Intent::Down => {
                        s.height = if s.height >= MAX_DIM {
                            MAX_DIM
                        } else {
                            s.height + 1
                        };
                    },
                    Intent::Left => {
                        s.width = if s.width <= 1 {
                            1
                        } else {
                            s.width - 1
                        };
                    },
                    Intent::Right => {
                        s.width = if s.width >= MAX_DIM {
                            MAX_DIM
                        } else {
                            s.width + 1
                        };
                    },
                    _ => {},
                }
                match i {
                    Intent::Confirm => {
                        proof {
                            assert(s.width * s.height <= MAX_DIM * MAX_DIM)
                                by (nonlinear_arith)
                                requires
                                    s.width <= MAX_DIM,
                                    s.height <= MAX_DIM,
                            ;
                        }
                        State::Draw(Draw { x: 0, y: 0, world: World::new(s.width, s.height) })
                    },
                    _ => State::Scale(s),
                }
            },
        }
    }
}

impl Draw {
    /// Applies one intent to the drawing phase.
    pub fn update(self, intent: Option<Intent>) -> (r: State)
        requires
            self.wf(),
        ensures
            r.wf(),
            draw_step(self, intent, r),
    {
        match intent {
            None => State::Draw(self),
            Some(i) => {
                let mut d = self;
                match i {
                    Intent::Up => {
                        d.y = if d.y == 0 {
                            0
                        } else {
                            d.y - 1
                        };
                    },
                    Intent::Down => {
                        d.y = if d.y + 1 < d.world.height() {
                            d.y + 1
                        } else {
                            d.world.height() - 1
                        };
                    },
                    Intent::Left => {
                        d.x = if d.x == 0 {
                            0
                        } else {
                            d.x - 1
                        };
                    },
                    Intent::Right => {
                        d.x = if d.x + 1 < d.world.width() {
                            d.x + 1
                        } else {
                            d.world.width() - 1
                        };
                    },
                    Intent::Toggle => {
                        let cell = match d.world.get((d.x, d.y)) {
                            Some(c) => c,
                            None => Cell::Dead,
                        };
                        let _ = d.world.set((d.x, d.y), cell.flipped());
                    },
                    _ => {},
                }
                match i {
                    Intent::Confirm => State::Simulate(
                        Simulate { generation: 0, world: d.world },
                    ),
                    _ => State::Draw(d),
                }
            },
        }
    }
}

impl Simulate {
    /// Advances the simulation one generation. Every non-quit frame does
    /// this, whether or not any intent arrived.
    pub fn update(self, _intent: Option<Intent>) -> (r: State)
        requires
            self.wf(),
            self.generation < usize::MAX,
        ensures
            r.wf(),
            simulate_step(self, r),
    {
        State::Simulate(Simulate { generation: self.generation + 1, world: self.world.tick() })
    }
}

impl State {
    /// The initial session: sizing an 8 by 8 grid, redraw pending.
    pub fn new() -> (r: State)
        ensures
            r == State::Scale((Scale { width: 8, height: 8, updated: true })),
            r.wf(),
    {
        State::Scale(Scale { width: 8, height: 8, updated: true })
    }

    /// Applies one frame's intent: a quit intent terminates the session from
    /// any phase, checked before the phase's own logic; otherwise the active
    /// phase takes the step and the session continues.
    pub fn update(self, intent: Option<Intent>) -> (r: Option<State>)
        requires
            self.wf(),
            self matches State::Simulate(s) ==> intent == Some(Intent::Quit) || s.generation
                < usize::MAX,
        ensures
            r is None <==> intent == Some(Intent::Quit),
            r matches Some(st) ==> st.wf() && state_step(self, intent, st),
    {
        if matches!(intent, Some(Intent::Quit)) {
            return None;
        }
        match self {
            State::Scale(s) => Some(s.update(intent)),
            State::Draw(d) => Some(d.update(intent)),
            State::Simulate(s) => Some(s.update(intent)),
        }
    }
}

} // verus!

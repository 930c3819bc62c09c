use life::cell::Cell;
use life::session::{Draw, Intent, Scale, Simulate, State, MAX_DIM};
use life::world::World;

fn expect_scale(state: State) -> Scale {
    match state {
        State::Scale(s) => s,
        _ => panic!("expected the sizing phase"),
    }
}

fn expect_draw(state: State) -> Draw {
    match state {
        State::Draw(d) => d,
        _ => panic!("expected the drawing phase"),
    }
}

fn expect_simulate(state: State) -> Simulate {
    match state {
        State::Simulate(s) => s,
        _ => panic!("expected the simulating phase"),
    }
}

#[test]
fn session_starts_sizing_eight_by_eight() {
    let s = expect_scale(State::new());
    assert_eq!(s.width, 8);
    assert_eq!(s.height, 8);
    assert!(s.updated);
}

#[test]
fn sizing_arrows_resize_and_mark_updated() {
    let s = Scale { width: 8, height: 8, updated: false };
    let s = expect_scale(s.update(Some(Intent::Down)));
    assert_eq!((s.width, s.height), (8, 9));
    assert!(s.updated);
    let s = expect_scale(s.update(Some(Intent::Right)));
    assert_eq!((s.width, s.height), (9, 9));
    let s = expect_scale(s.update(Some(Intent::Up)));
    assert_eq!((s.width, s.height), (9, 8));
    let s = expect_scale(s.update(Some(Intent::Left)));
    assert_eq!((s.width, s.height), (8, 8));
    assert!(s.updated);
}

#[test]
fn sizing_up_from_height_one_stays_at_one() {
    let mut s = Scale { width: 3, height: 1, updated: false };
    for _ in 0..5 {
        s = expect_scale(s.update(Some(Intent::Up)));
        assert_eq!(s.height, 1);
        assert_eq!(s.width, 3);
    }
    let mut s = Scale { width: 1, height: 4, updated: false };
    for _ in 0..5 {
        s = expect_scale(s.update(Some(Intent::Left)));
        assert_eq!(s.width, 1);
    }
}

#[test]
fn sizing_growth_clamps_at_the_maximum_dimension() {
    let s = Scale { width: 2, height: MAX_DIM, updated: false };
    let s = expect_scale(s.update(Some(Intent::Down)));
    assert_eq!(s.height, MAX_DIM);
    let s = Scale { width: MAX_DIM, height: 2, updated: false };
    let s = expect_scale(s.update(Some(Intent::Right)));
    assert_eq!(s.width, MAX_DIM);
}

#[test]
fn sizing_other_intents_clear_the_redraw_hint() {
    let s = Scale { width: 4, height: 4, updated: true };
    let s = expect_scale(s.update(Some(Intent::Toggle)));
    assert!(!s.updated);
    assert_eq!((s.width, s.height), (4, 4));
    let s = Scale { width: 4, height: 4, updated: true };
    let s = expect_scale(s.update(None));
    assert!(s.updated);
    assert_eq!((s.width, s.height), (4, 4));
}

#[test]
fn confirm_twice_reaches_simulation_with_the_drawn_grid() {
    let mut state = State::new();
    state = state.update(Some(Intent::Down)).expect("still running");
    state = state.update(Some(Intent::Confirm)).expect("still running");
    let d = expect_draw(state);
    assert_eq!((d.x, d.y), (0, 0));
    assert_eq!(d.world.width(), 8);
    assert_eq!(d.world.height(), 9);
    for y in 0..9 {
        for x in 0..8 {
            assert_eq!(d.world.get((x, y)), Some(Cell::Dead));
        }
    }
    let drawn = State::Draw(d)
        .update(Some(Intent::Toggle))
        .expect("still running");
    let d = expect_draw(drawn);
    let grid_before = d.world.clone();
    let m = expect_simulate(
        State::Draw(d).update(Some(Intent::Confirm)).expect("still running"),
    );
    assert_eq!(m.generation, 0);
    assert_eq!(m.world, grid_before);
}

#[test]
fn cursor_moves_are_clamped_to_the_grid() {
    let d = Draw { x: 0, y: 0, world: World::new(3, 2) };
    let d = expect_draw(d.update(Some(Intent::Up)));
    assert_eq!((d.x, d.y), (0, 0));
    let d = expect_draw(d.update(Some(Intent::Left)));
    assert_eq!((d.x, d.y), (0, 0));
    let d = expect_draw(d.update(Some(Intent::Right)));
    assert_eq!((d.x, d.y), (1, 0));
    let d = expect_draw(d.update(Some(Intent::Right)));
    assert_eq!((d.x, d.y), (2, 0));
    let d = expect_draw(d.update(Some(Intent::Right)));
    assert_eq!((d.x, d.y), (2, 0), "clamped at the last column, not wrapped");
    let d = expect_draw(d.update(Some(Intent::Down)));
    let d = expect_draw(d.update(Some(Intent::Down)));
    assert_eq!((d.x, d.y), (2, 1), "clamped at the last row, not wrapped");
}

#[test]
fn toggling_the_same_cell_twice_restores_it() {
    let d = Draw { x: 1, y: 1, world: World::new(3, 3) };
    let original = d.world.clone();
    let d = expect_draw(d.update(Some(Intent::Toggle)));
    assert_eq!(d.world.get((1, 1)), Some(Cell::Alive));
    let d = expect_draw(d.update(Some(Intent::Toggle)));
    assert_eq!(d.world, original);
    assert_eq!((d.x, d.y), (1, 1));
}

#[test]
fn simulation_advances_every_frame() {
    let mut g = World::new(5, 5);
    // A horizontal blinker.
    assert!(g.set((1, 2), Cell::Alive));
    assert!(g.set((2, 2), Cell::Alive));
    assert!(g.set((3, 2), Cell::Alive));
    let m = Simulate { generation: 0, world: g.clone() };
    let m = expect_simulate(m.update(None));
    assert_eq!(m.generation, 1);
    assert_eq!(m.world.get((2, 1)), Some(Cell::Alive));
    assert_eq!(m.world.get((1, 2)), Some(Cell::Dead));
    let m = expect_simulate(m.update(Some(Intent::Toggle)));
    assert_eq!(m.generation, 2);
    assert_eq!(m.world, g, "a blinker has period two");
}

#[test]
fn quit_terminates_from_every_phase() {
    assert!(State::new().update(Some(Intent::Quit)).is_none());
    let d = Draw { x: 0, y: 0, world: World::new(2, 2) };
    assert!(State::Draw(d).update(Some(Intent::Quit)).is_none());
    let m = Simulate { generation: 7, world: World::new(2, 2) };
    assert!(State::Simulate(m).update(Some(Intent::Quit)).is_none());
    let m = Simulate { generation: usize::MAX, world: World::new(2, 2) };
    assert!(State::Simulate(m).update(Some(Intent::Quit)).is_none());
}

#[test]
fn non_quit_frames_keep_the_session_running() {
    let st = State::new();
    assert!(st.update(None).is_some());
    let st = State::new();
    assert!(st.update(Some(Intent::Toggle)).is_some());
    let m = Simulate { generation: 3, world: World::new(2, 2) };
    let next = State::Simulate(m).update(None).expect("still running");
    let m = expect_simulate(next);
    assert_eq!(m.generation, 4);
}

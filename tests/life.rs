use rusty_life::game::{
    edit_command, run_command, Action, EditCommand, Game, Phase, RunCommand, KEY_MINUS, KEY_P,
    KEY_PLUS, KEY_Q, SPACE,
};
use rusty_life::world::{build_empty_world, neighbours, next_cell_state, pos, wrap_index, Direction, Pos, World};

const ALL_DIRECTIONS: [Direction; 8] = [
    Direction::NW,
    Direction::N,
    Direction::NE,
    Direction::W,
    Direction::E,
    Direction::SW,
    Direction::S,
    Direction::SE,
];

fn world_with(width: usize, height: usize, live: &[(usize, usize)]) -> World {
    let mut w = build_empty_world(width, height);
    for &(x, y) in live {
        w.toggle(pos(x, y));
    }
    w
}

fn live_cells(w: &World) -> Vec<(usize, usize)> {
    let mut out = Vec::new();
    for x in 0..w.height() {
        for y in 0..w.width() {
            if w.is_alive(pos(x, y)) {
                out.push((x, y));
            }
        }
    }
    out
}

fn game_with(width: usize, height: usize, live: &[(usize, usize)]) -> Game {
    let mut g = Game::new(width, height, 100, 10, 10);
    g.world = world_with(width, height, live);
    g
}

#[test]
fn empty_world_has_requested_shape() {
    let w = build_empty_world(7, 3);
    assert_eq!(w.width(), 7);
    assert_eq!(w.height(), 3);
    assert!(live_cells(&w).is_empty());
}

#[test]
fn wrap_index_wraps_at_corners() {
    let w = build_empty_world(10, 10);
    assert_eq!(wrap_index(&w, pos(0, 0), Direction::NW), pos(9, 9));
    assert_eq!(wrap_index(&w, pos(9, 9), Direction::SE), pos(0, 0));
    assert_eq!(wrap_index(&w, pos(0, 5), Direction::N), pos(9, 5));
    assert_eq!(wrap_index(&w, pos(5, 9), Direction::E), pos(5, 0));
    assert_eq!(wrap_index(&w, pos(9, 0), Direction::SW), pos(0, 9));
    assert_eq!(wrap_index(&w, pos(0, 9), Direction::NE), pos(9, 0));
    assert_eq!(wrap_index(&w, pos(4, 4), Direction::S), pos(5, 4));
    assert_eq!(wrap_index(&w, pos(4, 4), Direction::W), pos(4, 3));
}

#[test]
fn wrap_step_then_opposite_returns() {
    for (width, height) in [(10, 10), (1, 1), (1, 4), (3, 2)] {
        let w = build_empty_world(width, height);
        for x in 0..height {
            for y in 0..width {
                for d in ALL_DIRECTIONS {
                    let there = wrap_index(&w, pos(x, y), d);
                    assert_eq!(wrap_index(&w, there, d.opposite()), pos(x, y));
                }
            }
        }
    }
}

#[test]
fn one_tall_world_steps_onto_same_row() {
    let w = build_empty_world(5, 1);
    assert_eq!(wrap_index(&w, pos(0, 2), Direction::N), pos(0, 2));
    assert_eq!(wrap_index(&w, pos(0, 2), Direction::S), pos(0, 2));
}

#[test]
fn neighbour_count_stays_within_eight() {
    let full: Vec<(usize, usize)> = (0..3).flat_map(|x| (0..3).map(move |y| (x, y))).collect();
    let w = world_with(3, 3, &full);
    assert_eq!(neighbours(&w, pos(1, 1)), 8);
    let one = world_with(1, 1, &[(0, 0)]);
    assert_eq!(neighbours(&one, pos(0, 0)), 8);
    let empty = build_empty_world(4, 4);
    assert_eq!(neighbours(&empty, pos(2, 2)), 0);
}

#[test]
fn neighbours_wrap_around_edges() {
    let w = world_with(10, 10, &[(9, 9), (0, 9), (9, 0)]);
    assert_eq!(neighbours(&w, pos(0, 0)), 3);
}

#[test]
fn live_cell_rules() {
    // centre (2,2) alive, with k live neighbours taken from a fixed list
    let around = [(1, 1), (1, 2), (1, 3), (2, 1), (2, 3)];
    let expected = [false, false, true, true, false, false];
    for k in 0..=5 {
        let mut live = vec![(2, 2)];
        live.extend_from_slice(&around[..k]);
        let w = world_with(6, 6, &live);
        assert_eq!(neighbours(&w, pos(2, 2)), k);
        assert_eq!(next_cell_state(&w, pos(2, 2)), expected[k]);
    }
}

#[test]
fn dead_cell_rules() {
    let around = [(1, 1), (1, 2), (1, 3), (2, 1), (2, 3)];
    for k in 0..=5 {
        let w = world_with(6, 6, &around[..k]);
        assert_eq!(neighbours(&w, pos(2, 2)), k);
        assert_eq!(next_cell_state(&w, pos(2, 2)), k == 3);
    }
}

#[test]
fn lone_cell_dies_and_nothing_is_born() {
    let mut g = game_with(6, 6, &[(2, 3)]);
    for x in 0..6 {
        for y in 0..6 {
            assert!(neighbours(&g.world, pos(x, y)) <= 1);
        }
    }
    g.advance_world();
    assert!(live_cells(&g.world).is_empty());
    assert_eq!(g.generation, 1);
}

#[test]
fn lone_cell_on_two_by_two_dies() {
    let mut g = game_with(2, 2, &[(0, 0)]);
    g.advance_world();
    assert!(live_cells(&g.world).is_empty());
}

#[test]
fn block_is_still_life() {
    let block = [(1, 1), (1, 2), (2, 1), (2, 2)];
    let mut g = game_with(4, 4, &block);
    for &(x, y) in &block {
        assert_eq!(neighbours(&g.world, pos(x, y)), 3);
    }
    assert_eq!(g.generation, 0);
    g.advance_world();
    assert_eq!(g.generation, 1);
    assert_eq!(live_cells(&g.world), block.to_vec());
}

#[test]
fn blinker_oscillates_with_period_two() {
    let horizontal = vec![(2, 1), (2, 2), (2, 3)];
    let vertical = vec![(1, 2), (2, 2), (3, 2)];
    let mut g = game_with(5, 5, &horizontal);
    g.advance_world();
    assert_eq!(live_cells(&g.world), vertical);
    g.advance_world();
    assert_eq!(live_cells(&g.world), horizontal);
    assert_eq!(g.generation, 2);
}

#[test]
fn speed_up_stops_at_floor() {
    let mut g = Game::new(4, 4, 100, 10, 10);
    g.speed_up();
    assert_eq!(g.delay, 90);
    for _ in 0..50 {
        g.speed_up();
        assert!(g.delay >= 10);
    }
    assert_eq!(g.delay, 10);
    let mut h = Game::new(4, 4, 75, 50, 10);
    h.speed_up();
    h.speed_up();
    assert_eq!(h.delay, 55);
    h.speed_up();
    assert_eq!(h.delay, 55);
}

#[test]
fn speed_down_keeps_growing() {
    let mut g = Game::new(4, 4, 100, 10, 10);
    for _ in 0..1000 {
        g.speed_down();
    }
    assert_eq!(g.delay, 10100);
    let mut top = Game::new(4, 4, usize::MAX - 5, 10, 10);
    top.speed_down();
    assert_eq!(top.delay, usize::MAX - 5);
}

#[test]
fn toggling_twice_restores_grid() {
    let mut g = game_with(5, 4, &[(0, 0), (3, 4)]);
    let before = live_cells(&g.world);
    g.flip_cell();
    assert_eq!(live_cells(&g.world), vec![(0, 0), (1, 1), (3, 4)]);
    g.flip_cell();
    assert_eq!(live_cells(&g.world), before);
}

#[test]
fn new_game_starts_at_row_one_column_one() {
    let g = Game::new(8, 6, 100, 10, 10);
    assert_eq!(g.cursor, pos(1, 1));
    assert_eq!(g.generation, 0);
    let thin = Game::new(1, 1, 100, 10, 10);
    assert_eq!(thin.cursor, pos(0, 0));
}

#[test]
fn move_cursor_wraps() {
    let mut g = Game::new(4, 3, 100, 10, 10);
    g.move_cursor(Direction::N);
    g.move_cursor(Direction::N);
    assert_eq!(g.cursor, Pos { x: 2, y: 1 });
    g.move_cursor(Direction::E);
    g.move_cursor(Direction::E);
    g.move_cursor(Direction::E);
    assert_eq!(g.cursor, pos(2, 0));
}

#[test]
fn key_bindings() {
    assert_eq!(edit_command(b'w'), EditCommand::Move(Direction::N));
    assert_eq!(edit_command(b'k'), EditCommand::Move(Direction::N));
    assert_eq!(edit_command(b'l'), EditCommand::Move(Direction::E));
    assert_eq!(edit_command(b's'), EditCommand::Move(Direction::S));
    assert_eq!(edit_command(b'h'), EditCommand::Move(Direction::W));
    assert_eq!(edit_command(b' '), EditCommand::Toggle);
    assert_eq!(edit_command(b'p'), EditCommand::Start);
    assert_eq!(edit_command(b'x'), EditCommand::Ignore);
    assert_eq!(run_command(Some(b'q')), RunCommand::Quit);
    assert_eq!(run_command(Some(b'+')), RunCommand::SpeedUp);
    assert_eq!(run_command(Some(b'-')), RunCommand::SpeedDown);
    assert_eq!(run_command(Some(b'p')), RunCommand::Pause);
    assert_eq!(run_command(Some(b'z')), RunCommand::Continue);
    assert_eq!(run_command(None), RunCommand::Continue);
}

#[test]
fn splash_waits_for_space() {
    let mut g = Game::new(4, 4, 100, 10, 10);
    assert_eq!(g.handle(Phase::Splash, Some(b'x')), (Phase::Splash, Action::Wait));
    assert_eq!(g.handle(Phase::Splash, None), (Phase::Splash, Action::Wait));
    assert_eq!(g.handle(Phase::Splash, Some(SPACE)), (Phase::Editing, Action::Wait));
}

#[test]
fn editing_moves_toggles_and_starts() {
    let mut g = Game::new(4, 4, 100, 10, 10);
    assert_eq!(g.handle(Phase::Editing, Some(b'd')), (Phase::Editing, Action::DrawEditor));
    assert_eq!(g.cursor, pos(1, 2));
    assert_eq!(g.handle(Phase::Editing, Some(SPACE)), (Phase::Editing, Action::DrawEditor));
    assert_eq!(live_cells(&g.world), vec![(1, 2)]);
    assert_eq!(g.handle(Phase::Editing, None), (Phase::Editing, Action::DrawEditor));
    assert_eq!(g.handle(Phase::Editing, Some(KEY_P)), (Phase::Running, Action::StartRun));
    assert_eq!(g.generation, 0);
}

#[test]
fn running_advances_pauses_and_quits() {
    let mut g = game_with(5, 5, &[(2, 1), (2, 2), (2, 3)]);
    assert_eq!(g.handle(Phase::Running, None), (Phase::Running, Action::DrawRunning));
    assert_eq!(g.generation, 1);
    assert_eq!(live_cells(&g.world), vec![(1, 2), (2, 2), (3, 2)]);
    assert_eq!(g.handle(Phase::Running, Some(KEY_PLUS)), (Phase::Running, Action::DrawRunning));
    assert_eq!(g.delay, 90);
    assert_eq!(g.generation, 2);
    assert_eq!(g.handle(Phase::Running, Some(KEY_MINUS)), (Phase::Running, Action::DrawRunning));
    assert_eq!(g.delay, 100);
    assert_eq!(g.generation, 3);
    assert_eq!(g.handle(Phase::Running, Some(KEY_P)), (Phase::Paused, Action::DrawPaused));
    assert_eq!(g.generation, 4);
    assert_eq!(g.handle(Phase::Paused, Some(KEY_Q)), (Phase::Paused, Action::Wait));
    assert_eq!(g.handle(Phase::Paused, Some(SPACE)), (Phase::Running, Action::Wait));
    assert_eq!(g.generation, 4);
    assert_eq!(g.handle(Phase::Running, Some(KEY_Q)), (Phase::Finished, Action::Exit));
    assert_eq!(g.generation, 4);
}

#[test]
fn render_row_uses_glyphs() {
    let w = world_with(4, 2, &[(1, 0), (1, 3)]);
    assert_eq!(w.render_row(0, 'o', '-'), vec!['-', '-', '-', '-']);
    assert_eq!(w.render_row(1, 'o', ' '), vec!['o', ' ', ' ', 'o']);
}

#[test]
fn blinker_across_the_edges_on_four_by_four() {
    let horizontal = vec![(0, 0), (0, 1), (0, 3)];
    let vertical = vec![(0, 0), (1, 0), (3, 0)];
    let mut g = game_with(4, 4, &horizontal);
    g.advance_world();
    assert_eq!(live_cells(&g.world), vertical);
    g.advance_world();
    assert_eq!(live_cells(&g.world), horizontal);
}

#[test]
fn block_across_the_corner_is_still() {
    let block = vec![(0, 0), (0, 4), (3, 0), (3, 4)];
    let mut g = game_with(5, 4, &block);
    g.advance_world();
    assert_eq!(live_cells(&g.world), block);
}

#[test]
fn pause_tick_advances_once_and_resume_does_not() {
    let mut g = game_with(5, 5, &[(2, 1), (2, 2), (2, 3)]);
    assert_eq!(g.handle(Phase::Running, Some(KEY_P)), (Phase::Paused, Action::DrawPaused));
    assert_eq!(g.generation, 1);
    assert_eq!(live_cells(&g.world), vec![(1, 2), (2, 2), (3, 2)]);
    assert_eq!(g.handle(Phase::Paused, Some(b'x')), (Phase::Paused, Action::Wait));
    assert_eq!(g.handle(Phase::Paused, None), (Phase::Paused, Action::Wait));
    assert_eq!(g.handle(Phase::Paused, Some(SPACE)), (Phase::Running, Action::Wait));
    assert_eq!(g.handle(Phase::Running, Some(KEY_Q)), (Phase::Finished, Action::Exit));
    assert_eq!(g.generation, 1);
    assert_eq!(g.delay, 100);
    assert_eq!(live_cells(&g.world), vec![(1, 2), (2, 2), (3, 2)]);
}

#[test]
fn quit_at_top_of_counter() {
    let mut g = Game::new(4, 4, 100, 10, 10);
    g.generation = usize::MAX;
    assert_eq!(g.handle(Phase::Running, Some(KEY_Q)), (Phase::Finished, Action::Exit));
    assert_eq!(g.generation, usize::MAX);
}

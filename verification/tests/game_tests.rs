use std::cell::Cell;
use std::collections::VecDeque;

use snake::game::{Controller, Game, Renderer, RenderInfo};
use snake::logic::{Config, Direction, Field, Input, SnakeHead, Vec2};
use snake::map::Grid;
use snake::state::State;

fn test_config() -> Config {
    Config {
        map_size: Vec2::new(10, 10),
        start_tail: 2,
        step_interval_ms: 100,
        step_accel_num: 5,
        step_accel_den: 100,
    }
}

struct ScriptedController {
    inputs: Cell<Vec<Input>>,
}

impl ScriptedController {
    fn new(mut inputs: Vec<Input>) -> Self {
        inputs.reverse();
        ScriptedController { inputs: Cell::new(inputs) }
    }
}

impl Controller for ScriptedController {
    fn get_input(&self) -> Input {
        let mut inputs = self.inputs.take();
        let next = inputs.pop().unwrap_or(Input::Idle);
        self.inputs.set(inputs);
        next
    }
}

struct CountingRenderer {
    calls: u32,
    last_map_len: usize,
}

impl Renderer for CountingRenderer {
    fn render_snake(&mut self, info: &RenderInfo) {
        self.calls += 1;
        self.last_map_len = info.map.len();
    }
}

#[test]
fn game_rejects_invalid_config() {
    let bad = Config { map_size: Vec2::new(1, 1), ..test_config() };
    let controller = ScriptedController::new(vec![]);
    let renderer = CountingRenderer { calls: 0, last_map_len: 0 };
    assert!(Game::new(bad, controller, renderer, 0).is_none());
}

#[test]
fn suicide_ends_the_game_loop() {
    let controller = ScriptedController::new(vec![Input::Suicide]);
    let renderer = CountingRenderer { calls: 0, last_map_len: 0 };
    let mut game = Game::new(test_config(), controller, renderer, 0).expect("valid config");
    let mut now = 0u64;
    let mut iterations = 0u32;
    while !game.is_over() {
        now += 50;
        game.tick(now);
        iterations += 1;
        assert!(iterations < 10, "loop should have ended at once");
    }
    assert_eq!(iterations, 1);
    assert_eq!(game.score(), 0);
    assert_eq!(game.renderer.calls, 1);
    assert_eq!(game.renderer.last_map_len, 100);
}

#[test]
fn run_until_wall_returns_accumulated_score() {
    // head runs right from (5,5) and dies on the wall after five due steps;
    // every iteration renders, only due ones move
    let controller = ScriptedController::new(vec![Input::ChangeDirection(Direction::Right)]);
    let renderer = CountingRenderer { calls: 0, last_map_len: 0 };
    let mut game = Game::new(test_config(), controller, renderer, 0).expect("valid config");
    let mut now = 0u64;
    let mut iterations = 0u32;
    while !game.is_over() {
        now += 50;
        game.tick(now);
        iterations += 1;
        assert!(iterations < 1000, "the run must terminate");
    }
    assert!(game.score() <= 4);
    assert_eq!(game.renderer.calls, iterations);
    let final_score = game.score();
    game.tick(now + 50);
    assert!(game.is_over());
    assert_eq!(game.score(), final_score);
}

#[test]
fn snapshot_marks_tail_apple_and_head() {
    let state = State::new(test_config(), 0).expect("valid config");
    let grid = Grid::from_state(&state);
    assert_eq!(*grid.shape(), Vec2::new(10, 10));
    let fields = grid.fields();
    assert_eq!(fields.len(), 100);
    assert_eq!(fields[5 * 10 + 5], Field::SnakeHead);
    assert_eq!(fields[5 * 10 + 3], Field::SnakeTail);
    assert_eq!(fields[5 * 10 + 4], Field::SnakeTail);
    let heads = fields.iter().filter(|f| **f == Field::SnakeHead).count();
    let tails = fields.iter().filter(|f| **f == Field::SnakeTail).count();
    let apples = fields.iter().filter(|f| **f == Field::Apple).count();
    let empties = fields.iter().filter(|f| **f == Field::Empty).count();
    assert_eq!(heads, 1);
    assert_eq!(tails, 2);
    assert_eq!(apples, 1);
    assert_eq!(empties, 96);
}

#[test]
fn render_info_carries_snapshot_and_diagnostics() {
    let state = State::new(test_config(), 0).expect("valid config");
    let info = state.gen_info();
    assert_eq!(info.map_size, Vec2::new(10, 10));
    assert_eq!(info.map.len(), 100);
    assert_eq!(info.map[5 * 10 + 5], Field::SnakeHead);
    assert_eq!(info.step_interval_ms, 100);
    assert_eq!(info.real_step_interval_ms, 0);
    assert!(!info.started);
}

#[test]
fn snapshot_skips_off_grid_cells() {
    let mut tail = VecDeque::new();
    tail.push_back(Vec2::new(9, 5));
    let mut head = SnakeHead::new(Vec2::new(10, 5), Vec2::new(9, 5), Direction::Right);
    head.kill();
    let state = State {
        config: Config { start_tail: 1, ..test_config() },
        score: 0,
        snake_head: head,
        snake_tail: tail,
        apple: Vec2::new(2, 2),
        step_interval_ms: 100,
        last_step_interval_ms: 0,
        last_update_ms: 0,
        started: true,
    };
    let grid = Grid::from_state(&state);
    let fields = grid.fields();
    let heads = fields.iter().filter(|f| **f == Field::SnakeHead).count();
    assert_eq!(heads, 0, "an off-grid head is skipped, not drawn");
    assert_eq!(fields[2 * 10 + 2], Field::Apple);
    assert_eq!(fields[5 * 10 + 9], Field::SnakeTail);
}

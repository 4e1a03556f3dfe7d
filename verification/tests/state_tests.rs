use std::collections::VecDeque;

use snake::logic::{Config, Direction, Field, Input, SnakeHead, Vec2};
use snake::state::State;

fn test_config() -> Config {
    Config {
        map_size: Vec2::new(10, 10),
        start_tail: 2,
        step_interval_ms: 100,
        step_accel_num: 5,
        step_accel_den: 100,
    }
}

/// A state with the apple pinned right in front of the head, so a step is
/// deterministic up to where the next apple lands.
fn state_with_apple_ahead() -> State {
    let mut tail = VecDeque::new();
    tail.push_back(Vec2::new(3, 5));
    tail.push_back(Vec2::new(4, 5));
    State {
        config: test_config(),
        score: 0,
        snake_head: SnakeHead::new(Vec2::new(5, 5), Vec2::new(4, 5), Direction::Right),
        snake_tail: tail,
        apple: Vec2::new(6, 5),
        step_interval_ms: 100,
        last_step_interval_ms: 0,
        last_update_ms: 0,
        started: true,
    }
}

#[test]
fn new_spawns_head_center_tail_behind() {
    let state = State::new(test_config(), 0).expect("valid config");
    assert_eq!(*state.snake_head.pos(), Vec2::new(5, 5));
    assert_eq!(state.snake_head.direction, Direction::Right);
    assert_eq!(state.score(), 0);
    assert!(!state.started());
    assert!(!state.is_terminal());
    assert_eq!(state.step_interval(), 100);
    let tail: Vec<Vec2<i32>> = state.snake_tail.iter().copied().collect();
    assert_eq!(tail, vec![Vec2::new(3, 5), Vec2::new(4, 5)]);
}

#[test]
fn new_rejects_invalid_config() {
    let bad = Config { start_tail: 7, ..test_config() };
    assert!(State::new(bad, 0).is_none());
}

#[test]
fn new_places_apple_on_empty_cell() {
    for _ in 0..50 {
        let state = State::new(test_config(), 0).expect("valid config");
        assert_eq!(state.check_pos(&state.apple), Field::Apple);
        assert!(!state.snake_tail.contains(&state.apple));
        assert_ne!(state.apple, *state.snake_head.pos());
        assert!(state.apple.x >= 0 && state.apple.x < 10);
        assert!(state.apple.y >= 0 && state.apple.y < 10);
    }
}

#[test]
fn update_is_noop_before_started() {
    let mut state = State::new(test_config(), 0).expect("valid config");
    let apple = state.apple;
    state.update(10_000);
    assert_eq!(*state.snake_head.pos(), Vec2::new(5, 5));
    assert_eq!(state.score(), 0);
    assert_eq!(state.apple, apple);
    assert_eq!(state.snake_tail.len(), 2);
    assert_eq!(state.real_step_interval(), 0);
}

#[test]
fn update_is_noop_before_interval_elapsed() {
    let mut state = State::new(test_config(), 0).expect("valid config");
    state.handle_input(&Input::ChangeDirection(Direction::Right));
    assert!(state.started());
    state.update(99);
    assert_eq!(*state.snake_head.pos(), Vec2::new(5, 5));
    state.update(100);
    assert_eq!(*state.snake_head.pos(), Vec2::new(6, 5));
}

#[test]
fn input_starts_the_clock_once() {
    let mut state = State::new(test_config(), 0).expect("valid config");
    state.handle_input(&Input::Idle);
    assert!(!state.started());
    state.handle_input(&Input::ChangeDirection(Direction::Up));
    assert!(state.started());
    state.handle_input(&Input::Idle);
    assert!(state.started());
}

#[test]
fn scenario_first_left_input_does_not_reverse() {
    // grid 10x10, start_tail 2, head at (5,5) heading Right, tail at
    // [(3,5),(4,5)]: a first ChangeDirection(Left) must not reverse into
    // (4,5); the head continues to (6,5)
    let mut state = State::new(test_config(), 0).expect("valid config");
    state.handle_input(&Input::ChangeDirection(Direction::Left));
    state.update(100);
    assert_eq!(*state.snake_head.pos(), Vec2::new(6, 5));
    assert!(!state.is_terminal());
}

#[test]
fn suicide_ends_the_run_with_current_score() {
    let mut state = State::new(test_config(), 0).expect("valid config");
    state.handle_input(&Input::Suicide);
    assert!(state.is_terminal());
    assert_eq!(state.score(), 0);
}

#[test]
fn eating_apple_scores_grows_and_speeds_up() {
    let mut state = state_with_apple_ahead();
    state.update(100);
    assert!(!state.is_terminal());
    assert_eq!(*state.snake_head.pos(), Vec2::new(6, 5));
    assert_eq!(state.score(), 1);
    // the step interval shrinks strictly, by the configured fraction
    assert_eq!(state.step_interval(), 95);
    // the tail is not shrunk on a growth step
    assert_eq!(state.snake_tail.len(), 3);
    let tail: Vec<Vec2<i32>> = state.snake_tail.iter().copied().collect();
    assert_eq!(tail, vec![Vec2::new(3, 5), Vec2::new(4, 5), Vec2::new(5, 5)]);
    // the relocated apple again sits on a then-empty cell
    assert_eq!(state.check_pos(&state.apple), Field::Apple);
    assert!(!state.snake_tail.contains(&state.apple));
    assert_ne!(state.apple, *state.snake_head.pos());
    assert_eq!(state.real_step_interval(), 100);
}

#[test]
fn tail_length_tracks_score_while_alive() {
    let mut state = state_with_apple_ahead();
    assert_eq!(state.snake_tail.len() as u32, state.config.start_tail + state.score());
    state.update(100);
    assert_eq!(state.snake_tail.len() as u32, state.config.start_tail + state.score());
}

#[test]
fn ordinary_step_slides_the_snake() {
    let mut state = state_with_apple_ahead();
    state.apple = Vec2::new(0, 0);
    state.update(100);
    assert_eq!(*state.snake_head.pos(), Vec2::new(6, 5));
    assert_eq!(state.score(), 0);
    assert_eq!(state.step_interval(), 100);
    let tail: Vec<Vec2<i32>> = state.snake_tail.iter().copied().collect();
    assert_eq!(tail, vec![Vec2::new(4, 5), Vec2::new(5, 5)]);
}

#[test]
fn wall_collision_kills_and_keeps_full_body() {
    let mut state = state_with_apple_ahead();
    state.apple = Vec2::new(0, 0);
    let mut now = 0u64;
    // head runs right from (5,5): (6,5), (7,5), (8,5), (9,5), then off-grid
    for _ in 0..5 {
        now += 100;
        state.update(now);
    }
    assert!(state.is_terminal());
    assert_eq!(*state.snake_head.pos(), Vec2::new(10, 5));
    assert_eq!(state.score(), 0);
    // the tail is not popped on the final step: the full body stays visible
    assert_eq!(state.snake_tail.len(), 3);
}

#[test]
fn self_collision_kills() {
    let mut tail = VecDeque::new();
    tail.push_back(Vec2::new(4, 5));
    tail.push_back(Vec2::new(5, 4));
    let mut state = State {
        config: test_config(),
        score: 0,
        snake_head: SnakeHead::new(Vec2::new(5, 5), Vec2::new(5, 4), Direction::Left),
        snake_tail: tail,
        apple: Vec2::new(8, 8),
        step_interval_ms: 100,
        last_step_interval_ms: 0,
        last_update_ms: 0,
        started: true,
    };
    state.update(100);
    assert!(state.is_terminal());
    assert_eq!(*state.snake_head.pos(), Vec2::new(4, 5));
    assert_eq!(state.score(), 0);
    assert_eq!(state.snake_tail.len(), 3);
}

#[test]
fn dead_snake_no_longer_moves() {
    let mut state = state_with_apple_ahead();
    state.handle_input(&Input::Suicide);
    assert!(state.is_terminal());
    state.update(10_000);
    assert_eq!(*state.snake_head.pos(), Vec2::new(5, 5));
    assert_eq!(state.snake_tail.len(), 2);
    assert_eq!(state.score(), 0);
}

#[test]
fn check_pos_classifies_by_priority() {
    let state = state_with_apple_ahead();
    assert_eq!(state.check_pos(&Vec2::new(-1, 5)), Field::Invalid);
    assert_eq!(state.check_pos(&Vec2::new(5, 10)), Field::Invalid);
    assert_eq!(state.check_pos(&Vec2::new(4, 5)), Field::SnakeTail);
    assert_eq!(state.check_pos(&Vec2::new(6, 5)), Field::Apple);
    assert_eq!(state.check_pos(&Vec2::new(5, 5)), Field::SnakeHead);
    assert_eq!(state.check_pos(&Vec2::new(0, 0)), Field::Empty);
}

#[test]
fn check_pos_tail_wins_over_apple_and_head() {
    let mut state = state_with_apple_ahead();
    state.apple = Vec2::new(4, 5);
    assert_eq!(state.check_pos(&Vec2::new(4, 5)), Field::SnakeTail);
    state.snake_tail.push_back(Vec2::new(5, 5));
    assert_eq!(state.check_pos(&Vec2::new(5, 5)), Field::SnakeTail);
}

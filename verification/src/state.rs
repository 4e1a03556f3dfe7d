//! The game state machine: the head, the tail, the apple, the score, and the
//! time-paced update step that ties them together.

use vstd::prelude::*;
use std::collections::VecDeque;
use crate::logic::{
    flat_index, in_bounds, spec_mid, Config, Direction, Field, Input, SnakeHead, Vec2,
};
use crate::occupancy::{
    cell_of_index, lemma_cell_of_index, lemma_distinct_cells_bounded, lemma_free_index_exists,
};
use crate::rng::rand_below;

verus! {

/// How many random draws apple placement makes before it falls back to a
/// deterministic scan of the grid.
const RANDOM_PLACE_ATTEMPTS: u32 = 32;

/// The classification of cell `p` on a grid of `config`, for a snake with
/// the given tail cells, apple and head position. The priority order makes
/// the classification deterministic even when cells transiently overlap:
/// out of bounds, then tail, then apple, then head, else empty.
pub open spec fn spec_cell(
    config: Config,
    tail: Seq<Vec2<i32>>,
    apple: Vec2<i32>,
    head: Vec2<i32>,
    p: Vec2<i32>,
) -> Field {
    if !in_bounds(p, config.map_size) {
        Field::Invalid
    } else if tail.contains(p) {
        Field::SnakeTail
    } else if p == apple {
        Field::Apple
    } else if p == head {
        Field::SnakeHead
    } else {
        Field::Empty
    }
}

/// Aggregates the head, the tail (oldest cell first), the apple, the score,
/// and the timing state of a run.
pub struct State {
    pub config: Config,
    pub score: u32,
    pub snake_head: SnakeHead,
    pub snake_tail: VecDeque<Vec2<i32>>,
    pub apple: Vec2<i32>,
    pub step_interval_ms: u64,
    pub last_step_interval_ms: u64,
    pub last_update_ms: u64,
    pub started: bool,
}

impl State {
    /// The classification of `p` in this state.
    pub open spec fn cell(self, p: Vec2<i32>) -> Field {
        spec_cell(self.config, self.snake_tail@, self.apple, self.snake_head.pos, p)
    }

    /// The invariant of every state the library hands out. While the snake
    /// is alive: the head and every tail cell are on the grid, the tail cells
    /// are pairwise distinct and exclude the head, the tail length equals the
    /// starting length plus the score, the newest tail cell is the just
    /// vacated head position, and the apple sits on the grid away from head
    /// and tail. The apple never lies on a tail cell, alive or not; and a
    /// dead snake's tail exceeds the starting-length-plus-score count by at
    /// most the one cell that a collision step deliberately does not pop.
    pub open spec fn wf(self) -> bool {
        &&& self.config.valid()
        &&& !self.snake_tail@.contains(self.apple)
        &&& !self.snake_head.alive ==> (self.snake_tail@.len() == self.config.start_tail
            + self.score || self.snake_tail@.len() == self.config.start_tail + self.score + 1)
        &&& self.snake_head.alive ==> {
            &&& in_bounds(self.snake_head.pos, self.config.map_size)
            &&& forall|i: int|
                0 <= i < self.snake_tail@.len() ==> in_bounds(
                    #[trigger] self.snake_tail@[i],
                    self.config.map_size,
                )
            &&& self.snake_tail@.no_duplicates()
            &&& !self.snake_tail@.contains(self.snake_head.pos)
            &&& self.snake_tail@.len() == self.config.start_tail + self.score
            &&& self.snake_tail@.len() > 0 ==> self.snake_tail@.last()
                == self.snake_head.prev_pos
            &&& in_bounds(self.apple, self.config.map_size)
            &&& self.apple != self.snake_head.pos
        }
    }

    /// Classifies `pos`, first match in the priority order winning.
    pub fn check_pos(&self, pos: &Vec2<i32>) -> (f: Field)
        ensures
            f == self.cell(*pos),
    {
        if pos.x < 0 || pos.y < 0
            || (pos.x as u32) >= self.config.map_size.x
            || (pos.y as u32) >= self.config.map_size.y
        {
            return Field::Invalid;
        }
        let n = self.snake_tail.len();
        let mut i: usize = 0;
        while i < n
            invariant
                in_bounds(*pos, self.config.map_size),
                n == self.snake_tail@.len(),
                forall|j: int| 0 <= j < i ==> self.snake_tail@[j] != *pos,
            decreases n - i,
        {
            if self.snake_tail[i] == *pos {
                assert(self.snake_tail@[i as int] == *pos);
                assert(self.snake_tail@.contains(*pos));
                return Field::SnakeTail;
            }
            i = i + 1;
        }
        assert(!self.snake_tail@.contains(*pos));
        if *pos == self.apple {
            return Field::Apple;
        }
        if *pos == self.snake_head.pos {
            return Field::SnakeHead;
        }
        Field::Empty
    }

    pub fn handle_input(&mut self, input: &Input)
        ensures
            *final(self) == spec_after_input(*old(self), *input),
            old(self).wf() ==> final(self).wf(),
    {
        if !self.started && !(*input == Input::Idle) {
            self.started = true;
        }
        match input {
            Input::ChangeDirection(direction) => self.snake_head.change_direction(direction),
            Input::Suicide => self.snake_head.kill(),
            Input::Idle => (),
        };
    }

    pub fn step_interval(&self) -> (r: u64)
        ensures
            r == self.step_interval_ms,
    {
        self.step_interval_ms
    }

    /// The measured time between the two most recent logic steps.
    pub fn real_step_interval(&self) -> (r: u64)
        ensures
            r == self.last_step_interval_ms,
    {
        self.last_step_interval_ms
    }

    pub fn started(&self) -> (r: bool)
        ensures
            r == self.started,
    {
        self.started
    }

    pub fn is_terminal(&self) -> (r: bool)
        ensures
            r == !self.snake_head.alive,
    {
        !self.snake_head.is_alive()
    }

    pub fn score(&self) -> (r: u32)
        ensures
            r == self.score,
    {
        self.score
    }
}

/// When the cells of `tail` together with `apple` and `head` do not cover
/// the grid, some cell classifies as empty.
proof fn lemma_empty_cell_exists(
    config: Config,
    tail: Seq<Vec2<i32>>,
    apple: Vec2<i32>,
    head: Vec2<i32>,
)
    requires
        config.valid(),
        tail.len() + (if apple == head { 1int } else { 2int }) < config.map_size.x
            * config.map_size.y,
    ensures
        exists|p: Vec2<i32>| spec_cell(config, tail, apple, head, p) == Field::Empty,
{
    broadcast use vstd::seq_lib::seq_to_set_is_finite;
    broadcast use vstd::set::group_set_axioms;

    let size = config.map_size;
    let n = (size.x * size.y) as int;
    let idxs = tail.map_values(|q: Vec2<i32>| flat_index(q, size));
    idxs.lemma_cardinality_of_set();
    let s = idxs.to_set().insert(flat_index(apple, size)).insert(flat_index(head, size));
    lemma_free_index_exists(s, n);
    let i = choose|i: int| 0 <= i < n && !s.contains(i);
    lemma_cell_of_index(i, size);
    let p = cell_of_index(i, size);
    assert(!tail.contains(p)) by {
        if tail.contains(p) {
            let j = choose|j: int| 0 <= j < tail.len() && tail[j] == p;
            assert(idxs[j] == flat_index(p, size));
            assert(idxs.contains(idxs[j]));
            assert(s.contains(i));
        }
    }
    assert(p != apple) by {
        if p == apple {
            assert(s.contains(i));
        }
    }
    assert(p != head) by {
        if p == head {
            assert(s.contains(i));
        }
    }
    assert(spec_cell(config, tail, apple, head, p) == Field::Empty);
}

impl State {
    /// A uniformly random on-grid position.
    fn rand_pos(&self) -> (p: Vec2<i32>)
        requires
            self.config.valid(),
        ensures
            in_bounds(p, self.config.map_size),
    {
        let x = rand_below(self.config.map_size.x);
        let y = rand_below(self.config.map_size.y);
        Vec2::new(x as i32, y as i32)
    }

    /// Picks a cell that currently classifies as empty: first by rejection
    /// sampling with a bounded number of random draws, then, should those
    /// all collide, by scanning the grid. Returns nothing exactly when no
    /// empty cell exists.
    fn rand_empty_pos(&self) -> (r: Option<Vec2<i32>>)
        requires
            self.config.valid(),
        ensures
            match r {
                Some(p) => self.cell(p) == Field::Empty,
                None => forall|p: Vec2<i32>| self.cell(p) != Field::Empty,
            },
    {
        let mut attempts: u32 = 0;
        while attempts < RANDOM_PLACE_ATTEMPTS
            invariant
                self.config.valid(),
            decreases RANDOM_PLACE_ATTEMPTS - attempts,
        {
            let p = self.rand_pos();
            if self.check_pos(&p) == Field::Empty {
                return Some(p);
            }
            attempts = attempts + 1;
        }
        let w = self.config.map_size.x;
        let h = self.config.map_size.y;
        let mut y: u32 = 0;
        while y < h
            invariant
                self.config.valid(),
                w == self.config.map_size.x,
                h == self.config.map_size.y,
                y <= h,
                forall|p: Vec2<i32>| p.y < y && in_bounds(p, self.config.map_size)
                    ==> self.cell(p) != Field::Empty,
            decreases h - y,
        {
            let mut x: u32 = 0;
            while x < w
                invariant
                    self.config.valid(),
                    w == self.config.map_size.x,
                    h == self.config.map_size.y,
                    y < h,
                    x <= w,
                    forall|p: Vec2<i32>| p.y < y && in_bounds(p, self.config.map_size)
                        ==> self.cell(p) != Field::Empty,
                    forall|p: Vec2<i32>| p.y == y && p.x < x && in_bounds(
                        p,
                        self.config.map_size,
                    ) ==> self.cell(p) != Field::Empty,
                decreases w - x,
            {
                let p = Vec2::new(x as i32, y as i32);
                if self.check_pos(&p) == Field::Empty {
                    return Some(p);
                }
                x = x + 1;
            }
            y = y + 1;
        }
        assert(forall|p: Vec2<i32>| self.cell(p) != Field::Empty) by {
            assert(forall|p: Vec2<i32>| !in_bounds(p, self.config.map_size)
                ==> self.cell(p) == Field::Invalid);
        }
        None
    }

    /// Builds the starting state for `config` at clock time `now_ms`, or
    /// nothing if the configuration is invalid. The head spawns at the grid
    /// midpoint heading right, the tail extends behind it along the negative
    /// x axis with its oldest cell leftmost, and the apple lands on a cell
    /// that classified as empty while it was still to be placed (the apple
    /// placeholder being the midpoint itself).
    pub fn new(config: Config, now_ms: u64) -> (r: Option<State>)
        ensures
            r is Some <==> config.valid(),
            r matches Some(s) ==> {
                &&& s.wf()
                &&& s.config == config
                &&& s.score == 0
                &&& !s.started
                &&& s.snake_head.alive
                &&& s.snake_head.pos == spec_mid(config)
                &&& s.snake_head.direction == Direction::Right
                &&& s.step_interval_ms == config.step_interval_ms
                &&& s.last_step_interval_ms == 0
                &&& s.last_update_ms == now_ms
                &&& s.snake_tail@.len() == config.start_tail
                &&& forall|i: int| 0 <= i < config.start_tail
                    ==> #[trigger] s.snake_tail@[i] == (Vec2::<i32> {
                        x: (spec_mid(config).x - config.start_tail + i) as i32,
                        y: spec_mid(config).y,
                    })
                &&& spec_cell(config, s.snake_tail@, spec_mid(config), spec_mid(config), s.apple)
                    == Field::Empty
            },
    {
        if !config.check() {
            return None;
        }
        let mid = Vec2::new((config.map_size.x / 2) as i32, (config.map_size.y / 2) as i32);
        assert(mid == spec_mid(config));
        let mut tail: VecDeque<Vec2<i32>> = VecDeque::new();
        let mut i: u32 = 0;
        while i < config.start_tail
            invariant
                config.valid(),
                mid == spec_mid(config),
                i <= config.start_tail,
                tail@.len() == i,
                forall|j: int| 0 <= j < i ==> #[trigger] tail@[j] == (Vec2::<i32> {
                    x: (mid.x - i + j) as i32,
                    y: mid.y,
                }),
            decreases config.start_tail - i,
        {
            tail.push_front(Vec2::new(mid.x - (i as i32) - 1, mid.y));
            i = i + 1;
        }
        let prev = if config.start_tail > 0 {
            Vec2::new(mid.x - 1, mid.y)
        } else {
            mid
        };
        let mut state = State {
            config,
            score: 0,
            snake_head: SnakeHead::new(mid, prev, Direction::Right),
            snake_tail: tail,
            apple: mid,
            step_interval_ms: config.step_interval_ms,
            last_step_interval_ms: 0,
            last_update_ms: now_ms,
            started: false,
        };
        proof {
            assert forall|a: int, b: int|
                0 <= a < state.snake_tail@.len() && 0 <= b < state.snake_tail@.len() && a != b
                implies state.snake_tail@[a] != state.snake_tail@[b] by {}
            assert(state.snake_tail@.no_duplicates());
            assert(state.config.map_size.x / 2 < state.config.map_size.x);
            assert(config.start_tail + 1 < config.map_size.x * config.map_size.y) by {
                assert(config.map_size.x <= config.map_size.x * config.map_size.y)
                    by (nonlinear_arith)
                    requires 1 <= config.map_size.y, 0 <= config.map_size.x,
                ;
            }
            lemma_empty_cell_exists(config, state.snake_tail@, mid, mid);
        }
        match state.rand_empty_pos() {
            Some(p) => {
                state.apple = p;
                Some(state)
            },
            None => {
                proof {
                    let ghost w = choose|p: Vec2<i32>|
                        spec_cell(config, state.snake_tail@, mid, mid, p) == Field::Empty;
                    assert(state.cell(w) != Field::Empty);
                    assert(false);
                }
                None
            },
        }
    }
}

/// The state after `input` is applied: a direction change forwards to the
/// head, a suicide kills it, and any non-idle input starts the clock,
/// exactly once. Nothing else changes.
pub open spec fn spec_after_input(s: State, input: Input) -> State {
    let head = match input {
        Input::ChangeDirection(d) => SnakeHead { direction: d, ..s.snake_head },
        Input::Suicide => SnakeHead { alive: false, ..s.snake_head },
        Input::Idle => s.snake_head,
    };
    State { started: s.started || input != Input::Idle, snake_head: head, ..s }
}

/// Milliseconds elapsed since the last logic step at clock time `now`.
pub open spec fn spec_elapsed(s: State, now: u64) -> int {
    if now >= s.last_update_ms {
        now - s.last_update_ms
    } else {
        0
    }
}

/// Whether a call of `update` at clock time `now` performs a logic step:
/// only once the game has started, while the snake is alive, and after the
/// step interval has elapsed.
pub open spec fn spec_due(s: State, now: u64) -> bool {
    &&& s.started
    &&& s.snake_head.alive
    &&& spec_elapsed(s, now) >= s.step_interval_ms
}

/// The step interval after an apple is eaten: the old interval scaled by
/// `(den - num) / den` and floored.
pub open spec fn spec_next_interval(interval: u64, num: u32, den: u32) -> int {
    interval * (den - num) / (den as int)
}

/// How a due `update` call at clock time `now` turns `s` into `s2`. The head
/// advances, the vacated cell joins the tail, and the new head cell decides:
/// a wall or tail cell kills the snake (the tail is not popped, so the final
/// state shows the full body); the apple scores, grows the snake by one
/// cell, shrinks the step interval, and relocates the apple to a cell that
/// classified as empty (should none exist, the run ends instead); any other
/// cell slides the snake, popping the oldest tail cell.
pub open spec fn spec_post_step(s: State, now: u64, s2: State) -> bool {
    let h = s.snake_head.stepped();
    let grown = s.snake_tail@.push(s.snake_head.pos);
    let c = spec_cell(s.config, grown, s.apple, h.pos, h.pos);
    &&& s2.config == s.config
    &&& s2.started == s.started
    &&& s2.last_update_ms == now
    &&& s2.last_step_interval_ms == spec_elapsed(s, now)
    &&& s2.snake_head.pos == h.pos
    &&& s2.snake_head.prev_pos == h.prev_pos
    &&& s2.snake_head.direction == h.direction
    &&& (c == Field::Invalid || c == Field::SnakeTail) ==> {
        &&& !s2.snake_head.alive
        &&& s2.snake_tail@ == grown
        &&& s2.score == s.score
        &&& s2.apple == s.apple
        &&& s2.step_interval_ms == s.step_interval_ms
    }
    &&& c == Field::Apple ==> {
        &&& s2.snake_tail@ == grown
        &&& s2.score == s.score + 1
        &&& s2.step_interval_ms == spec_next_interval(
            s.step_interval_ms,
            s.config.step_accel_num,
            s.config.step_accel_den,
        )
        &&& if exists|p: Vec2<i32>|
            spec_cell(s.config, grown, s.apple, h.pos, p) == Field::Empty {
            &&& s2.snake_head.alive
            &&& spec_cell(s.config, grown, s.apple, h.pos, s2.apple) == Field::Empty
        } else {
            &&& !s2.snake_head.alive
            &&& s2.apple == s.apple
        }
    }
    &&& (c == Field::SnakeHead || c == Field::Empty) ==> {
        &&& s2.snake_head.alive
        &&& s2.snake_tail@ == grown.subrange(1, grown.len() as int)
        &&& s2.score == s.score
        &&& s2.apple == s.apple
        &&& s2.step_interval_ms == s.step_interval_ms
    }
}

/// The step interval after an apple is eaten, in milliseconds.
pub fn next_step_interval(interval_ms: u64, accel_num: u32, accel_den: u32) -> (r: u64)
    requires
        1 <= accel_den,
        accel_num < accel_den,
    ensures
        r == spec_next_interval(interval_ms, accel_num, accel_den),
        r <= interval_ms,
{
    proof {
        assert((interval_ms as int) * ((accel_den - accel_num) as int)
            < 0x1_0000_0000_0000_0000_0000_0000) by (nonlinear_arith)
            requires
                0 <= interval_ms < 0x1_0000_0000_0000_0000,
                0 <= accel_den - accel_num < 0x1_0000_0000,
        ;
        assert((interval_ms as int) * ((accel_den - accel_num) as int) / (accel_den as int)
            <= interval_ms as int) by (nonlinear_arith)
            requires
                1 <= accel_den,
                accel_den - accel_num <= accel_den,
                0 <= interval_ms,
        ;
    }
    let wide = (interval_ms as u128) * ((accel_den - accel_num) as u128);
    let q = wide / (accel_den as u128);
    q as u64
}

/// Law: with a positive speed-up fraction, eating an apple strictly shrinks
/// a positive step interval.
pub proof fn lemma_speed_up_strict(interval: u64, num: u32, den: u32)
    requires
        1 <= interval,
        1 <= num,
        num < den,
    ensures
        spec_next_interval(interval, num, den) < interval,
{
    let a = interval * (den - num);
    let b = den as int;
    let c = interval as int;
    assert(a < b * c) by (nonlinear_arith)
        requires
            a == interval * (den - num),
            b == den,
            c == interval,
            1 <= interval,
            1 <= num,
            num < den,
    ;
    vstd::arithmetic::div_mod::lemma_multiply_divide_lt(a, b, c);
}

impl State {
    /// Performs one time-paced logic step, or nothing when no step is due:
    /// before the game has started, before the step interval has elapsed
    /// since the previous step, or once the snake is dead.
    pub fn update(&mut self, now_ms: u64)
        requires
            old(self).wf(),
        ensures
            final(self).wf(),
            !spec_due(*old(self), now_ms) ==> *final(self) == *old(self),
            spec_due(*old(self), now_ms) ==> spec_post_step(*old(self), now_ms, *final(self)),
    {
        if !self.started || !self.snake_head.is_alive() {
            return;
        }
        let elapsed = if now_ms >= self.last_update_ms {
            now_ms - self.last_update_ms
        } else {
            0
        };
        if elapsed < self.step_interval_ms {
            return;
        }
        self.last_step_interval_ms = elapsed;
        self.last_update_ms = now_ms;
        proof {
            assert(self.snake_head.movable());
        }
        let vacated = self.snake_head.advance();
        self.snake_tail.push_back(vacated);
        let ghost grown = old(self).snake_tail@.push(old(self).snake_head.pos);
        proof {
            assert(self.snake_tail@ == grown);
            assert(grown.no_duplicates());
            assert(forall|i: int|
                0 <= i < grown.len() ==> in_bounds(#[trigger] grown[i], self.config.map_size));
            lemma_distinct_cells_bounded(grown, self.config.map_size);
        }
        let head_pos = *self.snake_head.pos();
        let c = self.check_pos(&head_pos);
        match c {
            Field::Invalid | Field::SnakeTail => {
                self.snake_head.kill();
            },
            Field::Apple => {
                match self.rand_empty_pos() {
                    Some(p) => {
                        self.apple = p;
                    },
                    None => {
                        proof {
                            if exists|p: Vec2<i32>|
                                spec_cell(
                                    self.config,
                                    self.snake_tail@,
                                    self.apple,
                                    self.snake_head.pos,
                                    p,
                                ) == Field::Empty {
                                let w = choose|p: Vec2<i32>|
                                    spec_cell(
                                        self.config,
                                        self.snake_tail@,
                                        self.apple,
                                        self.snake_head.pos,
                                        p,
                                    ) == Field::Empty;
                                assert(self.cell(w) != Field::Empty);
                            }
                        }
                        self.snake_head.kill();
                    },
                }
                self.score = self.score + 1;
                self.step_interval_ms = next_step_interval(
                    self.step_interval_ms,
                    self.config.step_accel_num,
                    self.config.step_accel_den,
                );
            },
            _ => {
                self.snake_tail.pop_front();
            },
        }
    }
}

/// Law: in every live well-formed state, the tail length equals the starting
/// tail length plus the score. A dead state may exceed that count by exactly
/// the one cell that the killing collision step does not pop.
pub proof fn lemma_tail_length_tracks_score(s: State)
    requires
        s.wf(),
    ensures
        s.snake_head.alive ==> s.snake_tail@.len() == s.config.start_tail + s.score,
        s.snake_tail@.len() == s.config.start_tail + s.score || s.snake_tail@.len()
            == s.config.start_tail + s.score + 1,
{
}

/// Law: in every well-formed state the apple lies on no tail cell; while the
/// snake is alive it is also on the grid and away from the head.
pub proof fn lemma_apple_never_on_body(s: State)
    requires
        s.wf(),
    ensures
        !s.snake_tail@.contains(s.apple),
        s.snake_head.alive ==> in_bounds(s.apple, s.config.map_size)
            && s.apple != s.snake_head.pos,
{
}

} // verus!

//! Value types of the simulation: 2D coordinates, compass directions, the
//! snake head with its movement and anti-reversal rule, the run configuration,
//! player inputs, and cell classifications.

use vstd::prelude::*;

verus! {

/// A 2D coordinate or extent; pure data, compared field by field.
#[derive(Copy, Clone, PartialEq, Eq, Structural, Debug)]
pub struct Vec2<T> {
    pub x: T,
    pub y: T,
}

impl<T> Vec2<T> {
    pub fn new(x: T, y: T) -> (r: Self)
        ensures
            r.x == x,
            r.y == y,
    {
        Self { x, y }
    }
}

/// One of the four compass directions the snake can head in.
#[derive(Copy, Clone, PartialEq, Eq, Structural, Debug)]
pub enum Direction {
    Left,
    Right,
    Up,
    Down,
}

/// The direction pointing the opposite way from `d`.
pub open spec fn spec_opposite(d: Direction) -> Direction {
    match d {
        Direction::Left => Direction::Right,
        Direction::Right => Direction::Left,
        Direction::Up => Direction::Down,
        Direction::Down => Direction::Up,
    }
}

impl Direction {
    pub fn opposite(&self) -> (r: Self)
        ensures
            r == spec_opposite(*self),
    {
        match self {
            Direction::Left => Direction::Right,
            Direction::Right => Direction::Left,
            Direction::Up => Direction::Down,
            Direction::Down => Direction::Up,
        }
    }
}

/// Law: reversing a direction twice gives the direction back.
pub proof fn lemma_opposite_involution(d: Direction)
    ensures
        spec_opposite(spec_opposite(d)) == d,
{
}

/// The cell one step from `pos` in direction `d`. The y axis grows upward:
/// `Up` increments y, `Down` decrements it.
pub open spec fn spec_target(pos: Vec2<i32>, d: Direction) -> Vec2<i32> {
    match d {
        Direction::Left => Vec2 { x: (pos.x - 1) as i32, y: pos.y },
        Direction::Right => Vec2 { x: (pos.x + 1) as i32, y: pos.y },
        Direction::Up => Vec2 { x: pos.x, y: (pos.y + 1) as i32 },
        Direction::Down => Vec2 { x: pos.x, y: (pos.y - 1) as i32 },
    }
}

/// Tracks the current and previous head position, the heading, and whether
/// the snake is alive. Owns the movement and anti-reversal rule.
#[derive(Copy, Clone, PartialEq, Eq, Structural, Debug)]
pub struct SnakeHead {
    pub pos: Vec2<i32>,
    pub prev_pos: Vec2<i32>,
    pub direction: Direction,
    pub alive: bool,
}

impl SnakeHead {
    /// A head can step in any direction without leaving the i32 coordinate
    /// range.
    pub open spec fn movable(self) -> bool {
        &&& i32::MIN < self.pos.x < i32::MAX
        &&& i32::MIN < self.pos.y < i32::MAX
    }

    /// The heading that `advance` actually moves in: a heading that would
    /// step straight back onto the just-vacated cell is replaced by its
    /// opposite.
    pub open spec fn realized_direction(self) -> Direction {
        if spec_target(self.pos, self.direction) == self.prev_pos {
            spec_opposite(self.direction)
        } else {
            self.direction
        }
    }

    /// The head after one movement step.
    pub open spec fn stepped(self) -> SnakeHead {
        SnakeHead {
            pos: spec_target(self.pos, self.realized_direction()),
            prev_pos: self.pos,
            direction: self.realized_direction(),
            alive: self.alive,
        }
    }

    /// Law: a step never enters the cell the head vacated the step before;
    /// a reversal is coerced into continuing straight ahead, so the snake
    /// never visits the same cell twice in two consecutive steps.
    pub proof fn lemma_no_immediate_backtrack(self)
        requires
            self.movable(),
        ensures
            self.stepped().pos != self.prev_pos,
    {
    }

    pub fn new(pos: Vec2<i32>, prev_pos: Vec2<i32>, direction: Direction) -> (r: Self)
        ensures
            r.pos == pos,
            r.prev_pos == prev_pos,
            r.direction == direction,
            r.alive,
    {
        Self { pos, prev_pos, direction, alive: true }
    }

    fn looking_at(&self) -> (r: Vec2<i32>)
        requires
            self.movable(),
        ensures
            r == spec_target(self.pos, self.direction),
    {
        let mut looking_pos = self.pos;
        match self.direction {
            Direction::Left => looking_pos.x = looking_pos.x - 1,
            Direction::Right => looking_pos.x = looking_pos.x + 1,
            Direction::Up => looking_pos.y = looking_pos.y + 1,
            Direction::Down => looking_pos.y = looking_pos.y - 1,
        };
        looking_pos
    }

    fn fix_direction(&mut self)
        requires
            old(self).movable(),
        ensures
            final(self).direction == old(self).realized_direction(),
            final(self).pos == old(self).pos,
            final(self).prev_pos == old(self).prev_pos,
            final(self).alive == old(self).alive,
    {
        if self.looking_at() == self.prev_pos {
            self.direction = self.direction.opposite();
        }
    }

    /// Moves one cell in the current heading, after coercing a reversal into
    /// the cell just vacated into a continuation straight ahead. Returns the
    /// vacated position, which the caller appends to the tail.
    pub fn advance(&mut self) -> (vacated: Vec2<i32>)
        requires
            old(self).movable(),
        ensures
            *final(self) == old(self).stepped(),
            vacated == old(self).pos,
            // the anti-reversal rule: a heading that would re-enter the
            // previous position is realized as its opposite
            spec_target(old(self).pos, old(self).direction) == old(self).prev_pos
                ==> final(self).direction == spec_opposite(old(self).direction),
    {
        self.fix_direction();
        self.prev_pos = self.pos;
        self.pos = self.looking_at();
        self.prev_pos
    }

    /// Sets the pending heading; the anti-reversal rule is applied lazily on
    /// the next `advance`.
    pub fn change_direction(&mut self, new_direction: &Direction)
        ensures
            final(self).direction == *new_direction,
            final(self).pos == old(self).pos,
            final(self).prev_pos == old(self).prev_pos,
            final(self).alive == old(self).alive,
    {
        self.direction = *new_direction;
    }

    pub fn is_alive(&self) -> (r: bool)
        ensures
            r == self.alive,
    {
        self.alive
    }

    /// Terminal and irreversible for the run.
    pub fn kill(&mut self)
        ensures
            !final(self).alive,
            final(self).pos == old(self).pos,
            final(self).prev_pos == old(self).prev_pos,
            final(self).direction == old(self).direction,
    {
        self.alive = false;
    }

    pub fn pos(&self) -> (r: &Vec2<i32>)
        ensures
            *r == self.pos,
    {
        &self.pos
    }
}

/// Run configuration, immutable for a run. The speed-up fraction applied to
/// the step interval on each apple eaten is the rational
/// `step_accel_num / step_accel_den`, which must lie in [0, 1).
#[derive(Copy, Clone, PartialEq, Eq, Structural, Debug)]
pub struct Config {
    pub map_size: Vec2<u32>,
    pub start_tail: u32,
    pub step_interval_ms: u64,
    pub step_accel_num: u32,
    pub step_accel_den: u32,
}

impl Config {
    /// A configuration the game accepts: a grid the coordinates can address,
    /// an initial tail shorter than the distance from the grid center to the
    /// left edge, a positive step interval, and a speed-up fraction in [0, 1).
    pub open spec fn valid(self) -> bool {
        &&& 1 <= self.map_size.x
        &&& 1 <= self.map_size.y
        &&& self.map_size.x * self.map_size.y <= u32::MAX
        &&& self.map_size.x + 1 < i32::MAX
        &&& self.map_size.y + 1 < i32::MAX
        &&& self.start_tail < self.map_size.x / 2
        &&& 1 <= self.step_interval_ms
        &&& 1 <= self.step_accel_den
        &&& self.step_accel_num < self.step_accel_den
    }

    /// Decides `valid`: configurations that break it are rejected at
    /// construction rather than recovered from at run time.
    pub fn check(&self) -> (r: bool)
        ensures
            r == self.valid(),
    {
        let px: u64 = self.map_size.x as u64;
        let py: u64 = self.map_size.y as u64;
        proof {
            assert(px * py <= 0xffff_fffe_0000_0001) by (nonlinear_arith)
                requires
                    px <= 0xffff_ffff,
                    py <= 0xffff_ffff,
            ;
        }
        1 <= self.map_size.x && 1 <= self.map_size.y
            && px * py <= u32::MAX as u64
            && px + 1 < i32::MAX as u64
            && py + 1 < i32::MAX as u64
            && self.start_tail < self.map_size.x / 2
            && 1 <= self.step_interval_ms
            && 1 <= self.step_accel_den
            && self.step_accel_num < self.step_accel_den
    }
}

/// One player action, polled once per loop iteration. `Idle` stands for no
/// pending input.
#[derive(Copy, Clone, PartialEq, Eq, Structural, Debug)]
pub enum Input {
    ChangeDirection(Direction),
    Suicide,
    Idle,
}

/// What a grid cell holds, as classified by `State::check_pos`.
#[derive(Copy, Clone, PartialEq, Eq, Structural, Debug)]
pub enum Field {
    Invalid,
    Empty,
    SnakeHead,
    SnakeTail,
    Apple,
}

/// Whether `p` lies on the grid of extent `size`.
pub open spec fn in_bounds(p: Vec2<i32>, size: Vec2<u32>) -> bool {
    &&& 0 <= p.x < size.x
    &&& 0 <= p.y < size.y
}

/// The row-major offset of `p` on a grid of extent `size`.
pub open spec fn flat_index(p: Vec2<i32>, size: Vec2<u32>) -> int {
    p.y * size.x + p.x
}

/// The grid midpoint, where the head spawns.
pub open spec fn spec_mid(config: Config) -> Vec2<i32> {
    Vec2 { x: (config.map_size.x / 2) as i32, y: (config.map_size.y / 2) as i32 }
}

} // verus!

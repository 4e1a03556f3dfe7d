//! A derived, read-only grid snapshot built on demand from the game state
//! for rendering; a pure projection that is never mutated independently.

use vstd::prelude::*;
use crate::logic::{flat_index, in_bounds, Field, Vec2};
use crate::state::State;

verus! {

/// Whether one of the first `upto` tail cells lies on the grid at offset
/// `idx`.
pub open spec fn tail_marked(tail: Seq<Vec2<i32>>, size: Vec2<u32>, upto: int, idx: int) -> bool {
    exists|j: int|
        0 <= j < upto && in_bounds(#[trigger] tail[j], size) && flat_index(tail[j], size) == idx
}

/// What the snapshot shows at offset `idx`: the head over the apple over the
/// tail over an empty cell. Cells whose coordinates fall off the grid are
/// skipped, never drawn.
pub open spec fn spec_snapshot_cell(
    tail: Seq<Vec2<i32>>,
    apple: Vec2<i32>,
    head: Vec2<i32>,
    size: Vec2<u32>,
    idx: int,
) -> Field {
    if in_bounds(head, size) && flat_index(head, size) == idx {
        Field::SnakeHead
    } else if in_bounds(apple, size) && flat_index(apple, size) == idx {
        Field::Apple
    } else if tail_marked(tail, size, tail.len() as int, idx) {
        Field::SnakeTail
    } else {
        Field::Empty
    }
}

/// A flattened grid of cell classifications, one entry per (x, y) in
/// row-major order over the configured grid size.
pub struct Grid {
    pub shape: Vec2<u32>,
    pub fields: Vec<Field>,
}

impl Grid {
    /// The row-major offset of `pos` on a grid of extent `buf_shape`, or
    /// nothing when `pos` is off the grid.
    fn pos_offset(pos: &Vec2<i32>, buf_shape: &Vec2<u32>) -> (r: Option<usize>)
        requires
            buf_shape.x * buf_shape.y <= u32::MAX,
        ensures
            match r {
                Some(o) => in_bounds(*pos, *buf_shape) && o == flat_index(*pos, *buf_shape),
                None => !in_bounds(*pos, *buf_shape),
            },
    {
        if pos.x < 0 || pos.y < 0 || (pos.x as u32) >= buf_shape.x
            || (pos.y as u32) >= buf_shape.y {
            return None;
        }
        proof {
            assert((pos.y as int) * (buf_shape.x as int) + pos.x < (buf_shape.x as int) * (
            buf_shape.y as int)) by (nonlinear_arith)
                requires
                    0 <= pos.x < buf_shape.x,
                    0 <= pos.y < buf_shape.y,
            ;
        }
        Some(((pos.y as u64) * (buf_shape.x as u64) + (pos.x as u64)) as usize)
    }

    /// Builds the snapshot for `state`: everything empty, then the tail
    /// cells, then the apple, then the head, later marks taking priority.
    pub fn from_state(state: &State) -> (g: Grid)
        requires
            state.config.valid(),
        ensures
            g.shape == state.config.map_size,
            g.fields@.len() == state.config.map_size.x * state.config.map_size.y,
            forall|idx: int|
                0 <= idx < g.fields@.len() ==> g.fields@[idx] == spec_snapshot_cell(
                    state.snake_tail@,
                    state.apple,
                    state.snake_head.pos,
                    state.config.map_size,
                    idx,
                ),
    {
        let size = state.config.map_size;
        let ghost area = (size.x * size.y) as int;
        let n = ((size.x as u64) * (size.y as u64)) as usize;
        assert(n == area);
        let mut fields: Vec<Field> = Vec::new();
        let mut k: usize = 0;
        while k < n
            invariant
                k <= n,
                fields@.len() == k,
                forall|idx: int| 0 <= idx < k ==> fields@[idx] == Field::Empty,
            decreases n - k,
        {
            fields.push(Field::Empty);
            k = k + 1;
        }
        let tail_len = state.snake_tail.len();
        let mut t: usize = 0;
        while t < tail_len
            invariant
                state.config.valid(),
                size == state.config.map_size,
                area == size.x * size.y,
                tail_len == state.snake_tail@.len(),
                t <= tail_len,
                fields@.len() == area,
                forall|idx: int|
                    0 <= idx < area ==> fields@[idx] == (if tail_marked(
                        state.snake_tail@,
                        size,
                        t as int,
                        idx,
                    ) {
                        Field::SnakeTail
                    } else {
                        Field::Empty
                    }),
            decreases tail_len - t,
        {
            let p = state.snake_tail[t];
            let ghost before = fields@;
            match Self::pos_offset(&p, &size) {
                Some(off) => {
                    proof {
                        crate::occupancy::lemma_flat_index_bounds(p, size);
                    }
                    fields[off] = Field::SnakeTail;
                },
                _ => {},
            }
            proof {
                assert forall|idx: int| 0 <= idx < area implies fields@[idx] == (if tail_marked(
                    state.snake_tail@,
                    size,
                    t + 1,
                    idx,
                ) {
                    Field::SnakeTail
                } else {
                    Field::Empty
                }) by {
                    if in_bounds(p, size) && flat_index(p, size) == idx {
                        assert(tail_marked(state.snake_tail@, size, t + 1, idx));
                    } else {
                        assert(fields@[idx] == before[idx]);
                        if tail_marked(state.snake_tail@, size, t + 1, idx) {
                            let j = choose|j: int|
                                0 <= j < t + 1 && in_bounds(#[trigger] state.snake_tail@[j], size)
                                    && flat_index(state.snake_tail@[j], size) == idx;
                            assert(j < t);
                            assert(tail_marked(state.snake_tail@, size, t as int, idx));
                        }
                    }
                }
            }
            t = t + 1;
        }
        let ghost after_tail = fields@;
        match Self::pos_offset(&state.apple, &size) {
            Some(off) => {
                proof {
                    crate::occupancy::lemma_flat_index_bounds(state.apple, size);
                }
                fields[off] = Field::Apple;
            },
            _ => {},
        }
        let ghost after_apple = fields@;
        match Self::pos_offset(&state.snake_head.pos, &size) {
            Some(off) => {
                proof {
                    crate::occupancy::lemma_flat_index_bounds(state.snake_head.pos, size);
                }
                fields[off] = Field::SnakeHead;
            },
            _ => {},
        }
        proof {
            let tail = state.snake_tail@;
            let apple = state.apple;
            let head = state.snake_head.pos;
            assert forall|idx: int| 0 <= idx < area implies fields@[idx] == spec_snapshot_cell(
                tail,
                apple,
                head,
                size,
                idx,
            ) by {
                if in_bounds(head, size) && flat_index(head, size) == idx {
                } else {
                    assert(fields@[idx] == after_apple[idx]);
                    if in_bounds(apple, size) && flat_index(apple, size) == idx {
                    } else {
                        assert(after_apple[idx] == after_tail[idx]);
                    }
                }
            }
        }
        Grid { shape: size, fields }
    }

    pub fn fields(&self) -> (r: &Vec<Field>)
        ensures
            r@ == self.fields@,
    {
        &self.fields
    }

    pub fn shape(&self) -> (r: &Vec2<u32>)
        ensures
            *r == self.shape,
    {
        &self.shape
    }
}

} // verus!

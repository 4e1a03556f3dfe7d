//! The orchestrator: ties a pluggable input source and a pluggable renderer
//! to the game state. The core never depends on a concrete terminal
//! library; backends implement the two capability interfaces.

use vstd::prelude::*;
use crate::logic::{Config, Field, Input, Vec2};
use crate::map::Grid;
use crate::state::{spec_after_input, spec_due, spec_post_step, State};

verus! {

/// An input source: polled once per loop iteration, non-blockingly, for the
/// latest pending input.
pub trait Controller {
    fn get_input(&self) -> Input;
}

/// What the renderer is handed each iteration: a fresh grid snapshot plus
/// the diagnostics the display may show. It reflects the state exactly as of
/// the most recently completed update.
pub struct RenderInfo {
    pub map_size: Vec2<u32>,
    pub map: Vec<Field>,
    pub step_interval_ms: u64,
    pub real_step_interval_ms: u64,
    pub started: bool,
}

/// A renderer: called once per loop iteration with a read-only snapshot; it
/// must not mutate or retain the snapshot beyond the call.
pub trait Renderer {
    fn render_snake(&mut self, info: &RenderInfo);
}

impl State {
    /// Builds the render payload for this state: a fresh grid snapshot plus
    /// the timing diagnostics.
    pub fn gen_info(&self) -> (r: RenderInfo)
        requires
            self.config.valid(),
        ensures
            r.map_size == self.config.map_size,
            r.map@.len() == self.config.map_size.x * self.config.map_size.y,
            forall|idx: int|
                0 <= idx < r.map@.len() ==> r.map@[idx] == crate::map::spec_snapshot_cell(
                    self.snake_tail@,
                    self.apple,
                    self.snake_head.pos,
                    self.config.map_size,
                    idx,
                ),
            r.step_interval_ms == self.step_interval_ms,
            r.real_step_interval_ms == self.last_step_interval_ms,
            r.started == self.started,
    {
        let grid = Grid::from_state(self);
        RenderInfo {
            map_size: grid.shape,
            map: grid.fields,
            step_interval_ms: self.step_interval(),
            real_step_interval_ms: self.real_step_interval(),
            started: self.started(),
        }
    }
}

/// Owns the game state for the duration of a run, together with the input
/// and output backends.
pub struct Game<C: Controller, R: Renderer> {
    pub config: Config,
    pub state: State,
    pub controller: C,
    pub renderer: R,
}

impl<C: Controller, R: Renderer> Game<C, R> {
    /// Builds a game for `config` at clock time `now_ms`, or nothing if the
    /// configuration is invalid.
    pub fn new(config: Config, controller: C, renderer: R, now_ms: u64) -> (r: Option<Self>)
        ensures
            r is Some <==> config.valid(),
            r matches Some(g) ==> g.state.wf() && g.config == config && g.state.config == config
                && g.state.score == 0 && !g.state.started && g.state.snake_head.alive,
    {
        match State::new(config, now_ms) {
            Some(state) => Some(Game { config, state, controller, renderer }),
            None => None,
        }
    }

    /// One loop iteration at clock time `now_ms`: polls the controller once,
    /// applies the input, runs the (internally time-gated) update, and hands
    /// the renderer a fresh snapshot. Input is applied before the update it
    /// can affect; a terminal state stays terminal and keeps its score.
    pub fn tick(&mut self, now_ms: u64)
        requires
            old(self).state.wf(),
        ensures
            final(self).state.wf(),
            final(self).config == old(self).config,
            final(self).state.config == old(self).state.config,
            final(self).state.score >= old(self).state.score,
            !old(self).state.snake_head.alive ==> !final(self).state.snake_head.alive
                && final(self).state.score == old(self).state.score,
            // the polled input is applied before the update step it can
            // affect; the render already reflects the updated state
            exists|input: Input|
                {
                    let mid = #[trigger] spec_after_input(old(self).state, input);
                    &&& (!spec_due(mid, now_ms) ==> final(self).state == mid)
                    &&& (spec_due(mid, now_ms) ==> spec_post_step(mid, now_ms, final(self).state))
                },
    {
        let input = self.controller.get_input();
        self.state.handle_input(&input);
        self.state.update(now_ms);
        let info = self.state.gen_info();
        self.renderer.render_snake(&info);
    }

    /// Whether the run is over: the loop exits the moment this holds, and
    /// the final score stands.
    pub fn is_over(&self) -> (r: bool)
        ensures
            r == !self.state.snake_head.alive,
    {
        self.state.is_terminal()
    }

    /// The score accumulated so far; after `is_over`, the final score.
    pub fn score(&self) -> (r: u32)
        ensures
            r == self.state.score,
    {
        self.state.score()
    }
}

} // verus!

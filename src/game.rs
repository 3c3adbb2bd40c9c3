use vstd::prelude::*;

use crate::config::ArenaConfig;
use crate::movement::{moved, shift, steps_fit, InputState};
use crate::schedule::{FixedStep, MICROS_PER_SECOND, TICK_RATE};
use crate::store::World;

verus! {

/// A running game: the world and the clock that decides when it ticks.
pub struct Game {
    pub world: World,
    pub step: FixedStep,
}

impl Game {
    pub open spec fn wf(&self) -> bool {
        self.world.wf() && self.step.wf()
    }

    /// Ticks that a frame of `elapsed_micros` runs, given what was left over.
    pub open spec fn ticks_for(&self, elapsed_micros: u64) -> int {
        (self.step.accumulated + elapsed_micros * TICK_RATE) / MICROS_PER_SECOND as int
    }

    /// A fresh game in `arena`, with nothing accumulated.
    pub fn new(arena: &ArenaConfig) -> (r: Game)
        requires
            arena.wf(),
        ensures
            r.wf(),
            r.world.is_initial(*arena),
            r.step.accumulated == 0,
    {
        Game { world: World::setup(arena), step: FixedStep::new() }
    }

    /// One rendered frame: the clock advances by `elapsed_micros` and the
    /// movement system runs once per whole tick, all under `input`.
    pub fn frame(&mut self, elapsed_micros: u64, input: &InputState) -> (ticks: u64)
        requires
            old(self).wf(),
            old(self).step.accumulated + elapsed_micros * TICK_RATE <= u64::MAX,
            forall|j: int| 0 <= j < old(self).world.rackets@.len()
                ==> steps_fit(#[trigger] old(self).world.rackets@[j], old(self).ticks_for(elapsed_micros)),
        ensures
            final(self).wf(),
            ticks == old(self).ticks_for(elapsed_micros),
            final(self).step.accumulated == (old(self).step.accumulated + elapsed_micros * TICK_RATE) % MICROS_PER_SECOND as int,
            final(self).world.next_id == old(self).world.next_id,
            final(self).world.players == old(self).world.players,
            final(self).world.balls == old(self).world.balls,
            final(self).world.walls == old(self).world.walls,
            final(self).world.rackets@.len() == old(self).world.rackets@.len(),
            forall|j: int| 0 <= j < final(self).world.rackets@.len() ==> #[trigger] final(self).world.rackets@[j] == moved(
                old(self).world.rackets@[j],
                ticks * shift(old(self).world.players@, input.held@, old(self).world.rackets@[j].1.player_number),
            ),
    {
        let ticks = self.step.advance(elapsed_micros);
        self.world.run_ticks(ticks, input);
        ticks
    }
}

} // verus!

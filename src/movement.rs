use vstd::prelude::*;

use crate::store::{numbers_unique, World};
use crate::geometry::Transform;
use crate::world::{Control, Entity, Player, Racket};

verus! {

/// Racket speed, in world units per second.
pub const RACKET_SPEED: i64 = 120;

/// Simulation ticks per second.
pub const TICKS_PER_SECOND: i64 = 60;

/// Distance a racket covers in one tick: `RACKET_SPEED / TICKS_PER_SECOND`.
pub const RACKET_STEP: i64 = 2;

/// The controls held during one tick.
pub struct InputState {
    pub held: Vec<Control>,
}

impl InputState {
    /// Whether `control` is held.
    pub fn pressed(&self, control: Control) -> (r: bool)
        ensures
            r == self.held@.contains(control),
    {
        let mut i: usize = 0;
        while i < self.held.len()
            invariant
                i <= self.held@.len(),
                forall|k: int| 0 <= k < i ==> self.held@[k] != control,
            decreases self.held@.len() - i,
        {
            if self.held[i] == control {
                assert(self.held@[i as int] == control);
                return true;
            }
            i = i + 1;
        }
        false
    }
}

/// Which way a player's racket goes this tick: up (+1) when its up control is
/// held, whatever the other; down (-1) when only its down control is held;
/// else it stays (0).
pub open spec fn direction(player: Player, held: Seq<Control>) -> int {
    if held.contains(player.movement_keys.up) {
        1
    } else if held.contains(player.movement_keys.down) {
        -1
    } else {
        0
    }
}

/// Total vertical displacement that one tick gives the racket of number `n`:
/// one step in its direction for each player of that number.
pub open spec fn shift(players: Seq<(Entity, Player)>, held: Seq<Control>, n: i32) -> int
    decreases players.len(),
{
    if players.len() == 0 {
        0
    } else {
        shift(players.drop_last(), held, n) + if players.last().1.player_number == n {
            RACKET_STEP * direction(players.last().1, held)
        } else {
            0
        }
    }
}

/// A player whose number no player of `players` has moves nothing.
proof fn lemma_shift_absent(players: Seq<(Entity, Player)>, held: Seq<Control>, n: i32)
    requires
        forall|i: int| 0 <= i < players.len() ==> (#[trigger] players[i]).1.player_number != n,
    ensures
        shift(players, held, n) == 0,
    decreases players.len(),
{
    if players.len() > 0 {
        let d = players.drop_last();
        assert forall|i: int| 0 <= i < d.len() implies (#[trigger] d[i]).1.player_number != n by {
            assert(d[i] == players[i]);
        }
        lemma_shift_absent(d, held, n);
        assert(players.last() == players[players.len() - 1]);
    }
}

/// With player numbers unique, the racket of number `players[i]` moves by one
/// step in that player's direction.
pub proof fn lemma_shift_of_owner(players: Seq<(Entity, Player)>, held: Seq<Control>, i: int)
    requires
        numbers_unique(players),
        0 <= i < players.len(),
    ensures
        shift(players, held, players[i].1.player_number) == RACKET_STEP * direction(players[i].1, held),
    decreases players.len(),
{
    let n = players[i].1.player_number;
    let d = players.drop_last();
    if i == players.len() - 1 {
        assert forall|k: int| 0 <= k < d.len() implies (#[trigger] d[k]).1.player_number != n by {
            assert(d[k] == players[k]);
        }
        lemma_shift_absent(d, held, n);
    } else {
        assert forall|a: int, b: int| 0 <= a < d.len() && 0 <= b < d.len() && a != b
            implies (#[trigger] d[a]).1.player_number != (#[trigger] d[b]).1.player_number by {
            assert(d[a] == players[a] && d[b] == players[b]);
        }
        assert(d[i] == players[i]);
        lemma_shift_of_owner(d, held, i);
        assert(players.last() == players[players.len() - 1]);
    }
}

/// The racket entry `entry` moved vertically by `dy`; all else is kept.
pub open spec fn moved(entry: (Entity, Racket), dy: int) -> (Entity, Racket) {
    (entry.0, Racket {
        player_number: entry.1.player_number,
        transform: Transform { y: (entry.1.transform.y + dy) as i64, ..entry.1.transform },
    })
}

/// The racket can move one step either way without leaving the `i64` range.
pub open spec fn step_fits(entry: (Entity, Racket)) -> bool {
    i64::MIN + RACKET_STEP <= entry.1.transform.y <= i64::MAX - RACKET_STEP
}

proof fn lemma_shift_take(players: Seq<(Entity, Player)>, held: Seq<Control>, n: i32, i: int)
    requires
        0 <= i < players.len(),
    ensures
        shift(players.take(i + 1), held, n) == shift(players.take(i), held, n) + if players[i].1.player_number == n {
            RACKET_STEP * direction(players[i].1, held)
        } else {
            0
        },
{
    let t = players.take(i + 1);
    assert(t.drop_last() =~= players.take(i));
    assert(t.last() == players[i]);
}

proof fn lemma_shift_before_owner(players: Seq<(Entity, Player)>, held: Seq<Control>, i: int)
    requires
        numbers_unique(players),
        0 <= i < players.len(),
    ensures
        shift(players.take(i), held, players[i].1.player_number) == 0,
{
    let t = players.take(i);
    let n = players[i].1.player_number;
    assert forall|k: int| 0 <= k < t.len() implies (#[trigger] t[k]).1.player_number != n by {
        assert(t[k] == players[k]);
    }
    lemma_shift_absent(t, held, n);
}

/// A racket whose player holds neither of its controls stays where it is.
pub proof fn lemma_idle_racket_stays(players: Seq<(Entity, Player)>, held: Seq<Control>, i: int, entry: (Entity, Racket))
    requires
        numbers_unique(players),
        0 <= i < players.len(),
        !held.contains(players[i].1.movement_keys.up),
        !held.contains(players[i].1.movement_keys.down),
        entry.1.player_number == players[i].1.player_number,
    ensures
        moved(entry, shift(players, held, entry.1.player_number)) == entry,
{
    lemma_shift_of_owner(players, held, i);
    assert(moved(entry, 0).1.transform =~= entry.1.transform);
}

/// With only its up control held, a player's racket rises by exactly one step.
pub proof fn lemma_up_moves_one_step(players: Seq<(Entity, Player)>, held: Seq<Control>, i: int, entry: (Entity, Racket))
    requires
        numbers_unique(players),
        0 <= i < players.len(),
        held.contains(players[i].1.movement_keys.up),
        !held.contains(players[i].1.movement_keys.down),
        entry.1.player_number == players[i].1.player_number,
        step_fits(entry),
    ensures
        moved(entry, shift(players, held, entry.1.player_number)).1.transform.y == entry.1.transform.y + RACKET_STEP,
{
    lemma_shift_of_owner(players, held, i);
}

/// With only its down control held, a player's racket sinks by exactly one step.
pub proof fn lemma_down_moves_one_step(players: Seq<(Entity, Player)>, held: Seq<Control>, i: int, entry: (Entity, Racket))
    requires
        numbers_unique(players),
        0 <= i < players.len(),
        !held.contains(players[i].1.movement_keys.up),
        held.contains(players[i].1.movement_keys.down),
        entry.1.player_number == players[i].1.player_number,
        step_fits(entry),
    ensures
        moved(entry, shift(players, held, entry.1.player_number)).1.transform.y == entry.1.transform.y - RACKET_STEP,
{
    lemma_shift_of_owner(players, held, i);
}

/// When both controls of a player are held, up wins: the racket rises.
pub proof fn lemma_up_takes_precedence(players: Seq<(Entity, Player)>, held: Seq<Control>, i: int, entry: (Entity, Racket))
    requires
        numbers_unique(players),
        0 <= i < players.len(),
        held.contains(players[i].1.movement_keys.up),
        held.contains(players[i].1.movement_keys.down),
        entry.1.player_number == players[i].1.player_number,
        step_fits(entry),
    ensures
        moved(entry, shift(players, held, entry.1.player_number)).1.transform.y == entry.1.transform.y + RACKET_STEP,
        moved(entry, shift(players, held, entry.1.player_number)).1.transform.y > entry.1.transform.y,
{
    lemma_shift_of_owner(players, held, i);
}

/// Rackets move independently: the move of the racket of number `n` depends
/// only on the controls of the players of number `n`, so two inputs that
/// agree on those controls move it alike, whatever the other players hold.
pub proof fn lemma_rackets_move_independently(
    players: Seq<(Entity, Player)>,
    held_a: Seq<Control>,
    held_b: Seq<Control>,
    n: i32,
)
    requires
        forall|i: int| 0 <= i < players.len() && (#[trigger] players[i]).1.player_number == n ==> {
            &&& held_a.contains(players[i].1.movement_keys.up) == held_b.contains(players[i].1.movement_keys.up)
            &&& held_a.contains(players[i].1.movement_keys.down) == held_b.contains(players[i].1.movement_keys.down)
        },
    ensures
        shift(players, held_a, n) == shift(players, held_b, n),
    decreases players.len(),
{
    if players.len() > 0 {
        let d = players.drop_last();
        assert forall|i: int| 0 <= i < d.len() && (#[trigger] d[i]).1.player_number == n implies {
            &&& held_a.contains(d[i].1.movement_keys.up) == held_b.contains(d[i].1.movement_keys.up)
            &&& held_a.contains(d[i].1.movement_keys.down) == held_b.contains(d[i].1.movement_keys.down)
        } by {
            assert(d[i] == players[i]);
        }
        lemma_rackets_move_independently(d, held_a, held_b, n);
        assert(players.last() == players[players.len() - 1]);
    }
}

/// With player numbers unique, a tick moves a racket by at most one step.
pub proof fn lemma_shift_bounded(players: Seq<(Entity, Player)>, held: Seq<Control>, n: i32)
    requires
        numbers_unique(players),
    ensures
        -RACKET_STEP <= shift(players, held, n) <= RACKET_STEP,
{
    if exists|i: int| 0 <= i < players.len() && (#[trigger] players[i]).1.player_number == n {
        let i = choose|i: int| 0 <= i < players.len() && (#[trigger] players[i]).1.player_number == n;
        lemma_shift_of_owner(players, held, i);
    } else {
        lemma_shift_absent(players, held, n);
    }
}

/// The racket can take `ticks` steps either way without leaving the `i64` range.
pub open spec fn steps_fit(entry: (Entity, Racket), ticks: int) -> bool {
    i64::MIN + RACKET_STEP * ticks <= entry.1.transform.y <= i64::MAX - RACKET_STEP * ticks
}

impl World {
    /// One fixed tick of the movement system. Each player with a control held
    /// moves every racket of its number one step: up when its up control is
    /// held, else down. Rackets move only vertically; nothing else changes.
    pub fn move_rackets(&mut self, input: &InputState)
        requires
            old(self).wf(),
            forall|j: int| 0 <= j < old(self).rackets@.len() ==> step_fits(#[trigger] old(self).rackets@[j]),
        ensures
            final(self).wf(),
            final(self).next_id == old(self).next_id,
            final(self).players == old(self).players,
            final(self).balls == old(self).balls,
            final(self).walls == old(self).walls,
            final(self).rackets@.len() == old(self).rackets@.len(),
            forall|j: int| 0 <= j < final(self).rackets@.len() ==> #[trigger] final(self).rackets@[j] == moved(
                old(self).rackets@[j],
                shift(old(self).players@, input.held@, old(self).rackets@[j].1.player_number),
            ),
    {
        let ghost held = input.held@;
        let ghost players = self.players@;
        let ghost start = self.rackets@;
        let mut i: usize = 0;
        while i < self.players.len()
            invariant
                self.next_id == old(self).next_id,
                self.players == old(self).players,
                self.balls == old(self).balls,
                self.walls == old(self).walls,
                players == old(self).players@,
                start == old(self).rackets@,
                held == input.held@,
                numbers_unique(players),
                0 <= i <= players.len(),
                self.rackets@.len() == start.len(),
                forall|j: int| 0 <= j < start.len() ==> step_fits(#[trigger] start[j]),
                forall|j: int| 0 <= j < start.len() ==> #[trigger] self.rackets@[j] == moved(
                    start[j],
                    shift(players.take(i as int), held, start[j].1.player_number),
                ),
            decreases players.len() - i,
        {
            let player = self.players[i].1;
            let up = input.pressed(player.movement_keys.up);
            let down = input.pressed(player.movement_keys.down);
            proof {
                assert forall|n: i32| #[trigger] shift(players.take(i + 1), held, n) == shift(players.take(i as int), held, n)
                    + if players[i as int].1.player_number == n { RACKET_STEP * direction(players[i as int].1, held) } else { 0 } by {
                    lemma_shift_take(players, held, n, i as int);
                }
                lemma_shift_before_owner(players, held, i as int);
            }
            if up || down {
                let dy: i64 = if up { RACKET_STEP } else { -RACKET_STEP };
                assert(dy == RACKET_STEP * direction(player, held));
                let mut j: usize = 0;
                while j < self.rackets.len()
                    invariant
                        self.next_id == old(self).next_id,
                        self.players == old(self).players,
                        self.balls == old(self).balls,
                        self.walls == old(self).walls,
                        players == old(self).players@,
                        start == old(self).rackets@,
                        held == input.held@,
                        numbers_unique(players),
                        0 <= i < players.len(),
                        player == players[i as int].1,
                        dy == RACKET_STEP * direction(player, held),
                        shift(players.take(i as int), held, player.player_number) == 0,
                        forall|n: i32| #[trigger] shift(players.take(i + 1), held, n) == shift(players.take(i as int), held, n)
                            + if player.player_number == n { RACKET_STEP * direction(player, held) } else { 0 },
                        0 <= j <= start.len(),
                        self.rackets@.len() == start.len(),
                        forall|k: int| 0 <= k < start.len() ==> step_fits(#[trigger] start[k]),
                        forall|k: int| 0 <= k < j ==> #[trigger] self.rackets@[k] == moved(
                            start[k],
                            shift(players.take(i + 1), held, start[k].1.player_number),
                        ),
                        forall|k: int| j <= k < start.len() ==> #[trigger] self.rackets@[k] == moved(
                            start[k],
                            shift(players.take(i as int), held, start[k].1.player_number),
                        ),
                    decreases start.len() - j,
                {
                    let (e, mut racket) = self.rackets[j];
                    if racket.player_number == player.player_number {
                        assert(step_fits(start[j as int]));
                        racket.transform.y = racket.transform.y + dy;
                        self.rackets[j] = (e, racket);
                    }
                    j = j + 1;
                }
            } else {
                assert(direction(player, held) == 0);
            }
            i = i + 1;
        }
        proof {
            assert(players.take(players.len() as int) =~= players);
            assert forall|j: int| 0 <= j < self.rackets@.len() implies (#[trigger] self.rackets@[j]).0.id < self.next_id by {
                assert(self.rackets@[j].0 == start[j].0);
            }
            assert forall|a: int, b: int| 0 <= a < self.rackets@.len() && 0 <= b < self.rackets@.len() && a != b
                implies (#[trigger] self.rackets@[a]).0 != (#[trigger] self.rackets@[b]).0 by {
                assert(self.rackets@[a].0 == start[a].0);
                assert(self.rackets@[b].0 == start[b].0);
            }
        }
    }
    /// `ticks` consecutive ticks under the same input: each racket moves by
    /// `ticks` times what one tick moves it.
    pub fn run_ticks(&mut self, ticks: u64, input: &InputState)
        requires
            old(self).wf(),
            forall|j: int| 0 <= j < old(self).rackets@.len() ==> steps_fit(#[trigger] old(self).rackets@[j], ticks as int),
        ensures
            final(self).wf(),
            final(self).next_id == old(self).next_id,
            final(self).players == old(self).players,
            final(self).balls == old(self).balls,
            final(self).walls == old(self).walls,
            final(self).rackets@.len() == old(self).rackets@.len(),
            forall|j: int| 0 <= j < final(self).rackets@.len() ==> #[trigger] final(self).rackets@[j] == moved(
                old(self).rackets@[j],
                ticks * shift(old(self).players@, input.held@, old(self).rackets@[j].1.player_number),
            ),
    {
        let ghost start = self.rackets@;
        let ghost players = self.players@;
        let ghost held = input.held@;
        let mut k: u64 = 0;
        proof {
            assert forall|j: int| 0 <= j < start.len() implies #[trigger] self.rackets@[j] == moved(
                start[j], 0 * shift(players, held, start[j].1.player_number)) by {
                assert(moved(start[j], 0).1.transform =~= start[j].1.transform);
            }
        }
        while k < ticks
            invariant
                self.wf(),
                self.next_id == old(self).next_id,
                self.players == old(self).players,
                self.balls == old(self).balls,
                self.walls == old(self).walls,
                start == old(self).rackets@,
                players == old(self).players@,
                held == input.held@,
                k <= ticks,
                self.rackets@.len() == start.len(),
                forall|j: int| 0 <= j < start.len() ==> steps_fit(#[trigger] start[j], ticks as int),
                forall|j: int| 0 <= j < start.len() ==> #[trigger] self.rackets@[j] == moved(
                    start[j],
                    k * shift(players, held, start[j].1.player_number),
                ),
            decreases ticks - k,
        {
            proof {
                assert forall|j: int| 0 <= j < self.rackets@.len() implies step_fits(#[trigger] self.rackets@[j]) by {
                    let s = shift(players, held, start[j].1.player_number);
                    lemma_shift_bounded(players, held, start[j].1.player_number);
                    assert(steps_fit(start[j], ticks as int));
                    assert(-RACKET_STEP * k <= k * s <= RACKET_STEP * k) by (nonlinear_arith)
                        requires -RACKET_STEP <= s <= RACKET_STEP, k >= 0;
                    assert(RACKET_STEP * k + RACKET_STEP <= RACKET_STEP * ticks) by (nonlinear_arith)
                        requires k < ticks;
                }
            }
            let ghost before = self.rackets@;
            self.move_rackets(input);
            proof {
                assert forall|j: int| 0 <= j < start.len() implies #[trigger] self.rackets@[j] == moved(
                    start[j], (k + 1) * shift(players, held, start[j].1.player_number)) by {
                    let s = shift(players, held, start[j].1.player_number);
                    assert(before[j] == moved(start[j], k * s));
                    assert((k + 1) * s == k * s + s) by (nonlinear_arith);
                    lemma_shift_bounded(players, held, start[j].1.player_number);
                    assert(steps_fit(start[j], ticks as int));
                    assert(-RACKET_STEP * (k + 1) <= (k + 1) * s <= RACKET_STEP * (k + 1)) by (nonlinear_arith)
                        requires -RACKET_STEP <= s <= RACKET_STEP, k >= 0;
                    assert(-RACKET_STEP * k <= k * s <= RACKET_STEP * k) by (nonlinear_arith)
                        requires -RACKET_STEP <= s <= RACKET_STEP, k >= 0;
                    assert(RACKET_STEP * (k + 1) <= RACKET_STEP * ticks) by (nonlinear_arith)
                        requires k < ticks;
                    assert(moved(before[j], s).1.transform =~= moved(start[j], (k + 1) * s).1.transform);
                }
            }
            k = k + 1;
        }
    }
}

} // verus!

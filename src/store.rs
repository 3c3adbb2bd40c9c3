use vstd::prelude::*;

use crate::config::ArenaConfig;
use crate::geometry::WallLocation;
use crate::world::{
    new_ball, new_player, new_racket, spec_ball, spec_player, spec_racket, Ball, Entity, Player,
    Racket, Wall,
};

verus! {

/// Holds every entity and its records: one table per record kind, each in
/// insertion order and keyed by entity.
pub struct World {
    pub next_id: u64,
    pub players: Vec<(Entity, Player)>,
    pub rackets: Vec<(Entity, Racket)>,
    pub balls: Vec<(Entity, Ball)>,
    pub walls: Vec<(Entity, Wall)>,
}

/// Every key of the table was handed out, and no key occurs twice.
pub open spec fn table_wf<T>(t: Seq<(Entity, T)>, next_id: u64) -> bool {
    &&& forall|i: int| 0 <= i < t.len() ==> (#[trigger] t[i]).0.id < next_id
    &&& forall|i: int, j: int| 0 <= i < t.len() && 0 <= j < t.len() && i != j
        ==> (#[trigger] t[i]).0 != (#[trigger] t[j]).0
}

/// Whether the table holds a record for `e`.
pub open spec fn table_has<T>(t: Seq<(Entity, T)>, e: Entity) -> bool {
    exists|i: int| 0 <= i < t.len() && (#[trigger] t[i]).0 == e
}

/// No two players share a number.
pub open spec fn numbers_unique(players: Seq<(Entity, Player)>) -> bool {
    forall|i: int, j: int| 0 <= i < players.len() && 0 <= j < players.len() && i != j
        ==> (#[trigger] players[i]).1.player_number != (#[trigger] players[j]).1.player_number
}

/// Whether some player has number `n`.
pub open spec fn number_taken(players: Seq<(Entity, Player)>, n: i32) -> bool {
    exists|i: int| 0 <= i < players.len() && (#[trigger] players[i]).1.player_number == n
}

proof fn lemma_push_keeps_table<T>(t: Seq<(Entity, T)>, next_id: u64, e: Entity, rec: T)
    requires
        table_wf(t, next_id),
        e.id < next_id,
        !table_has(t, e),
    ensures
        table_wf(t.push((e, rec)), next_id),
{
    let t2 = t.push((e, rec));
    assert forall|i: int, j: int| 0 <= i < t2.len() && 0 <= j < t2.len() && i != j
        implies (#[trigger] t2[i]).0 != (#[trigger] t2[j]).0 by {
        if i == t.len() {
            assert(t2[j] == t[j]);
        } else if j == t.len() {
            assert(t2[i] == t[i]);
        }
    }
    assert forall|i: int| 0 <= i < t2.len() implies (#[trigger] t2[i]).0.id < next_id by {
        if i < t.len() {
            assert(t2[i] == t[i]);
        }
    }
}

proof fn lemma_fresh_not_in_table<T>(t: Seq<(Entity, T)>, next_id: u64)
    requires
        table_wf(t, next_id),
    ensures
        !table_has(t, Entity { id: next_id }),
{
    if table_has(t, Entity { id: next_id }) {
        let i = choose|i: int| 0 <= i < t.len() && (#[trigger] t[i]).0 == Entity { id: next_id };
        assert(t[i].0.id < next_id);
    }
}

proof fn lemma_table_grows<T>(t: Seq<(Entity, T)>, a: u64, b: u64)
    requires
        table_wf(t, a),
        a <= b,
    ensures
        table_wf(t, b),
{
}

impl World {
    pub open spec fn wf(&self) -> bool {
        &&& table_wf(self.players@, self.next_id)
        &&& table_wf(self.rackets@, self.next_id)
        &&& table_wf(self.balls@, self.next_id)
        &&& table_wf(self.walls@, self.next_id)
        &&& numbers_unique(self.players@)
    }

    /// An empty store.
    pub fn new() -> (r: World)
        ensures
            r.wf(),
            r.next_id == 0,
            r.players@.len() == 0,
            r.rackets@.len() == 0,
            r.balls@.len() == 0,
            r.walls@.len() == 0,
    {
        World { next_id: 0, players: Vec::new(), rackets: Vec::new(), balls: Vec::new(), walls: Vec::new() }
    }

    /// Hands out a fresh entity.
    pub fn create_entity(&mut self) -> (e: Entity)
        requires
            old(self).wf(),
            old(self).next_id < u64::MAX,
        ensures
            final(self).wf(),
            e.id == old(self).next_id,
            final(self).next_id == old(self).next_id + 1,
            final(self).players == old(self).players,
            final(self).rackets == old(self).rackets,
            final(self).balls == old(self).balls,
            final(self).walls == old(self).walls,
    {
        let e = Entity { id: self.next_id };
        proof {
            lemma_table_grows(self.players@, self.next_id, (self.next_id + 1) as u64);
            lemma_table_grows(self.rackets@, self.next_id, (self.next_id + 1) as u64);
            lemma_table_grows(self.balls@, self.next_id, (self.next_id + 1) as u64);
            lemma_table_grows(self.walls@, self.next_id, (self.next_id + 1) as u64);
        }
        self.next_id = self.next_id + 1;
        e
    }

    pub fn attach_player(&mut self, e: Entity, player: Player)
        requires
            old(self).wf(),
            e.id < old(self).next_id,
            !table_has(old(self).players@, e),
            !number_taken(old(self).players@, player.player_number),
        ensures
            final(self).wf(),
            final(self).players@ == old(self).players@.push((e, player)),
            final(self).next_id == old(self).next_id,
            final(self).rackets == old(self).rackets,
            final(self).balls == old(self).balls,
            final(self).walls == old(self).walls,
    {
        proof {
            lemma_push_keeps_table(self.players@, self.next_id, e, player);
        }
        self.players.push((e, player));
        proof {
            let ps = self.players@;
            assert forall|i: int, j: int| 0 <= i < ps.len() && 0 <= j < ps.len() && i != j
                implies (#[trigger] ps[i]).1.player_number != (#[trigger] ps[j]).1.player_number by {
                if i == ps.len() - 1 {
                    assert(old(self).players@[j] == ps[j]);
                } else if j == ps.len() - 1 {
                    assert(old(self).players@[i] == ps[i]);
                } else {
                    assert(old(self).players@[i] == ps[i]);
                    assert(old(self).players@[j] == ps[j]);
                }
            }
        }
    }

    pub fn attach_racket(&mut self, e: Entity, racket: Racket)
        requires
            old(self).wf(),
            e.id < old(self).next_id,
            !table_has(old(self).rackets@, e),
        ensures
            final(self).wf(),
            final(self).rackets@ == old(self).rackets@.push((e, racket)),
            final(self).next_id == old(self).next_id,
            final(self).players == old(self).players,
            final(self).balls == old(self).balls,
            final(self).walls == old(self).walls,
    {
        proof {
            lemma_push_keeps_table(self.rackets@, self.next_id, e, racket);
        }
        self.rackets.push((e, racket));
    }

    pub fn attach_ball(&mut self, e: Entity, ball: Ball)
        requires
            old(self).wf(),
            e.id < old(self).next_id,
            !table_has(old(self).balls@, e),
        ensures
            final(self).wf(),
            final(self).balls@ == old(self).balls@.push((e, ball)),
            final(self).next_id == old(self).next_id,
            final(self).players == old(self).players,
            final(self).rackets == old(self).rackets,
            final(self).walls == old(self).walls,
    {
        proof {
            lemma_push_keeps_table(self.balls@, self.next_id, e, ball);
        }
        self.balls.push((e, ball));
    }

    pub fn attach_wall(&mut self, e: Entity, wall: Wall)
        requires
            old(self).wf(),
            e.id < old(self).next_id,
            !table_has(old(self).walls@, e),
        ensures
            final(self).wf(),
            final(self).walls@ == old(self).walls@.push((e, wall)),
            final(self).next_id == old(self).next_id,
            final(self).players == old(self).players,
            final(self).rackets == old(self).rackets,
            final(self).balls == old(self).balls,
    {
        proof {
            lemma_push_keeps_table(self.walls@, self.next_id, e, wall);
        }
        self.walls.push((e, wall));
    }
    /// Creates an entity that holds `player`.
    pub fn spawn_player(&mut self, player: Player) -> (e: Entity)
        requires
            old(self).wf(),
            old(self).next_id < u64::MAX,
            !number_taken(old(self).players@, player.player_number),
        ensures
            final(self).wf(),
            e.id == old(self).next_id,
            final(self).next_id == old(self).next_id + 1,
            final(self).players@ == old(self).players@.push((e, player)),
            final(self).rackets == old(self).rackets,
            final(self).balls == old(self).balls,
            final(self).walls == old(self).walls,
    {
        proof {
            lemma_fresh_not_in_table(self.players@, self.next_id);
        }
        let e = self.create_entity();
        self.attach_player(e, player);
        e
    }

    /// Creates an entity that holds `racket`.
    pub fn spawn_racket(&mut self, racket: Racket) -> (e: Entity)
        requires
            old(self).wf(),
            old(self).next_id < u64::MAX,
        ensures
            final(self).wf(),
            e.id == old(self).next_id,
            final(self).next_id == old(self).next_id + 1,
            final(self).rackets@ == old(self).rackets@.push((e, racket)),
            final(self).players == old(self).players,
            final(self).balls == old(self).balls,
            final(self).walls == old(self).walls,
    {
        proof {
            lemma_fresh_not_in_table(self.rackets@, self.next_id);
        }
        let e = self.create_entity();
        self.attach_racket(e, racket);
        e
    }

    /// Creates an entity that holds `ball`.
    pub fn spawn_ball(&mut self, ball: Ball) -> (e: Entity)
        requires
            old(self).wf(),
            old(self).next_id < u64::MAX,
        ensures
            final(self).wf(),
            e.id == old(self).next_id,
            final(self).next_id == old(self).next_id + 1,
            final(self).balls@ == old(self).balls@.push((e, ball)),
            final(self).players == old(self).players,
            final(self).rackets == old(self).rackets,
            final(self).walls == old(self).walls,
    {
        proof {
            lemma_fresh_not_in_table(self.balls@, self.next_id);
        }
        let e = self.create_entity();
        self.attach_ball(e, ball);
        e
    }

    /// Creates an entity that holds `wall`.
    pub fn spawn_wall(&mut self, wall: Wall) -> (e: Entity)
        requires
            old(self).wf(),
            old(self).next_id < u64::MAX,
        ensures
            final(self).wf(),
            e.id == old(self).next_id,
            final(self).next_id == old(self).next_id + 1,
            final(self).walls@ == old(self).walls@.push((e, wall)),
            final(self).players == old(self).players,
            final(self).rackets == old(self).rackets,
            final(self).balls == old(self).balls,
    {
        proof {
            lemma_fresh_not_in_table(self.walls@, self.next_id);
        }
        let e = self.create_entity();
        self.attach_wall(e, wall);
        e
    }

    /// The world at the start of a game in `arena`: two players, their
    /// rackets, the ball and the four walls, created in that order.
    pub open spec fn is_initial(&self, arena: ArenaConfig) -> bool {
        &&& self.next_id == 9
        &&& self.players@ == seq![
            (Entity { id: 0 }, spec_player(false)),
            (Entity { id: 1 }, spec_player(true)),
        ]
        &&& self.rackets@ == seq![
            (Entity { id: 2 }, spec_racket(false, arena)),
            (Entity { id: 3 }, spec_racket(true, arena)),
        ]
        &&& self.balls@ == seq![(Entity { id: 4 }, spec_ball())]
        &&& self.walls@ == seq![
            (Entity { id: 5 }, Wall { location: WallLocation::Left, transform: Wall::spec_transform(WallLocation::Left, arena) }),
            (Entity { id: 6 }, Wall { location: WallLocation::Right, transform: Wall::spec_transform(WallLocation::Right, arena) }),
            (Entity { id: 7 }, Wall { location: WallLocation::Bottom, transform: Wall::spec_transform(WallLocation::Bottom, arena) }),
            (Entity { id: 8 }, Wall { location: WallLocation::Top, transform: Wall::spec_transform(WallLocation::Top, arena) }),
        ]
    }

    /// Builds the world at the start of a game.
    pub fn setup(arena: &ArenaConfig) -> (r: World)
        requires
            arena.wf(),
        ensures
            r.wf(),
            r.is_initial(*arena),
    {
        let mut world = World::new();
        world.spawn_player(new_player(false));
        proof {
            assert(world.players@[0].1.player_number == 1);
            if number_taken(world.players@, 2) {
                let i = choose|i: int| 0 <= i < world.players@.len() && (#[trigger] world.players@[i]).1.player_number == 2;
                assert(i == 0);
            }
        }
        world.spawn_player(new_player(true));
        world.spawn_racket(new_racket(false, arena));
        world.spawn_racket(new_racket(true, arena));
        world.spawn_ball(new_ball());
        world.spawn_wall(Wall::new(WallLocation::Left, arena));
        world.spawn_wall(Wall::new(WallLocation::Right, arena));
        world.spawn_wall(Wall::new(WallLocation::Bottom, arena));
        world.spawn_wall(Wall::new(WallLocation::Top, arena));
        proof {
            assert(world.players@ =~= seq![
                (Entity { id: 0 }, spec_player(false)),
                (Entity { id: 1 }, spec_player(true)),
            ]);
            assert(world.rackets@ =~= seq![
                (Entity { id: 2 }, spec_racket(false, *arena)),
                (Entity { id: 3 }, spec_racket(true, *arena)),
            ]);
            assert(world.balls@ =~= seq![(Entity { id: 4 }, spec_ball())]);
            assert(world.walls@ =~= seq![
                (Entity { id: 5 }, Wall { location: WallLocation::Left, transform: Wall::spec_transform(WallLocation::Left, *arena) }),
                (Entity { id: 6 }, Wall { location: WallLocation::Right, transform: Wall::spec_transform(WallLocation::Right, *arena) }),
                (Entity { id: 7 }, Wall { location: WallLocation::Bottom, transform: Wall::spec_transform(WallLocation::Bottom, *arena) }),
                (Entity { id: 8 }, Wall { location: WallLocation::Top, transform: Wall::spec_transform(WallLocation::Top, *arena) }),
            ]);
        }
        world
    }
    /// Index of the first racket of `player_number`, if there is one.
    pub fn find_racket(&self, player_number: i32) -> (r: Option<usize>)
        ensures
            r.is_none() <==> forall|j: int| 0 <= j < self.rackets@.len()
                ==> (#[trigger] self.rackets@[j]).1.player_number != player_number,
            r.is_some() ==> {
                &&& r.unwrap() < self.rackets@.len()
                &&& self.rackets@[r.unwrap() as int].1.player_number == player_number
                &&& forall|j: int| 0 <= j < r.unwrap() ==> (#[trigger] self.rackets@[j]).1.player_number != player_number
            },
    {
        let mut j: usize = 0;
        while j < self.rackets.len()
            invariant
                j <= self.rackets@.len(),
                forall|k: int| 0 <= k < j ==> (#[trigger] self.rackets@[k]).1.player_number != player_number,
            decreases self.rackets@.len() - j,
        {
            if self.rackets[j].1.player_number == player_number {
                return Some(j);
            }
            j = j + 1;
        }
        None
    }
}

} // verus!

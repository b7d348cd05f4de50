//! A battle: the players taking part, where their units start, and who has won.
use crate::api::{Coord, PlayerId, PlayerMemory, Unit, UnitId};
use crate::round::{GameState, Player};
use crate::world::{exits_of, World};
use vstd::prelude::*;

verus! {

/// The most players a battle can hold: their starting columns must fit the coordinates.
pub const MAX_PLAYERS: usize = 0x00ff_ffff;

/// The players of a battle to be played, in the order in which they joined.
pub struct Battle<R> {
    pub players: Vec<R>,
}

/// Where the unit of the `i`-th player starts: on row 10, ten columns apart, from column 10.
pub open spec fn start_of(i: int) -> Coord {
    Coord { x: (10 + 10 * i) as isize, y: 10 }
}

impl<R> Default for Battle<R> {
    /// A battle without players.
    fn default() -> (r: Battle<R>)
        ensures
            r.players@.len() == 0,
    {
        Battle { players: Vec::new() }
    }
}

impl<R> Battle<R> {
    /// Adds a player to the battle; its id is the number of players before it.
    pub fn add_player(&mut self, player: R) -> (r: PlayerId)
        requires
            old(self).players@.len() < MAX_PLAYERS,
        ensures
            r == PlayerId(old(self).players@.len() as usize),
            final(self).players@ == old(self).players@.push(player),
    {
        let player_id = PlayerId(self.players.len());
        self.players.push(player);
        player_id
    }

    /// The state in which the battle starts on `world`: player `i` has id `i`, the given
    /// memory, and one unit spawned at `start_of(i)`; the turn is zero.
    pub fn start(self, world: World, memory: &PlayerMemory) -> (r: GameState<R>)
        requires
            world.wf(),
            self.players@.len() <= MAX_PLAYERS,
            world.units@.len() + self.players@.len() < usize::MAX,
        ensures
            r.wf(),
            r.turn == 0,
            r.world.map == world.map,
            r.world.units@.len() == world.units@.len() + self.players@.len(),
            forall|j: int| 0 <= j < world.units@.len() ==> r.world.units@[j] == world.units@[j],
            forall|i: int|
                0 <= i < self.players@.len() ==> r.world.units@[world.units@.len() + i] == (Unit {
                    id: UnitId((world.units@.len() + i) as usize),
                    player: PlayerId(i as usize),
                    location: start_of(i),
                }),
            r.players@.len() == self.players@.len(),
            forall|i: int|
                0 <= i < self.players@.len() ==> (#[trigger] r.players@[i]).id == PlayerId(
                    i as usize,
                ) && r.players@[i].runner == self.players@[i] && r.players@[i].memory == *memory,
    {
        let ghost runners = self.players@;
        let ghost units0 = world.units@;
        let ghost map0 = world.map;
        let mut runners_left = self.players;
        let mut world = world;
        let mut players: Vec<Player<R>> = Vec::new();
        let mut i: usize = 0;
        while runners_left.len() > 0
            invariant
                world.wf(),
                world.map == map0,
                runners.len() <= MAX_PLAYERS,
                units0.len() + runners.len() < usize::MAX,
                i + runners_left@.len() == runners.len(),
                runners_left@ == runners.subrange(i as int, runners.len() as int),
                players@.len() == i,
                world.units@.len() == units0.len() + i,
                forall|j: int| 0 <= j < units0.len() ==> world.units@[j] == units0[j],
                forall|k: int|
                    0 <= k < i ==> world.units@[units0.len() + k] == (Unit {
                        id: UnitId((units0.len() + k) as usize),
                        player: PlayerId(k as usize),
                        location: start_of(k),
                    }),
                forall|k: int|
                    0 <= k < i ==> (#[trigger] players@[k]).id == PlayerId(k as usize)
                        && players@[k].runner == runners[k] && players@[k].memory == *memory,
            decreases runners_left@.len(),
        {
            let runner = runners_left.remove(0);
            assert(runners_left@ == runners.subrange(i as int + 1, runners.len() as int));
            let id = PlayerId(i);
            world.spawn_unit(id, Coord::new(10 + (i as isize) * 10, 10));
            players.push(Player { id, runner, memory: memory.clone() });
            i = i + 1;
        }
        GameState { players, world, turn: 0 }
    }
}

/// The player whose unit stands first on an exit, in the order of the units, if any unit does:
/// the winner of the battle.
pub fn winner(world: &World) -> (r: Option<PlayerId>)
    requires
        world.wf(),
    ensures
        match r {
            Some(p) => exits_of(world.units@, world.map).len() > 0 && p == exits_of(
                world.units@,
                world.map,
            )[0].player,
            None => exits_of(world.units@, world.map).len() == 0,
        },
{
    let on_exits = world.units_on_exits();
    if on_exits.len() > 0 {
        Some(on_exits[0].player)
    } else {
        None
    }
}

} // verus!

//! The shared state of a game, and the pure transitions on it: spawning units, validating the
//! actions that players propose, applying validated actions, and the view of one player.
use crate::api::{
    translate, Coord, Direction, PlayerAction, PlayerId, PlayerTile, PlayerWorld, TileType, Unit,
    UnitId,
};
use crate::map::TileMap;
use crate::maze::new_map_prim;
use vstd::prelude::*;

verus! {

/// How far, in tiles, a unit sees.
pub const VISIBILITY_RANGE: i32 = 7;

/// The state of the world: a map and the units on it, in order of creation.
#[derive(Debug, Clone)]
pub struct World {
    pub map: TileMap,
    pub units: Vec<Unit>,
}

/// An action that has been checked against the world: its unit belongs to the player who
/// proposed it.
#[derive(Debug, Clone, Copy, PartialEq, Eq, Hash, Structural)]
pub enum Action {
    Move(UnitId, Direction),
}

/// An error that occurs when a player proposes an action that it may not perform.
#[derive(Debug, Clone)]
pub enum ActionValidationError {
    InvalidAction(String),
}

/// The unit that an action moves.
pub open spec fn action_unit(a: Action) -> UnitId {
    match a {
        Action::Move(u, _) => u,
    }
}

/// The direction in which an action moves its unit.
pub open spec fn action_direction(a: Action) -> Direction {
    match a {
        Action::Move(_, d) => d,
    }
}

/// The unit that a proposed action refers to.
pub open spec fn proposed_unit(a: PlayerAction) -> UnitId {
    match a {
        PlayerAction::Move { unit, .. } => unit,
    }
}

/// The validated form of a proposed action.
pub open spec fn to_action(a: PlayerAction) -> Action {
    match a {
        PlayerAction::Move { unit, direction } => Action::Move(unit, direction),
    }
}

/// Whether `player` may perform `a` among `units`: the unit exists and belongs to `player`.
pub open spec fn owns(units: Seq<Unit>, player: PlayerId, a: PlayerAction) -> bool {
    let i = proposed_unit(a).0 as int;
    0 <= i < units.len() && units[i].player == player
}

/// The units of `player`, in order.
pub open spec fn owned_by(units: Seq<Unit>, player: PlayerId) -> Seq<Unit>
    decreases units.len(),
{
    if units.len() == 0 {
        Seq::empty()
    } else {
        let rest = owned_by(units.drop_last(), player);
        if units.last().player == player {
            rest.push(units.last())
        } else {
            rest
        }
    }
}

/// The point `p` as a `Coord`.
pub open spec fn coord_of(p: (int, int)) -> Coord {
    Coord { x: p.0 as isize, y: p.1 as isize }
}

/// The units after `a`: its unit takes one step where the destination can be entered, and
/// stays put otherwise.
pub open spec fn move_unit(units: Seq<Unit>, map: TileMap, a: Action) -> Seq<Unit> {
    let i = action_unit(a).0 as int;
    let dest = translate(units[i].location@, action_direction(a));
    if map.enterable_at(dest) {
        units.update(i, Unit { location: coord_of(dest), ..units[i] })
    } else {
        units
    }
}

/// The units after the actions `acts`, applied one after another.
pub open spec fn apply_all(units: Seq<Unit>, map: TileMap, acts: Seq<Action>) -> Seq<Unit>
    decreases acts.len(),
{
    if acts.len() == 0 {
        units
    } else {
        move_unit(apply_all(units, map, acts.drop_last()), map, acts.last())
    }
}

/// Whether `u` stands on an exit tile of `map`.
pub open spec fn on_exit(map: TileMap, u: Unit) -> bool {
    map.contains(u.location@) && map.tile_at(u.location@) == TileType::Exit
}

/// The units of `units` that stand on an exit, in order.
pub open spec fn exits_of(units: Seq<Unit>, map: TileMap) -> Seq<Unit>
    decreases units.len(),
{
    if units.len() == 0 {
        Seq::empty()
    } else {
        let rest = exits_of(units.drop_last(), map);
        if on_exit(map, units.last()) {
            rest.push(units.last())
        } else {
            rest
        }
    }
}

/// The visible tiles among `coords`: those on the map, each tagged with its tile, in order.
pub open spec fn tagged(map: TileMap, coords: Seq<Coord>) -> Seq<PlayerTile>
    decreases coords.len(),
{
    if coords.len() == 0 {
        Seq::empty()
    } else {
        let rest = tagged(map, coords.drop_last());
        let c = coords.last();
        if map.contains(c@) {
            rest.push(PlayerTile { coord: c, tile_type: map.tile_at(c@) })
        } else {
            rest
        }
    }
}

/// Whether the unit at index `j` of `world` belongs to `player` and sees the point `p`.
pub open spec fn sees(world: World, player: PlayerId, j: int, p: (int, int)) -> bool {
    &&& 0 <= j < world.units@.len()
    &&& world.units@[j].player == player
    &&& world.map.contains(world.units@[j].location@)
    &&& world.map.spec_field_of_view(world.units@[j].location@, VISIBILITY_RANGE as int).contains(p)
}

/// Whether `view` is what `player` sees of `world`: its own units in order, and the tiles on
/// the map that any of them sees, each with its type.
pub open spec fn is_view_of(view: PlayerWorld, world: World, player: PlayerId) -> bool {
    &&& view.units@ == owned_by(world.units@, player)
    &&& forall|k: int|
        0 <= k < view.tiles@.len() ==> {
            let t = #[trigger] view.tiles@[k];
            &&& world.map.contains(t.coord@)
            &&& t.tile_type == world.map.tile_at(t.coord@)
            &&& exists|j: int| sees(world, player, j, t.coord@)
        }
    &&& forall|j: int, p: (int, int)|
        #[trigger] sees(world, player, j, p) && world.map.contains(p) ==> exists|k: int|
            0 <= k < view.tiles@.len() && view.tiles@[k].coord@ == p
}

/// Every tagged tile lies on the map, carries its tile type and comes from `coords`; every
/// coordinate of `coords` on the map is tagged.
pub proof fn lemma_tagged(map: TileMap, coords: Seq<Coord>)
    ensures
        forall|k: int|
            0 <= k < tagged(map, coords).len() ==> {
                let t = #[trigger] tagged(map, coords)[k];
                &&& map.contains(t.coord@)
                &&& t.tile_type == map.tile_at(t.coord@)
                &&& exists|m: int| 0 <= m < coords.len() && coords[m] == t.coord
            },
        forall|m: int|
            0 <= m < coords.len() && map.contains((#[trigger] coords[m])@) ==> exists|k: int|
                0 <= k < tagged(map, coords).len() && tagged(map, coords)[k].coord == coords[m],
    decreases coords.len(),
{
    if coords.len() > 0 {
        let init = coords.drop_last();
        lemma_tagged(map, init);
        let rest = tagged(map, init);
        let all = tagged(map, coords);
        assert forall|k: int| 0 <= k < all.len() implies {
            let t = #[trigger] all[k];
            &&& map.contains(t.coord@)
            &&& t.tile_type == map.tile_at(t.coord@)
            &&& exists|m: int| 0 <= m < coords.len() && coords[m] == t.coord
        } by {
            if k < rest.len() {
                assert(all[k] == rest[k]);
                let m = choose|m: int| 0 <= m < init.len() && init[m] == rest[k].coord;
                assert(coords[m] == init[m]);
            } else {
                assert(coords[coords.len() - 1] == all[k].coord);
            }
        }
        assert forall|m: int| 0 <= m < coords.len() && map.contains((#[trigger] coords[m])@)
            implies exists|k: int| 0 <= k < all.len() && all[k].coord == coords[m] by {
            if m < init.len() {
                assert(init[m] == coords[m]);
                let k = choose|k: int| 0 <= k < rest.len() && rest[k].coord == init[m];
                assert(all[k] == rest[k]);
            } else {
                assert(all[rest.len() as int].coord == coords[m]);
            }
        }
    }
}

/// The visible tiles among `coords`, which the field-of-view algorithm reported: those on the
/// map, each tagged with its tile, in order.
pub fn tiles_of(map: &TileMap, coords: &Vec<Coord>) -> (r: Vec<PlayerTile>)
    requires
        map.wf(),
    ensures
        r@ == tagged(*map, coords@),
{
    let mut r: Vec<PlayerTile> = Vec::new();
    let mut i: usize = 0;
    while i < coords.len()
        invariant
            map.wf(),
            i <= coords@.len(),
            r@ == tagged(*map, coords@.take(i as int)),
        decreases coords@.len() - i,
    {
        let c = coords[i];
        assert(coords@.take(i as int + 1).drop_last() == coords@.take(i as int));
        if map.in_bounds(c) {
            r.push(PlayerTile { coord: c, tile_type: map.tile(c) });
        }
        i = i + 1;
    }
    assert(coords@.take(i as int) == coords@);
    r
}

/// Given an action proposed by `player`, returns the action that can be applied to the world,
/// or an error where the unit it names does not exist or belongs to another player.
pub fn validate_action(action: PlayerAction, player: PlayerId, world: &World) -> (r: Result<
    Action,
    ActionValidationError,
>)
    ensures
        r is Ok <==> owns(world.units@, player, action),
        r matches Ok(a) ==> a == to_action(action),
{
    match action {
        PlayerAction::Move { unit, direction } => {
            if unit.0 < world.units.len() && world.units[unit.0].player == player {
                Ok(Action::Move(unit, direction))
            } else {
                Err(ActionValidationError::InvalidAction("action points to invalid unit".to_owned()))
            }
        },
    }
}

/// A move towards a wall or off the map leaves every unit where it was, however often it is
/// applied.
pub proof fn lemma_blocked_move_changes_nothing(units: Seq<Unit>, map: TileMap, a: Action)
    requires
        0 <= action_unit(a).0 < units.len(),
        !map.enterable_at(
            translate(units[action_unit(a).0 as int].location@, action_direction(a)),
        ),
    ensures
        apply_all(units, map, seq![a]) == units,
        apply_all(units, map, seq![a, a]) == units,
{
    let once = seq![a];
    let twice = seq![a, a];
    assert(once.drop_last() == Seq::<Action>::empty());
    assert(apply_all(units, map, once.drop_last()) == units);
    assert(once.last() == a);
    assert(move_unit(units, map, a) == units);
    assert(apply_all(units, map, once) == units);
    assert(twice.drop_last() == once);
    assert(twice.last() == a);
    assert(apply_all(units, map, twice) == move_unit(apply_all(units, map, once), map, a));
}

impl Default for World {
    /// A world on an 80 × 50 maze, without units.
    fn default() -> (r: World)
        ensures
            r.wf(),
            r.map.width == 80,
            r.map.height == 50,
            r.units@.len() == 0,
    {
        World { map: new_map_prim(80, 50), units: Vec::new() }
    }
}

impl World {
    /// The map is well formed and every unit's id is its index.
    pub open spec fn wf(&self) -> bool {
        &&& self.map.wf()
        &&& forall|i: int| 0 <= i < self.units@.len() ==> (#[trigger] self.units@[i]).id.0 == i
    }

    /// A world on `map` without units.
    pub fn new(map: TileMap) -> (r: World)
        requires
            map.wf(),
        ensures
            r.wf(),
            r.map == map,
            r.units@.len() == 0,
    {
        World { map, units: Vec::new() }
    }

    /// Spawns a unit in the world; its id is the next index. There is no check of the location.
    pub fn spawn_unit(&mut self, player: PlayerId, location: Coord) -> (r: UnitId)
        requires
            old(self).wf(),
            old(self).units@.len() < usize::MAX,
        ensures
            final(self).wf(),
            r == UnitId(old(self).units@.len() as usize),
            final(self).map == old(self).map,
            final(self).units@ == old(self).units@.push(Unit { id: r, player, location }),
    {
        let id = UnitId(self.units.len());
        self.units.push(Unit { id, player, location });
        id
    }

    /// Returns the units that are currently standing on an exit, in order.
    pub fn units_on_exits(&self) -> (r: Vec<Unit>)
        requires
            self.wf(),
        ensures
            r@ == exits_of(self.units@, self.map),
    {
        let mut r: Vec<Unit> = Vec::new();
        let mut i: usize = 0;
        while i < self.units.len()
            invariant
                self.wf(),
                i <= self.units@.len(),
                r@ == exits_of(self.units@.take(i as int), self.map),
            decreases self.units@.len() - i,
        {
            let u = self.units[i];
            assert(self.units@.take(i as int + 1).drop_last() == self.units@.take(i as int));
            if self.map.in_bounds(u.location) && self.map.tile(u.location) == TileType::Exit {
                r.push(u);
            }
            i = i + 1;
        }
        assert(self.units@.take(i as int) == self.units@);
        r
    }

    /// Applies the actions in order and returns the resulting world. An action whose
    /// destination is a wall or off the map leaves its unit where it is.
    pub fn apply(self, actions: Vec<Action>) -> (r: World)
        requires
            self.wf(),
            forall|k: int|
                0 <= k < actions@.len() ==> (action_unit(#[trigger] actions@[k]).0 as int)
                    < self.units@.len(),
        ensures
            r.wf(),
            r.map == self.map,
            r.units@ == apply_all(self.units@, self.map, actions@),
    {
        let World { map, units } = self;
        let mut units = units;
        let ghost units0 = units@;
        let mut i: usize = 0;
        while i < actions.len()
            invariant
                map.wf(),
                i <= actions@.len(),
                units@.len() == units0.len(),
                forall|k: int|
                    0 <= k < actions@.len() ==> (action_unit(#[trigger] actions@[k]).0 as int)
                        < units0.len(),
                forall|j: int| 0 <= j < units@.len() ==> (#[trigger] units@[j]).id.0 == j,
                units@ == apply_all(units0, map, actions@.take(i as int)),
            decreases actions@.len() - i,
        {
            let a = actions[i];
            assert(actions@.take(i as int + 1).drop_last() == actions@.take(i as int));
            match a {
                Action::Move(unit_id, direction) => {
                    let idx = unit_id.0;
                    let u = units[idx];
                    match u.location.step(direction) {
                        Some(dest) => {
                            if map.can_enter_tile(dest) {
                                units.set(idx, Unit { location: dest, ..u });
                            }
                        },
                        None => {
                            assert(!map.enterable_at(translate(u.location@, direction)));
                        },
                    }
                },
            }
            i = i + 1;
        }
        assert(actions@.take(i as int) == actions@);
        World { map, units }
    }

    /// Creates a snapshot of the world as seen by the given player: its units, and the tiles
    /// that they see. A unit off the map sees nothing; a tile seen by several units may be
    /// listed once for each.
    pub fn player_world(&self, player_id: PlayerId) -> (r: PlayerWorld)
        requires
            self.wf(),
        ensures
            is_view_of(r, *self, player_id),
    {
        let mut units: Vec<Unit> = Vec::new();
        let mut tiles: Vec<PlayerTile> = Vec::new();
        let mut i: usize = 0;
        while i < self.units.len()
            invariant
                self.wf(),
                i <= self.units@.len(),
                units@ == owned_by(self.units@.take(i as int), player_id),
                forall|k: int|
                    0 <= k < tiles@.len() ==> {
                        let t = #[trigger] tiles@[k];
                        &&& self.map.contains(t.coord@)
                        &&& t.tile_type == self.map.tile_at(t.coord@)
                        &&& exists|j: int| sees(*self, player_id, j, t.coord@)
                    },
                forall|j: int, p: (int, int)|
                    0 <= j < i && #[trigger] sees(*self, player_id, j, p) && self.map.contains(p)
                        ==> exists|k: int| 0 <= k < tiles@.len() && tiles@[k].coord@ == p,
            decreases self.units@.len() - i,
        {
            let u = self.units[i];
            assert(self.units@.take(i as int + 1).drop_last() == self.units@.take(i as int));
            if u.player == player_id {
                units.push(u);
                if self.map.in_bounds(u.location) {
                    let seen = self.map.field_of_view(u.location, VISIBILITY_RANGE);
                    let mut new_tiles = tiles_of(&self.map, &seen);
                    let ghost before = tiles@;
                    let ghost added = new_tiles@;
                    tiles.append(&mut new_tiles);
                    proof {
                        lemma_tagged(self.map, seen@);
                        assert forall|k: int| 0 <= k < tiles@.len() implies {
                            let t = #[trigger] tiles@[k];
                            &&& self.map.contains(t.coord@)
                            &&& t.tile_type == self.map.tile_at(t.coord@)
                            &&& exists|j: int| sees(*self, player_id, j, t.coord@)
                        } by {
                            if k >= before.len() {
                                let t = tiles@[k];
                                assert(t == added[k - before.len()]);
                                let m = choose|m: int| 0 <= m < seen@.len() && seen@[m] == t.coord;
                                assert(self.map.spec_field_of_view(u.location@, VISIBILITY_RANGE as int).contains(seen@[m]@));
                                assert(sees(*self, player_id, i as int, t.coord@));
                            } else {
                                assert(tiles@[k] == before[k]);
                            }
                        }
                        assert forall|j: int, p: (int, int)|
                            0 <= j < i + 1 && #[trigger] sees(*self, player_id, j, p) && self.map.contains(p)
                            implies exists|k: int| 0 <= k < tiles@.len() && tiles@[k].coord@ == p by {
                            if j < i {
                                let k = choose|k: int| 0 <= k < before.len() && before[k].coord@ == p;
                                assert(tiles@[k] == before[k]);
                            } else {
                                assert(self.map.spec_field_of_view(u.location@, VISIBILITY_RANGE as int).contains(p));
                                let m = choose|m: int| 0 <= m < seen@.len() && seen@[m]@ == p;
                                assert(self.map.contains(seen@[m]@));
                                let k2 = choose|k2: int| 0 <= k2 < added.len() && added[k2].coord == seen@[m];
                                assert(tiles@[before.len() + k2] == added[k2]);
                            }
                        }
                    }
                }
            }
            i = i + 1;
        }
        assert(self.units@.take(i as int) == self.units@);
        PlayerWorld { units, tiles }
    }
}

} // verus!

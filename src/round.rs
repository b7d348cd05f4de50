//! One round of a game: every player gets its private view of the same snapshot, and once all
//! of them have answered, the accepted actions are applied and a new world is committed.
use crate::api::{PlayerAction, PlayerId, PlayerInput, PlayerMemory, PlayerOutput, RunnerError};
use crate::world::{
    action_unit, apply_all, is_view_of, owns, to_action, validate_action, Action, World,
};
use vstd::prelude::*;

verus! {

/// Everything of a specific player: its id, the runner that produces its actions, and the
/// memory that the host keeps for it between rounds.
pub struct Player<R> {
    pub id: PlayerId,
    pub runner: R,
    pub memory: PlayerMemory,
}

/// The state of a game between two rounds.
pub struct GameState<R> {
    pub players: Vec<Player<R>>,
    pub world: World,
    pub turn: usize,
}

/// The validated forms of the actions among `acts` that `player` may perform, in order.
pub open spec fn accepted(units: Seq<crate::api::Unit>, player: PlayerId, acts: Seq<PlayerAction>) -> Seq<
    Action,
>
    decreases acts.len(),
{
    if acts.len() == 0 {
        Seq::empty()
    } else {
        let rest = accepted(units, player, acts.drop_last());
        if owns(units, player, acts.last()) {
            rest.push(to_action(acts.last()))
        } else {
            rest
        }
    }
}

/// The actions that a round applies: for each player in order whose runner succeeded, the
/// accepted actions of its output, in the order it proposed them.
pub open spec fn round_actions<R>(
    world: World,
    players: Seq<Player<R>>,
    results: Seq<Result<PlayerOutput, RunnerError>>,
) -> Seq<Action>
    decreases results.len(),
{
    if results.len() == 0 {
        Seq::empty()
    } else {
        let rest = round_actions(world, players, results.drop_last());
        match results.last() {
            Ok(out) => rest + accepted(world.units@, players[results.len() - 1].id, out.actions@),
            Err(_) => rest,
        }
    }
}

/// The memory that player `i` holds after a round: the memory of its output where its runner
/// succeeded, and its memory before the round otherwise.
pub open spec fn memory_after<R>(
    players: Seq<Player<R>>,
    results: Seq<Result<PlayerOutput, RunnerError>>,
    i: int,
) -> PlayerMemory {
    match results[i] {
        Ok(out) => out.memory,
        Err(_) => players[i].memory,
    }
}

/// Every accepted action is the validated form of a proposed action whose unit belongs to the
/// player.
pub proof fn lemma_accepted_owned(units: Seq<crate::api::Unit>, player: PlayerId, acts: Seq<PlayerAction>)
    ensures
        forall|k: int|
            0 <= k < accepted(units, player, acts).len() ==> exists|m: int|
                0 <= m < acts.len() && #[trigger] accepted(units, player, acts)[k] == to_action(
                    acts[m],
                ) && owns(units, player, acts[m]),
        forall|k: int|
            0 <= k < accepted(units, player, acts).len() ==> (action_unit(
                #[trigger] accepted(units, player, acts)[k],
            ).0 as int) < units.len(),
    decreases acts.len(),
{
    if acts.len() > 0 {
        let init = acts.drop_last();
        lemma_accepted_owned(units, player, init);
        let rest = accepted(units, player, init);
        let all = accepted(units, player, acts);
        assert forall|k: int| 0 <= k < all.len() implies exists|m: int|
            0 <= m < acts.len() && #[trigger] all[k] == to_action(acts[m]) && owns(
                units,
                player,
                acts[m],
            ) by {
            if k < rest.len() {
                assert(all[k] == rest[k]);
                let m = choose|m: int|
                    0 <= m < init.len() && rest[k] == to_action(init[m]) && owns(
                        units,
                        player,
                        init[m],
                    );
                assert(acts[m] == init[m]);
            } else {
                assert(all[k] == to_action(acts[acts.len() - 1]));
            }
        }
        assert forall|k: int| 0 <= k < all.len() implies (action_unit(#[trigger] all[k]).0 as int)
            < units.len() by {
            if k < rest.len() {
                assert(all[k] == rest[k]);
            } else {
                assert(owns(units, player, acts.last()));
            }
        }
    }
}

/// Whether `a` is the validated form of the `m`-th action that player `i` proposed in its
/// output, its runner having succeeded, and the unit it moves belongs to that player.
pub open spec fn proposed_by<R>(
    world: World,
    players: Seq<Player<R>>,
    results: Seq<Result<PlayerOutput, RunnerError>>,
    i: int,
    m: int,
    a: Action,
) -> bool {
    &&& 0 <= i < results.len()
    &&& results[i] is Ok
    &&& 0 <= m < results[i]->Ok_0.actions@.len()
    &&& a == to_action(results[i]->Ok_0.actions@[m])
    &&& owns(world.units@, players[i].id, results[i]->Ok_0.actions@[m])
}

/// Whether `a` is the validated form of an action that some player whose runner succeeded
/// proposed, and the unit it moves belongs to that player.
pub open spec fn from_owner<R>(
    world: World,
    players: Seq<Player<R>>,
    results: Seq<Result<PlayerOutput, RunnerError>>,
    a: Action,
) -> bool {
    exists|i: int, m: int| #[trigger] proposed_by(world, players, results, i, m, a)
}

/// Every action that a round applies is the validated form of an action that a player whose
/// runner succeeded proposed, and the unit it moves belongs to that player.
pub proof fn lemma_round_actions_owned<R>(
    world: World,
    players: Seq<Player<R>>,
    results: Seq<Result<PlayerOutput, RunnerError>>,
)
    requires
        results.len() <= players.len(),
    ensures
        forall|k: int|
            0 <= k < round_actions(world, players, results).len() ==> from_owner(
                world,
                players,
                results,
                #[trigger] round_actions(world, players, results)[k],
            ),
        forall|k: int|
            0 <= k < round_actions(world, players, results).len() ==> (action_unit(
                #[trigger] round_actions(world, players, results)[k],
            ).0 as int) < world.units@.len(),
    decreases results.len(),
{
    if results.len() > 0 {
        let init = results.drop_last();
        lemma_round_actions_owned(world, players, init);
        let rest = round_actions(world, players, init);
        let all = round_actions(world, players, results);
        let last = results.len() - 1;
        let tail = match results.last() {
            Ok(out) => accepted(world.units@, players[last].id, out.actions@),
            Err(_) => Seq::empty(),
        };
        assert(all == rest + tail);
        if results.last() is Ok {
            lemma_accepted_owned(world.units@, players[last].id, results.last()->Ok_0.actions@);
        }
        assert forall|k: int| 0 <= k < all.len() implies from_owner(
            world,
            players,
            results,
            #[trigger] all[k],
        ) && (action_unit(all[k]).0 as int) < world.units@.len() by {
            if k < rest.len() {
                assert(all[k] == rest[k]);
                assert(from_owner(world, players, init, rest[k]));
                let (i, m) = choose|i: int, m: int|
                    #[trigger] proposed_by(world, players, init, i, m, rest[k]);
                assert(results[i] == init[i]);
                assert(proposed_by(world, players, results, i, m, all[k]));
            } else {
                let out = results.last()->Ok_0;
                assert(all[k] == tail[k - rest.len()]);
                let m = choose|m: int|
                    0 <= m < out.actions@.len() && #[trigger] tail[k - rest.len()] == to_action(
                        out.actions@[m],
                    ) && owns(world.units@, players[last].id, out.actions@[m]);
                assert(proposed_by(world, players, results, last, m, all[k]));
            }
        }
    }
}

/// Validates the actions that `player` proposed, in order, and keeps those it may perform.
pub fn validate_actions(actions: &Vec<PlayerAction>, player: PlayerId, world: &World) -> (r: Vec<
    Action,
>)
    ensures
        r@ == accepted(world.units@, player, actions@),
{
    let mut r: Vec<Action> = Vec::new();
    let mut i: usize = 0;
    while i < actions.len()
        invariant
            i <= actions@.len(),
            r@ == accepted(world.units@, player, actions@.take(i as int)),
        decreases actions@.len() - i,
    {
        assert(actions@.take(i as int + 1).drop_last() == actions@.take(i as int));
        match validate_action(actions[i], player, world) {
            Ok(a) => r.push(a),
            Err(_) => {},
        }
        i = i + 1;
    }
    assert(actions@.take(i as int) == actions@);
    r
}

impl<R> GameState<R> {
    /// The world of the game is well formed.
    pub open spec fn wf(&self) -> bool {
        self.world.wf()
    }

    /// Whether `input` is what player `i` is handed this round: its id, the turn, its view
    /// of the current world and its current memory.
    pub open spec fn is_input_for(&self, i: int, input: PlayerInput) -> bool {
        &&& input.player_id == self.players@[i].id
        &&& input.turn == self.turn
        &&& input.memory == self.players@[i].memory
        &&& is_view_of(input.world, self.world, self.players@[i].id)
    }

    /// The input for player `index` in this round.
    pub fn player_input(&self, index: usize) -> (r: PlayerInput)
        requires
            self.wf(),
            index < self.players@.len(),
        ensures
            self.is_input_for(index as int, r),
    {
        let player = &self.players[index];
        PlayerInput {
            player_id: player.id,
            turn: self.turn,
            world: self.world.player_world(player.id),
            memory: player.memory.clone(),
        }
    }

    /// The inputs of all players for this round, in the order of the players. All of them
    /// are taken from the same snapshot of the world, before any player acts.
    pub fn player_inputs(&self) -> (r: Vec<PlayerInput>)
        requires
            self.wf(),
        ensures
            r@.len() == self.players@.len(),
            forall|i: int| 0 <= i < r@.len() ==> self.is_input_for(i, #[trigger] r@[i]),
    {
        let mut r: Vec<PlayerInput> = Vec::new();
        let mut i: usize = 0;
        while i < self.players.len()
            invariant
                self.wf(),
                i <= self.players@.len(),
                r@.len() == i,
                forall|j: int| 0 <= j < i ==> self.is_input_for(j, #[trigger] r@[j]),
            decreases self.players@.len() - i,
        {
            let input = self.player_input(i);
            r.push(input);
            i = i + 1;
        }
        r
    }

    /// Commits a round, given the result of each player's runner (`results[i]` is that of
    /// player `i`). A failed runner contributes nothing and keeps its memory. A successful one
    /// has its memory replaced by its output's, and of its actions those it may perform are
    /// applied, in its order, after those of the players before it. The turn advances by one.
    pub fn commit_round(self, results: Vec<Result<PlayerOutput, RunnerError>>) -> (next: GameState<
        R,
    >)
        requires
            self.wf(),
            results@.len() == self.players@.len(),
            self.turn < usize::MAX,
        ensures
            next.wf(),
            next.turn == self.turn + 1,
            next.world.map == self.world.map,
            next.world.units@ == apply_all(
                self.world.units@,
                self.world.map,
                round_actions(self.world, self.players@, results@),
            ),
            next.players@.len() == self.players@.len(),
            forall|i: int|
                0 <= i < next.players@.len() ==> {
                    &&& (#[trigger] next.players@[i]).id == self.players@[i].id
                    &&& next.players@[i].runner == self.players@[i].runner
                    &&& next.players@[i].memory == memory_after(self.players@, results@, i)
                },
    {
        let ghost old_self = self;
        let GameState { players, world, turn } = self;
        let mut players = players;
        let mut results = results;
        let ghost players0 = players@;
        let ghost results0 = results@;
        let ghost n = players0.len() as int;
        let mut next_players: Vec<Player<R>> = Vec::new();
        let mut actions: Vec<Action> = Vec::new();
        while players.len() > 0
            invariant
                world.wf(),
                world == old_self.world,
                players0 == old_self.players@,
                results0.len() == n,
                players0.len() == n,
                next_players@.len() + players@.len() == n,
                players@ == players0.subrange(next_players@.len() as int, n),
                results@ == results0.subrange(next_players@.len() as int, n),
                actions@ == round_actions(world, players0, results0.take(next_players@.len() as int)),
                forall|j: int|
                    0 <= j < next_players@.len() ==> {
                        &&& (#[trigger] next_players@[j]).id == players0[j].id
                        &&& next_players@[j].runner == players0[j].runner
                        &&& next_players@[j].memory == memory_after(players0, results0, j)
                    },
            decreases players@.len(),
        {
            let ghost i = next_players@.len() as int;
            assert(results0.take(i + 1).drop_last() == results0.take(i));
            assert(results0.take(i + 1).last() == results0[i]);
            let p = players.remove(0);
            let r = results.remove(0);
            assert(players@ == players0.subrange(i + 1, n));
            assert(results@ == results0.subrange(i + 1, n));
            match r {
                Ok(out) => {
                    let PlayerOutput { actions: proposed, memory } = out;
                    let mut valid = validate_actions(&proposed, p.id, &world);
                    actions.append(&mut valid);
                    let Player { id, runner, memory: _ } = p;
                    next_players.push(Player { id, runner, memory });
                },
                Err(_) => {
                    next_players.push(p);
                },
            }
        }
        assert(results0.take(n) == results0);
        proof {
            lemma_round_actions_owned(world, players0, results0);
        }
        let world = world.apply(actions);
        GameState { players: next_players, world, turn: turn + 1 }
    }
}

} // verus!

use mlr::protocol::output_payload;
use mlr::round::validate_actions;
use mlr::{
    Action, Coord, Direction, GameState, Player, PlayerAction, PlayerId, PlayerInput,
    PlayerOutput, RunnerError, TileMap, TileType, UnitId, World,
};
use serde_json::Value;

fn memory(n: i64) -> Value {
    Value::from(n)
}

fn state_with(world: World, players: usize) -> GameState<()> {
    GameState {
        players: (0..players)
            .map(|i| Player { id: PlayerId(i), runner: (), memory: Value::Null })
            .collect(),
        world,
        turn: 0,
    }
}

fn moves(input: &PlayerInput, direction: Direction) -> Vec<PlayerAction> {
    input
        .world
        .units
        .iter()
        .map(|u| PlayerAction::Move { unit: u.id, direction })
        .collect()
}

#[test]
fn inputs_come_from_one_snapshot() {
    let mut world = World::new(TileMap::new(20, 20));
    world.spawn_unit(PlayerId(0), Coord::new(2, 2));
    world.spawn_unit(PlayerId(1), Coord::new(5, 5));
    let mut state = state_with(world, 2);
    state.turn = 4;
    state.players[1].memory = memory(9);
    let inputs = state.player_inputs();
    assert_eq!(inputs.len(), 2);
    assert_eq!(inputs[0].player_id, PlayerId(0));
    assert_eq!(inputs[1].player_id, PlayerId(1));
    assert_eq!(inputs[0].turn, 4);
    assert_eq!(inputs[1].memory, memory(9));
    assert_eq!(inputs[0].world.units.len(), 1);
    assert_eq!(inputs[0].world.units[0].id, UnitId(0));
    assert_eq!(inputs[1].world.units[0].id, UnitId(1));
}

#[test]
fn other_players_actions_do_not_reach_a_view_of_the_same_round() {
    let mut world = World::new(TileMap::new(20, 20));
    world.spawn_unit(PlayerId(0), Coord::new(2, 2));
    world.spawn_unit(PlayerId(1), Coord::new(5, 5));
    let state = state_with(world, 2);
    let inputs = state.player_inputs();
    let again = state.player_input(1);
    assert_eq!(again.world.units, inputs[1].world.units);
    assert_eq!(again.world.tiles.len(), inputs[1].world.tiles.len());
    let next = state.commit_round(vec![
        Ok(PlayerOutput {
            actions: vec![PlayerAction::Move { unit: UnitId(0), direction: Direction::Right }],
            memory: Value::Null,
        }),
        Ok(PlayerOutput { actions: vec![], memory: Value::Null }),
    ]);
    assert_eq!(inputs[1].world.units[0].location, Coord::new(5, 5));
    assert_eq!(next.world.units[0].location, Coord::new(3, 2));
}

#[test]
fn foreign_and_missing_units_never_reach_apply() {
    let mut world = World::new(TileMap::new(10, 10));
    world.spawn_unit(PlayerId(0), Coord::new(2, 2));
    world.spawn_unit(PlayerId(1), Coord::new(6, 6));
    let proposed = vec![
        PlayerAction::Move { unit: UnitId(1), direction: Direction::Up },
        PlayerAction::Move { unit: UnitId(0), direction: Direction::Down },
        PlayerAction::Move { unit: UnitId(5), direction: Direction::Left },
    ];
    let valid = validate_actions(&proposed, PlayerId(0), &world);
    assert_eq!(valid, vec![Action::Move(UnitId(0), Direction::Down)]);

    let state = state_with(world, 2);
    let next = state.commit_round(vec![
        Ok(PlayerOutput { actions: proposed, memory: Value::Null }),
        Err(RunnerError::NoData),
    ]);
    assert_eq!(next.world.units[0].location, Coord::new(2, 3));
    assert_eq!(next.world.units[1].location, Coord::new(6, 6));
}

#[test]
fn memory_is_replaced_on_success_even_with_invalid_actions() {
    let mut world = World::new(TileMap::new(10, 10));
    world.spawn_unit(PlayerId(0), Coord::new(2, 2));
    world.spawn_unit(PlayerId(1), Coord::new(6, 6));
    let mut state = state_with(world, 2);
    state.players[0].memory = memory(1);
    state.players[1].memory = memory(2);
    let next = state.commit_round(vec![
        Ok(PlayerOutput {
            actions: vec![PlayerAction::Move { unit: UnitId(1), direction: Direction::Up }],
            memory: memory(10),
        }),
        Err(RunnerError::Timeout(std::time::Duration::from_millis(500))),
    ]);
    assert_eq!(next.players[0].memory, memory(10));
    assert_eq!(next.players[1].memory, memory(2));
    assert_eq!(next.turn, 1);
    assert_eq!(next.world.units[1].location, Coord::new(6, 6));
    let inputs = next.player_inputs();
    assert_eq!(inputs[0].memory, memory(10));
    assert_eq!(inputs[1].memory, memory(2));
    assert_eq!(inputs[0].turn, 1);
}

#[test]
fn actions_of_one_player_keep_their_order() {
    let mut map = TileMap::new(10, 10);
    map.set_tile(Coord::new(3, 3), TileType::Wall);
    let mut world = World::new(map);
    world.spawn_unit(PlayerId(0), Coord::new(2, 2));
    let state = state_with(world, 1);
    let next = state.commit_round(vec![Ok(PlayerOutput {
        actions: vec![
            PlayerAction::Move { unit: UnitId(0), direction: Direction::Right },
            PlayerAction::Move { unit: UnitId(0), direction: Direction::Down },
        ],
        memory: Value::Null,
    })]);
    assert_eq!(next.world.units[0].location, Coord::new(3, 2));
}

#[test]
fn unit_walks_to_the_exit() {
    let mut map = TileMap::new(10, 10);
    map.set_tile(Coord::new(9, 9), TileType::Exit);
    let mut world = World::new(map);
    world.spawn_unit(PlayerId(0), Coord::new(0, 0));
    let mut state = state_with(world, 1);
    for _ in 0..9 {
        let inputs = state.player_inputs();
        let results = inputs
            .iter()
            .map(|i| Ok(PlayerOutput { actions: moves(i, Direction::Right), memory: Value::Null }))
            .collect();
        state = state.commit_round(results);
        assert!(state.world.units_on_exits().is_empty());
    }
    assert_eq!(state.world.units[0].location, Coord::new(9, 0));
    for _ in 0..9 {
        let inputs = state.player_inputs();
        let results = inputs
            .iter()
            .map(|i| Ok(PlayerOutput { actions: moves(i, Direction::Down), memory: Value::Null }))
            .collect();
        state = state.commit_round(results);
    }
    assert_eq!(state.world.units[0].location, Coord::new(9, 9));
    assert_eq!(state.turn, 18);
    let on_exits = state.world.units_on_exits();
    assert_eq!(on_exits.len(), 1);
    assert_eq!(on_exits[0].id, UnitId(0));
}

#[test]
fn empty_output_line_leaves_the_world_unchanged() {
    let line = r#"__mlr_output:{"actions":[],"memory":{}}"#;
    let payload = output_payload(line).unwrap();
    assert_eq!(payload, r#"{"actions":[],"memory":{}}"#);
    let parsed: Value = serde_json::from_str(payload).unwrap();
    assert_eq!(parsed["actions"], Value::Array(vec![]));

    let mut world = World::new(TileMap::new(10, 10));
    world.spawn_unit(PlayerId(0), Coord::new(4, 4));
    let state = state_with(world, 1);
    let next = state.commit_round(vec![Ok(PlayerOutput {
        actions: vec![],
        memory: parsed["memory"].clone(),
    })]);
    assert_eq!(next.world.units[0].location, Coord::new(4, 4));
    assert_eq!(next.players[0].memory, parsed["memory"]);
}

use mlr::glyph::{is_revealed_and_wall, player_symbol, unit_glyph, wall_glyph};
use mlr::{winner, Battle, Coord, PlayerId, TileMap, TileType, Unit, UnitId, World};
use serde_json::Value;

#[test]
fn players_get_ids_in_order() {
    let mut battle: Battle<&str> = Battle::default();
    assert_eq!(battle.add_player("first"), PlayerId(0));
    assert_eq!(battle.add_player("second"), PlayerId(1));
    assert_eq!(battle.players, vec!["first", "second"]);
}

#[test]
fn battle_starts_with_one_unit_per_player() {
    let mut battle: Battle<u8> = Battle::default();
    battle.add_player(7);
    battle.add_player(8);
    battle.add_player(9);
    let memory = Value::Object(serde_json::Map::new());
    let state = battle.start(World::new(TileMap::new(80, 50)), &memory);
    assert_eq!(state.turn, 0);
    assert_eq!(state.players.len(), 3);
    assert_eq!(state.players[2].id, PlayerId(2));
    assert_eq!(state.players[2].runner, 9);
    assert_eq!(state.players[1].memory, memory);
    assert_eq!(state.world.units.len(), 3);
    assert_eq!(state.world.units[0].location, Coord::new(10, 10));
    assert_eq!(state.world.units[1].location, Coord::new(20, 10));
    assert_eq!(state.world.units[2].location, Coord::new(30, 10));
    assert_eq!(state.world.units[2].player, PlayerId(2));
}

#[test]
fn winner_is_the_first_unit_on_an_exit() {
    let mut map = TileMap::new(10, 10);
    map.set_tile(Coord::new(5, 5), TileType::Exit);
    map.set_tile(Coord::new(6, 5), TileType::Exit);
    let mut world = World::new(map);
    world.spawn_unit(PlayerId(0), Coord::new(1, 1));
    assert_eq!(winner(&world), None);
    world.spawn_unit(PlayerId(2), Coord::new(6, 5));
    world.spawn_unit(PlayerId(1), Coord::new(5, 5));
    assert_eq!(winner(&world), Some(PlayerId(2)));
}

#[test]
fn walls_join_towards_walls_and_the_edge() {
    let mut map = TileMap::new(3, 3);
    map.set_tile(Coord::new(1, 1), TileType::Wall);
    assert_eq!(wall_glyph(&map, 1, 1), 10);
    map.set_tile(Coord::new(0, 0), TileType::Wall);
    assert_eq!(wall_glyph(&map, 0, 0), 188);
    map.set_tile(Coord::new(2, 1), TileType::Wall);
    assert_eq!(wall_glyph(&map, 1, 1), 205);
    let closed = TileMap::new_closed(3, 3);
    assert_eq!(wall_glyph(&closed, 1, 1), 206);
    assert!(is_revealed_and_wall(&map, -1, 0));
    assert!(!is_revealed_and_wall(&map, 1, 0));
}

#[test]
fn players_have_symbols() {
    assert_eq!(player_symbol(PlayerId(0)), '♦');
    assert_eq!(player_symbol(PlayerId(1)), '♣');
    assert_eq!(player_symbol(PlayerId(2)), '¶');
    assert_eq!(player_symbol(PlayerId(3)), '♣');
    assert_eq!(player_symbol(PlayerId(12)), '♥');
    let unit = Unit { id: UnitId(0), player: PlayerId(2), location: Coord::new(0, 0) };
    assert_eq!(unit_glyph(&unit), '¶');
}

use mlr::builders::{
    new_map, new_map_with_history, smooth, wall_neighbours, CellularAutomata, MapBuilder,
    MapWithSnapshots, PrimMazeBuilder, SimpleMapBuilder,
};
use mlr::{Coord, TileMap, TileType};

fn count(map: &TileMap, t: TileType) -> usize {
    map.tiles.iter().filter(|x| **x == t).count()
}

#[test]
fn smoothing_fills_lonely_and_crowded_cells() {
    // A floor ring with one wall in the middle: the centre has no wall neighbours.
    let mut map = TileMap::new(5, 5);
    map.set_tile(Coord::new(2, 2), TileType::Wall);
    assert_eq!(wall_neighbours(&map, 2, 2), 0);
    assert_eq!(wall_neighbours(&map, 1, 1), 1);
    let next = smooth(&map);
    assert_eq!(next.tile(Coord::new(2, 2)), TileType::Wall);
    assert_eq!(next.tile(Coord::new(1, 1)), TileType::Floor);
    assert_eq!(next.tile(Coord::new(0, 0)), TileType::Floor);
}

#[test]
fn smoothing_keeps_the_border() {
    let map = TileMap::new_closed(6, 4);
    let next = smooth(&map);
    assert_eq!(next.tiles, map.tiles);
    let mut open = TileMap::new(6, 4);
    open.set_tile(Coord::new(0, 0), TileType::Wall);
    let next = smooth(&open);
    assert_eq!(next.tile(Coord::new(0, 0)), TileType::Wall);
    assert_eq!(next.tile(Coord::new(1, 1)), TileType::Floor);
    assert_eq!(next.tile(Coord::new(3, 2)), TileType::Wall);
}

#[test]
fn snapshots_record_each_version() {
    let mut history = MapWithSnapshots::new(TileMap::new_closed(3, 3));
    let mut next = history.current();
    next.set_tile(Coord::new(1, 1), TileType::Floor);
    history.record(next);
    let versions = history.into_history();
    assert_eq!(versions.len(), 2);
    assert_eq!(versions[0].tile(Coord::new(1, 1)), TileType::Wall);
    assert_eq!(versions[1].tile(Coord::new(1, 1)), TileType::Floor);
}

#[test]
fn cellular_automata_records_sixteen_stages() {
    let history = new_map_with_history(30, 20, &mut CellularAutomata);
    assert_eq!(history.len(), 17);
    let last = history.last().unwrap();
    assert_eq!(count(last, TileType::Exit), 0);
    for x in 0..30 {
        assert_eq!(last.tile(Coord::new(x, 0)), TileType::Wall);
        assert_eq!(last.tile(Coord::new(x, 19)), TileType::Wall);
    }
}

#[test]
fn simple_builder_opens_a_room_with_an_exit_row() {
    let history = new_map_with_history(80, 50, &mut SimpleMapBuilder);
    assert_eq!(history.len(), 4);
    assert_eq!(count(&history[1], TileType::Floor), 78 * 48);
    let last = &history[3];
    assert_eq!(count(last, TileType::Exit), 10);
    for x in 0..80isize {
        for y in 0..50isize {
            if last.tile(Coord::new(x, y)) == TileType::Exit {
                assert!(x == 0 || y == 0 || x == 79 || y == 49);
            }
        }
    }
}

#[test]
fn prim_builder_places_one_exit() {
    let map = new_map(21, 15, &mut PrimMazeBuilder);
    assert_eq!(map.width, 21);
    assert_eq!(count(&map, TileType::Exit), 1);
    assert!(count(&map, TileType::Floor) > 1);
    for x in 0..21isize {
        assert_eq!(map.tile(Coord::new(x, 14)), TileType::Wall);
    }
}

#[test]
fn builder_on_its_own_history() {
    let mut history = MapWithSnapshots::new(TileMap::new_closed(12, 12));
    let mut builder = SimpleMapBuilder;
    builder.build(&mut history);
    let map = history.into_latest();
    assert_eq!(count(&map, TileType::Exit), 10);
}

use mlr::maze::{get_frontier_tiles, get_neighbor_tiles, new_map_prim};
use mlr::{Coord, Direction, TileMap, TileType};

#[test]
fn frontier_lists_walls_two_away() {
    let mut map = TileMap::new_closed(5, 5);
    map.set_tile(Coord::new(2, 2), TileType::Floor);
    map.set_tile(Coord::new(2, 0), TileType::Floor);
    let frontier = get_frontier_tiles(&map, Coord::new(2, 2));
    assert_eq!(
        frontier,
        vec![
            (Coord::new(2, 4), Direction::Down),
            (Coord::new(0, 2), Direction::Left),
            (Coord::new(4, 2), Direction::Right),
        ]
    );
    let neighbors = get_neighbor_tiles(&map, Coord::new(2, 2));
    assert_eq!(neighbors, vec![(Coord::new(2, 0), Direction::Up)]);
}

#[test]
fn frontier_stays_on_the_map() {
    let map = TileMap::new_closed(3, 3);
    assert!(get_frontier_tiles(&map, Coord::new(0, 0)).iter().all(|(c, _)| map.in_bounds(*c)));
    assert_eq!(get_frontier_tiles(&map, Coord::new(1, 1)), vec![]);
}

#[test]
fn prim_maze_has_walls_and_floors_only() {
    let map = new_map_prim(21, 15);
    assert_eq!(map.tiles.len(), 21 * 15);
    assert_eq!(map.tile(Coord::new(10, 7)), TileType::Floor);
    assert!(map.tiles.iter().all(|t| *t == TileType::Wall || *t == TileType::Floor));
    let floors = map.tiles.iter().filter(|t| **t == TileType::Floor).count();
    assert!(floors > 1);
}

#[test]
fn prim_maze_of_one_tile() {
    let map = new_map_prim(1, 1);
    assert_eq!(map.tiles, vec![TileType::Floor]);
}

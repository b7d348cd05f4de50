use mlr::{Coord, Direction, TileMap, TileType};

#[test]
fn coord_new_keeps_components() {
    let c = Coord::new(3, -4);
    assert_eq!(c.x, 3);
    assert_eq!(c.y, -4);
}

#[test]
fn coord_from_tuple() {
    let c: Coord = (7, 8).into();
    assert_eq!(c, Coord::new(7, 8));
}

#[test]
fn direction_as_displacement() {
    assert_eq!(Coord::from(Direction::Left), Coord::new(-1, 0));
    assert_eq!(Coord::from(Direction::Right), Coord::new(1, 0));
    assert_eq!(Coord::from(Direction::Up), Coord::new(0, -1));
    assert_eq!(Coord::from(Direction::Down), Coord::new(0, 1));
}

#[test]
fn adding_a_direction_moves_one_step() {
    let c = Coord::new(5, 5);
    assert_eq!(c + Direction::Left, Coord::new(4, 5));
    assert_eq!(c + Direction::Right, Coord::new(6, 5));
    assert_eq!(c + Direction::Up, Coord::new(5, 4));
    assert_eq!(c + Direction::Down, Coord::new(5, 6));
}

#[test]
fn opposite_direction_returns_to_start() {
    let starts = [Coord::new(0, 0), Coord::new(-3, 12), Coord::new(79, 49)];
    for c in starts.iter() {
        for d in Direction::all_directions() {
            assert_eq!((*c + d) + d.opposite(), *c);
        }
    }
}

#[test]
fn step_refuses_to_leave_isize() {
    assert_eq!(Coord::new(isize::MAX, 0).step(Direction::Right), None);
    assert_eq!(Coord::new(0, isize::MIN).step(Direction::Up), None);
    assert_eq!(Coord::new(0, 0).step(Direction::Up), Some(Coord::new(0, -1)));
}

#[test]
fn all_directions_in_order() {
    assert_eq!(
        Direction::all_directions(),
        vec![Direction::Up, Direction::Down, Direction::Left, Direction::Right]
    );
}

#[test]
fn rolls_select_directions() {
    assert_eq!(Direction::from_roll(0), Direction::Left);
    assert_eq!(Direction::from_roll(1), Direction::Right);
    assert_eq!(Direction::from_roll(2), Direction::Up);
    assert_eq!(Direction::from_roll(3), Direction::Down);
}

#[test]
fn random_direction_is_one_of_four() {
    for _ in 0..50 {
        let d = Direction::random();
        assert!(Direction::all_directions().contains(&d));
    }
}

#[test]
fn tile_types_that_can_be_entered() {
    assert!(!TileType::Wall.can_enter());
    assert!(TileType::Floor.can_enter());
    assert!(TileType::Exit.can_enter());
}

#[test]
fn map_bounds_and_entry() {
    let mut map = TileMap::new(4, 3);
    map.set_tile(Coord::new(1, 1), TileType::Wall);
    map.set_tile(Coord::new(3, 2), TileType::Exit);
    assert!(map.in_bounds(Coord::new(0, 0)));
    assert!(map.in_bounds(Coord::new(3, 2)));
    assert!(!map.in_bounds(Coord::new(4, 0)));
    assert!(!map.in_bounds(Coord::new(0, 3)));
    assert!(!map.in_bounds(Coord::new(-1, 0)));
    assert!(!map.can_enter_tile(Coord::new(1, 1)));
    assert!(map.can_enter_tile(Coord::new(3, 2)));
    assert!(map.can_enter_tile(Coord::new(0, 0)));
    assert!(!map.can_enter_tile(Coord::new(-1, 0)));
    assert!(!map.can_enter_tile(Coord::new(4, 2)));
}

#[test]
fn map_index_is_row_by_row() {
    let map = TileMap::new(4, 3);
    assert_eq!(map.index_of_coord(Coord::new(0, 0)), 0);
    assert_eq!(map.index_of_coord(Coord::new(3, 0)), 3);
    assert_eq!(map.index_of_coord(Coord::new(1, 2)), 9);
}

#[test]
fn new_maps_are_filled() {
    let open = TileMap::new(3, 2);
    assert_eq!(open.tiles, vec![TileType::Floor; 6]);
    let closed = TileMap::new_closed(3, 2);
    assert_eq!(closed.tiles, vec![TileType::Wall; 6]);
    let empty = TileMap::new(0, 0);
    assert!(empty.tiles.is_empty());
    assert!(!empty.in_bounds(Coord::new(0, 0)));
}

#[test]
fn field_of_view_on_open_floor() {
    let map = TileMap::new(20, 20);
    let seen = map.field_of_view(Coord::new(10, 10), 7);
    assert!(seen.contains(&Coord::new(10, 10)));
    assert!(seen.contains(&Coord::new(13, 10)));
    assert!(!seen.contains(&Coord::new(19, 19)));
    let mut sorted = seen.clone();
    sorted.sort_by_key(|c| (c.x, c.y));
    sorted.dedup();
    assert_eq!(sorted.len(), seen.len());
}

#[test]
fn field_of_view_stops_at_walls() {
    let mut map = TileMap::new(20, 20);
    for y in 0..20 {
        map.set_tile(Coord::new(12, y), TileType::Wall);
    }
    let seen = map.field_of_view(Coord::new(10, 10), 7);
    assert!(seen.contains(&Coord::new(12, 10)));
    assert!(!seen.contains(&Coord::new(14, 10)));
}

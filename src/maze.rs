//! Maze generation with a randomized version of Prim's algorithm: passages are carved from
//! the centre of a closed map, two tiles at a time.
use crate::api::{fits_isize, roll_below, translate, Coord, Direction, TileType};
use crate::map::{TileMap, MAX_TILES};
use vstd::prelude::*;

verus! {

/// The point two steps from `p` in direction `d`.
pub open spec fn two_away(p: (int, int), d: Direction) -> (int, int) {
    translate(translate(p, d), d)
}

/// The cell two steps from `pos` in direction `d`, with `d`, where it lies on the map and holds
/// `tile`; nothing otherwise.
pub open spec fn cell_if(map: TileMap, pos: (int, int), d: Direction, tile: TileType) -> Seq<
    (Coord, Direction),
> {
    let c = two_away(pos, d);
    if map.contains(c) && map.tile_at(c) == tile {
        seq![(Coord { x: c.0 as isize, y: c.1 as isize }, d)]
    } else {
        Seq::empty()
    }
}

/// The cells two steps from `pos` that lie on the map and hold `tile`, looking up, down, left
/// and right in that order.
pub open spec fn cells_two_away(map: TileMap, pos: (int, int), tile: TileType) -> Seq<
    (Coord, Direction),
> {
    cell_if(map, pos, Direction::Up, tile) + cell_if(map, pos, Direction::Down, tile) + cell_if(
        map,
        pos,
        Direction::Left,
        tile,
    ) + cell_if(map, pos, Direction::Right, tile)
}

/// The number of cells not yet marked.
pub open spec fn unmarked(marks: Seq<bool>) -> nat
    decreases marks.len(),
{
    if marks.len() == 0 {
        0
    } else {
        unmarked(marks.drop_last()) + if marks.last() {
            0nat
        } else {
            1nat
        }
    }
}

/// Marking an unmarked cell leaves one fewer unmarked.
pub proof fn lemma_mark(marks: Seq<bool>, i: int)
    requires
        0 <= i < marks.len(),
        !marks[i],
    ensures
        unmarked(marks.update(i, true)) + 1 == unmarked(marks),
    decreases marks.len(),
{
    let m = marks.update(i, true);
    if i < marks.len() - 1 {
        assert(m.drop_last() == marks.drop_last().update(i, true));
        lemma_mark(marks.drop_last(), i);
    } else {
        assert(m.drop_last() == marks.drop_last());
    }
}

/// The cell two steps from `pos` in direction `d`, where both steps fit in an `isize`.
fn two_steps(pos: Coord, d: Direction) -> (r: Option<Coord>)
    ensures
        r matches Some(c) ==> c@ == two_away(pos@, d),
        r is None ==> !(fits_isize(translate(pos@, d)) && fits_isize(two_away(pos@, d))),
{
    match pos.step(d) {
        Some(c) => c.step(d),
        None => None,
    }
}

fn cell_two_away(map: &TileMap, pos: Coord, d: Direction, tile: TileType) -> (r: Vec<
    (Coord, Direction),
>)
    requires
        map.wf(),
        map.contains(pos@),
    ensures
        r@ == cell_if(*map, pos@, d, tile),
{
    let mut r: Vec<(Coord, Direction)> = Vec::new();
    match two_steps(pos, d) {
        Some(c) => {
            if map.in_bounds(c) && map.tile(c) == tile {
                r.push((c, d));
            }
        },
        None => {},
    }
    r
}

fn cells_around(map: &TileMap, pos: Coord, tile: TileType) -> (r: Vec<(Coord, Direction)>)
    requires
        map.wf(),
        map.contains(pos@),
    ensures
        r@ == cells_two_away(*map, pos@, tile),
{
    let mut r = cell_two_away(map, pos, Direction::Up, tile);
    let mut down = cell_two_away(map, pos, Direction::Down, tile);
    r.append(&mut down);
    let mut left = cell_two_away(map, pos, Direction::Left, tile);
    r.append(&mut left);
    let mut right = cell_two_away(map, pos, Direction::Right, tile);
    r.append(&mut right);
    r
}

/// The walls two tiles away from `position` on the map, with the direction in which each lies:
/// the cells that a maze can grow into from there.
pub fn get_frontier_tiles(map: &TileMap, position: Coord) -> (r: Vec<(Coord, Direction)>)
    requires
        map.wf(),
        map.contains(position@),
    ensures
        r@ == cells_two_away(*map, position@, TileType::Wall),
{
    cells_around(map, position, TileType::Wall)
}

/// The floors two tiles away from `position` on the map, with the direction in which each
/// lies: the passages that a new cell can be joined to.
pub fn get_neighbor_tiles(map: &TileMap, position: Coord) -> (r: Vec<(Coord, Direction)>)
    requires
        map.wf(),
        map.contains(position@),
    ensures
        r@ == cells_two_away(*map, position@, TileType::Floor),
{
    cells_around(map, position, TileType::Floor)
}

/// Whether the cell `e` lies on the map, two steps from `pos` in its direction, and holds `tile`.
pub open spec fn two_away_holding(map: TileMap, pos: (int, int), tile: TileType, e: (Coord, Direction)) -> bool {
    &&& map.contains(e.0@)
    &&& e.0@ == two_away(pos, e.1)
    &&& map.tile_at(e.0@) == tile
}

/// Every cell in `cells_two_away` lies on the map, two steps away in its direction.
proof fn lemma_cells_two_away(map: TileMap, pos: (int, int), tile: TileType)
    requires
        map.wf(),
    ensures
        forall|k: int|
            0 <= k < cells_two_away(map, pos, tile).len() ==> two_away_holding(
                map,
                pos,
                tile,
                #[trigger] cells_two_away(map, pos, tile)[k],
            ),
{
    let s1 = cell_if(map, pos, Direction::Up, tile);
    let s2 = cell_if(map, pos, Direction::Down, tile);
    let s3 = cell_if(map, pos, Direction::Left, tile);
    let s4 = cell_if(map, pos, Direction::Right, tile);
    let all = s1 + s2 + s3 + s4;
    assert(cells_two_away(map, pos, tile) == all);
    assert forall|k: int| 0 <= k < all.len() implies two_away_holding(map, pos, tile, #[trigger] all[k]) by {
        if k < s1.len() {
            assert(all[k] == s1[k]);
        } else if k < s1.len() + s2.len() {
            assert(all[k] == s2[k - s1.len()]);
        } else if k < s1.len() + s2.len() + s3.len() {
            assert(all[k] == s3[k - s1.len() - s2.len()]);
        } else {
            assert(all[k] == s4[k - s1.len() - s2.len() - s3.len()]);
        }
    }
}

/// Whether every tile of `map` is a wall or a floor.
pub open spec fn walls_and_floors(map: TileMap) -> bool {
    forall|i: int|
        0 <= i < map.tiles@.len() ==> (#[trigger] map.tiles@[i] == TileType::Wall || map.tiles@[i]
            == TileType::Floor)
}

/// Sets a tile to floor, where it lies on the map.
fn carve(map: &mut TileMap, c: Coord)
    requires
        old(map).wf(),
        walls_and_floors(*old(map)),
    ensures
        final(map).wf(),
        final(map).width == old(map).width,
        final(map).height == old(map).height,
        walls_and_floors(*final(map)),
        forall|p: (int, int)|
            old(map).contains(p) && old(map).tile_at(p) == TileType::Floor
                ==> #[trigger] final(map).tile_at(p) == TileType::Floor,
        old(map).contains(c@) ==> final(map).tile_at(c@) == TileType::Floor,
{
    if map.in_bounds(c) {
        proof {
            crate::map::lemma_index_in_grid(c.x as int, c.y as int, map.width as int, map.height as int);
        }
        let ghost before = *map;
        map.set_tile(c, TileType::Floor);
        proof {
            assert forall|p: (int, int)|
                before.contains(p) && before.tile_at(p) == TileType::Floor
                    implies #[trigger] map.tile_at(p) == TileType::Floor by {
                crate::map::lemma_index_in_grid(p.0, p.1, map.width as int, map.height as int);
            }
        }
    }
}

/// Builds a maze of the given size with a randomized Prim's algorithm. It starts closed, the
/// centre becomes floor, and walls two tiles away from the passages are opened one by one, in
/// random order, each joined to a random passage two tiles away through the wall between them.
pub fn new_map_prim(width: usize, height: usize) -> (r: TileMap)
    requires
        1 <= width,
        1 <= height,
        width * height <= MAX_TILES,
        width <= MAX_TILES,
        height <= MAX_TILES,
    ensures
        r.wf(),
        r.width == width,
        r.height == height,
        walls_and_floors(r),
        r.tile_at(((width / 2) as int, (height / 2) as int)) == TileType::Floor,
{
    let mut map = TileMap::new_closed(width, height);
    let start = Coord::new((width / 2) as isize, (height / 2) as isize);
    let n = width * height;
    let mut visited: Vec<bool> = Vec::new();
    while visited.len() < n
        invariant
            visited@.len() <= n,
            forall|i: int| 0 <= i < visited@.len() ==> !visited@[i],
        decreases n - visited.len(),
    {
        visited.push(false);
    }
    let si = map.index_of_coord(start);
    proof {
        lemma_mark(visited@, si as int);
    }
    visited.set(si, true);
    carve(&mut map, start);
    let mut frontier_cells = get_frontier_tiles(&map, start);
    proof {
        lemma_cells_two_away(map, start@, TileType::Wall);
    }
    while frontier_cells.len() > 0
        invariant
            map.wf(),
            map.width == width,
            map.height == height,
            walls_and_floors(map),
            visited@.len() == map.tiles@.len(),
            map.contains(start@),
            map.tile_at(start@) == TileType::Floor,
            forall|k: int|
                0 <= k < frontier_cells@.len() ==> map.contains(
                    (#[trigger] frontier_cells@[k]).0@,
                ),
        decreases 2 * unmarked(visited@) + frontier_cells@.len(),
    {
        let index = roll_below(frontier_cells.len());
        let (frontier_cell, _) = frontier_cells.remove(index);
        carve(&mut map, frontier_cell);
        let neighbors = get_neighbor_tiles(&map, frontier_cell);
        if neighbors.len() > 0 {
            let (_, between_dir) = neighbors[roll_below(neighbors.len())];
            match frontier_cell.step(between_dir) {
                Some(in_between) => carve(&mut map, in_between),
                None => {},
            }
        }
        let new_frontier = get_frontier_tiles(&map, frontier_cell);
        proof {
            lemma_cells_two_away(map, frontier_cell@, TileType::Wall);
        }
        let mut j: usize = 0;
        let ghost unmarked_before = unmarked(visited@);
        let ghost len_before = frontier_cells@.len();
        while j < new_frontier.len()
            invariant
                map.wf(),
                visited@.len() == map.tiles@.len(),
                j <= new_frontier@.len(),
                new_frontier@ == cells_two_away(map, frontier_cell@, TileType::Wall),
                forall|k: int|
                    0 <= k < new_frontier@.len() ==> map.contains((#[trigger] new_frontier@[k]).0@),
                forall|k: int|
                    0 <= k < frontier_cells@.len() ==> map.contains(
                        (#[trigger] frontier_cells@[k]).0@,
                    ),
                2 * unmarked(visited@) + frontier_cells@.len() <= 2 * unmarked_before + len_before,
            decreases new_frontier@.len() - j,
        {
            let cell = new_frontier[j];
            let ci = map.index_of_coord(cell.0);
            if !visited[ci] {
                proof {
                    lemma_mark(visited@, ci as int);
                }
                visited.set(ci, true);
                frontier_cells.push(cell);
            }
            j = j + 1;
        }
    }
    map
}

} // verus!

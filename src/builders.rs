//! Map builders that record every stage of their work as a new version of the map, so that
//! the making of a map can be replayed.
use crate::api::{roll_below, Coord, Direction, TileType};
use crate::map::{lemma_index_in_grid, lemma_index_injective, TileMap, MAX_TILES};
use crate::maze::{lemma_mark, two_away, unmarked};
use rand::seq::IteratorRandom;
use vstd::prelude::*;

verus! {

/// A map together with every version it went through while it was built, oldest first.
pub struct MapWithSnapshots {
    pub snapshots: Vec<TileMap>,
}

impl MapWithSnapshots {
    /// There is a version, and all versions are well formed and of one size.
    pub open spec fn wf(&self) -> bool {
        &&& self.snapshots@.len() >= 1
        &&& forall|i: int|
            0 <= i < self.snapshots@.len() ==> {
                &&& (#[trigger] self.snapshots@[i]).wf()
                &&& self.snapshots@[i].width == self.snapshots@[0].width
                &&& self.snapshots@[i].height == self.snapshots@[0].height
            }
    }

    /// The latest version.
    pub open spec fn latest(&self) -> TileMap {
        self.snapshots@.last()
    }

    /// The width of every version.
    pub open spec fn width(&self) -> nat {
        self.snapshots@[0].width as nat
    }

    /// The height of every version.
    pub open spec fn height(&self) -> nat {
        self.snapshots@[0].height as nat
    }

    /// A history that holds `map` alone.
    pub fn new(map: TileMap) -> (r: MapWithSnapshots)
        requires
            map.wf(),
        ensures
            r.wf(),
            r.snapshots@ == seq![map],
    {
        let mut snapshots: Vec<TileMap> = Vec::new();
        snapshots.push(map);
        MapWithSnapshots { snapshots }
    }

    /// A copy of the latest version, to be edited into the next one.
    pub fn current(&self) -> (r: TileMap)
        requires
            self.wf(),
        ensures
            r.wf(),
            r.width == self.width(),
            r.height == self.height(),
            r.tiles@ == self.latest().tiles@,
    {
        let n = self.snapshots.len();
        self.snapshots[n - 1].duplicate()
    }

    /// Records `map` as the latest version.
    pub fn record(&mut self, map: TileMap)
        requires
            old(self).wf(),
            map.wf(),
            map.width == old(self).width(),
            map.height == old(self).height(),
        ensures
            final(self).wf(),
            final(self).snapshots@ == old(self).snapshots@.push(map),
    {
        self.snapshots.push(map);
    }

    /// The latest version, which is the finished map.
    pub fn into_latest(self) -> (r: TileMap)
        requires
            self.wf(),
        ensures
            r == self.latest(),
            r.wf(),
    {
        let mut snapshots = self.snapshots;
        snapshots.pop().unwrap()
    }

    /// Every version, oldest first.
    pub fn into_history(self) -> (r: Vec<TileMap>)
        ensures
            r@ == self.snapshots@,
    {
        self.snapshots
    }
}

/// Something that builds a map on a closed one, recording its stages.
pub trait MapBuilder {
    /// Whether this builder can build a map of the given size.
    spec fn fits(&self, width: nat, height: nat) -> bool;

    /// Builds on the latest version of `map`, recording each stage as a new version.
    fn build(&mut self, map: &mut MapWithSnapshots)
        requires
            old(map).wf(),
            old(self).fits(old(map).width(), old(map).height()),
        ensures
            final(map).wf(),
            final(map).width() == old(map).width(),
            final(map).height() == old(map).height(),
            final(map).snapshots@.len() > old(map).snapshots@.len(),
            final(map).snapshots@.subrange(0, old(map).snapshots@.len() as int) == old(
                map,
            ).snapshots@,
    ;
}

/// Builds a map of the given size, starting from a closed one.
pub fn new_map<B: MapBuilder>(width: usize, height: usize, builder: &mut B) -> (r: TileMap)
    requires
        width * height <= MAX_TILES,
        width <= MAX_TILES,
        height <= MAX_TILES,
        old(builder).fits(width as nat, height as nat),
    ensures
        r.wf(),
        r.width == width,
        r.height == height,
{
    let mut map = MapWithSnapshots::new(TileMap::new_closed(width, height));
    builder.build(&mut map);
    map.into_latest()
}

/// Builds a map of the given size, starting from a closed one, and returns every stage.
pub fn new_map_with_history<B: MapBuilder>(width: usize, height: usize, builder: &mut B) -> (r: Vec<
    TileMap,
>)
    requires
        width * height <= MAX_TILES,
        width <= MAX_TILES,
        height <= MAX_TILES,
        old(builder).fits(width as nat, height as nat),
    ensures
        r@.len() >= 2,
        r@[0].width == width && r@[0].height == height,
        forall|i: int|
            0 <= i < r@.len() ==> (#[trigger] r@[i]).wf() && r@[i].width == width && r@[i].height
                == height,
{
    let mut map = MapWithSnapshots::new(TileMap::new_closed(width, height));
    builder.build(&mut map);
    map.into_history()
}

/// Whether `p` lies inside the border of `map`.
pub open spec fn interior(map: TileMap, p: (int, int)) -> bool {
    1 <= p.0 < map.width - 1 && 1 <= p.1 < map.height - 1
}

/// One where the tile at `p` is a wall, zero otherwise.
pub open spec fn wall_at(map: TileMap, p: (int, int)) -> int {
    if map.tile_at(p) == TileType::Wall {
        1
    } else {
        0
    }
}

/// The number of walls among the eight neighbours of `p`.
pub open spec fn walls_around(map: TileMap, p: (int, int)) -> int {
    wall_at(map, (p.0 - 1, p.1)) + wall_at(map, (p.0 + 1, p.1)) + wall_at(map, (p.0, p.1 - 1))
        + wall_at(map, (p.0, p.1 + 1)) + wall_at(map, (p.0 + 1, p.1 - 1)) + wall_at(
        map,
        (p.0 - 1, p.1 - 1),
    ) + wall_at(map, (p.0 - 1, p.1 + 1)) + wall_at(map, (p.0 + 1, p.1 + 1))
}

/// The tile that the cellular automaton puts at `p`: a wall where more than four neighbours,
/// or none, are walls, and a floor otherwise.
pub open spec fn smoothed_tile(map: TileMap, p: (int, int)) -> TileType {
    let n = walls_around(map, p);
    if n > 4 || n == 0 {
        TileType::Wall
    } else {
        TileType::Floor
    }
}

fn wall_count(map: &TileMap, x: isize, y: isize) -> (r: u8)
    requires
        map.wf(),
        map.contains((x as int, y as int)),
    ensures
        r == wall_at(*map, (x as int, y as int)),
{
    if map.tile(Coord::new(x, y)) == TileType::Wall {
        1
    } else {
        0
    }
}

/// The number of walls among the eight neighbours of the interior point `(x, y)`.
pub fn wall_neighbours(map: &TileMap, x: isize, y: isize) -> (r: u8)
    requires
        map.wf(),
        interior(*map, (x as int, y as int)),
    ensures
        r == walls_around(*map, (x as int, y as int)),
{
    wall_count(map, x - 1, y) + wall_count(map, x + 1, y) + wall_count(map, x, y - 1) + wall_count(
        map,
        x,
        y + 1,
    ) + wall_count(map, x + 1, y - 1) + wall_count(map, x - 1, y - 1) + wall_count(
        map,
        x - 1,
        y + 1,
    ) + wall_count(map, x + 1, y + 1)
}

/// One step of the cellular automaton: every interior tile becomes `smoothed_tile` of the map
/// before the step; the border stays as it is.
pub fn smooth(map: &TileMap) -> (r: TileMap)
    requires
        map.wf(),
    ensures
        r.wf(),
        r.width == map.width,
        r.height == map.height,
        forall|p: (int, int)|
            #[trigger] map.contains(p) ==> r.tile_at(p) == if interior(*map, p) {
                smoothed_tile(*map, p)
            } else {
                map.tile_at(p)
            },
{
    let mut next = map.duplicate();
    let mut y: usize = 1;
    while y + 1 < map.height
        invariant
            map.wf(),
            next.wf(),
            next.width == map.width,
            next.height == map.height,
            1 <= y <= MAX_TILES,
            forall|p: (int, int)|
                #[trigger] map.contains(p) ==> next.tile_at(p) == if interior(*map, p) && p.1 < y {
                    smoothed_tile(*map, p)
                } else {
                    map.tile_at(p)
                },
        decreases map.height - y,
    {
        let mut x: usize = 1;
        while x + 1 < map.width
            invariant
                map.wf(),
                next.wf(),
                next.width == map.width,
                next.height == map.height,
                1 <= y < map.height - 1,
                1 <= x <= MAX_TILES,
                forall|p: (int, int)|
                    #[trigger] map.contains(p) ==> next.tile_at(p) == if interior(*map, p) && (p.1
                        < y || (p.1 == y && p.0 < x)) {
                        smoothed_tile(*map, p)
                    } else {
                        map.tile_at(p)
                    },
            decreases map.width - x,
        {
            let n = wall_neighbours(map, x as isize, y as isize);
            let t = if n > 4 || n == 0 {
                TileType::Wall
            } else {
                TileType::Floor
            };
            let ghost before = next;
            let c = Coord::new(x as isize, y as isize);
            proof {
                lemma_index_in_grid(x as int, y as int, map.width as int, map.height as int);
            }
            next.set_tile(c, t);
            proof {
                assert forall|p: (int, int)| #[trigger] map.contains(p) implies next.tile_at(p) == if interior(
                    *map,
                    p,
                ) && (p.1 < y || (p.1 == y && p.0 < x + 1)) {
                    smoothed_tile(*map, p)
                } else {
                    map.tile_at(p)
                } by {
                    lemma_index_in_grid(p.0, p.1, map.width as int, map.height as int);
                    if map.index_of(p) == map.index_of(c@) {
                        lemma_index_injective(p.0, p.1, x as int, y as int, map.width as int);
                    }
                    assert(before.contains(p));
                }
            }
            x = x + 1;
        }
        y = y + 1;
    }
    next
}

/// Fills the interior of the map at random: each tile is a floor with a chance of 44 in 100
/// and a wall otherwise.
fn randomize_interior(map: &mut TileMap)
    requires
        old(map).wf(),
    ensures
        final(map).wf(),
        final(map).width == old(map).width,
        final(map).height == old(map).height,
{
    let mut y: usize = 1;
    while y + 1 < map.height
        invariant
            map.wf(),
            map.width == old(map).width,
            map.height == old(map).height,
            1 <= y <= MAX_TILES,
        decreases map.height - y,
    {
        let mut x: usize = 1;
        while x + 1 < map.width
            invariant
                map.wf(),
                map.width == old(map).width,
                map.height == old(map).height,
                1 <= y < map.height - 1,
                1 <= x <= MAX_TILES,
            decreases map.width - x,
        {
            let roll = roll_below(100);
            let t = if roll > 55 {
                TileType::Floor
            } else {
                TileType::Wall
            };
            map.set_tile(Coord::new(x as isize, y as isize), t);
            x = x + 1;
        }
        y = y + 1;
    }
}

/// Builds caves: a random interior, then fifteen steps of a cellular automaton.
pub struct CellularAutomata;

/// The number of smoothing steps of the cellular automaton.
pub const SMOOTHING_STEPS: usize = 15;

impl MapBuilder for CellularAutomata {
    open spec fn fits(&self, width: nat, height: nat) -> bool {
        true
    }

    fn build(&mut self, map: &mut MapWithSnapshots) {
        let ghost before = map.snapshots@;
        let mut m = map.current();
        randomize_interior(&mut m);
        map.record(m);
        let mut i: usize = 0;
        while i < SMOOTHING_STEPS
            invariant
                map.wf(),
                map.width() == old(map).width(),
                map.height() == old(map).height(),
                map.snapshots@.len() > before.len(),
                map.snapshots@.subrange(0, before.len() as int) == before,
            decreases SMOOTHING_STEPS - i,
        {
            let current = map.current();
            let next = smooth(&current);
            let ghost prev = map.snapshots@;
            map.record(next);
            assert(map.snapshots@.subrange(0, before.len() as int) == prev.subrange(
                0,
                before.len() as int,
            ));
            i = i + 1;
        }
    }
}

/// Sets every interior tile to floor.
fn open_interior(map: &mut TileMap)
    requires
        old(map).wf(),
    ensures
        final(map).wf(),
        final(map).width == old(map).width,
        final(map).height == old(map).height,
{
    let mut y: usize = 1;
    while y + 1 < map.height
        invariant
            map.wf(),
            map.width == old(map).width,
            map.height == old(map).height,
            1 <= y <= MAX_TILES,
        decreases map.height - y,
    {
        let mut x: usize = 1;
        while x + 1 < map.width
            invariant
                map.wf(),
                map.width == old(map).width,
                map.height == old(map).height,
                1 <= y < map.height - 1,
                1 <= x <= MAX_TILES,
            decreases map.width - x,
        {
            map.set_tile(Coord::new(x as isize, y as isize), TileType::Floor);
            x = x + 1;
        }
        y = y + 1;
    }
}

/// The number of walls that the simple builder scatters over the interior.
pub const OBSTACLES: usize = 400;

/// The number of exit tiles in a row that the simple builder places on the border.
pub const EXIT_SIZE: usize = 10;

/// Scatters walls at random points with both coordinates from 1 up to the size minus three.
fn scatter_walls(map: &mut TileMap)
    requires
        old(map).wf(),
        old(map).width >= 4,
        old(map).height >= 4,
    ensures
        final(map).wf(),
        final(map).width == old(map).width,
        final(map).height == old(map).height,
{
    let mut i: usize = 0;
    while i < OBSTACLES
        invariant
            map.wf(),
            map.width == old(map).width,
            map.height == old(map).height,
            map.width >= 4,
            map.height >= 4,
        decreases OBSTACLES - i,
    {
        let x = 1 + roll_below(map.width - 3);
        let y = 1 + roll_below(map.height - 3);
        map.set_tile(Coord::new(x as isize, y as isize), TileType::Wall);
        i = i + 1;
    }
}

/// Places a row of exits on a random side of the border, at a random offset: down the left
/// or right side, or along the top or bottom.
fn place_exit(map: &mut TileMap)
    requires
        old(map).wf(),
        old(map).width >= EXIT_SIZE + 1,
        old(map).height >= EXIT_SIZE + 1,
    ensures
        final(map).wf(),
        final(map).width == old(map).width,
        final(map).height == old(map).height,
        exists|p: (int, int)| final(map).contains(p) && #[trigger] final(map).tile_at(p) == TileType::Exit,
{
    let w = map.width;
    let h = map.height;
    let (start, dir) = match Direction::random() {
        Direction::Left => (Coord::new(0, roll_below(h - EXIT_SIZE) as isize), Direction::Down),
        Direction::Right => (
            Coord::new((w - 1) as isize, roll_below(h - EXIT_SIZE) as isize),
            Direction::Down,
        ),
        Direction::Up => (Coord::new(roll_below(w - EXIT_SIZE) as isize, 0), Direction::Right),
        Direction::Down => (
            Coord::new(roll_below(w - EXIT_SIZE) as isize, (h - 1) as isize),
            Direction::Right,
        ),
    };
    proof {
        lemma_index_in_grid(start.x as int, start.y as int, w as int, h as int);
    }
    map.set_tile(start, TileType::Exit);
    let mut current = start;
    let mut i: usize = 1;
    while i < EXIT_SIZE
        invariant
            map.wf(),
            map.width == w,
            map.height == h,
            map.contains(start@),
            map.tile_at(start@) == TileType::Exit,
        decreases EXIT_SIZE - i,
    {
        match current.step(dir) {
            Some(next) => {
                current = next;
                if map.in_bounds(current) {
                    proof {
                        lemma_index_in_grid(start.x as int, start.y as int, w as int, h as int);
                        lemma_index_in_grid(current.x as int, current.y as int, w as int, h as int);
                    }
                    map.set_tile(current, TileType::Exit);
                }
            },
            None => {},
        }
        i = i + 1;
    }
    assert(map.contains(start@) && map.tile_at(start@) == TileType::Exit);
}

/// Builds an open room: the interior is carved out, walls are scattered over it, and a row of
/// exits is placed on the border.
pub struct SimpleMapBuilder;

impl MapBuilder for SimpleMapBuilder {
    open spec fn fits(&self, width: nat, height: nat) -> bool {
        width >= EXIT_SIZE + 1 && height >= EXIT_SIZE + 1
    }

    fn build(&mut self, map: &mut MapWithSnapshots) {
        let ghost before = map.snapshots@;
        let mut m = map.current();
        open_interior(&mut m);
        map.record(m);
        let mut m = map.current();
        scatter_walls(&mut m);
        map.record(m);
        let mut m = map.current();
        place_exit(&mut m);
        map.record(m);
        assert(map.snapshots@.subrange(0, before.len() as int) == before);
    }
}

/// Relies on rand's `IteratorRandom::choose` with `thread_rng`: it returns one of the items at
/// random, and `None` if and only if there are none.
#[verifier::external_body]
fn choose_item(items: &Vec<usize>) -> (r: Option<usize>)
    ensures
        r is None <==> items@.len() == 0,
        r matches Some(v) ==> items@.contains(v),
{
    items.iter().copied().choose(&mut rand::thread_rng())
}

/// Whether `p` may be a cell of the older maze: its column is at least one and its row lies
/// above the last, so that cells two apart from the centre leave the left and bottom border.
pub open spec fn frontier_bounds(map: TileMap, p: (int, int)) -> bool {
    1 <= p.0 < map.width && 0 <= p.1 < map.height - 1
}

/// Checks whether `position` may be a cell of the older maze.
pub fn in_frontier_bounds(map: &TileMap, position: Coord) -> (r: bool)
    requires
        map.wf(),
    ensures
        r == frontier_bounds(*map, position@),
{
    position.x >= 1 && position.x < map.width as isize && position.y >= 0 && position.y < (
    map.height as isize) - 1
}

/// The cell two steps from `pos` in direction `d`, where it may be a cell and holds `tile`.
pub open spec fn maze_cell_if(map: TileMap, pos: (int, int), d: Direction, tile: TileType) -> Seq<
    (Coord, Direction),
> {
    let c = two_away(pos, d);
    if frontier_bounds(map, c) && map.tile_at(c) == tile {
        seq![(Coord { x: c.0 as isize, y: c.1 as isize }, d)]
    } else {
        Seq::empty()
    }
}

/// The cells two steps from `pos` that may be cells and hold `tile`, looking up, down, left and
/// right in that order.
pub open spec fn maze_cells(map: TileMap, pos: (int, int), tile: TileType) -> Seq<(Coord, Direction)> {
    maze_cell_if(map, pos, Direction::Up, tile) + maze_cell_if(map, pos, Direction::Down, tile)
        + maze_cell_if(map, pos, Direction::Left, tile) + maze_cell_if(
        map,
        pos,
        Direction::Right,
        tile,
    )
}

fn maze_cell(map: &TileMap, pos: Coord, d: Direction, tile: TileType) -> (r: Vec<(Coord, Direction)>)
    requires
        map.wf(),
        map.contains(pos@),
    ensures
        r@ == maze_cell_if(*map, pos@, d, tile),
{
    let mut r: Vec<(Coord, Direction)> = Vec::new();
    match pos.step(d) {
        Some(c1) => match c1.step(d) {
            Some(c) => {
                if in_frontier_bounds(map, c) && map.tile(c) == tile {
                    r.push((c, d));
                }
            },
            None => {},
        },
        None => {},
    }
    r
}

/// The cells two steps from `position` that may be cells of the older maze and hold `tile`.
fn cells_holding(map: &TileMap, position: Coord, tile: TileType) -> (r: Vec<(Coord, Direction)>)
    requires
        map.wf(),
        map.contains(position@),
    ensures
        r@ == maze_cells(*map, position@, tile),
        forall|k: int| 0 <= k < r@.len() ==> map.contains((#[trigger] r@[k]).0@),
{
    let mut r = maze_cell(map, position, Direction::Up, tile);
    let mut down = maze_cell(map, position, Direction::Down, tile);
    r.append(&mut down);
    let mut left = maze_cell(map, position, Direction::Left, tile);
    r.append(&mut left);
    let mut right = maze_cell(map, position, Direction::Right, tile);
    r.append(&mut right);
    proof {
        let s1 = maze_cell_if(*map, position@, Direction::Up, tile);
        let s2 = maze_cell_if(*map, position@, Direction::Down, tile);
        let s3 = maze_cell_if(*map, position@, Direction::Left, tile);
        let s4 = maze_cell_if(*map, position@, Direction::Right, tile);
        assert forall|k: int| 0 <= k < r@.len() implies map.contains((#[trigger] r@[k]).0@) by {
            if k < s1.len() {
                assert(r@[k] == s1[k]);
            } else if k < s1.len() + s2.len() {
                assert(r@[k] == s2[k - s1.len()]);
            } else if k < s1.len() + s2.len() + s3.len() {
                assert(r@[k] == s3[k - s1.len() - s2.len()]);
            } else {
                assert(r@[k] == s4[k - s1.len() - s2.len() - s3.len()]);
            }
        }
    }
    r
}

/// The positions of the floor tiles of `map`, in order.
fn floor_indices(map: &TileMap) -> (r: Vec<usize>)
    ensures
        forall|k: int|
            0 <= k < r@.len() ==> (#[trigger] r@[k]) < map.tiles@.len() && map.tiles@[r@[k] as int]
                == TileType::Floor,
{
    let mut r: Vec<usize> = Vec::new();
    let mut i: usize = 0;
    while i < map.tiles.len()
        invariant
            i <= map.tiles@.len(),
            forall|k: int|
                0 <= k < r@.len() ==> (#[trigger] r@[k]) < map.tiles@.len() && map.tiles@[r@[k] as int]
                    == TileType::Floor,
        decreases map.tiles@.len() - i,
    {
        if map.tiles[i] == TileType::Floor {
            r.push(i);
        }
        i = i + 1;
    }
    r
}

/// Builds a maze with a randomized Prim's algorithm, recording every step, and turns one
/// random floor tile into the exit. Cells keep off the left and bottom border.
pub struct PrimMazeBuilder;

impl MapBuilder for PrimMazeBuilder {
    open spec fn fits(&self, width: nat, height: nat) -> bool {
        width >= 1 && height >= 1
    }

    fn build(&mut self, map: &mut MapWithSnapshots) {
        let ghost before = map.snapshots@;
        let mut m = map.current();
        let n = m.width * m.height;
        let mut visited: Vec<bool> = Vec::new();
        while visited.len() < n
            invariant
                visited@.len() <= n,
            decreases n - visited.len(),
        {
            visited.push(false);
        }
        let start = Coord::new((m.width / 2) as isize, (m.height / 2) as isize);
        let si = m.index_of_coord(start);
        if !visited[si] {
            proof {
                lemma_mark(visited@, si as int);
            }
            visited.set(si, true);
        }
        m.set_tile(start, TileType::Floor);
        let mut frontier_cells = cells_holding(&m, start, TileType::Wall);
        map.record(m);
        while frontier_cells.len() > 0
            invariant
                map.wf(),
                map.width() == old(map).width(),
                map.height() == old(map).height(),
                visited@.len() == map.width() * map.height(),
                map.snapshots@.len() > before.len(),
                map.snapshots@.subrange(0, before.len() as int) == before,
                forall|k: int|
                    0 <= k < frontier_cells@.len() ==> 0 <= (#[trigger] frontier_cells@[k]).0@.0
                        < map.width() && 0 <= frontier_cells@[k].0@.1 < map.height(),
            decreases 2 * unmarked(visited@) + frontier_cells@.len(),
        {
            let mut m = map.current();
            let index = roll_below(frontier_cells.len());
            let (frontier_cell, _) = frontier_cells.remove(index);
            m.set_tile(frontier_cell, TileType::Floor);
            let neighbors = cells_holding(&m, frontier_cell, TileType::Floor);
            if neighbors.len() > 0 {
                let (_, between_dir) = neighbors[roll_below(neighbors.len())];
                match frontier_cell.step(between_dir) {
                    Some(in_between) => {
                        if m.in_bounds(in_between) {
                            m.set_tile(in_between, TileType::Floor);
                        }
                    },
                    None => {},
                }
            }
            let new_frontier = cells_holding(&m, frontier_cell, TileType::Wall);
            let ghost unmarked_before = unmarked(visited@);
            let ghost len_before = frontier_cells@.len();
            let mut j: usize = 0;
            while j < new_frontier.len()
                invariant
                    m.wf(),
                    m.width == map.width(),
                    m.height == map.height(),
                    visited@.len() == m.tiles@.len(),
                    j <= new_frontier@.len(),
                    forall|k: int|
                        0 <= k < new_frontier@.len() ==> m.contains((#[trigger] new_frontier@[k]).0@),
                    forall|k: int|
                        0 <= k < frontier_cells@.len() ==> 0 <= (#[trigger] frontier_cells@[k]).0@.0
                            < m.width && 0 <= frontier_cells@[k].0@.1 < m.height,
                    2 * unmarked(visited@) + frontier_cells@.len() <= 2 * unmarked_before + len_before,
                decreases new_frontier@.len() - j,
            {
                let cell = new_frontier[j];
                let ci = m.index_of_coord(cell.0);
                if !visited[ci] {
                    proof {
                        lemma_mark(visited@, ci as int);
                    }
                    visited.set(ci, true);
                    frontier_cells.push(cell);
                }
                j = j + 1;
            }
            let ghost prev = map.snapshots@;
            map.record(m);
            assert(map.snapshots@.subrange(0, before.len() as int) == prev.subrange(
                0,
                before.len() as int,
            ));
        }
        let mut m = map.current();
        let floors = floor_indices(&m);
        match choose_item(&floors) {
            Some(i) => {
                m.tiles.set(i, TileType::Exit);
            },
            None => {},
        }
        let ghost prev = map.snapshots@;
        map.record(m);
        assert(map.snapshots@.subrange(0, before.len() as int) == prev.subrange(
            0,
            before.len() as int,
        ));
    }
}

} // verus!

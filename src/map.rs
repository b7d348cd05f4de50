//! The map: a width × height grid of tiles, stored row by row.
use crate::api::{Coord, TileType};
use bracket_pathfinding::prelude::{field_of_view_set, Algorithm2D, BaseMap, Point};
use vstd::prelude::*;

verus! {

/// A point of bracket-geometry, handed to its field-of-view algorithm.
#[verifier::external_type_specification]
#[verifier::external_body]
pub struct ExPoint(Point);

/// The largest number of tiles a map may have: every coordinate and every tile index of a map
/// must fit the 32-bit points of the field-of-view algorithm.
pub const MAX_TILES: usize = 0x7fff_ffff;

/// The points that the field-of-view algorithm reports as seen from `(x, y)` within `range`,
/// on a map of the given size whose tiles are `tiles` (walls are opaque).
pub uninterp spec fn visible_from(
    tiles: Seq<TileType>,
    width: int,
    height: int,
    x: int,
    y: int,
    range: int,
) -> Set<(int, int)>;

/// A grid of tiles.
#[derive(Debug, Clone, PartialEq, Eq)]
pub struct TileMap {
    pub width: usize,
    pub height: usize,
    pub tiles: Vec<TileType>,
}

/// `y * w + x` stays below `w * h` for a point inside a `w × h` grid.
pub proof fn lemma_index_in_grid(x: int, y: int, w: int, h: int)
    requires
        0 <= x < w,
        0 <= y < h,
    ensures
        0 <= y * w + x < w * h,
{
    assert(0 <= y * w) by (nonlinear_arith)
        requires
            0 <= y,
            0 <= w,
    ;
    assert(y * w + x < w * h) by (nonlinear_arith)
        requires
            0 <= x < w,
            0 <= y < h,
    ;
}

/// Two points inside a grid of width `w` with the same row-by-row index are the same point.
pub proof fn lemma_index_injective(x1: int, y1: int, x2: int, y2: int, w: int)
    requires
        0 <= x1 < w,
        0 <= x2 < w,
        0 <= y1,
        0 <= y2,
        y1 * w + x1 == y2 * w + x2,
    ensures
        x1 == x2,
        y1 == y2,
{
    if y1 < y2 {
        assert(y1 * w + w <= y2 * w) by (nonlinear_arith)
            requires
                y1 < y2,
                0 <= w,
        ;
    } else if y2 < y1 {
        assert(y2 * w + w <= y1 * w) by (nonlinear_arith)
            requires
                y2 < y1,
                0 <= w,
        ;
    }
}

impl TileMap {
    /// The map holds exactly one tile per cell, and its size fits the field-of-view algorithm.
    pub open spec fn wf(&self) -> bool {
        &&& self.tiles@.len() == self.width * self.height
        &&& self.width * self.height <= MAX_TILES
        &&& self.width <= MAX_TILES
        &&& self.height <= MAX_TILES
    }

    /// Whether the point `p` lies on the map.
    pub open spec fn contains(&self, p: (int, int)) -> bool {
        0 <= p.0 < self.width && 0 <= p.1 < self.height
    }

    /// The position of the point `p` in the row-by-row list of tiles.
    pub open spec fn index_of(&self, p: (int, int)) -> int {
        p.1 * self.width + p.0
    }

    /// The tile at the point `p`.
    pub open spec fn tile_at(&self, p: (int, int)) -> TileType {
        self.tiles@[self.index_of(p)]
    }

    /// Whether a unit may move onto the point `p`: it lies on the map and is no wall.
    pub open spec fn enterable_at(&self, p: (int, int)) -> bool {
        self.contains(p) && self.tile_at(p).enterable()
    }

    /// Every cell of the map holds `t`.
    pub open spec fn filled_with(&self, t: TileType) -> bool {
        forall|i: int| 0 <= i < self.tiles@.len() ==> self.tiles@[i] == t
    }

    fn filled(width: usize, height: usize, t: TileType) -> (r: TileMap)
        requires
            width * height <= MAX_TILES,
            width <= MAX_TILES,
            height <= MAX_TILES,
        ensures
            r.wf(),
            r.width == width,
            r.height == height,
            r.filled_with(t),
    {
        let n = width * height;
        let mut tiles: Vec<TileType> = Vec::new();
        while tiles.len() < n
            invariant
                tiles.len() <= n,
                forall|i: int| 0 <= i < tiles@.len() ==> tiles@[i] == t,
            decreases n - tiles.len(),
        {
            tiles.push(t);
        }
        TileMap { width, height, tiles }
    }

    /// A map of the given size where every tile is floor.
    pub fn new(width: usize, height: usize) -> (r: TileMap)
        requires
            width * height <= MAX_TILES,
            width <= MAX_TILES,
            height <= MAX_TILES,
        ensures
            r.wf(),
            r.width == width,
            r.height == height,
            r.filled_with(TileType::Floor),
    {
        TileMap::filled(width, height, TileType::Floor)
    }

    /// A map of the given size where every tile is wall.
    pub fn new_closed(width: usize, height: usize) -> (r: TileMap)
        requires
            width * height <= MAX_TILES,
            width <= MAX_TILES,
            height <= MAX_TILES,
        ensures
            r.wf(),
            r.width == width,
            r.height == height,
            r.filled_with(TileType::Wall),
    {
        TileMap::filled(width, height, TileType::Wall)
    }

    /// A copy of the map.
    pub fn duplicate(&self) -> (r: TileMap)
        ensures
            r.width == self.width,
            r.height == self.height,
            r.tiles@ == self.tiles@,
    {
        let mut tiles: Vec<TileType> = Vec::new();
        let mut i: usize = 0;
        while i < self.tiles.len()
            invariant
                i <= self.tiles@.len(),
                tiles@ == self.tiles@.take(i as int),
            decreases self.tiles@.len() - i,
        {
            tiles.push(self.tiles[i]);
            i = i + 1;
            assert(tiles@ == self.tiles@.take(i as int));
        }
        assert(self.tiles@.take(i as int) == self.tiles@);
        TileMap { width: self.width, height: self.height, tiles }
    }

    /// Checks if the given coordinate is within the bounds of the map.
    pub fn in_bounds(&self, position: Coord) -> (r: bool)
        requires
            self.wf(),
        ensures
            r == self.contains(position@),
    {
        position.x >= 0 && position.x < self.width as isize && position.y >= 0 && position.y
            < self.height as isize
    }

    /// The position of the given coordinate in the row-by-row list of tiles.
    pub fn index_of_coord(&self, position: Coord) -> (r: usize)
        requires
            self.wf(),
            self.contains(position@),
        ensures
            r == self.index_of(position@),
            r < self.tiles@.len(),
    {
        proof {
            lemma_index_in_grid(position.x as int, position.y as int, self.width as int, self.height as int);
        }
        (position.y as usize) * self.width + (position.x as usize)
    }

    /// The tile at the given coordinate.
    pub fn tile(&self, position: Coord) -> (r: TileType)
        requires
            self.wf(),
            self.contains(position@),
        ensures
            r == self.tile_at(position@),
    {
        let i = self.index_of_coord(position);
        self.tiles[i]
    }

    /// Replaces the tile at the given coordinate.
    pub fn set_tile(&mut self, position: Coord, tile: TileType)
        requires
            old(self).wf(),
            old(self).contains(position@),
        ensures
            final(self).wf(),
            final(self).width == old(self).width,
            final(self).height == old(self).height,
            final(self).tiles@ == old(self).tiles@.update(old(self).index_of(position@), tile),
    {
        let i = self.index_of_coord(position);
        self.tiles.set(i, tile);
    }

    /// Checks if this tile can be entered: it lies on the map and is no wall.
    pub fn can_enter_tile(&self, position: Coord) -> (r: bool)
        requires
            self.wf(),
        ensures
            r == self.enterable_at(position@),
            !self.contains(position@) ==> !r,
    {
        self.in_bounds(position) && self.tile(position).can_enter()
    }

    /// The points that the field-of-view algorithm sees from `position` within `range`.
    pub open spec fn spec_field_of_view(&self, position: (int, int), range: int) -> Set<(int, int)> {
        visible_from(self.tiles@, self.width as int, self.height as int, position.0, position.1, range)
    }

    /// Returns all the coordinates that can be seen from the given location and within the
    /// given range, each once, in no particular order.
    pub fn field_of_view(&self, position: Coord, range: i32) -> (r: Vec<Coord>)
        requires
            self.wf(),
            self.contains(position@),
            0 <= range <= 1000,
        ensures
            forall|i: int|
                0 <= i < r@.len() ==> self.spec_field_of_view(position@, range as int).contains(
                    #[trigger] r@[i]@,
                ),
            forall|p: (int, int)|
                #[trigger] self.spec_field_of_view(position@, range as int).contains(p) ==> exists|
                    i: int,
                | 0 <= i < r@.len() && r@[i]@ == p,
            r@.no_duplicates(),
    {
        visible_coords(self, position, range)
    }
}

/// Relies on bracket-pathfinding's `field_of_view_set` (recursive shadowcasting, walls opaque):
/// the set it returns depends on the map and the arguments alone, and its points, distinct as
/// members of a `HashSet`, are listed here once each. The centre must lie on the map: the
/// algorithm indexes tiles around it.
#[verifier::external_body]
fn visible_coords(map: &TileMap, position: Coord, range: i32) -> (r: Vec<Coord>)
    requires
        map.wf(),
        map.contains(position@),
        0 <= range <= 1000,
    ensures
        forall|i: int|
            0 <= i < r@.len() ==> visible_from(
                map.tiles@,
                map.width as int,
                map.height as int,
                position.x as int,
                position.y as int,
                range as int,
            ).contains(#[trigger] r@[i]@),
        forall|p: (int, int)|
            #[trigger] visible_from(
                map.tiles@,
                map.width as int,
                map.height as int,
                position.x as int,
                position.y as int,
                range as int,
            ).contains(p) ==> exists|i: int| 0 <= i < r@.len() && r@[i]@ == p,
        r@.no_duplicates(),
{
    let center = Point { x: position.x as i32, y: position.y as i32 };
    let mut r = Vec::new();
    for p in field_of_view_set(center, range, map) {
        r.push(Coord { x: p.x as isize, y: p.y as isize });
    }
    r
}

impl BaseMap for TileMap {
    fn is_opaque(&self, idx: usize) -> bool {
        idx < self.tiles.len() && self.tiles[idx] == TileType::Wall
    }
}

impl Algorithm2D for TileMap {
    /// Relies on bracket-geometry's `Point::new`, which stores both sizes as `i32`.
    #[verifier::external_body]
    fn dimensions(&self) -> Point {
        Point::new(self.width, self.height)
    }
}

} // verus!

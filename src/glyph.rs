//! How tiles and players are drawn: code page 437 glyphs for walls, chosen by which of their
//! four neighbours are walls too, and a symbol for each player.
use crate::api::{Coord, PlayerId, TileType, Unit};
use crate::map::TileMap;
use vstd::prelude::*;

verus! {

/// Whether the point `p` is outside the map or a wall: walls join towards it.
pub open spec fn walls_towards(map: TileMap, p: (int, int)) -> bool {
    !map.contains(p) || map.tile_at(p) == TileType::Wall
}

/// Which neighbours of `p` are outside the map or walls: 1 above, 2 below, 4 left, 8 right.
pub open spec fn wall_mask_of(map: TileMap, p: (int, int)) -> int {
    (if walls_towards(map, (p.0, p.1 - 1)) { 1int } else { 0 }) + (if walls_towards(map, (p.0, p.1 + 1)) {
        2int
    } else {
        0
    }) + (if walls_towards(map, (p.0 - 1, p.1)) { 4int } else { 0 }) + (if walls_towards(
        map,
        (p.0 + 1, p.1),
    ) {
        8int
    } else {
        0
    })
}

/// The code page 437 glyph of a wall whose neighbours form `mask`.
pub open spec fn wall_glyph_of(mask: int) -> u16 {
    if mask == 0 {
        10
    } else if mask <= 3 {
        186
    } else if mask == 4 || mask == 8 || mask == 12 {
        205
    } else if mask == 5 {
        188
    } else if mask == 6 {
        187
    } else if mask == 7 {
        185
    } else if mask == 9 {
        200
    } else if mask == 10 {
        201
    } else if mask == 11 {
        204
    } else if mask == 13 {
        202
    } else if mask == 14 {
        203
    } else {
        206
    }
}

/// Whether the point `(x, y)` is outside the map or a wall.
pub fn is_revealed_and_wall(map: &TileMap, x: isize, y: isize) -> (r: bool)
    requires
        map.wf(),
    ensures
        r == walls_towards(*map, (x as int, y as int)),
{
    let c = Coord::new(x, y);
    !map.in_bounds(c) || map.tile(c) == TileType::Wall
}

/// The code page 437 glyph of the wall at `(x, y)`, joined towards each neighbour that is a
/// wall or outside the map.
pub fn wall_glyph(map: &TileMap, x: isize, y: isize) -> (r: u16)
    requires
        map.wf(),
        map.contains((x as int, y as int)),
    ensures
        r == wall_glyph_of(wall_mask_of(*map, (x as int, y as int))),
{
    let mut mask: u8 = 0;
    if is_revealed_and_wall(map, x, y - 1) {
        mask += 1;
    }
    if is_revealed_and_wall(map, x, y + 1) {
        mask += 2;
    }
    if is_revealed_and_wall(map, x - 1, y) {
        mask += 4;
    }
    if is_revealed_and_wall(map, x + 1, y) {
        mask += 8;
    }
    match mask {
        0 => 10,
        1 | 2 | 3 => 186,
        4 | 8 | 12 => 205,
        5 => 188,
        6 => 187,
        7 => 185,
        9 => 200,
        10 => 201,
        11 => 204,
        13 => 202,
        14 => 203,
        _ => 206,
    }
}

/// The symbol of a player: one of four for the first four players, a heart for the others.
pub open spec fn symbol_of(player: PlayerId) -> char {
    if player.0 == 0 {
        '♦'
    } else if player.0 == 1 || player.0 == 3 {
        '♣'
    } else if player.0 == 2 {
        '¶'
    } else {
        '♥'
    }
}

/// The symbol with which the units of `player` are drawn.
pub fn player_symbol(player: PlayerId) -> (r: char)
    ensures
        r == symbol_of(player),
{
    match player.0 {
        0 => '♦',
        1 => '♣',
        2 => '¶',
        3 => '♣',
        _ => '♥',
    }
}

/// The symbol with which `unit` is drawn: that of its player.
pub fn unit_glyph(unit: &Unit) -> (r: char)
    ensures
        r == symbol_of(unit.player),
{
    player_symbol(unit.player)
}

} // verus!

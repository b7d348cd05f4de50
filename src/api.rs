//! The types that the host and the agents exchange: players, units, coordinates, directions,
//! tiles, the per-player view of the world, proposed actions and runner errors.
use rand::Rng;
use std::time::Duration;
use vstd::prelude::*;

verus! {

/// An opaque JSON document; the memory of an agent is carried as one.
#[verifier::external_type_specification]
#[verifier::external_body]
pub struct ExValue(serde_json::Value);

/// Relies on the `Clone` that serde_json derives for `Value`: the copy is the same document.
pub assume_specification[ <serde_json::Value as Clone>::clone ](v: &serde_json::Value) -> (r:
    serde_json::Value)
    ensures
        r == *v,
;

/// The memory of an agent: a serialized value that the host never inspects.
pub type PlayerMemory = serde_json::Value;

/// A `PlayerId` uniquely describes a single player.
#[derive(Debug, Clone, Copy, PartialEq, Eq, Hash, Structural)]
pub struct PlayerId(pub usize);

/// Unique identifier of a specific `Unit`: its index in the world's list of units.
#[derive(Debug, Clone, Copy, PartialEq, Eq, Hash, Structural)]
pub struct UnitId(pub usize);

/// A direction in which a unit can move.
#[derive(Debug, Clone, Copy, PartialEq, Eq, Hash, Structural)]
pub enum Direction {
    Left,
    Right,
    Up,
    Down,
}

/// The displacement of one step in direction `d`.
pub open spec fn delta(d: Direction) -> (int, int) {
    match d {
        Direction::Left => (-1, 0),
        Direction::Right => (1, 0),
        Direction::Up => (0, -1),
        Direction::Down => (0, 1),
    }
}

/// The point one step from `p` in direction `d`.
pub open spec fn translate(p: (int, int), d: Direction) -> (int, int) {
    (p.0 + delta(d).0, p.1 + delta(d).1)
}

/// Whether both components of `p` fit in an `isize`.
pub open spec fn fits_isize(p: (int, int)) -> bool {
    isize::MIN <= p.0 <= isize::MAX && isize::MIN <= p.1 <= isize::MAX
}

/// The direction that undoes a step in direction `d`.
pub open spec fn opposite_of(d: Direction) -> Direction {
    match d {
        Direction::Left => Direction::Right,
        Direction::Right => Direction::Left,
        Direction::Up => Direction::Down,
        Direction::Down => Direction::Up,
    }
}

/// The direction that a roll `n` of a four-sided die selects.
pub open spec fn direction_of_roll(n: usize) -> Direction {
    if n == 0 {
        Direction::Left
    } else if n == 1 {
        Direction::Right
    } else if n == 2 {
        Direction::Up
    } else {
        Direction::Down
    }
}

/// Relies on rand's `thread_rng` and `Rng::gen_range(0, n)`, which draws uniformly from
/// `0..n` and panics on an empty range.
#[verifier::external_body]
pub(crate) fn roll_below(n: usize) -> (r: usize)
    requires
        n > 0,
    ensures
        r < n,
{
    rand::thread_rng().gen_range(0, n)
}

impl Direction {
    /// Returns the direction that undoes a step in this direction.
    pub fn opposite(self) -> (r: Direction)
        ensures
            r == opposite_of(self),
    {
        match self {
            Direction::Left => Direction::Right,
            Direction::Right => Direction::Left,
            Direction::Up => Direction::Down,
            Direction::Down => Direction::Up,
        }
    }

    /// Returns the direction that the roll `n` of a four-sided die selects.
    pub fn from_roll(n: usize) -> (r: Direction)
        ensures
            r == direction_of_roll(n),
    {
        if n == 0 {
            Direction::Left
        } else if n == 1 {
            Direction::Right
        } else if n == 2 {
            Direction::Up
        } else {
            Direction::Down
        }
    }

    /// Returns a uniformly drawn direction.
    pub fn random() -> (r: Direction)
        ensures
            exists|n: usize| n < 4 && r == direction_of_roll(n),
    {
        let n = roll_below(4);
        Direction::from_roll(n)
    }

    /// Returns all directions.
    pub fn all_directions() -> (r: Vec<Direction>)
        ensures
            r@ == seq![Direction::Up, Direction::Down, Direction::Left, Direction::Right],
    {
        let mut v: Vec<Direction> = Vec::new();
        v.push(Direction::Up);
        v.push(Direction::Down);
        v.push(Direction::Left);
        v.push(Direction::Right);
        v
    }
}

/// A coordinate in the world.
#[derive(Debug, Clone, Copy, PartialEq, Eq, Hash, Structural)]
pub struct Coord {
    pub x: isize,
    pub y: isize,
}

impl View for Coord {
    type V = (int, int);

    open spec fn view(&self) -> (int, int) {
        (self.x as int, self.y as int)
    }
}

impl Coord {
    /// Constructs a new `Coord` from its components.
    pub fn new(x: isize, y: isize) -> (r: Coord)
        ensures
            r.x == x,
            r.y == y,
    {
        Coord { x, y }
    }

    /// The coordinate one step away in direction `d`, or `None` where it does not fit in an
    /// `isize`.
    pub fn step(self, d: Direction) -> (r: Option<Coord>)
        ensures
            r matches Some(c) ==> c@ == translate(self@, d),
            r is None <==> !fits_isize(translate(self@, d)),
    {
        match d {
            Direction::Left => if self.x > isize::MIN {
                Some(Coord::new(self.x - 1, self.y))
            } else {
                None
            },
            Direction::Right => if self.x < isize::MAX {
                Some(Coord::new(self.x + 1, self.y))
            } else {
                None
            },
            Direction::Up => if self.y > isize::MIN {
                Some(Coord::new(self.x, self.y - 1))
            } else {
                None
            },
            Direction::Down => if self.y < isize::MAX {
                Some(Coord::new(self.x, self.y + 1))
            } else {
                None
            },
        }
    }
}

impl From<(isize, isize)> for Coord {
    fn from(tup: (isize, isize)) -> (r: Coord) {
        Coord::new(tup.0, tup.1)
    }
}

impl vstd::std_specs::convert::FromSpecImpl<(isize, isize)> for Coord {
    open spec fn obeys_from_spec() -> bool {
        true
    }

    open spec fn from_spec(v: (isize, isize)) -> Coord {
        Coord { x: v.0, y: v.1 }
    }
}

impl From<Direction> for Coord {
    fn from(dir: Direction) -> (r: Coord) {
        match dir {
            Direction::Left => Coord::new(-1, 0),
            Direction::Right => Coord::new(1, 0),
            Direction::Up => Coord::new(0, -1),
            Direction::Down => Coord::new(0, 1),
        }
    }
}

impl vstd::std_specs::convert::FromSpecImpl<Direction> for Coord {
    open spec fn obeys_from_spec() -> bool {
        true
    }

    open spec fn from_spec(v: Direction) -> Coord {
        Coord { x: delta(v).0 as isize, y: delta(v).1 as isize }
    }
}

impl std::ops::Add<Direction> for Coord {
    type Output = Coord;

    fn add(self, rhs: Direction) -> (r: Coord) {
        match rhs {
            Direction::Left => Coord::new(self.x - 1, self.y),
            Direction::Right => Coord::new(self.x + 1, self.y),
            Direction::Up => Coord::new(self.x, self.y - 1),
            Direction::Down => Coord::new(self.x, self.y + 1),
        }
    }
}

impl vstd::std_specs::ops::AddSpecImpl<Direction> for Coord {
    open spec fn obeys_add_spec() -> bool {
        true
    }

    open spec fn add_req(self, rhs: Direction) -> bool {
        fits_isize(translate(self@, rhs))
    }

    open spec fn add_spec(self, rhs: Direction) -> Coord {
        Coord { x: translate(self@, rhs).0 as isize, y: translate(self@, rhs).1 as isize }
    }
}

/// Stepping in a direction and then in the opposite direction returns to the starting point;
/// where the first step fits in an `isize`, so does the second, and `+` returns the start.
pub proof fn lemma_opposite_returns(c: Coord, d: Direction)
    ensures
        translate(translate(c@, d), opposite_of(d)) == c@,
        fits_isize(translate(c@, d)) ==> fits_isize(translate(translate(c@, d), opposite_of(d))),
        fits_isize(translate(c@, d)) ==> ({
            let n = Coord { x: translate(c@, d).0 as isize, y: translate(c@, d).1 as isize };
            n@ == translate(c@, d) && translate(n@, opposite_of(d)) == c@
        }),
{
}

/// The type of a single tile in the world.
#[derive(Debug, Clone, Copy, PartialEq, Eq, Hash, Structural)]
pub enum TileType {
    Wall,
    Floor,
    Exit,
}

impl TileType {
    /// Whether a unit may stand on this kind of tile.
    pub open spec fn enterable(self) -> bool {
        self is Floor || self is Exit
    }

    /// Returns true if this is a type of tile that can be entered.
    pub fn can_enter(self) -> (r: bool)
        ensures
            r == self.enterable(),
            r <==> self != TileType::Wall,
    {
        match self {
            TileType::Wall => false,
            TileType::Floor => true,
            TileType::Exit => true,
        }
    }
}

/// An index into the tiles of a map.
#[derive(Debug, Clone, Copy, PartialEq, Eq, Hash, Structural)]
pub struct MapCoord(pub usize);

/// A `Unit` is a single unit in the world.
#[derive(Debug, Clone, Copy, PartialEq, Eq, Hash, Structural)]
pub struct Unit {
    pub id: UnitId,
    pub player: PlayerId,
    pub location: Coord,
}

/// Represents a tile visible to a specific player.
#[derive(Debug, Clone, Copy, PartialEq, Eq, Hash, Structural)]
pub struct PlayerTile {
    pub coord: Coord,
    pub tile_type: TileType,
}

/// The visible parts of a world for a specific player.
#[derive(Debug, Clone)]
pub struct PlayerWorld {
    pub units: Vec<Unit>,
    pub tiles: Vec<PlayerTile>,
}

/// An action in the world as ordered by a specific player. It is untrusted: the unit may
/// belong to another player, or not exist.
#[derive(Debug, Clone, Copy, PartialEq, Eq, Hash, Structural)]
pub enum PlayerAction {
    Move { unit: UnitId, direction: Direction },
}

/// The ways in which running an agent for one turn can fail.
#[derive(Debug)]
pub enum RunnerError {
    /// An unexpected internal fault, such as a trap in a sandboxed module.
    InternalError,
    /// The program or sandbox could not be set up.
    InitError(String),
    /// The program's output ended before it returned any data.
    NoData,
    /// A transport-level failure.
    IO(String),
    /// The program took too long, past the given time limit.
    Timeout(Duration),
    /// The program returned data that could not be read as an output.
    DataError(String),
}

/// The input for one turn of an agent.
#[derive(Debug)]
pub struct PlayerInput {
    pub player_id: PlayerId,
    pub turn: usize,
    pub world: PlayerWorld,
    pub memory: PlayerMemory,
}

/// The output of one turn of an agent.
#[derive(Debug)]
pub struct PlayerOutput {
    pub actions: Vec<PlayerAction>,
    pub memory: PlayerMemory,
}

} // verus!

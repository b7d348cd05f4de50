//! A host engine for rounds of a multi-agent simulation: the world and its maps, the private
//! view of each player, the validation and application of proposed actions, the commit of a
//! round, the line protocol spoken with agent programs, and the making of maps.
pub mod api;
pub mod battle;
pub mod builders;
pub mod glyph;
pub mod map;
pub mod maze;
pub mod protocol;
pub mod round;
pub mod runner_desc;
mod text;
pub mod world;

pub use api::{
    Coord, Direction, MapCoord, PlayerAction, PlayerId, PlayerInput, PlayerMemory, PlayerOutput,
    PlayerTile, PlayerWorld, RunnerError, TileType, Unit, UnitId,
};
pub use battle::{winner, Battle};
pub use map::TileMap;
pub use round::{GameState, Player};
pub use runner_desc::{RunnerDesc, RunnerDescError};
pub use world::{validate_action, Action, ActionValidationError, World};

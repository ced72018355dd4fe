//! A grid-based snake game engine: a deterministic tick-based simulation
//! that advances the snake, detects wall and self collisions, buffers
//! steering input, spawns apples, and tracks scores.

pub mod apples;
pub mod body;
pub mod collision;
pub mod engine;
pub mod grid;
pub mod history;
mod random;
pub mod steering;

pub use collision::CollisionKind;
pub use engine::Snake;
pub use engine::State;
pub use engine::TickOutcome;
pub use grid::Direction;
pub use grid::Grid;
pub use grid::Pos;

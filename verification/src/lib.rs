//! Simulation core of a grid-based snake game.
//!
//! The library tracks the snake's body as an ordered chain of grid cells,
//! advances it once per discrete tick according to a player-controlled
//! heading, detects wall and self collision, places food deterministically
//! from a random starting candidate, and grows the chain when food is eaten.
//! Rendering, input devices and scheduling are left to the surrounding
//! program; the core only consumes an optional heading per tick and produces
//! grid coordinates and transient events.

pub mod chain;
pub mod food;
pub mod grid;
pub mod heading;
pub mod session;

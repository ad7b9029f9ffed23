//! The movement, growth and collision rules of a snake game played on a
//! toroidal grid.
//!
//! The crate owns the positions of the head, of the body segments and of the
//! orb, and says how they change on each simulation tick and on each input
//! pass. Drawing, windows and key capture belong to the host program.

pub mod direction;
pub mod game;
pub mod grid;
mod random;
pub mod snake;

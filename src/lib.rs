//! Verified building blocks of a chain-of-rods pendulum simulation: the
//! validation of a chain description, the packed layout of its state, mouse
//! input tracking, and the index structure of the meshes it draws.

pub mod grid;
pub mod layout;
pub mod obj;
pub mod segments;
pub mod user_input;

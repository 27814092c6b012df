//! What the operations of the library promise of all inputs, told by their inputs
//! and results alone: with literal characters, bytes, numbers and texts, and as
//! relations between calls.

pub mod frame;
pub mod hosts;
pub mod message;
pub mod names;
pub mod net;
pub mod peers;
pub mod size;
pub mod text;
pub mod window;

//! The checks that the graphics subsystem makes on its data before it hands
//! them to the graphics card.

pub mod buffer;
pub mod texture;

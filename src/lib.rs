//! A small terminal text editor: the buffer state machine, the key mapping
//! and the projection of the buffer into terminal draw operations.

pub mod document;
pub mod command;
pub mod model;
pub mod render;
pub mod laws;

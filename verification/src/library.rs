//! What every frame is given from outside: the commands and the screen.

pub mod commands;
pub mod globalcomponents;

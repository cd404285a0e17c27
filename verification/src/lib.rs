//! Simulation core of a small 2D entity-component game.
//!
//! Entities own components; systems change the components of all entities that match
//! them, one pass per frame and in a fixed order; entities come and go only through a
//! queue that is applied at the end of the frame. Every step is stated as a function
//! of the state before it and proved to compute that function.
//!
//! - `geometry`: points and rectangles.
//! - `entities`: the components, and the packing of a velocity into one word.
//! - `library`: the commands and the screen that a frame is given.
//! - `world`: the entities and the queue of changes.
//! - `systems`: keyboard, gravity, collision, physics, damage, decay, action, and what
//!   the mouse and the renderer need computed.
//! - `frame`: the systems in their order.
//! - `spriteengine`: a walking character and its animation frames.
//! - `gameoflife`: a cellular automaton on a fixed grid, apart from all the rest.

pub mod entities;
pub mod frame;
pub mod gameoflife;
pub mod geometry;
pub mod library;
pub mod spriteengine;
pub mod systems;
pub mod world;

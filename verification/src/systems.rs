//! The systems: each is one pass over the entities that own the components it needs.
//!
//! Within a frame they run in the order keyboard, gravity, collision, physics, damage,
//! decay, action. Every system offers the step for one entity and the pass over a world.

pub mod collisionsys;
pub mod decaysys;
pub mod gravitysys;
pub mod keyboard;
pub mod physics;
pub mod actionsys;
pub mod damagesys;
pub mod mousesys;
pub mod renderer;

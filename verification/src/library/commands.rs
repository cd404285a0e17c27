//! The commands that input turns into, at most one of each per frame.

use crate::entities::entity_components::Direction;
use vstd::prelude::*;

verus! {

#[derive(Debug, Copy, Clone, PartialEq, Eq, Structural)]
pub enum MovementCommand {
    Move(Direction),
}

#[derive(Debug, Copy, Clone, PartialEq, Eq, Structural)]
pub enum ActionCommand {
    Shoot(Direction),
}

} // verus!

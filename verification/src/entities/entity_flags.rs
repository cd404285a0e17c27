//! Components without data: owning one marks the entity.

use vstd::prelude::*;

verus! {

/// The entity takes movement commands.
#[derive(Debug, Copy, Clone, PartialEq, Eq, Structural)]
pub struct KeyboardControlled;

/// The entity fires on action commands.
#[derive(Debug, Copy, Clone, PartialEq, Eq, Structural)]
pub struct Player;

/// The entity is used up by the first hit it deals.
#[derive(Debug, Copy, Clone, PartialEq, Eq, Structural)]
pub struct SingleDamage;

} // verus!

//! Configuration that every frame shares.

use vstd::prelude::*;

verus! {

pub struct ScreenInfo {
    pub screen_size: ScreenSize,
}

#[derive(Debug, Copy, Clone, PartialEq, Eq, Structural)]
pub enum ScreenSize {
    Size { width: u32, height: u32 },
}

} // verus!

//! The two views of the program.
use vstd::prelude::*;

pub mod actions;
pub mod monitor;
pub mod names;
pub mod upscale;

verus! {

/// Which view is active.
#[derive(Clone, Copy, Debug, PartialEq, Eq, Structural)]
pub enum ViewMode {
    Monitor,
    Upscale,
}

impl Default for ViewMode {
    fn default() -> (r: Self)
        ensures
            r == ViewMode::Monitor,
    {
        ViewMode::Monitor
    }
}

} // verus!

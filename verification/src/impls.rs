//! Layout-pass configuration.

use vstd::prelude::*;

verus! {

/// Configuration for a layout pass over one tree: whether the geometry
/// committed by the solver is snapped to whole pixels afterwards.
#[derive(Debug, Clone, Copy, PartialEq, Eq, Structural)]
pub struct TaffyConfig {
    pub use_rounding: bool,
}

impl Default for TaffyConfig {
    /// Rounding is applied unless it is switched off.
    fn default() -> (c: Self)
        ensures
            c.use_rounding,
    {
        Self { use_rounding: true }
    }
}

impl crate::traits::TaffyConfig for TaffyConfig {
    /// Whether the rounding pass runs after the solve.
    fn use_rounding(&self) -> (r: bool)
        ensures
            r == self.use_rounding,
    {
        self.use_rounding
    }
}

impl TaffyConfig {
    /// A fresh configuration, with rounding applied.
    pub fn new() -> (c: Self)
        ensures
            c.use_rounding,
    {
        Self { use_rounding: true }
    }

    /// The same configuration with rounding set as given.
    pub fn with_rounding(self, use_rounding: bool) -> (c: Self)
        ensures
            c.use_rounding == use_rounding,
    {
        Self { use_rounding }
    }

    /// Switch the rounding pass on.
    pub fn enable_rounding(&mut self)
        ensures
            final(self).use_rounding,
    {
        self.use_rounding = true;
    }

    /// Switch the rounding pass off.
    pub fn disable_rounding(&mut self)
        ensures
            !final(self).use_rounding,
    {
        self.use_rounding = false;
    }
}

} // verus!

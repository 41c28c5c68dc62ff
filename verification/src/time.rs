//! Units of time and the clock description that the delay providers consume.

use vstd::prelude::*;

verus! {

/// A frequency in hertz.
#[derive(Clone, Copy, PartialEq, Eq, Structural)]
pub struct Hertz(pub u32);

/// The clock configuration a provider is built against: the single
/// authoritative core clock frequency, fixed for the provider's lifetime.
#[derive(Clone, Copy, PartialEq, Eq, Structural)]
pub struct Clocks {
    /// Core (system) clock frequency in Hz. Invariant: nonzero.
    pub sysclk: Hertz,
}

impl Clocks {
    /// A clock description is well formed when the core clock is nonzero.
    pub open spec fn wf(self) -> bool {
        self.sysclk.0 > 0
    }
}

} // verus!

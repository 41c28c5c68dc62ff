//! Blocking delay providers for a microcontroller: a cycle-counter provider
//! driven by the core clock, and a provider built on an externally supplied
//! countdown timer channel.

pub mod countdown;
pub mod delay;
pub mod ticks;
pub mod time;

use vstd::prelude::*;

verus! {

} // verus!

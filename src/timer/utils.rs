//! Timing a piece of work.
use vstd::prelude::*;

use crate::timer::{clock_now, time_since};
use std::time::Duration;

verus! {

/// Runs `f` once and measures how long it took.
pub fn measure_time<F, R>(f: F) -> (r: (R, Duration)) where F: FnOnce() -> R
    requires
        f.requires(()),
    ensures
        f.ensures((), r.0),
{
    let start = clock_now();
    let result = f();
    let elapsed = time_since(&start);
    (result, elapsed)
}

} // verus!

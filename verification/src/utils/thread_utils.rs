//! Thread placement: choosing the core a worker is pinned to. The pinning
//! call itself is an opaque, best-effort operating-system request.

use vstd::prelude::*;

verus! {

/// The core a worker with the given id is pinned to, cycling through the
/// configured range.
pub open spec fn spec_core_for(id: int, range_start: int, range_end: int) -> int {
    range_start + id % (range_end - range_start)
}

/// The number of bits in the C library's cpu set (its `CPU_SETSIZE`).
/// `CPU_SET` writes into the set with no bound check of its own, so a core
/// index must stay below this.
pub const CPU_SET_BITS: usize = 1024;

/// Relies on affinity::set_thread_affinity: asks the operating system to
/// pin the calling thread to one core. Best effort; only success or
/// failure is observable, and nothing is promised of either. The core
/// index must fit the C library's cpu set: `CPU_SET` indexes the set's
/// words without a bound check.
#[verifier::external_body]
fn set_thread_affinity_single(core: usize) -> (r: bool)
    requires
        core < CPU_SET_BITS,
{
    affinity::set_thread_affinity([core]).is_ok()
}

/// Pins the calling thread to a core chosen from the half-open range
/// `[range_start, range_end)` by the worker id, as a best-effort advisory
/// request. A chosen core beyond the cpu set's capacity is left unpinned:
/// the pin is advisory, and no such core exists to pin to anyway.
pub fn pin_current_thread_to_cpu(id: usize, range_start: usize, range_end: usize) -> (r: usize)
    requires
        range_start < range_end,
    ensures
        r as int == spec_core_for(id as int, range_start as int, range_end as int),
        range_start <= r < range_end,
{
    let width = range_end - range_start;
    let core = range_start + id % width;
    if core < CPU_SET_BITS {
        let _ = set_thread_affinity_single(core);
    }
    core
}

/// Worker counts requested on the command line are clamped to half the
/// machine's parallelism, and at least one.
pub open spec fn spec_clamped_count(requested: int, available: int) -> int {
    let half = if available / 2 >= 1 {
        available / 2
    } else {
        1
    };
    if requested <= half {
        requested
    } else {
        half
    }
}

/// Clamps a requested worker count to half the available parallelism, with
/// a floor of one.
pub fn clamp_worker_count(requested: usize, available_parallelism: usize) -> (r: usize)
    ensures
        r as int == spec_clamped_count(requested as int, available_parallelism as int),
{
    let half_raw = available_parallelism / 2;
    let half: usize = if half_raw >= 1 {
        half_raw
    } else {
        1
    };
    if requested <= half {
        requested
    } else {
        half
    }
}

} // verus!

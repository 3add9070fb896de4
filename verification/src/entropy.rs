//! The entropy seeding step.
//!
//! Boot asks an injected platform source for a fixed number of bytes and
//! writes them into the kernel's randomness pool. The source is retried a
//! bounded number of times; when every attempt fails, the step downgrades
//! to an explicit warning and boot continues with degraded guarantees —
//! the failure is security-relevant and must never be swallowed silently.
//! An attempt's outcome is the number of bytes actually seeded, or `None`
//! when the source (or the pool write) failed.

use vstd::prelude::*;

verus! {

/// The number of entropy bytes a boot canonically requests from the
/// platform source.
pub const ENTROPY_REQUEST_BYTES: usize = 4096;

/// How many times the platform source is asked before the seeder
/// downgrades to a warning.
pub const ENTROPY_RETRY_ATTEMPTS: usize = 3;

/// What the entropy step reports back to the sequencer.
pub struct SeedReport {
    /// The number of bytes actually seeded, or `None` when every attempt
    /// failed and the boot carries a warning instead.
    pub seeded: Option<usize>,
    /// How many attempts were made.
    pub attempts_used: usize,
}

impl SeedReport {
    /// Whether the step ended in the explicit security warning.
    pub open spec fn warned(&self) -> bool {
        self.seeded is None
    }
}

/// How many attempts the seeder may consume from a source that can
/// answer at most `available` times: the retry bound, or everything the
/// source has when that is less.
pub open spec fn attempt_window(available: int) -> int {
    if available < ENTROPY_RETRY_ATTEMPTS as int {
        available
    } else {
        ENTROPY_RETRY_ATTEMPTS as int
    }
}

/// What a finished seeding step against the per-attempt outcomes
/// `attempts` reports: the first success within the retry window gives
/// the seeded byte count; a window without success gives the warning.
pub open spec fn seed_report_matches(attempts: Seq<Option<usize>>, r: SeedReport) -> bool {
    &&& r.attempts_used <= attempt_window(attempts.len() as int)
    &&& forall|j: int| 0 <= j < r.attempts_used - 1 ==> (#[trigger] attempts[j]) is None
    &&& (r.seeded is Some ==> r.attempts_used >= 1 && attempts[r.attempts_used - 1] == r.seeded)
    &&& (r.seeded is None ==> r.attempts_used == attempt_window(attempts.len() as int) && (forall|
        j: int,
    |
        0 <= j < r.attempts_used ==> (#[trigger] attempts[j]) is None))
}

/// Runs the seeding step against a source whose per-attempt outcomes are
/// `attempts`: the attempts are consumed in order until one succeeds or
/// the retry bound is spent; the first success is reported as the number
/// of bytes seeded, and a run without success is reported as a warning.
pub fn seed_with_attempts(attempts: &Vec<Option<usize>>) -> (r: SeedReport)
    ensures
        seed_report_matches(attempts@, r),
{
    let mut i: usize = 0;
    loop
        invariant
            i <= attempt_window(attempts@.len() as int),
            forall|j: int| 0 <= j < i ==> (#[trigger] attempts@[j]) is None,
        decreases attempt_window(attempts@.len() as int) - i,
    {
        if i >= ENTROPY_RETRY_ATTEMPTS || i >= attempts.len() {
            return SeedReport { seeded: None, attempts_used: i };
        }
        match attempts[i] {
            Some(n) => {
                return SeedReport { seeded: Some(n), attempts_used: i + 1 };
            },
            None => {
                i += 1;
            },
        }
    }
}

} // verus!

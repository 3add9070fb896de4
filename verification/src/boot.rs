//! The boot sequencer.
//!
//! The fixed order is: apply the mount plan, bind the console, run the
//! platform initialisation, seed entropy, then start the workload service
//! and supervise the bridge child concurrently, and finally choose a
//! terminal action. Failures carry an explicit severity instead of
//! aborting the process: a critical mount failure (or, when policy says
//! so, a platform-initialisation failure) is fatal and boots no further;
//! a console or entropy failure is recoverable — the entropy failure is
//! security-relevant and surfaces as an explicit warning, never silently.
//! Because nobody is at a keyboard, the sequencer never falls off the
//! end: it always names a terminal action.

use crate::console::{console_table, diagnostics_observable};
use crate::entropy::{seed_report_matches, seed_with_attempts, SeedReport};
use crate::mounts::{
    apply_mounts, canonical_table, mount_run_matches, views_of, MountRun, MountSpec,
};
use vstd::prelude::*;

verus! {

/// What the machine does once the boot sequence is over.
#[derive(Clone, Copy, PartialEq, Eq, Structural, Debug)]
pub enum TerminalAction {
    /// Power the machine off.
    Halt,
    /// Reboot it.
    Reboot,
    /// Stay up and do nothing further.
    Idle,
}

/// The per-boot policy for the choices the design leaves open.
#[derive(Clone, Copy, PartialEq, Eq, Structural, Debug)]
pub struct BootPolicy {
    /// Whether a platform-initialisation failure is fatal.
    pub platform_critical: bool,
    /// The terminal action after a fatal failure: the distinguishable
    /// signal that aborts the boot.
    pub on_fatal: TerminalAction,
    /// The terminal action once the supervised child has exited and its
    /// streams are drained.
    pub on_exit: TerminalAction,
}

/// The standing policy: platform-initialisation failures are tolerated,
/// and the machine reboots both on a fatal failure and after the
/// supervised child is done.
pub fn standard_policy() -> (p: BootPolicy)
    ensures
        p == (BootPolicy {
            platform_critical: false,
            on_fatal: TerminalAction::Reboot,
            on_exit: TerminalAction::Reboot,
        }),
{
    BootPolicy {
        platform_critical: false,
        on_fatal: TerminalAction::Reboot,
        on_exit: TerminalAction::Reboot,
    }
}

/// Everything the synchronous part of a boot reports.
pub struct BootReport {
    /// The mount step: per-entry records and the abort flag.
    pub mounts: MountRun,
    /// Whether diagnostic output is observable after the console step.
    pub diagnostics_observable: bool,
    /// Whether the platform initialisation succeeded.
    pub platform_ok: bool,
    /// The entropy step: seeded byte count, or the explicit warning.
    pub entropy: SeedReport,
    /// Whether the boot is aborted with the fatal signal instead of
    /// proceeding to supervision.
    pub fatal: bool,
}

/// Runs the decisions of the synchronous boot sequence against the
/// backends' outcomes, in the fixed order: the mount plan entry by entry,
/// the console bindings, the platform initialisation, and the
/// bounded-retry entropy seeding. The sequencer is configurable in the
/// plan it applies; a canonical boot hands it the canonical plan. Exactly
/// a critical mount failure — or a platform failure under a policy that
/// makes it critical — is fatal; a console or entropy failure never is,
/// so boot proceeds with the entropy warning rather than stopping.
pub fn evaluate_boot(
    policy: &BootPolicy,
    plan: Vec<MountSpec>,
    mount_outcomes: &Vec<bool>,
    console_outcomes: &Vec<bool>,
    platform_ok: bool,
    entropy_attempts: &Vec<Option<usize>>,
) -> (r: BootReport)
    requires
        mount_outcomes@.len() == plan@.len(),
        console_outcomes@.len() == console_table().len(),
    ensures
        mount_run_matches(views_of(plan@), mount_outcomes@, r.mounts),
        r.diagnostics_observable == (console_outcomes@[1] && console_outcomes@[2]),
        r.platform_ok == platform_ok,
        seed_report_matches(entropy_attempts@, r.entropy),
        r.fatal == (r.mounts.aborted || (policy.platform_critical && !platform_ok)),
{
    let mounts = apply_mounts(plan, mount_outcomes);
    let diag = diagnostics_observable(console_outcomes);
    let entropy = seed_with_attempts(entropy_attempts);
    let fatal = is_fatal_boot(policy, mounts.aborted, platform_ok);
    BootReport { mounts, diagnostics_observable: diag, platform_ok, entropy, fatal }
}

/// Whether the boot is aborted: exactly a critical mount failure, or a
/// platform-initialisation failure under a policy that makes it critical.
/// A console or entropy failure never is.
pub fn is_fatal_boot(policy: &BootPolicy, mount_aborted: bool, platform_ok: bool) -> (r: bool)
    ensures
        r == (mount_aborted || (policy.platform_critical && !platform_ok)),
{
    mount_aborted || (policy.platform_critical && !platform_ok)
}

/// The terminal action a finished boot selects: the fatal signal's action
/// when the boot was aborted, otherwise the normal after-exit action.
pub fn choose_terminal(policy: &BootPolicy, fatal: bool) -> (a: TerminalAction)
    ensures
        a == if fatal {
            policy.on_fatal
        } else {
            policy.on_exit
        },
{
    if fatal {
        policy.on_fatal
    } else {
        policy.on_exit
    }
}

/// A boot against a recording mount backend — one that accepts every
/// request — makes exactly the canonical ordered call list: all nine
/// entries, first to last, the intentional duplicate first entry
/// included, and is not aborted.
pub proof fn lemma_recorded_calls_are_canonical(outcomes: Seq<bool>, r: MountRun)
    requires
        outcomes.len() == canonical_table().len(),
        mount_run_matches(canonical_table(), outcomes, r),
        forall|i: int| 0 <= i < outcomes.len() ==> outcomes[i],
    ensures
        !r.aborted,
        r.records@.len() == canonical_table().len(),
        forall|i: int|
            0 <= i < r.records@.len() ==> (#[trigger] r.records@[i]).entry@
                == canonical_table()[i],
        r.records@[0].entry@ == r.records@[1].entry@,
{
    crate::mounts::lemma_duplicate_mount_tolerated(outcomes, r);
}

} // verus!

//! The ordered mount plan and its sequencer.
//!
//! A boot applies a fixed, ordered list of mounts. Each entry carries a
//! severity: a best-effort entry may fail without consequence (a target
//! such as the device filesystem may already exist in the kernel-provided
//! initial environment, which is why the plan deliberately repeats its
//! first entry), while a critical entry that fails aborts the remaining
//! plan with a fatal signal. The [`Mounter`] state machine hands out one
//! request at a time and records each outcome; [`apply_mounts`] drives it
//! over a full outcome list.

use crate::flags::{NO_DSE, NO_SE};
use vstd::prelude::*;

verus! {

/// How a failure of one mount entry is treated.
#[derive(Clone, Copy, PartialEq, Eq, Structural, Debug)]
pub enum Severity {
    /// Failure is logged and the plan continues.
    BestEffort,
    /// Failure aborts the remaining plan with a fatal signal.
    Critical,
}

/// One entry of the ordered mount plan.
#[derive(Clone, Copy, Debug)]
pub struct MountSpec {
    /// Source device or filesystem name.
    pub source: &'static str,
    /// Target path the filesystem is mounted on.
    pub target: &'static str,
    /// Filesystem type.
    pub fstype: &'static str,
    /// Restriction flag bitmask (no-dev / no-suid / no-exec combinations).
    pub flags: u64,
    /// Filesystem-specific option string.
    pub data: &'static str,
    /// How a failure of this entry is treated.
    pub severity: Severity,
}

/// The mathematical value of a [`MountSpec`].
pub ghost struct MountSpecV {
    pub source: Seq<char>,
    pub target: Seq<char>,
    pub fstype: Seq<char>,
    pub flags: u64,
    pub data: Seq<char>,
    pub severity: Severity,
}

impl View for MountSpec {
    type V = MountSpecV;

    open spec fn view(&self) -> MountSpecV {
        MountSpecV {
            source: self.source@,
            target: self.target@,
            fstype: self.fstype@,
            flags: self.flags,
            data: self.data@,
            severity: self.severity,
        }
    }
}

/// The canonical nine-entry mount table, duplicate first entry included.
pub open spec fn canonical_table() -> Seq<MountSpecV> {
    seq![
        MountSpecV {
            source: "devtmpfs"@,
            target: "/dev"@,
            fstype: "devtmpfs"@,
            flags: NO_SE,
            data: "mode=0755"@,
            severity: Severity::BestEffort,
        },
        MountSpecV {
            source: "devtmpfs"@,
            target: "/dev"@,
            fstype: "devtmpfs"@,
            flags: NO_SE,
            data: "mode=0755"@,
            severity: Severity::BestEffort,
        },
        MountSpecV {
            source: "devpts"@,
            target: "/dev/pts"@,
            fstype: "devpts"@,
            flags: NO_SE,
            data: ""@,
            severity: Severity::BestEffort,
        },
        MountSpecV {
            source: "shm"@,
            target: "/dev/shm"@,
            fstype: "tmpfs"@,
            flags: NO_DSE,
            data: "mode=0755"@,
            severity: Severity::BestEffort,
        },
        MountSpecV {
            source: "proc"@,
            target: "/proc"@,
            fstype: "proc"@,
            flags: NO_DSE,
            data: "hidepid=2"@,
            severity: Severity::Critical,
        },
        MountSpecV {
            source: "tmpfs"@,
            target: "/run"@,
            fstype: "tmpfs"@,
            flags: NO_DSE,
            data: "mode=0755"@,
            severity: Severity::BestEffort,
        },
        MountSpecV {
            source: "tmpfs"@,
            target: "/tmp"@,
            fstype: "tmpfs"@,
            flags: NO_DSE,
            data: ""@,
            severity: Severity::BestEffort,
        },
        MountSpecV {
            source: "sysfs"@,
            target: "/sys"@,
            fstype: "sysfs"@,
            flags: NO_DSE,
            data: ""@,
            severity: Severity::BestEffort,
        },
        MountSpecV {
            source: "cgroup_root"@,
            target: "/sys/fs/cgroup"@,
            fstype: "tmpfs"@,
            flags: NO_DSE,
            data: "mode=0755"@,
            severity: Severity::BestEffort,
        },
    ]
}

/// Builds the canonical mount plan, entry for entry equal to
/// [`canonical_table`].
pub fn canonical_plan() -> (plan: Vec<MountSpec>)
    ensures
        plan@.len() == canonical_table().len(),
        forall|i: int| 0 <= i < plan@.len() ==> plan@[i]@ == canonical_table()[i],
{
    let plan: Vec<MountSpec> = vec![
        MountSpec {
            source: "devtmpfs",
            target: "/dev",
            fstype: "devtmpfs",
            flags: NO_SE,
            data: "mode=0755",
            severity: Severity::BestEffort,
        },
        MountSpec {
            source: "devtmpfs",
            target: "/dev",
            fstype: "devtmpfs",
            flags: NO_SE,
            data: "mode=0755",
            severity: Severity::BestEffort,
        },
        MountSpec {
            source: "devpts",
            target: "/dev/pts",
            fstype: "devpts",
            flags: NO_SE,
            data: "",
            severity: Severity::BestEffort,
        },
        MountSpec {
            source: "shm",
            target: "/dev/shm",
            fstype: "tmpfs",
            flags: NO_DSE,
            data: "mode=0755",
            severity: Severity::BestEffort,
        },
        MountSpec {
            source: "proc",
            target: "/proc",
            fstype: "proc",
            flags: NO_DSE,
            data: "hidepid=2",
            severity: Severity::Critical,
        },
        MountSpec {
            source: "tmpfs",
            target: "/run",
            fstype: "tmpfs",
            flags: NO_DSE,
            data: "mode=0755",
            severity: Severity::BestEffort,
        },
        MountSpec {
            source: "tmpfs",
            target: "/tmp",
            fstype: "tmpfs",
            flags: NO_DSE,
            data: "",
            severity: Severity::BestEffort,
        },
        MountSpec {
            source: "sysfs",
            target: "/sys",
            fstype: "sysfs",
            flags: NO_DSE,
            data: "",
            severity: Severity::BestEffort,
        },
        MountSpec {
            source: "cgroup_root",
            target: "/sys/fs/cgroup",
            fstype: "tmpfs",
            flags: NO_DSE,
            data: "mode=0755",
            severity: Severity::BestEffort,
        },
    ];
    plan
}

/// Whether the outcome `ok` of the entry `m` aborts the remaining plan.
pub open spec fn is_fatal(m: MountSpecV, ok: bool) -> bool {
    m.severity == Severity::Critical && !ok
}

/// One recorded mount attempt: the entry that was requested and whether
/// the backend reported success.
#[derive(Clone, Copy, Debug)]
pub struct MountRecord {
    pub entry: MountSpec,
    pub ok: bool,
}

/// Applies the plan one entry at a time: hands out the next request,
/// takes the backend's outcome back, records it, and aborts exactly when
/// a critical entry fails.
pub struct Mounter {
    /// The ordered plan being applied.
    pub plan: Vec<MountSpec>,
    /// One record per attempted entry, in plan order.
    pub records: Vec<MountRecord>,
    /// Whether a critical entry has failed.
    pub aborted: bool,
}

impl Mounter {
    /// The records are an attempted prefix of the plan, and the machine is
    /// aborted exactly when the last recorded entry was a critical failure.
    pub open spec fn wf(&self) -> bool {
        &&& self.records@.len() <= self.plan@.len()
        &&& forall|i: int|
            0 <= i < self.records@.len() ==> (#[trigger] self.records@[i]).entry@
                == self.plan@[i]@
        &&& forall|i: int|
            0 <= i < self.records@.len() - 1 ==> !is_fatal(
                self.plan@[i]@,
                #[trigger] self.records@[i].ok,
            )
        &&& self.aborted == (self.records@.len() > 0 && is_fatal(
            self.plan@[self.records@.len() - 1]@,
            self.records@[self.records@.len() - 1].ok,
        ))
    }

    /// Whether every entry that will be attempted has been attempted.
    pub open spec fn spec_finished(&self) -> bool {
        self.aborted || self.records@.len() == self.plan@.len()
    }

    /// Starts a fresh application of `plan`: nothing attempted yet.
    pub fn new(plan: Vec<MountSpec>) -> (m: Mounter)
        ensures
            m.wf(),
            m.plan@ == plan@,
            m.records@.len() == 0,
            !m.aborted,
    {
        Mounter { plan, records: Vec::new(), aborted: false }
    }

    /// The next entry the backend should mount, or `None` when the plan is
    /// exhausted or was aborted.
    pub fn next_request(&self) -> (r: Option<MountSpec>)
        requires
            self.wf(),
        ensures
            r matches Some(m) ==> !self.spec_finished() && m@ == self.plan@[
                self.records@.len() as int
            ]@,
            r is None <==> self.spec_finished(),
    {
        if self.aborted || self.records.len() >= self.plan.len() {
            None
        } else {
            Some(self.plan[self.records.len()])
        }
    }

    /// Records the backend's outcome for the entry last handed out. The
    /// machine aborts exactly when that entry was critical and failed.
    pub fn report(&mut self, ok: bool)
        requires
            old(self).wf(),
            !old(self).spec_finished(),
        ensures
            final(self).wf(),
            final(self).plan@ == old(self).plan@,
            final(self).records@.len() == old(self).records@.len() + 1,
            forall|i: int|
                0 <= i < old(self).records@.len() ==> final(self).records@[i]
                    == old(self).records@[i],
            final(self).records@[old(self).records@.len() as int].entry@ == old(self).plan@[
                old(self).records@.len() as int
            ]@,
            final(self).records@[old(self).records@.len() as int].ok == ok,
            final(self).aborted == is_fatal(
                old(self).plan@[old(self).records@.len() as int]@,
                ok,
            ),
    {
        let idx = self.records.len();
        let entry = self.plan[idx];
        let fatal = matches!(entry.severity, Severity::Critical) && !ok;
        self.records.push(MountRecord { entry, ok });
        self.aborted = fatal;
    }

    /// Whether the application is over (plan exhausted or aborted).
    pub fn finished(&self) -> (r: bool)
        requires
            self.wf(),
        ensures
            r == self.spec_finished(),
    {
        self.aborted || self.records.len() >= self.plan.len()
    }
}

/// The result of applying a whole plan.
pub struct MountRun {
    /// One record per attempted entry, in plan order.
    pub records: Vec<MountRecord>,
    /// Whether a critical entry failed, aborting the remaining plan.
    pub aborted: bool,
}

/// The views of a plan's entries.
pub open spec fn views_of(plan: Seq<MountSpec>) -> Seq<MountSpecV> {
    plan.map_values(|m: MountSpec| m@)
}

/// What a finished application of `plan` against the backend outcomes
/// `outcomes` reports: one record per attempted entry, every entry up to
/// (and including) the first critical failure attempted, nothing after
/// it, and the abort flag raised exactly when a critical entry failed.
pub open spec fn mount_run_matches(plan: Seq<MountSpecV>, outcomes: Seq<bool>, r: MountRun) -> bool {
    &&& r.aborted == (exists|i: int|
        0 <= i < plan.len() && is_fatal(plan[i], #[trigger] outcomes[i]))
    &&& r.records@.len() <= plan.len()
    &&& forall|i: int|
        0 <= i < r.records@.len() ==> (#[trigger] r.records@[i]).entry@ == plan[i]
            && r.records@[i].ok == outcomes[i]
    &&& (!r.aborted ==> r.records@.len() == plan.len())
    &&& (r.aborted ==> r.records@.len() >= 1 && is_fatal(
        plan[r.records@.len() - 1],
        outcomes[r.records@.len() - 1],
    ))
    &&& forall|i: int|
        0 <= i < r.records@.len() - 1 ==> !is_fatal(plan[i], #[trigger] outcomes[i])
}

/// Applies `plan` against a backend whose per-entry outcomes are
/// `outcomes`: every entry up to (and including) the first critical
/// failure is attempted and recorded; nothing after it is.
pub fn apply_mounts(plan: Vec<MountSpec>, outcomes: &Vec<bool>) -> (r: MountRun)
    requires
        plan@.len() == outcomes@.len(),
    ensures
        mount_run_matches(views_of(plan@), outcomes@, r),
{
    let ghost plan_view = plan@;
    let mut m = Mounter::new(plan);
    let mut i: usize = 0;
    while i < outcomes.len() && !m.aborted
        invariant
            m.wf(),
            m.plan@ == plan_view,
            plan_view.len() == outcomes@.len(),
            i == m.records@.len(),
            forall|j: int| 0 <= j < i ==> (#[trigger] m.records@[j]).ok == outcomes@[j],
            m.aborted ==> i > 0 && is_fatal(plan_view[i - 1]@, outcomes@[i - 1]),
            forall|j: int| 0 <= j < i - 1 ==> !is_fatal(plan_view[j]@, #[trigger] outcomes@[j]),
            !m.aborted ==> forall|j: int|
                0 <= j < i ==> !is_fatal(plan_view[j]@, #[trigger] outcomes@[j]),
        decreases outcomes@.len() - i,
    {
        m.report(outcomes[i]);
        i += 1;
    }
    proof {
        if m.aborted {
            assert(is_fatal(plan_view[i - 1]@, outcomes@[i - 1]));
        } else {
            assert(i == plan_view.len());
            assert forall|j: int| 0 <= j < plan_view.len() implies !is_fatal(
                plan_view[j]@,
                #[trigger] outcomes@[j],
            ) by {}
        }
        assert forall|j: int| 0 <= j < plan_view.len() implies #[trigger] views_of(plan_view)[j]
            == plan_view[j]@ by {}
    }
    MountRun { records: m.records, aborted: m.aborted }
}

/// However the backend answers, a plan whose entries are all best-effort
/// is never aborted: the sequencer attempts every entry, first to last,
/// and records each success or failure — also with failures induced at
/// any entry, in any number.
pub proof fn lemma_best_effort_attempts_all(
    plan: Seq<MountSpecV>,
    outcomes: Seq<bool>,
    r: MountRun,
)
    requires
        plan.len() == outcomes.len(),
        mount_run_matches(plan, outcomes, r),
        forall|i: int| 0 <= i < plan.len() ==> (#[trigger] plan[i]).severity == Severity::BestEffort,
    ensures
        !r.aborted,
        r.records@.len() == plan.len(),
        forall|i: int|
            0 <= i < plan.len() ==> (#[trigger] r.records@[i]).entry@ == plan[i]
                && r.records@[i].ok == outcomes[i],
{
    assert forall|i: int| 0 <= i < plan.len() implies !is_fatal(plan[i], #[trigger] outcomes[i]) by {}
}

/// The canonical plan repeats its first entry verbatim (the idempotent
/// device-filesystem retry), and both copies are best-effort: mounting the
/// same target twice with identical arguments cannot abort the sequencer,
/// nor can any other best-effort failure, as long as every critical entry
/// succeeds.
pub proof fn lemma_duplicate_mount_tolerated(outcomes: Seq<bool>, r: MountRun)
    requires
        outcomes.len() == canonical_table().len(),
        mount_run_matches(canonical_table(), outcomes, r),
        forall|i: int|
            0 <= i < canonical_table().len() && (#[trigger] canonical_table()[i]).severity
                == Severity::Critical ==> outcomes[i],
    ensures
        canonical_table()[0] == canonical_table()[1],
        canonical_table()[0].severity == Severity::BestEffort,
        !r.aborted,
        r.records@.len() == canonical_table().len(),
{
    assert forall|i: int| 0 <= i < canonical_table().len() implies !is_fatal(
        #[trigger] canonical_table()[i],
        outcomes[i],
    ) by {}
}

} // verus!

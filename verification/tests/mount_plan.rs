//! The mount plan and its sequencer: canonical table, severity handling,
//! induced failures, and the recorded call list.

use enclave_init::mounts::{
    apply_mounts, canonical_plan, MountSpec, Mounter, Severity,
};

const NO_SE: u64 = 0xa;
const NO_DSE: u64 = 0xe;

fn expected_table() -> Vec<(&'static str, &'static str, &'static str, u64, &'static str)> {
    vec![
        ("devtmpfs", "/dev", "devtmpfs", NO_SE, "mode=0755"),
        ("devtmpfs", "/dev", "devtmpfs", NO_SE, "mode=0755"),
        ("devpts", "/dev/pts", "devpts", NO_SE, ""),
        ("shm", "/dev/shm", "tmpfs", NO_DSE, "mode=0755"),
        ("proc", "/proc", "proc", NO_DSE, "hidepid=2"),
        ("tmpfs", "/run", "tmpfs", NO_DSE, "mode=0755"),
        ("tmpfs", "/tmp", "tmpfs", NO_DSE, ""),
        ("sysfs", "/sys", "sysfs", NO_DSE, ""),
        ("cgroup_root", "/sys/fs/cgroup", "tmpfs", NO_DSE, "mode=0755"),
    ]
}

fn assert_entry_eq(m: &MountSpec, e: &(&str, &str, &str, u64, &str)) {
    assert_eq!(m.source, e.0);
    assert_eq!(m.target, e.1);
    assert_eq!(m.fstype, e.2);
    assert_eq!(m.flags, e.3);
    assert_eq!(m.data, e.4);
}

#[test]
fn canonical_plan_matches_table() {
    let plan = canonical_plan();
    let expected = expected_table();
    assert_eq!(plan.len(), 9);
    for (m, e) in plan.iter().zip(expected.iter()) {
        assert_entry_eq(m, e);
    }
    // Exactly the process filesystem is critical.
    for (i, m) in plan.iter().enumerate() {
        if i == 4 {
            assert_eq!(m.severity, Severity::Critical);
        } else {
            assert_eq!(m.severity, Severity::BestEffort);
        }
    }
}

#[test]
fn canonical_plan_repeats_first_entry() {
    let plan = canonical_plan();
    assert_eq!(plan[0].source, plan[1].source);
    assert_eq!(plan[0].target, plan[1].target);
    assert_eq!(plan[0].fstype, plan[1].fstype);
    assert_eq!(plan[0].flags, plan[1].flags);
    assert_eq!(plan[0].data, plan[1].data);
    assert_eq!(plan[0].severity, plan[1].severity);
}

fn best_effort_plan() -> Vec<MountSpec> {
    canonical_plan()
        .into_iter()
        .map(|mut m| {
            m.severity = Severity::BestEffort;
            m
        })
        .collect()
}

#[test]
fn best_effort_single_failure_attempts_every_entry() {
    // One induced failure at each position in turn: every remaining entry
    // is still attempted, each outcome is recorded, and nothing aborts.
    for failing in 0..9usize {
        let outcomes: Vec<bool> = (0..9).map(|i| i != failing).collect();
        let run = apply_mounts(best_effort_plan(), &outcomes);
        assert!(!run.aborted);
        assert_eq!(run.records.len(), 9);
        for (i, rec) in run.records.iter().enumerate() {
            assert_eq!(rec.ok, i != failing);
        }
    }
}

#[test]
fn duplicate_mount_failure_does_not_abort() {
    // The second devtmpfs mount of the same target fails (it already
    // exists); the sequencer carries on through the whole plan.
    let mut outcomes = vec![true; 9];
    outcomes[1] = false;
    let run = apply_mounts(canonical_plan(), &outcomes);
    assert!(!run.aborted);
    assert_eq!(run.records.len(), 9);
    assert!(!run.records[1].ok);
    assert!(run.records[8].ok);
}

#[test]
fn critical_failure_aborts_remaining_entries() {
    // The process filesystem (entry 4) is critical: its failure stops the
    // plan right after its own record.
    let mut outcomes = vec![true; 9];
    outcomes[4] = false;
    let run = apply_mounts(canonical_plan(), &outcomes);
    assert!(run.aborted);
    assert_eq!(run.records.len(), 5);
    assert!(!run.records[4].ok);
}

#[test]
fn recording_backend_sees_canonical_call_list() {
    // Drive the step machine against a recording backend that accepts
    // every request: the recorded calls are the canonical ordered table,
    // duplicate included.
    let mut recorded: Vec<(String, String, String, u64, String)> = Vec::new();
    let mut m = Mounter::new(canonical_plan());
    while let Some(req) = m.next_request() {
        recorded.push((
            req.source.to_string(),
            req.target.to_string(),
            req.fstype.to_string(),
            req.flags,
            req.data.to_string(),
        ));
        m.report(true);
    }
    assert!(m.finished());
    assert!(!m.aborted);
    let expected = expected_table();
    assert_eq!(recorded.len(), expected.len());
    for (got, e) in recorded.iter().zip(expected.iter()) {
        assert_eq!(got.0, e.0);
        assert_eq!(got.1, e.1);
        assert_eq!(got.2, e.2);
        assert_eq!(got.3, e.3);
        assert_eq!(got.4, e.4);
    }
    assert_eq!(recorded[0], recorded[1]);
}

#[test]
fn mounter_stops_handing_out_requests_after_abort() {
    let mut m = Mounter::new(canonical_plan());
    for _ in 0..4 {
        assert!(m.next_request().is_some());
        m.report(true);
    }
    let req = m.next_request().expect("critical entry pending");
    assert_eq!(req.target, "/proc");
    m.report(false);
    assert!(m.aborted);
    assert!(m.finished());
    assert!(m.next_request().is_none());
    assert_eq!(m.records.len(), 5);
}

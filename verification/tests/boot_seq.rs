//! The boot sequencer: fixed-order composition, severity policy, the
//! terminal action, and the smaller helpers around the sequence.

use enclave_init::boot::{choose_terminal, evaluate_boot, standard_policy, TerminalAction};
use enclave_init::child::{bridge_worker, reverse_proxy, socat_bridge};
use enclave_init::console::{console_plan, slot_descriptor, Direction, StreamSlot};
use enclave_init::mounts::canonical_plan;
use enclave_init::flags::{nonblocking_flags, MS_NODEV, MS_NOEXEC, MS_NOSUID, NO_DSE, NO_SE, O_NONBLOCK};
use enclave_init::reader::{collect_stream, BlockingRead};

#[test]
fn clean_boot_is_not_fatal() {
    let policy = standard_policy();
    let report = evaluate_boot(
        &policy,
        canonical_plan(),
        &vec![true; 9],
        &vec![true; 3],
        true,
        &vec![Some(4096)],
    );
    assert!(!report.fatal);
    assert!(!report.mounts.aborted);
    assert_eq!(report.mounts.records.len(), 9);
    assert!(report.diagnostics_observable);
    assert_eq!(report.entropy.seeded, Some(4096));
    assert_eq!(choose_terminal(&policy, report.fatal), TerminalAction::Reboot);
}

#[test]
fn critical_mount_failure_is_fatal() {
    let policy = standard_policy();
    let mut mounts = vec![true; 9];
    mounts[4] = false;
    let report = evaluate_boot(&policy, canonical_plan(), &mounts, &vec![true; 3], true, &vec![Some(4096)]);
    assert!(report.mounts.aborted);
    assert!(report.fatal);
    assert_eq!(choose_terminal(&policy, report.fatal), policy.on_fatal);
}

#[test]
fn entropy_failure_warns_and_boot_proceeds() {
    let policy = standard_policy();
    let report = evaluate_boot(
        &policy,
        canonical_plan(),
        &vec![true; 9],
        &vec![true; 3],
        true,
        &vec![None, None, None],
    );
    assert_eq!(report.entropy.seeded, None);
    assert!(!report.fatal);
}

#[test]
fn platform_failure_fatality_is_policy_defined() {
    let lenient = standard_policy();
    let report = evaluate_boot(&lenient, canonical_plan(), &vec![true; 9], &vec![true; 3], false, &vec![Some(1)]);
    assert!(!report.fatal);

    let mut strict = standard_policy();
    strict.platform_critical = true;
    strict.on_fatal = TerminalAction::Halt;
    let report = evaluate_boot(&strict, canonical_plan(), &vec![true; 9], &vec![true; 3], false, &vec![Some(1)]);
    assert!(report.fatal);
    assert_eq!(choose_terminal(&strict, report.fatal), TerminalAction::Halt);
}

#[test]
fn console_write_failure_is_recoverable_but_flagged() {
    let policy = standard_policy();
    let report = evaluate_boot(
        &policy,
        canonical_plan(),
        &vec![true; 9],
        &vec![true, false, true],
        true,
        &vec![Some(4096)],
    );
    assert!(!report.diagnostics_observable);
    assert!(!report.fatal);
}

#[test]
fn console_plan_binds_three_standard_descriptors() {
    let plan = console_plan();
    assert_eq!(plan.len(), 3);
    for b in plan.iter() {
        assert_eq!(b.device, "/dev/console");
    }
    assert_eq!(plan[0].direction, Direction::Read);
    assert_eq!(plan[1].direction, Direction::Write);
    assert_eq!(plan[2].direction, Direction::Write);
    assert_eq!(slot_descriptor(plan[0].slot), 0);
    assert_eq!(slot_descriptor(plan[1].slot), 1);
    assert_eq!(slot_descriptor(plan[2].slot), 2);
    assert_eq!(plan[0].slot, StreamSlot::Stdin);
    assert_eq!(plan[1].slot, StreamSlot::Stdout);
    assert_eq!(plan[2].slot, StreamSlot::Stderr);
}

#[test]
fn restriction_flags_are_kernel_bit_exact() {
    assert_eq!(MS_NOSUID, 0x2);
    assert_eq!(MS_NODEV, 0x4);
    assert_eq!(MS_NOEXEC, 0x8);
    assert_eq!(NO_SE, MS_NOSUID | MS_NOEXEC);
    assert_eq!(NO_DSE, MS_NODEV | MS_NOSUID | MS_NOEXEC);
}

#[test]
fn nonblocking_flag_arithmetic_touches_one_bit() {
    let flags = 0o100i32 as u32;
    let on = nonblocking_flags(flags, true);
    assert_eq!(on, flags | O_NONBLOCK);
    let off = nonblocking_flags(on, false);
    assert_eq!(off, flags);
    assert_eq!(nonblocking_flags(0, false), 0);
    assert_eq!(O_NONBLOCK, 0x800);
}

#[test]
fn child_specs_name_the_bridge_programs() {
    let vm = bridge_worker();
    assert_eq!(vm.path, "/vm");
    assert!(vm.args.is_empty());

    let proxy = reverse_proxy();
    assert_eq!(proxy.path, "/caddy");
    assert_eq!(proxy.args, vec!["run", "--config", "/Caddyfile"]);

    let socat = socat_bridge();
    assert_eq!(socat.path, "socat");
    assert_eq!(
        socat.args,
        vec!["-t", "30", "VSOCK-LISTEN:1000,fork,reuseaddr", "TCP:0.0.0.0:8000"]
    );
}

#[test]
fn blocking_reader_keeps_bytes_until_first_stop() {
    let reads = vec![
        BlockingRead::Byte(b'h'),
        BlockingRead::Byte(b'i'),
        BlockingRead::Closed,
        BlockingRead::Byte(b'!'),
    ];
    assert_eq!(collect_stream(&reads), b"hi".to_vec());

    let reads = vec![BlockingRead::Byte(b'x'), BlockingRead::Failed];
    assert_eq!(collect_stream(&reads), b"x".to_vec());

    let reads: Vec<BlockingRead> = Vec::new();
    assert!(collect_stream(&reads).is_empty());
}

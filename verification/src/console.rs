//! The console binding plan.
//!
//! Boot rebinds the three standard descriptors to the console device:
//! descriptor 0 for reading, descriptors 1 and 2 for writing. A failed
//! binding is recoverable, but a failed write-mode binding makes later
//! diagnostic output unobservable, so the report says explicitly whether
//! the diagnostic sink came up; the sequencer checks that before it runs
//! anything else that can fail.

use vstd::prelude::*;

verus! {

/// Which way a rebound descriptor is opened.
#[derive(Clone, Copy, PartialEq, Eq, Structural, Debug)]
pub enum Direction {
    Read,
    Write,
}

/// The standard stream slot a binding replaces.
#[derive(Clone, Copy, PartialEq, Eq, Structural, Debug)]
pub enum StreamSlot {
    Stdin,
    Stdout,
    Stderr,
}

/// One console binding: a device path, the open direction, and the
/// standard stream slot it replaces.
#[derive(Clone, Copy, Debug)]
pub struct ConsoleBinding {
    pub device: &'static str,
    pub direction: Direction,
    pub slot: StreamSlot,
}

/// The mathematical value of a [`ConsoleBinding`].
pub ghost struct ConsoleBindingV {
    pub device: Seq<char>,
    pub direction: Direction,
    pub slot: StreamSlot,
}

impl View for ConsoleBinding {
    type V = ConsoleBindingV;

    open spec fn view(&self) -> ConsoleBindingV {
        ConsoleBindingV { device: self.device@, direction: self.direction, slot: self.slot }
    }
}

/// The descriptor number a slot stands for.
pub fn slot_descriptor(slot: StreamSlot) -> (fd: u32)
    ensures
        fd == spec_slot_descriptor(slot),
{
    match slot {
        StreamSlot::Stdin => 0,
        StreamSlot::Stdout => 1,
        StreamSlot::Stderr => 2,
    }
}

/// The descriptor number a slot stands for.
pub open spec fn spec_slot_descriptor(slot: StreamSlot) -> u32 {
    match slot {
        StreamSlot::Stdin => 0,
        StreamSlot::Stdout => 1,
        StreamSlot::Stderr => 2,
    }
}

/// The canonical console binding table: the console device on descriptors
/// 0 (read), 1 (write) and 2 (write).
pub open spec fn console_table() -> Seq<ConsoleBindingV> {
    seq![
        ConsoleBindingV {
            device: "/dev/console"@,
            direction: Direction::Read,
            slot: StreamSlot::Stdin,
        },
        ConsoleBindingV {
            device: "/dev/console"@,
            direction: Direction::Write,
            slot: StreamSlot::Stdout,
        },
        ConsoleBindingV {
            device: "/dev/console"@,
            direction: Direction::Write,
            slot: StreamSlot::Stderr,
        },
    ]
}

/// Builds the canonical console binding plan, entry for entry equal to
/// [`console_table`].
pub fn console_plan() -> (plan: Vec<ConsoleBinding>)
    ensures
        plan@.len() == console_table().len(),
        forall|i: int| 0 <= i < plan@.len() ==> plan@[i]@ == console_table()[i],
{
    let plan: Vec<ConsoleBinding> = vec![
        ConsoleBinding {
            device: "/dev/console",
            direction: Direction::Read,
            slot: StreamSlot::Stdin,
        },
        ConsoleBinding {
            device: "/dev/console",
            direction: Direction::Write,
            slot: StreamSlot::Stdout,
        },
        ConsoleBinding {
            device: "/dev/console",
            direction: Direction::Write,
            slot: StreamSlot::Stderr,
        },
    ];
    plan
}

/// Judges the outcomes of the canonical console plan: every failure is
/// recoverable, but diagnostic output stays observable only when both
/// write-mode bindings succeeded.
pub fn diagnostics_observable(outcomes: &Vec<bool>) -> (r: bool)
    requires
        outcomes@.len() == console_table().len(),
    ensures
        r == (outcomes@[1] && outcomes@[2]),
{
    outcomes[1] && outcomes[2]
}

} // verus!

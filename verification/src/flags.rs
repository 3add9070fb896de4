//! Bit-level constants and descriptor-flag arithmetic.
//!
//! The mount restriction flags carry the kernel's bit values, so a plan
//! produced here is bit-exact with respect to kernel mount semantics; the
//! shell asserts the values against its libc before every call. The
//! descriptor-flag helper computes the word a supervisor hands to `fcntl`
//! when switching a pipe to or from non-blocking mode.

use vstd::prelude::*;

verus! {

/// Mount flag: disallow access to device special files (kernel MS_NODEV).
pub const MS_NODEV: u64 = 0x4;

/// Mount flag: ignore set-user-id and set-group-id bits (kernel MS_NOSUID).
pub const MS_NOSUID: u64 = 0x2;

/// Mount flag: disallow program execution (kernel MS_NOEXEC).
pub const MS_NOEXEC: u64 = 0x8;

/// The no-suid + no-exec combination used for device filesystems.
pub const NO_SE: u64 = 0xa;

/// The no-dev + no-suid + no-exec combination used everywhere else.
pub const NO_DSE: u64 = 0xe;

/// Descriptor status flag: non-blocking reads and writes (kernel O_NONBLOCK).
pub const O_NONBLOCK: u32 = 0x800;

/// Checks that the two flag combinations really are the unions they claim
/// to be, bit by bit.
pub proof fn lemma_flag_combinations()
    ensures
        NO_SE == (MS_NOSUID | MS_NOEXEC),
        NO_DSE == (MS_NODEV | MS_NOSUID | MS_NOEXEC),
{
    assert((0x2u64 | 0x8u64) == 0xau64) by (bit_vector);
    assert((0x4u64 | 0x2u64 | 0x8u64) == 0xeu64) by (bit_vector);
}

/// The status-flag word to hand `fcntl` so that a descriptor becomes
/// non-blocking (or blocking again): only the non-blocking bit changes,
/// every other bit of the current flags is preserved.
pub fn nonblocking_flags(current: u32, nonblocking: bool) -> (r: u32)
    ensures
        r & !O_NONBLOCK == current & !O_NONBLOCK,
        r & O_NONBLOCK == if nonblocking {
            O_NONBLOCK
        } else {
            0
        },
{
    let r = if nonblocking {
        current | O_NONBLOCK
    } else {
        current & !O_NONBLOCK
    };
    proof {
        let c = current;
        assert((c | 0x800u32) & !0x800u32 == c & !0x800u32) by (bit_vector);
        assert((c | 0x800u32) & 0x800u32 == 0x800u32) by (bit_vector);
        assert((c & !0x800u32) & !0x800u32 == c & !0x800u32) by (bit_vector);
        assert((c & !0x800u32) & 0x800u32 == 0u32) by (bit_vector);
    }
    r
}

} // verus!

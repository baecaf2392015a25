//! I/O-priority values, packed as `(class << 13) | level`.
//!
//! The block layer identifies a task's I/O priority by a single integer that
//! packs the scheduling class into the high bits and the level into the low
//! 13 bits. The daemon uses the best-effort class, with a configurable level.

use vstd::prelude::*;

verus! {

/// `who` selector for the ioprio syscalls: a single process.
pub const IOPRIO_WHO_PROCESS: i32 = 1;

/// Number of low bits that hold the priority level.
pub const IOPRIO_CLASS_SHIFT: i32 = 13;

/// Mask of the level bits of a packed I/O-priority value.
pub const IOPRIO_PRIO_MASK: i32 = 0x1fff;

/// Class id of the best-effort I/O scheduling class.
pub const IOPRIO_CLASS_BE: i32 = 2;

/// Level applied to an optimized process (within class best-effort).
pub const OPTIMIZED_IO_NICE_VALUE: i32 = 1;

/// Level restored when no prior value could be captured.
pub const DEFAULT_IO_NICE_VALUE: i32 = 4;

/// Extracts the level bits from a packed I/O-priority value.
pub fn ioprio_prio_data(ioprio: i32) -> (r: i32)
    ensures
        r == (ioprio & IOPRIO_PRIO_MASK),
        ioprio >= 0 ==> r == ioprio % 0x2000,
{
    proof {
        assert(ioprio >= 0 ==> (ioprio & 0x1fffi32) == ioprio % 0x2000) by (bit_vector);
    }
    ioprio & IOPRIO_PRIO_MASK
}

/// Packs a class id and a level into one I/O-priority value.
pub fn ioprio_value(prioclass: i32, priolevel: i32) -> (r: u16)
    ensures
        r == (((prioclass << IOPRIO_CLASS_SHIFT) | priolevel) as u16),
        0 <= prioclass < 4 && 0 <= priolevel < 0x2000 ==> r == prioclass * 0x2000 + priolevel,
{
    proof {
        assert(0 <= prioclass < 4 && 0 <= priolevel < 0x2000 ==> (((prioclass << 13i32) | priolevel)
            as u16) == prioclass * 0x2000 + priolevel) by (bit_vector);
    }
    ((prioclass << IOPRIO_CLASS_SHIFT) | priolevel) as u16
}

} // verus!

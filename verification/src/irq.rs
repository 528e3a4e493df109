//! Model of the core's interrupt-mask state (the DAIF fields of the
//! processor state) and the operations the kernel performs on it. The actual
//! system-register accesses happen outside this crate; callers read the
//! register, transform the value through these functions, and write it back.

use vstd::prelude::*;

verus! {

// The four mask bits of the processor state: D (debug), A (SError),
// I (IRQ) and F (FIQ). A set bit masks the corresponding exception.
pub const DAIF_F_BIT: u64 = 0x40;
pub const DAIF_I_BIT: u64 = 0x80;
pub const DAIF_A_BIT: u64 = 0x100;
pub const DAIF_D_BIT: u64 = 0x200;
pub const DAIF_ALL_MASKED: u64 = 0x3C0;

/// Whether a DAIF value has every exception class masked.
pub open spec fn spec_all_masked(daif: u64) -> bool {
    daif & DAIF_ALL_MASKED == DAIF_ALL_MASKED
}

/// The DAIF value after unmasking all four exception classes.
pub open spec fn spec_enable_interrupts(daif: u64) -> u64 {
    daif & !DAIF_ALL_MASKED
}

/// The DAIF value after masking all four exception classes.
pub open spec fn spec_disable_interrupts(daif: u64) -> u64 {
    daif | DAIF_ALL_MASKED
}

/// New DAIF value with all four exception classes unmasked; everything else
/// is preserved.
pub fn enable_interrupts(daif: u64) -> (r: u64)
    ensures
        r == spec_enable_interrupts(daif),
        !spec_all_masked(r),
{
    proof {
        assert(daif & !0x3C0u64 & 0x3C0 == 0) by (bit_vector);
    }
    daif & !DAIF_ALL_MASKED
}

/// New DAIF value with all four exception classes masked; everything else is
/// preserved.
pub fn disable_interrupts(daif: u64) -> (r: u64)
    ensures
        r == spec_disable_interrupts(daif),
        spec_all_masked(r),
{
    proof {
        assert((daif | 0x3C0u64) & 0x3C0 == 0x3C0) by (bit_vector);
    }
    daif | DAIF_ALL_MASKED
}

/// Masking and then restoring the saved value is exact: whatever mask state
/// the core was in -- in particular, interrupts already disabled -- is what
/// it is in afterwards, not an unconditional re-enable.
pub proof fn lemma_mask_restore_exact(daif: u64)
    ensures
        spec_all_masked(spec_disable_interrupts(daif)),
        spec_all_masked(daif) ==> spec_disable_interrupts(daif) == daif,
{
    assert((daif | 0x3C0u64) & 0x3C0 == 0x3C0) by (bit_vector);
    assert(daif & 0x3C0u64 == 0x3C0 ==> (daif | 0x3C0u64) == daif) by (bit_vector);
}

} // verus!

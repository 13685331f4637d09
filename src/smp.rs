//! Bringing up the secondary cores and kicking them into the scheduler.
use crate::gicv2::{sgir_word, GICv2};
use crate::irq::SGI_9;
use vstd::prelude::*;

verus! {

/// Offset of the spin-table slot of core 1 from the core activation base;
/// the slots of cores 2 and 3 follow, eight bytes apart.
pub const SPIN_TABLE_OFFSET: u64 = 0xe0;

/// Address of the spin-table slot core `core_id` waits on.
pub open spec fn release_slot(activation_base: u64, core_id: u8) -> int {
    activation_base + SPIN_TABLE_OFFSET + 8 * (core_id - 1)
}

/// Address of the spin-table slot into which the entry point of core
/// `core_id` is written to release it; only cores 1 to 3 wait there.
pub fn release_slot_addr(activation_base: u64, core_id: u8) -> (r: u64)
    requires
        1 <= core_id <= 3,
        activation_base + SPIN_TABLE_OFFSET + 0x10 <= u64::MAX,
    ensures
        r == release_slot(activation_base, core_id),
{
    activation_base + SPIN_TABLE_OFFSET + 8 * (core_id as u64 - 1)
}

/// The GICD_SGIR words the boot core writes on each timer tick, in order:
/// the rescheduling interrupt for core 3, core 2 and core 1.
pub fn secondary_kicks<H: Copy>(gic: &GICv2<H>) -> (r: Vec<u32>)
    ensures
        r@ == seq![sgir_word(SGI_9 as u8, 3), sgir_word(SGI_9 as u8, 2), sgir_word(SGI_9 as u8, 1)],
{
    let mut r: Vec<u32> = Vec::new();
    let mut cpu: u8 = 3;
    while cpu >= 1
        invariant
            0 <= cpu <= 3,
            r@.len() == 3 - cpu,
            forall|k: int| 0 <= k < r@.len() ==> #[trigger] r@[k] == sgir_word(SGI_9 as u8, (3 - k) as u8),
        decreases cpu,
    {
        let w = gic.send_sgi(SGI_9 as u8, cpu).unwrap();
        r.push(w);
        cpu -= 1;
    }
    assert(r@ =~= seq![sgir_word(SGI_9 as u8, 3), sgir_word(SGI_9 as u8, 2), sgir_word(SGI_9 as u8, 1)]);
    r
}

} // verus!

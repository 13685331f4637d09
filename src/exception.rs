//! The AArch64 EL1 exception frame and the copy between frames that a
//! context switch performs.
use vstd::prelude::*;

verus! {

/// The exception context as it is stored on the stack on exception entry.
#[derive(Copy, Clone)]
pub struct ExceptionContext {
    /// General purpose registers x0..x29.
    pub gpr: [u64; 30],
    /// The link register, aka x30.
    pub lr: u64,
    /// Exception link register: the program counter at the time of the exception.
    pub elr_el1: u64,
    /// Saved program status.
    pub spsr_el1: u64,
    /// Exception syndrome register.
    pub esr_el1: u64,
    /// Stack pointer of EL0.
    pub sp_el0: u64,
    /// Slot that keeps the frame 16-byte aligned.
    pub _res_sp: u64,
}

/// The registers a context switch preserves agree in `a` and `b`:
/// elr, esr, spsr, x0..x29, lr and sp_el0.
pub open spec fn same_switched_state(a: ExceptionContext, b: ExceptionContext) -> bool {
    &&& a.elr_el1 == b.elr_el1
    &&& a.esr_el1 == b.esr_el1
    &&& a.spsr_el1 == b.spsr_el1
    &&& a.gpr@ == b.gpr@
    &&& a.lr == b.lr
    &&& a.sp_el0 == b.sp_el0
}

/// `d` after the switched registers of `s` were copied into it; the
/// alignment slot of `d` is left as it was.
pub open spec fn stored(s: ExceptionContext, d: ExceptionContext) -> ExceptionContext {
    ExceptionContext { _res_sp: d._res_sp, ..s }
}

impl ExceptionContext {
    /// A frame with every register zero.
    pub fn zeroed() -> (r: ExceptionContext)
        ensures
            forall|i: int| 0 <= i < 30 ==> r.gpr@[i] == 0,
            r.lr == 0,
            r.elr_el1 == 0,
            r.spsr_el1 == 0,
            r.esr_el1 == 0,
            r.sp_el0 == 0,
            r._res_sp == 0,
    {
        ExceptionContext {
            gpr: [0u64; 30],
            lr: 0,
            elr_el1: 0,
            spsr_el1: 0,
            esr_el1: 0,
            sp_el0: 0,
            _res_sp: 0,
        }
    }
}

/// Copies the registers a context switch preserves from `s` into `d`.
pub fn store_context(s: &ExceptionContext, d: &mut ExceptionContext)
    ensures
        *final(d) == stored(*s, *old(d)),
        same_switched_state(*final(d), *s),
{
    d.elr_el1 = s.elr_el1;
    d.esr_el1 = s.esr_el1;
    d.gpr = s.gpr;
    d.lr = s.lr;
    d.sp_el0 = s.sp_el0;
    d.spsr_el1 = s.spsr_el1;
}

/// Saving a live frame `f` into a thread's frame `t` and later restoring
/// that thread's frame over any live frame `g` gives back the switched
/// registers of `f`.
pub proof fn lemma_store_restore_round_trip(t: ExceptionContext, f: ExceptionContext, g: ExceptionContext)
    ensures
        same_switched_state(stored(stored(f, t), g), f),
{
}

/// Program status a new thread starts with: EL1h, IRQ and FIQ unmasked,
/// Debug and SError masked.
pub const SPSR_EL1_INIT: u64 = 0x364;

/// The IRQ mask bit (I) of a program status word.
pub const SPSR_IRQ_BIT: u64 = 0x80;

/// The program status a thread keeps when it gives up the core by its own
/// call: the I bit is set when IRQs were unmasked at the call and cleared
/// when they were masked; every other bit is kept.
pub open spec fn switch_spsr(spsr: u64, irq_masked: bool) -> u64 {
    if !irq_masked {
        spsr | SPSR_IRQ_BIT
    } else {
        spsr & !SPSR_IRQ_BIT
    }
}

/// Computes `switch_spsr`.
pub fn spsr_for_switch(spsr: u64, irq_masked: bool) -> (r: u64)
    ensures
        r == switch_spsr(spsr, irq_masked),
        (r & SPSR_IRQ_BIT == SPSR_IRQ_BIT) == !irq_masked,
        r & !SPSR_IRQ_BIT == spsr & !SPSR_IRQ_BIT,
{
    if !irq_masked {
        let r = spsr | SPSR_IRQ_BIT;
        assert(r & 0x80u64 == 0x80u64 && r & !0x80u64 == spsr & !0x80u64) by (bit_vector)
            requires r == spsr | 0x80u64;
        r
    } else {
        let r = spsr & !SPSR_IRQ_BIT;
        assert(r & 0x80u64 != 0x80u64 && r & !0x80u64 == spsr & !0x80u64) by (bit_vector)
            requires r == spsr & !0x80u64;
        r
    }
}

/// Kernel privilege levels.
#[derive(PartialEq, Eq, Structural, Clone, Copy, Debug)]
pub enum PrivilegeLevel {
    User,
    Kernel,
    Hypervisor,
    Unknown,
}

/// The privilege level and its name for the EL field of `CurrentEL`.
pub open spec fn privilege_level_of(el: u64) -> (PrivilegeLevel, Seq<char>) {
    if el == 2 {
        (PrivilegeLevel::Hypervisor, "EL2"@)
    } else if el == 1 {
        (PrivilegeLevel::Kernel, "EL1"@)
    } else if el == 0 {
        (PrivilegeLevel::User, "EL0"@)
    } else {
        (PrivilegeLevel::Unknown, "Unknown"@)
    }
}

/// The processing element's privilege level, given the EL field read from
/// the `CurrentEL` register.
pub fn current_privilege_level(el: u64) -> (r: (PrivilegeLevel, &'static str))
    ensures
        r.0 == privilege_level_of(el).0,
        r.1@ == privilege_level_of(el).1,
{
    if el == 2 {
        (PrivilegeLevel::Hypervisor, "EL2")
    } else if el == 1 {
        (PrivilegeLevel::Kernel, "EL1")
    } else if el == 0 {
        (PrivilegeLevel::User, "EL0")
    } else {
        (PrivilegeLevel::Unknown, "Unknown")
    }
}

} // verus!

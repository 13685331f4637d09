//! GICv2, the ARM Generic Interrupt Controller v2: the table of registered
//! handlers, the decision taken for an acknowledged interrupt, and the word
//! that raises a software generated interrupt on another core.
use crate::common::BoundedUsize;
use crate::irq::{DescriptorView, IRQHandlerDescriptor};
use vstd::prelude::*;

verus! {

/// The largest IRQ number the controller hands out; larger acknowledged
/// numbers are spurious.
pub const MAX_IRQ_NUMBER: usize = 1019;

/// Number of slots of the handler table.
pub const NUM_IRQS: usize = 1020;

/// First IRQ number of the shared peripheral interrupts.
pub const FIRST_PERIPHERAL_IRQ: usize = 32;

/// Number of CPU interfaces the distributor serves, one per core.
pub const NUM_CPU_INTERFACES: u8 = 4;

/// Largest software generated interrupt number.
pub const MAX_SGI_NUMBER: u8 = 15;

/// An IRQ number of this controller.
pub type IRQNumber = BoundedUsize<MAX_IRQ_NUMBER>;

/// Why a handler could not be registered.
#[derive(PartialEq, Eq, Structural, Clone, Copy, Debug)]
pub enum IrqError {
    /// A handler is registered for that number already.
    AlreadyRegistered,
    /// Kernel initialisation is over: the table takes no more handlers.
    InitDone,
}

impl IrqError {
    /// A description of the error.
    pub fn as_str(&self) -> (r: &'static str)
        ensures
            *self == IrqError::AlreadyRegistered ==> r@ == "IRQ handler already registered"@,
            *self == IrqError::InitDone ==> r@ == "IRQ handler table is read-only after init"@,
    {
        match self {
            IrqError::AlreadyRegistered => "IRQ handler already registered",
            IrqError::InitDone => "IRQ handler table is read-only after init",
        }
    }
}

/// What to do with an acknowledged interrupt.
pub enum IrqDispatch<H: Copy> {
    /// The number is above `MAX_IRQ_NUMBER`: nothing to do, no end of
    /// interrupt to signal.
    Spurious,
    /// No handler is registered for this number: a fatal error.
    Unhandled(usize),
    /// Invoke this handler, then signal the end of the interrupt.
    Handle(IRQHandlerDescriptor<IRQNumber, H>),
}

/// What a handler table slot holds.
pub open spec fn slot_view<H: Copy>(o: Option<IRQHandlerDescriptor<IRQNumber, H>>) -> Option<DescriptorView<IRQNumber, H>> {
    match o {
        Some(d) => Some(d@),
        None => None,
    }
}

/// The state of the controller's handler table.
pub struct GicView<H> {
    /// The handler registered for each IRQ number.
    pub table: Seq<Option<DescriptorView<IRQNumber, H>>>,
    /// Kernel initialisation is over.
    pub init_done: bool,
}

impl<H> GicView<H> {
    /// One slot per IRQ number; a slot holds only a handler for its own
    /// number.
    pub open spec fn wf(self) -> bool {
        &&& self.table.len() == NUM_IRQS
        &&& forall|n: int| 0 <= n < NUM_IRQS && (#[trigger] self.table[n]) is Some ==> self.table[n]->0.number@ == n
    }
}

/// What registering a handler for `number` in `g` gives.
pub open spec fn register_outcome<H>(g: GicView<H>, number: usize) -> Result<(), IrqError> {
    if g.init_done {
        Err(IrqError::InitDone)
    } else if g.table[number as int] is Some {
        Err(IrqError::AlreadyRegistered)
    } else {
        Ok(())
    }
}

/// From `old` to `new` no handler was removed or replaced.
pub open spec fn handlers_kept<H>(old: GicView<H>, new: GicView<H>) -> bool {
    &&& new.table.len() == old.table.len()
    &&& forall|n: int| 0 <= n < old.table.len() && (#[trigger] old.table[n]) is Some ==> new.table[n] == old.table[n]
}

/// The decision taken for the acknowledged number `irq`.
pub open spec fn dispatch_of<H: Copy>(g: GicView<H>, irq: usize, d: IrqDispatch<H>) -> bool {
    if irq > MAX_IRQ_NUMBER {
        d is Spurious
    } else {
        match g.table[irq as int] {
            None => d == IrqDispatch::<H>::Unhandled(irq),
            Some(v) => d matches IrqDispatch::Handle(h) && h@ == v,
        }
    }
}

/// The GICD_SGIR word that raises software generated interrupt `int_num`
/// on the CPU interface `cpu` alone: target list filter 0 (bits 25:24),
/// CPU target list with the one bit `cpu` (bits 23:16), interrupt ID (bits
/// 3:0).
pub open spec fn sgir_word(int_num: u8, cpu: u8) -> u32 {
    ((1u32 << (cpu as u32)) << 16u32) | (int_num as u32)
}

/// Representation of the GIC's handler table.
pub struct GICv2<H: Copy> {
    handler_table: Vec<Option<IRQHandlerDescriptor<IRQNumber, H>>>,
    init_done: bool,
}

impl<H: Copy> View for GICv2<H> {
    type V = GicView<H>;

    closed spec fn view(&self) -> GicView<H> {
        GicView {
            table: self.handler_table@.map_values(|o: Option<IRQHandlerDescriptor<IRQNumber, H>>| slot_view(o)),
            init_done: self.init_done,
        }
    }
}

impl<H: Copy> GICv2<H> {
    /// Driver name.
    pub const COMPATIBLE: &'static str = "GICv2 (ARM Generic Interrupt Controller v2)";

    /// A controller with no handler registered, still in initialisation.
    pub fn new() -> (r: Self)
        ensures
            r@.wf(),
            forall|n: int| 0 <= n < NUM_IRQS ==> (#[trigger] r@.table[n]) is None,
            !r@.init_done,
    {
        let mut handler_table: Vec<Option<IRQHandlerDescriptor<IRQNumber, H>>> = Vec::new();
        let mut i: usize = 0;
        while i < NUM_IRQS
            invariant
                i <= NUM_IRQS,
                handler_table@.len() == i,
                forall|n: int| 0 <= n < i ==> (#[trigger] handler_table@[n]) is None,
            decreases NUM_IRQS - i,
        {
            handler_table.push(None);
            i += 1;
        }
        GICv2 { handler_table, init_done: false }
    }

    /// Registers `desc` for its number, if no handler is registered for
    /// that number and initialisation is not over.
    pub fn register_handler(&mut self, desc: IRQHandlerDescriptor<IRQNumber, H>) -> (r: Result<(), IrqError>)
        requires
            old(self)@.wf(),
        ensures
            final(self)@.wf(),
            r == register_outcome(old(self)@, desc@.number@),
            r is Ok ==> final(self)@.table == old(self)@.table.update(desc@.number@ as int, Some(desc@)),
            r is Err ==> final(self)@.table == old(self)@.table,
            final(self)@.init_done == old(self)@.init_done,
            handlers_kept(old(self)@, final(self)@),
    {
        let n = desc.number().get();
        if self.init_done {
            return Err(IrqError::InitDone);
        }
        if self.handler_table[n].is_some() {
            return Err(IrqError::AlreadyRegistered);
        }
        self.handler_table.set(n, Some(desc));
        assert(self@.table =~= old(self)@.table.update(n as int, Some(desc@)));
        Ok(())
    }

    /// Ends initialisation: from now on the table takes no handler.
    pub fn end_init(&mut self)
        requires
            old(self)@.wf(),
        ensures
            final(self)@.wf(),
            final(self)@.table == old(self)@.table,
            final(self)@.init_done,
            handlers_kept(old(self)@, final(self)@),
    {
        self.init_done = true;
    }

    /// The decision for the IRQ number `irq_number` read from the interrupt
    /// acknowledge register.
    pub fn handle_pending_irqs(&self, irq_number: usize) -> (d: IrqDispatch<H>)
        requires
            self@.wf(),
        ensures
            dispatch_of(self@, irq_number, d),
    {
        if irq_number > MAX_IRQ_NUMBER {
            return IrqDispatch::Spurious;
        }
        match self.handler_table[irq_number] {
            None => IrqDispatch::Unhandled(irq_number),
            Some(descriptor) => IrqDispatch::Handle(descriptor),
        }
    }

    /// The registered peripheral handlers, by number, with their names.
    pub fn peripheral_handlers(&self) -> (r: Vec<(usize, &'static str)>)
        requires
            self@.wf(),
        ensures
            forall|k: int| 0 <= k < r@.len() ==> {
                &&& FIRST_PERIPHERAL_IRQ <= (#[trigger] r@[k]).0 < NUM_IRQS
                &&& self@.table[r@[k].0 as int] is Some
                &&& r@[k].1@ == self@.table[r@[k].0 as int]->0.name
            },
            forall|k: int, l: int| 0 <= k < l < r@.len() ==> (#[trigger] r@[k]).0 < (#[trigger] r@[l]).0,
            forall|n: int| FIRST_PERIPHERAL_IRQ <= n < NUM_IRQS && (#[trigger] self@.table[n]) is Some
                ==> exists|k: int| 0 <= k < r@.len() && (#[trigger] r@[k]).0 == n,
    {
        let mut r: Vec<(usize, &'static str)> = Vec::new();
        let mut i: usize = FIRST_PERIPHERAL_IRQ;
        while i < NUM_IRQS
            invariant
                FIRST_PERIPHERAL_IRQ <= i <= NUM_IRQS,
                self@.wf(),
                forall|k: int| 0 <= k < r@.len() ==> {
                    &&& FIRST_PERIPHERAL_IRQ <= (#[trigger] r@[k]).0 < i
                    &&& self@.table[r@[k].0 as int] is Some
                    &&& r@[k].1@ == self@.table[r@[k].0 as int]->0.name
                },
                forall|k: int, l: int| 0 <= k < l < r@.len() ==> (#[trigger] r@[k]).0 < (#[trigger] r@[l]).0,
                forall|n: int| FIRST_PERIPHERAL_IRQ <= n < i && (#[trigger] self@.table[n]) is Some
                    ==> exists|k: int| 0 <= k < r@.len() && (#[trigger] r@[k]).0 == n,
            decreases NUM_IRQS - i,
        {
            match &self.handler_table[i] {
                Some(d) => {
                    let ghost old_r = r@;
                    r.push((i, d.name()));
                    assert forall|n: int| FIRST_PERIPHERAL_IRQ <= n <= i && (#[trigger] self@.table[n]) is Some
                        implies exists|k: int| 0 <= k < r@.len() && (#[trigger] r@[k]).0 == n by {
                        if n == i {
                            assert(r@[old_r.len() as int].0 == n);
                        } else {
                            let k = choose|k: int| 0 <= k < old_r.len() && (#[trigger] old_r[k]).0 == n;
                            assert(r@[k].0 == n);
                        }
                    }
                },
                None => {},
            }
            i += 1;
        }
        r
    }

    /// The GICD_SGIR word that raises software generated interrupt
    /// `int_num` on core `cpu`, or `None` where there is nothing to write:
    /// `int_num` is no software generated interrupt, or no core `cpu`
    /// exists, so the distributor would ignore the request.
    pub fn send_sgi(&self, int_num: u8, cpu: u8) -> (r: Option<u32>)
        ensures
            r is Some <==> int_num <= MAX_SGI_NUMBER && cpu < NUM_CPU_INTERFACES,
            r matches Some(w) ==> {
                &&& w == sgir_word(int_num, cpu)
                &&& w >> 24u32 == 0
                &&& (w >> 16u32) & 0xffu32 == 1u32 << (cpu as u32)
                &&& w & 0xffffu32 == int_num as u32
            },
    {
        if int_num > MAX_SGI_NUMBER || cpu >= NUM_CPU_INTERFACES {
            return None;
        }
        let c: u32 = cpu as u32;
        let i: u32 = int_num as u32;
        let w: u32 = ((1u32 << c) << 16u32) | i;
        assert(w >> 24u32 == 0 && (w >> 16u32) & 0xffu32 == 1u32 << c && w & 0xffffu32 == i) by (bit_vector)
            requires
                c < 4,
                i <= 15,
                w == ((1u32 << c) << 16u32) | i,
        ;
        Some(w)
    }
}

/// Once a slot holds a handler it keeps that handler: what holds from each
/// step to the next holds over any run of steps.
pub proof fn lemma_handlers_kept_trans<H>(a: GicView<H>, b: GicView<H>, c: GicView<H>)
    requires
        handlers_kept(a, b),
        handlers_kept(b, c),
    ensures
        handlers_kept(a, c),
{
    assert forall|n: int| 0 <= n < a.table.len() && (#[trigger] a.table[n]) is Some implies c.table[n] == a.table[n] by {
        assert(b.table[n] == a.table[n]);
    }
}

/// After a handler was registered for a number, any later registration for
/// that number fails, whatever happened to the table in between.
pub proof fn lemma_second_register_fails<H>(
    g0: GicView<H>,
    g1: GicView<H>,
    g2: GicView<H>,
    number: usize,
    d: DescriptorView<IRQNumber, H>,
)
    requires
        g0.wf(),
        number < NUM_IRQS,
        register_outcome(g0, number) is Ok,
        g1.table == g0.table.update(number as int, Some(d)),
        handlers_kept(g1, g2),
    ensures
        register_outcome(g2, number) is Err,
        g2.table[number as int] == Some(d),
{
    assert(g1.table[number as int] is Some);
}

} // verus!

//! Interrupt handler descriptors and the IRQ numbers the kernel uses.
use vstd::prelude::*;

verus! {

/// IRQ number of the software generated interrupt that asks a core to
/// reschedule.
pub const SGI_9: usize = 9;

/// IRQ number of the non-secure physical timer.
pub const ARM_NS_PHYSICAL_TIMER: usize = 30;

/// IRQ number of the PL011 UART.
pub const PL011_UART: usize = 153;

/// A handler for an interrupt: its number, a descriptive name and the
/// handler to invoke.
#[derive(Copy)]
pub struct IRQHandlerDescriptor<T: Copy, H: Copy> {
    number: T,
    name: &'static str,
    handler: H,
}

impl<T: Copy, H: Copy> Clone for IRQHandlerDescriptor<T, H> {
    fn clone(&self) -> (r: Self)
        ensures
            r == *self,
    {
        *self
    }
}

/// What a descriptor holds.
pub struct DescriptorView<T, H> {
    pub number: T,
    pub name: Seq<char>,
    pub handler: H,
}

impl<T: Copy, H: Copy> View for IRQHandlerDescriptor<T, H> {
    type V = DescriptorView<T, H>;

    closed spec fn view(&self) -> DescriptorView<T, H> {
        DescriptorView { number: self.number, name: self.name@, handler: self.handler }
    }
}

impl<T: Copy, H: Copy> IRQHandlerDescriptor<T, H> {
    /// Create an instance.
    pub fn new(number: T, name: &'static str, handler: H) -> (r: Self)
        ensures
            r@ == (DescriptorView { number, name: name@, handler }),
    {
        IRQHandlerDescriptor { number, name, handler }
    }

    /// Return the number.
    pub fn number(&self) -> (r: T)
        ensures
            r == self@.number,
    {
        self.number
    }

    /// Return the name.
    pub fn name(&self) -> (r: &'static str)
        ensures
            r@ == self@.name,
    {
        self.name
    }

    /// Return the handler.
    pub fn handler(&self) -> (r: H)
        ensures
            r == self@.handler,
    {
        self.handler
    }
}

} // verus!

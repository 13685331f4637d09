//! Small building blocks shared by the device drivers.
use crate::memory::{Address, Virtual};
use core::marker::PhantomData;
use vstd::prelude::*;

verus! {

/// A `usize` that is at most `MAX_INCLUSIVE`.
#[derive(Clone, Copy)]
pub struct BoundedUsize<const MAX_INCLUSIVE: usize>(usize);

impl<const MAX_INCLUSIVE: usize> View for BoundedUsize<MAX_INCLUSIVE> {
    type V = usize;

    closed spec fn view(&self) -> usize {
        self.0
    }
}

impl<const MAX_INCLUSIVE: usize> BoundedUsize<MAX_INCLUSIVE> {
    #[verifier::type_invariant]
    spec fn in_bounds(self) -> bool {
        self.0 <= MAX_INCLUSIVE
    }

    /// Wraps `number`.
    pub fn new(number: usize) -> (r: Self)
        requires
            number <= MAX_INCLUSIVE,
        ensures
            r@ == number,
    {
        BoundedUsize(number)
    }

    /// The wrapped number.
    pub fn get(self) -> (r: usize)
        ensures
            r == self@,
            r <= MAX_INCLUSIVE,
    {
        proof {
            use_type_invariant(&self);
        }
        self.0
    }
}

/// The start of a block of memory-mapped registers laid out as `T`.
pub struct MMIODerefWrapper<T> {
    start_addr: Address<Virtual>,
    phantom: PhantomData<T>,
}

impl<T> MMIODerefWrapper<T> {
    /// Create an instance for the block that starts at `start_addr`.
    pub fn new(start_addr: Address<Virtual>) -> (r: Self)
        ensures
            r.start_addr()@ == start_addr@,
    {
        MMIODerefWrapper { start_addr, phantom: PhantomData }
    }

    /// The start of the register block.
    pub closed spec fn start_addr_spec(&self) -> Address<Virtual> {
        self.start_addr
    }

    /// The start of the register block.
    #[verifier::when_used_as_spec(start_addr_spec)]
    pub fn start_addr(&self) -> (r: Address<Virtual>)
        ensures
            r == self.start_addr_spec(),
    {
        self.start_addr
    }
}

} // verus!

//! Device drivers: the interface every driver offers, and the handler of
//! the software generated interrupt that asks a core to reschedule.
use crate::gicv2::GICv2;
use vstd::prelude::*;

verus! {

/// Device driver functions.
pub trait DeviceDriver {
    /// Return a compatibility string for identifying the driver.
    fn compatible(&self) -> &'static str;
}

/// The driver of the software generated interrupt that makes a core enter
/// the scheduler.
pub struct SGIHandler {}

impl SGIHandler {
    /// Driver name.
    pub const COMPATIBLE: &'static str = "SGI Handler";

    /// Create an instance.
    pub fn new() -> (r: Self) {
        SGIHandler {}
    }
}

impl DeviceDriver for SGIHandler {
    fn compatible(&self) -> &'static str {
        Self::COMPATIBLE
    }
}

impl<H: Copy> DeviceDriver for GICv2<H> {
    fn compatible(&self) -> &'static str {
        Self::COMPATIBLE
    }
}

} // verus!

use kernel::board::{board_name, version};
use kernel::common::{BoundedUsize, MMIODerefWrapper};
use kernel::driver::{DeviceDriver, SGIHandler};
use kernel::exception::{current_privilege_level, spsr_for_switch, PrivilegeLevel};
use kernel::gicv2::GICv2;
use kernel::memory::{Address, Virtual};
use kernel::random::next_u64;
use kernel::smp::release_slot_addr;
use kernel::thread::Worker;
use kernel::time::{resolution_nanos, ticks_for_nanos, uptime_millis};

#[test]
fn board_strings() {
    assert_eq!(board_name(), "Raspberry Pi 4");
    assert_eq!(version(), "kernel version 0.1.0");
}

#[test]
fn privilege_levels() {
    assert!(current_privilege_level(0) == (PrivilegeLevel::User, "EL0"));
    assert!(current_privilege_level(1) == (PrivilegeLevel::Kernel, "EL1"));
    assert!(current_privilege_level(2) == (PrivilegeLevel::Hypervisor, "EL2"));
    assert!(current_privilege_level(3) == (PrivilegeLevel::Unknown, "Unknown"));
}

#[test]
fn switch_status_bit() {
    assert_eq!(spsr_for_switch(0x364, false), 0x3e4);
    assert_eq!(spsr_for_switch(0x3e4, true), 0x364);
    assert_eq!(spsr_for_switch(0x3e4, false), 0x3e4);
    assert_eq!(spsr_for_switch(0x364, true), 0x364);
}

#[test]
fn bounded_usize_wraps() {
    let n: BoundedUsize<1019> = BoundedUsize::new(1019);
    assert_eq!(n.get(), 1019);
    assert_eq!(BoundedUsize::<5>::new(0).get(), 0);
}

#[test]
fn mmio_wrapper_keeps_start() {
    let w: MMIODerefWrapper<u32> = MMIODerefWrapper::new(Address::<Virtual>::new(0xFF84_1000));
    assert_eq!(w.start_addr().as_usize(), 0xFF84_1000);
}

#[test]
fn driver_names() {
    assert_eq!(SGIHandler::new().compatible(), "SGI Handler");
    let gic: GICv2<u8> = GICv2::new();
    assert_eq!(gic.compatible(), "GICv2 (ARM Generic Interrupt Controller v2)");
}

#[test]
fn spin_table_slots() {
    assert_eq!(release_slot_addr(0, 1), 0xe0);
    assert_eq!(release_slot_addr(0, 2), 0xe8);
    assert_eq!(release_slot_addr(0x1000, 3), 0x10f0);
}

#[test]
fn timer_arithmetic() {
    assert_eq!(resolution_nanos(54_000_000), Some(18));
    assert_eq!(resolution_nanos(0), None);
    assert_eq!(uptime_millis(54_000_000, 54_000_000), 1000);
    assert_eq!(uptime_millis(27_000, 54_000_000), 0);
    assert_eq!(uptime_millis(u64::MAX, 1), u64::MAX);
    assert_eq!(ticks_for_nanos(5_000_000, 54_000_000), 270_000);
    assert_eq!(ticks_for_nanos(u64::MAX, u64::MAX), u64::MAX);
}

#[test]
fn worker_sleeps_after_its_limit() {
    let mut w = Worker::new(41);
    assert_eq!(w.stop_after, 2);
    assert!(!w.round());
    assert!(!w.round());
    assert!(w.round());
    assert_eq!(w.rounds, 3);
    assert_eq!(Worker::new(19).stop_after, 20);
    assert_eq!(Worker::new(20).stop_after, 1);
}

#[test]
fn generator_repeats_for_a_seed() {
    assert_eq!(next_u64(1234), next_u64(1234));
    let draws: Vec<u64> = (0..8).map(next_u64).collect();
    assert!(draws.iter().any(|&d| d != draws[0]));
    assert!(draws.iter().enumerate().any(|(i, &d)| d != i as u64));
}

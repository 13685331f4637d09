//! Scheduling core of a multi-core AArch64 kernel: the exception frame that a
//! context switch moves, thread control blocks, per-core run queues and the
//! sleep queue, the interrupt handler table and its dispatch decision, and
//! the address arithmetic the kernel's memory map relies on.
pub mod board;
pub mod common;
pub mod driver;
pub mod exception;
pub mod gicv2;
pub mod irq;
pub mod memory;
pub mod random;
pub mod scheduler;
pub mod smp;
pub mod thread;
pub mod time;

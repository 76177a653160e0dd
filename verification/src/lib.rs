//! Core of a cooperative in-kernel USB host stack.
//!
//! The crate models the two layers that make the stack work: the
//! asynchronous substrate (event channel, wakers, timer futures, the IRQ
//! binding table) and the USB host subsystem layered on top of it (bus
//! address pool, SETUP packet codec, descriptor parsing, the OHCI transfer
//! descriptor lifecycle, and the per-device enumeration protocol).
//!
//! Hardware access, blocking and thread plumbing live outside the library;
//! every decision the stack makes is a verified function from plain values
//! to plain values.

pub mod pool;
pub mod setup;
pub mod descriptors;
pub mod sched;
pub mod ohci;
pub mod irq;
pub mod host;
pub mod enumerate;

//! A verified interpreter core for a simple 8-bit virtual machine:
//! a 4096-byte address space, sixteen 8-bit registers, a 16-slot call
//! stack, a 64x32 monochrome display bitmap, a 16-key keypad, and two
//! countdown timers.  The host drives the machine by calling the
//! single-step operation; the core signals frames and audio through
//! two edge-triggered flags.

pub mod cpu;
pub mod keypad;
pub mod laws;
pub mod semantics;

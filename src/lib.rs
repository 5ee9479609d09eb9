//! Reading and changing the link-level (MAC) address of a network interface,
//! and watching the kernel report interfaces joining and leaving, on a
//! BSD-family kernel.
//!
//! The kernel is reached through [`sys::Sys`]; [`sys::Kernel`] records the
//! calls made to it, so that each operation states the exchange it has with
//! the kernel and what it makes of the answers.
pub mod defs;
pub mod ifname;
pub mod ifreq;
pub mod ioccom;
pub mod lladdr;
pub mod nic;
pub mod rtmsg;
pub mod seqs;
pub mod socket;
pub mod sys;
pub mod text;

//! Host introspection and kernel-event decoding for a runtime monitoring agent.
//!
//! The crate answers two questions for the agent. First, which kernel
//! monitoring facilities the host offers: a kernel release string is parsed
//! into a comparable version, and distribution-specific exceptions are applied
//! on top of it. Second, how the records of an attached kernel iterator are
//! decoded into typed values: fixed-layout program records and the lines of
//! the IPv4 connection table.
//!
//! Reading files, probing the kernel and attaching programs are left to the
//! caller, who hands in what was read. The one thing the crate asks the
//! machine itself is the kernel's identification, in
//! `KernelVersion::from_host`.

pub mod arith;
pub mod bpf;
pub mod common;
pub mod info;
pub mod kernel;
pub mod lifecycle;
pub mod network;
pub mod text;

//! The logic of the WasabiOs runner: its options, the command line of qemu and
//! the protocol spoken with the test kernel.

pub mod args;
pub mod qemu;
pub mod testproto;
pub mod testrun;
pub mod cargo;

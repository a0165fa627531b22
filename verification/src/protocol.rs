//! Decoding of the fixed-layout binary structures that disks return.

pub mod ata;
pub mod bytes;
pub mod nvme;

pub use bytes::{require_len, ParseError};

//! DiskScry core: decoding of ATA and NVMe SMART structures, conservative
//! health evaluation, localized human-readable projections and the rules
//! that classify discovered disks.

pub mod domain;
pub mod protocol;
pub mod platform;
pub mod app;
pub mod cli;
pub mod presentation;
pub mod text;

use vstd::prelude::*;

verus! {

/// Version of the machine-readable snapshot schema.
pub const JSON_SCHEMA_VERSION: u32 = 1;

} // verus!

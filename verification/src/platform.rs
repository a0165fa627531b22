//! The boundary to the operating system: the inventory and SMART reader
//! that a platform provides, and the rules that classify what it reports.

pub mod inventory;
pub mod node_order;
pub mod smart;

use vstd::prelude::*;

use crate::domain::{DeviceRecord, SmartState};
use crate::text::{owned, push_str};

verus! {

/// A failure of the platform layer.
#[derive(Clone, Debug, PartialEq, Eq)]
pub enum PlatformError {
    Inventory(String),
}

/// The description of a platform failure.
pub open spec fn platform_error_text(e: PlatformError) -> Seq<char> {
    match e {
        PlatformError::Inventory(m) => "device inventory failed: "@ + m@,
    }
}

impl PlatformError {
    /// The description of the failure.
    pub fn message(&self) -> (s: String)
        ensures
            s@ == platform_error_text(*self),
    {
        match self {
            PlatformError::Inventory(m) => {
                let mut s = owned("device inventory failed: ");
                push_str(&mut s, m.as_str());
                s
            },
        }
    }
}

/// Lists the physical disks of the machine.
pub trait DeviceInventory {
    fn list(&self) -> Result<Vec<DeviceRecord>, PlatformError>;
}

/// Reads SMART data from one disk.
pub trait SmartReader {
    fn read(&self, device: &DeviceRecord) -> SmartState;
}

/// A change reported by the platform's disk notifications.
#[derive(Clone, Copy, Debug, PartialEq, Eq)]
pub enum DeviceEvent {
    InventoryChanged,
}

} // verus!

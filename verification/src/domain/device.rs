//! Discovered physical disks and the snapshot taken of each.

use vstd::prelude::*;

use super::health::{HealthState, HealthUnknownReason};
use super::smart::{SmartState, SmartUnavailableReason};

verus! {

/// Stable identifier of a discovered disk.
#[derive(Clone, Debug, PartialEq, Eq)]
pub struct DeviceId(pub String);

/// Identity strings taken from the device inventory.
#[derive(Clone, Debug, Default, PartialEq, Eq)]
pub struct DeviceIdentity {
    pub model: Option<String>,
    pub serial: Option<String>,
    pub firmware: Option<String>,
}

/// Command set spoken by the disk.
#[derive(Clone, Copy, Debug, PartialEq, Eq)]
pub enum StorageProtocol {
    Ata,
    Nvme,
    Scsi,
    Unknown,
}

/// Physical connection of the disk.
#[derive(Clone, Copy, Debug, PartialEq, Eq)]
pub enum ConnectionBus {
    Internal,
    Usb,
    Thunderbolt,
    Pcie,
    Sata,
    Sas,
    Virtual,
    Unknown,
}

/// How the disk is attached.
#[derive(Clone, Debug, PartialEq, Eq)]
pub struct ConnectionInfo {
    pub protocol: StorageProtocol,
    pub bus: ConnectionBus,
    pub removable: bool,
}

/// A discovered physical disk. `device_node` is the device path, such as
/// `/dev/disk4`.
#[derive(Clone, Debug, PartialEq, Eq)]
pub struct DeviceRecord {
    pub id: DeviceId,
    pub generation: u64,
    pub device_node: String,
    pub identity: DeviceIdentity,
    pub connection: ConnectionInfo,
    pub capacity_bytes: u64,
    pub external: bool,
}

/// A disk together with the SMART read and the health derived from it.
#[derive(Clone, Debug, PartialEq, Eq)]
pub struct DeviceSnapshot {
    pub device: DeviceRecord,
    pub smart: SmartState,
    pub health: HealthState,
    pub observed_at_unix_seconds: u64,
}

impl DeviceSnapshot {
    /// The snapshot of a disk whose SMART data is unavailable: its health is
    /// unknown for that reason.
    pub fn unavailable(device: DeviceRecord, reason: SmartUnavailableReason) -> (s: Self)
        ensures
            s.device == device,
            s.smart == (SmartState::Unavailable { reason }),
            s.health == (HealthState::Unknown { reason: HealthUnknownReason::SmartUnavailable }),
            s.observed_at_unix_seconds == 0,
    {
        DeviceSnapshot {
            device,
            smart: SmartState::Unavailable { reason },
            health: HealthState::Unknown { reason: HealthUnknownReason::SmartUnavailable },
            observed_at_unix_seconds: 0,
        }
    }
}

} // verus!

//! SMART snapshots as read from a device, and the outcome of a read.

use vstd::prelude::*;

use crate::text::{decimal, u128_text};

verus! {

/// Outcome of reading SMART data from one device.
#[derive(Clone, Debug, PartialEq, Eq)]
pub enum SmartState {
    Available { snapshot: Box<SmartSnapshot>, warnings: Vec<SmartReadError> },
    Unavailable { reason: SmartUnavailableReason },
    Failed { error: SmartReadError },
}

impl SmartState {
    /// The primary English label: only an available read counts as available.
    pub fn display_label(&self) -> (label: &'static str)
        ensures
            self is Available ==> label@ == "SMART available"@,
            !(self is Available) ==> label@ == "SMART unavailable"@,
    {
        match self {
            SmartState::Available { .. } => "SMART available",
            SmartState::Unavailable { .. } => "SMART unavailable",
            SmartState::Failed { .. } => "SMART unavailable",
        }
    }
}

/// Decoded SMART data of one protocol.
#[derive(Clone, Debug, PartialEq, Eq)]
pub enum SmartSnapshot {
    Ata { data: AtaSmartSnapshot },
    Nvme { data: Box<NvmeSmartSnapshot> },
}

/// Why a device offers no SMART data.
#[derive(Clone, Debug, PartialEq, Eq)]
pub enum SmartUnavailableReason {
    InterfaceNotExposed,
    DeviceNotSmartCapable,
    UnsupportedProtocol { protocol: String },
    UnsupportedTransport { transport: String },
}

/// The step of a SMART read at which something went wrong.
#[derive(Clone, Copy, Debug, PartialEq, Eq)]
pub enum SmartReadStage {
    InterfaceAcquisition,
    Identify,
    SmartData,
    Thresholds,
    Parse,
}

/// A failed step of a SMART read.
#[derive(Clone, Debug, PartialEq, Eq)]
pub struct SmartReadError {
    pub stage: SmartReadStage,
    pub operation: String,
    pub message: String,
    pub native_code: Option<i64>,
    pub permission_denied: bool,
}

/// Decoded ATA SMART data.
#[derive(Clone, Debug, PartialEq, Eq)]
pub struct AtaSmartSnapshot {
    pub identity: DeviceIdentityData,
    pub version: u16,
    pub overall_passed: Option<bool>,
    pub attributes: Vec<AtaSmartAttribute>,
}

/// Identity strings reported by the device itself.
#[derive(Clone, Debug, Default, PartialEq, Eq)]
pub struct DeviceIdentityData {
    pub model: Option<String>,
    pub serial: Option<String>,
    pub firmware: Option<String>,
}

/// One ATA SMART attribute record.
#[derive(Clone, Debug, PartialEq, Eq)]
pub struct AtaSmartAttribute {
    pub id: u8,
    pub flags: u16,
    pub current: u8,
    pub worst: u8,
    pub threshold: Option<u8>,
    pub raw_value: u64,
    pub raw_bytes: [u8; 6],
}

/// A normalized value at or below a nonzero threshold.
pub open spec fn crossed(current: u8, threshold: Option<u8>) -> bool {
    match threshold {
        Some(t) => t > 0 && current <= t,
        None => false,
    }
}

impl AtaSmartAttribute {
    /// Whether the current value has reached a nonzero threshold.
    pub fn threshold_crossed(&self) -> (r: bool)
        ensures
            r == crossed(self.current, self.threshold),
    {
        match self.threshold {
            Some(threshold) => threshold > 0 && self.current <= threshold,
            None => false,
        }
    }
}

/// Decoded NVMe SMART / Health information log.
#[derive(Clone, Debug, PartialEq, Eq)]
pub struct NvmeSmartSnapshot {
    pub identity: DeviceIdentityData,
    pub critical_warning: u8,
    pub temperature_celsius: Option<i32>,
    pub available_spare_percent: u8,
    pub available_spare_threshold_percent: u8,
    pub percentage_used: u8,
    pub data_units_read: DecimalCounter,
    pub data_units_written: DecimalCounter,
    pub host_read_commands: DecimalCounter,
    pub host_write_commands: DecimalCounter,
    pub controller_busy_minutes: DecimalCounter,
    pub power_cycles: DecimalCounter,
    pub power_on_hours: DecimalCounter,
    pub unsafe_shutdowns: DecimalCounter,
    pub media_errors: DecimalCounter,
    pub error_log_entries: DecimalCounter,
}

/// An exact device counter kept as its decimal text.
#[derive(Clone, Debug, Default, PartialEq, Eq)]
pub struct DecimalCounter(pub String);

impl DecimalCounter {
    /// The counter holding the decimal text of `value`.
    pub fn from_count(value: u128) -> (c: DecimalCounter)
        ensures
            c.0@ == decimal(value as nat),
    {
        DecimalCounter(u128_text(value))
    }
}

} // verus!

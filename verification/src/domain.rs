//! The data model: discovered devices, SMART snapshots and health verdicts.

pub mod device;
pub mod health;
pub mod smart;

pub use device::{
    ConnectionBus, ConnectionInfo, DeviceId, DeviceIdentity, DeviceRecord, DeviceSnapshot,
    StorageProtocol,
};
pub use health::{
    evaluate_ata, evaluate_health, evaluate_nvme, health_of_read, read_verdict, HealthEvidence,
    HealthState, HealthUnknownReason, HealthVerdict,
};
pub use smart::{
    crossed,
    AtaSmartAttribute, AtaSmartSnapshot, DecimalCounter, DeviceIdentityData, NvmeSmartSnapshot,
    SmartReadError, SmartReadStage, SmartSnapshot, SmartState, SmartUnavailableReason,
};

use diskscry::app::collect_snapshots;
use diskscry::domain::{
    ConnectionBus, ConnectionInfo, DeviceId, DeviceIdentity, DeviceRecord, HealthState,
    SmartState, SmartUnavailableReason, StorageProtocol,
};
use diskscry::platform::{DeviceInventory, PlatformError, SmartReader};

#[derive(Clone)]
struct Inventory(DeviceRecord);

impl DeviceInventory for Inventory {
    fn list(&self) -> Result<Vec<DeviceRecord>, PlatformError> {
        Ok(vec![self.0.clone()])
    }
}

struct UnavailableReader;

impl SmartReader for UnavailableReader {
    fn read(&self, _device: &DeviceRecord) -> SmartState {
        SmartState::Unavailable {
            reason: SmartUnavailableReason::InterfaceNotExposed,
        }
    }
}

#[test]
fn external_disk_survives_unavailable_smart_enrichment() {
    let device = DeviceRecord {
        id: DeviceId("disk:external".into()),
        generation: 1,
        device_node: "/dev/disk9".into(),
        identity: DeviceIdentity::default(),
        connection: ConnectionInfo {
            protocol: StorageProtocol::Scsi,
            bus: ConnectionBus::Usb,
            removable: true,
        },
        capacity_bytes: 1_000,
        external: true,
    };
    let snapshots = collect_snapshots(&Inventory(device), &UnavailableReader).unwrap();
    assert_eq!(snapshots.len(), 1);
    assert!(snapshots[0].device.external);
    assert_eq!(snapshots[0].smart.display_label(), "SMART unavailable");
    assert!(matches!(snapshots[0].health, HealthState::Unknown { .. }));
}

use diskscry::app::snapshot_devices;
use diskscry::domain::{SmartReadError, SmartReadStage};

struct ReaderByNode;

impl SmartReader for ReaderByNode {
    fn read(&self, device: &DeviceRecord) -> SmartState {
        SmartState::Failed {
            error: SmartReadError {
                stage: SmartReadStage::SmartData,
                operation: device.device_node.clone(),
                message: "denied".into(),
                native_code: None,
                permission_denied: true,
            },
        }
    }
}

struct FailingInventory;

impl DeviceInventory for FailingInventory {
    fn list(&self) -> Result<Vec<DeviceRecord>, PlatformError> {
        Err(PlatformError::Inventory("registry unavailable".into()))
    }
}

fn record(node: &str) -> DeviceRecord {
    DeviceRecord {
        id: DeviceId(node.into()),
        generation: 0,
        device_node: node.into(),
        identity: DeviceIdentity::default(),
        connection: ConnectionInfo {
            protocol: StorageProtocol::Ata,
            bus: ConnectionBus::Sata,
            removable: false,
        },
        capacity_bytes: 1,
        external: false,
    }
}

#[test]
fn each_disk_keeps_its_own_read() {
    let snapshots = snapshot_devices(vec![record("/dev/disk0"), record("/dev/disk1")], &ReaderByNode, 7);
    assert_eq!(snapshots.len(), 2);
    for (snapshot, node) in snapshots.iter().zip(["/dev/disk0", "/dev/disk1"]) {
        assert_eq!(snapshot.device.device_node, node);
        assert_eq!(snapshot.observed_at_unix_seconds, 7);
        match &snapshot.smart {
            SmartState::Failed { error } => assert_eq!(error.operation, node),
            other => panic!("unexpected {other:?}"),
        }
        assert!(matches!(snapshot.health, HealthState::Unknown { .. }));
    }
}

#[test]
fn inventory_errors_come_back_unchanged() {
    match collect_snapshots(&FailingInventory, &ReaderByNode) {
        Err(diskscry::app::AppError::Platform(PlatformError::Inventory(message))) => {
            assert_eq!(message, "registry unavailable")
        }
        other => panic!("unexpected {other:?}"),
    }
}

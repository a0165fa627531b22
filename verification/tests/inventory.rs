use diskscry::domain::{ConnectionBus, StorageProtocol};
use diskscry::platform::inventory::{classify_bus, classify_protocol};
use diskscry::platform::smart::is_permission_status;

#[test]
fn classifies_external_buses() {
    assert_eq!(classify_bus(Some("USB"), None), ConnectionBus::Usb);
    assert_eq!(
        classify_bus(Some("PCI-Express"), Some("Internal")),
        ConnectionBus::Pcie
    );
}

#[test]
fn maps_pcie_to_nvme() {
    assert_eq!(
        classify_protocol(&ConnectionBus::Pcie, Some("PCI-Express"), false, false),
        StorageProtocol::Nvme
    );
}

#[test]
fn maps_smart_capability_to_protocol() {
    assert_eq!(
        classify_protocol(&ConnectionBus::Internal, Some("Apple Fabric"), true, false),
        StorageProtocol::Nvme
    );
}

#[test]
fn identifies_iokit_permission_statuses() {
    assert!(is_permission_status(0xe000_02c1_u32 as i32));
    assert!(is_permission_status(0xe000_02e2_u32 as i32));
    assert!(is_permission_status(0x8000_0009_u32 as i32));
    assert!(!is_permission_status(0));
}

use diskscry::domain::{SmartReadStage, SmartState, SmartUnavailableReason};
use diskscry::platform::inventory::{
    device_from_properties, inventory_from, sort_by_device_node, MediaEntry, MediaProperties,
};
use diskscry::platform::smart::{
    ata_data_failure, bsd_name_of, interface_pointer_error, locate_smart_service,
    nvme_data_failure, status_error, ServiceFlags, SmartKind,
};

fn properties(bsd_name: &str, registry_id: u64) -> MediaProperties {
    MediaProperties {
        bsd_name: Some(bsd_name.into()),
        size: Some(500_000_000_000),
        removable: Some(false),
        ejectable: None,
        characteristics_interconnect: Some("PCI-Express".into()),
        characteristics_location: Some("Internal".into()),
        interconnect: Some("USB".into()),
        location: Some("External".into()),
        nvme_smart_capable: true,
        smart_capable: false,
        product_name: None,
        model: Some("  APPLE SSD  ".into()),
        entry_name: Some("Entry".into()),
        serial_number: Some("   ".into()),
        firmware_revision: None,
        revision: Some("1.0".into()),
        registry_id: Some(registry_id),
    }
}

fn whole(bsd_name: &str, registry_id: u64) -> MediaEntry {
    MediaEntry {
        whole: Some(true),
        apfs_media: false,
        disk_image: false,
        properties: properties(bsd_name, registry_id),
    }
}

#[test]
fn builds_a_record_from_registry_properties() {
    let record = device_from_properties(&properties("disk0", 0x1234)).unwrap();
    assert_eq!(record.id.0, "iokit:0000000000001234");
    assert_eq!(record.generation, 0x1234);
    assert_eq!(record.device_node, "/dev/disk0");
    assert_eq!(record.identity.model.as_deref(), Some("APPLE SSD"));
    assert_eq!(record.identity.serial, None);
    assert_eq!(record.identity.firmware.as_deref(), Some("1.0"));
    assert_eq!(record.connection.bus, ConnectionBus::Pcie);
    assert_eq!(record.connection.protocol, StorageProtocol::Nvme);
    assert!(!record.connection.removable);
    assert!(!record.external);
    assert_eq!(record.capacity_bytes, 500_000_000_000);
}

#[test]
fn properties_without_a_name_size_or_id_describe_no_disk() {
    let mut missing_name = properties("disk0", 1);
    missing_name.bsd_name = None;
    assert!(device_from_properties(&missing_name).is_none());
    let mut negative_size = properties("disk0", 1);
    negative_size.size = Some(-1);
    assert!(device_from_properties(&negative_size).is_none());
    let mut missing_id = properties("disk0", 1);
    missing_id.registry_id = None;
    assert!(device_from_properties(&missing_id).is_none());
}

#[test]
fn usb_disks_are_external() {
    let mut usb = properties("disk4", 9);
    usb.characteristics_interconnect = None;
    usb.characteristics_location = None;
    usb.nvme_smart_capable = false;
    let record = device_from_properties(&usb).unwrap();
    assert_eq!(record.connection.bus, ConnectionBus::Usb);
    assert_eq!(record.connection.protocol, StorageProtocol::Scsi);
    assert!(record.external);
}

#[test]
fn inventory_lists_whole_physical_disks_by_device_node() {
    let mut partition = whole("disk0s1", 5);
    partition.whole = Some(false);
    let mut apfs = whole("disk3", 6);
    apfs.apfs_media = true;
    let mut image = whole("disk5", 7);
    image.disk_image = true;
    let mut nameless = whole("disk6", 8);
    nameless.properties.bsd_name = None;
    let entries = vec![
        whole("disk2", 1),
        partition,
        whole("disk10", 2),
        apfs,
        whole("disk0", 3),
        image,
        nameless,
    ];
    let nodes = inventory_from(entries)
        .into_iter()
        .map(|record| record.device_node)
        .collect::<Vec<_>>();
    assert_eq!(nodes, vec!["/dev/disk0", "/dev/disk10", "/dev/disk2"]);
}

#[test]
fn sorting_keeps_every_record() {
    let records = ["disk3", "disk1", "disk2", "disk1"]
        .iter()
        .enumerate()
        .map(|(id, name)| device_from_properties(&properties(name, id as u64)).unwrap())
        .collect::<Vec<_>>();
    let sorted = sort_by_device_node(records);
    let ids = sorted.iter().map(|record| record.generation).collect::<Vec<_>>();
    assert_eq!(ids, vec![1, 3, 2, 0]);
}

#[test]
fn nearest_entry_offering_smart_serves() {
    let chain = vec![
        ServiceFlags::default(),
        ServiceFlags {
            nvme_smart_capable: false,
            smart_capable: true,
        },
        ServiceFlags {
            nvme_smart_capable: true,
            smart_capable: true,
        },
    ];
    assert_eq!(locate_smart_service(Some(chain)), Ok((SmartKind::Ata, 1)));
    let both = vec![ServiceFlags {
        nvme_smart_capable: true,
        smart_capable: true,
    }];
    assert_eq!(locate_smart_service(Some(both)), Ok((SmartKind::Nvme, 0)));
}

#[test]
fn disks_without_smart_service_are_unavailable() {
    assert_eq!(
        locate_smart_service(Some(vec![ServiceFlags::default(); 3])),
        Err(SmartState::Unavailable {
            reason: SmartUnavailableReason::InterfaceNotExposed
        })
    );
    match locate_smart_service(None) {
        Err(SmartState::Failed { error }) => {
            assert_eq!(error.stage, SmartReadStage::InterfaceAcquisition);
            assert_eq!(error.operation, "locate IOKit media service");
            assert_eq!(error.message, "IOKit could not resolve the device node");
            assert!(!error.permission_denied);
        }
        other => panic!("unexpected {other:?}"),
    }
}

#[test]
fn bsd_names_come_from_device_nodes() {
    assert_eq!(bsd_name_of("/dev/disk4").unwrap(), "disk4");
    assert_eq!(bsd_name_of("/dev/disk4/").unwrap(), "disk4");
    let missing = bsd_name_of("/dev/..").unwrap_err();
    assert_eq!(missing.message, "device node has no valid UTF-8 file name");
    let nul = bsd_name_of("/dev/di\0sk").unwrap_err();
    assert_eq!(nul.message, "device node contains an interior null byte");
    assert_eq!(nul.operation, "resolve BSD device name");
}

#[test]
fn native_failures_are_reported_with_their_status() {
    let denied = status_error(SmartReadStage::SmartData, "read ATA SMART data", 0xe000_02c1_u32 as i32);
    assert_eq!(denied.message, "read ATA SMART data failed with native status 0xe00002c1");
    assert_eq!(denied.native_code, Some(0xe000_02c1_u32 as i32 as i64));
    assert!(denied.permission_denied);
    let null = interface_pointer_error("IOCFPlugInInterface");
    assert_eq!(null.message, "IOCFPlugInInterface returned a null interface pointer");
    assert!(ata_data_failure(Some(0)).is_none());
    assert!(matches!(ata_data_failure(None), Some(SmartState::Failed { .. })));
    match nvme_data_failure(Some(5)) {
        Some(SmartState::Failed { error }) => {
            assert_eq!(error.message, "read NVMe SMART data failed with native status 0x5");
            assert!(!error.permission_denied);
        }
        other => panic!("unexpected {other:?}"),
    }
}

use diskscry::platform::node_order::{node_in_order, path_tokens, PathToken};

#[test]
fn device_nodes_compare_as_paths() {
    assert!(node_in_order("/dev/a/b", "/dev/a-b"));
    assert!(!node_in_order("/dev/a-b", "/dev/a/b"));
    assert!(node_in_order("/dev/disk1", "/dev/disk10"));
    assert!(node_in_order("/dev/disk10", "/dev/disk2"));
    assert!(node_in_order("/dev//disk2/", "/dev/disk2"));
    assert!(node_in_order("/dev/disk2", "/dev//disk2/"));
    assert!(node_in_order("/z", "a"));
    assert!(node_in_order("./a", "../a"));
    assert!(node_in_order("../a", "-a"));
    assert_eq!(
        path_tokens("/d/./.."),
        vec![
            PathToken::Root,
            PathToken::End,
            PathToken::Letter('d' as u32),
            PathToken::End,
            PathToken::Parent,
            PathToken::End,
        ]
    );
}

#[test]
fn sorting_orders_by_path_components_and_is_stable() {
    let mut slash = device_from_properties(&properties("a/b", 1)).unwrap();
    slash.device_node = "/dev/a/b".into();
    let dash = device_from_properties(&properties("a-b", 2)).unwrap();
    let mut twin = device_from_properties(&properties("a-b", 3)).unwrap();
    twin.device_node = "/dev//a-b".into();
    let sorted = sort_by_device_node(vec![dash, twin, slash]);
    let ids = sorted.iter().map(|record| record.generation).collect::<Vec<_>>();
    assert_eq!(ids, vec![1, 2, 3]);
}

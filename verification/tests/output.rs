use diskscry::domain::{
    ConnectionBus, ConnectionInfo, DeviceId, DeviceIdentity, DeviceRecord, DeviceSnapshot,
    SmartUnavailableReason, StorageProtocol,
};
use diskscry::presentation::locale::Locale;
use diskscry::presentation::output::{render_detail, render_list, smart_label};
use diskscry::presentation::smart_view::ScaledFigures;

fn figures(snapshot: &DeviceSnapshot) -> ScaledFigures {
    ScaledFigures {
        capacity: format!(
            "{:.1} GB",
            snapshot.device.capacity_bytes as f64 / 1_000_000_000.0
        ),
        ..ScaledFigures::default()
    }
}

#[test]
fn unavailable_uses_exact_primary_label() {
    let device = DeviceRecord {
        id: DeviceId("disk:test".into()),
        generation: 0,
        device_node: "/dev/disk9".into(),
        identity: DeviceIdentity::default(),
        connection: ConnectionInfo {
            protocol: StorageProtocol::Unknown,
            bus: ConnectionBus::Usb,
            removable: true,
        },
        capacity_bytes: 1,
        external: true,
    };
    let snapshot =
        DeviceSnapshot::unavailable(device, SmartUnavailableReason::InterfaceNotExposed);
    assert_eq!(smart_label(&snapshot, Locale::En), "SMART unavailable");
    assert_eq!(smart_label(&snapshot, Locale::ZhCn), "SMART 不可用");
    let detail = render_detail(&snapshot, &figures(&snapshot), Locale::ZhCn);
    assert!(detail.contains("SMART 详细信息"));
    assert!(detail.contains("设备接口未公开 SMART 数据"));
    let scaled = vec![figures(&snapshot)];
    assert!(
        render_list(&[snapshot], &scaled, Locale::ZhCn)
            .starts_with("设备\t型号\t容量\t健康状态\tSMART\n")
    );
}

use diskscry::app::{select_device, select_index, AppError};
use diskscry::cli::watch_frame;
use diskscry::domain::{
    evaluate_health, DecimalCounter, DeviceIdentityData, NvmeSmartSnapshot, SmartSnapshot,
    SmartState,
};

fn disk(id: &str, node: &str) -> DeviceSnapshot {
    DeviceSnapshot::unavailable(
        DeviceRecord {
            id: DeviceId(id.into()),
            generation: 0,
            device_node: node.into(),
            identity: DeviceIdentity {
                model: Some("Model".into()),
                serial: None,
                firmware: None,
            },
            connection: ConnectionInfo {
                protocol: StorageProtocol::Scsi,
                bus: ConnectionBus::Usb,
                removable: true,
            },
            capacity_bytes: 2_000_000_000,
            external: true,
        },
        SmartUnavailableReason::InterfaceNotExposed,
    )
}

#[test]
fn devices_are_selected_by_id_node_or_bsd_name() {
    let devices = vec![disk("iokit:1", "/dev/disk1"), disk("iokit:2", "/dev/disk2")];
    assert_eq!(select_index(&devices, "iokit:2"), Some(1));
    assert_eq!(select_index(&devices, "/dev/disk1"), Some(0));
    assert_eq!(select_index(&devices, "disk2"), Some(1));
    assert_eq!(select_index(&devices, "disk3"), None);
    match select_device(&devices, "disk3") {
        Err(AppError::DeviceNotFound(selector)) => assert_eq!(selector, "disk3"),
        other => panic!("unexpected {other:?}"),
    }
}

#[test]
fn watch_frames_show_the_list_or_the_selected_disk() {
    let devices = vec![disk("iokit:1", "/dev/disk1"), disk("iokit:2", "/dev/disk2")];
    let figures = devices.iter().map(figures).collect::<Vec<_>>();
    let list = watch_frame(&devices, &figures, None, Locale::En).unwrap();
    assert_eq!(list, render_list(&devices, &figures, Locale::En));
    assert!(list.starts_with("Device\tModel\tCapacity\tHealth\tSMART\n"));
    assert!(list.contains("/dev/disk2\tModel\t2.0 GB\t"));
    let detail = watch_frame(&devices, &figures, Some("disk2"), Locale::En).unwrap();
    assert_eq!(detail, render_detail(&devices[1], &figures[1], Locale::En));
    assert!(detail.starts_with("Device: /dev/disk2\nID: iokit:2\n"));
    match watch_frame(&devices, &figures, Some("disk9"), Locale::ZhCn) {
        Err(error) => assert_eq!(
            Locale::ZhCn.format_error(&error),
            "设备选择器 'disk9' 未匹配任何已列出的设备 ID 或设备节点"
        ),
        Ok(frame) => panic!("unexpected frame {frame}"),
    }
}

#[test]
fn human_detail_includes_readable_smart() {
    let smart = SmartSnapshot::Nvme {
        data: Box::new(NvmeSmartSnapshot {
            identity: DeviceIdentityData::default(),
            critical_warning: 0,
            temperature_celsius: Some(30),
            available_spare_percent: 100,
            available_spare_threshold_percent: 10,
            percentage_used: 1,
            data_units_read: DecimalCounter("2000000".into()),
            data_units_written: DecimalCounter("0".into()),
            host_read_commands: DecimalCounter("0".into()),
            host_write_commands: DecimalCounter("0".into()),
            controller_busy_minutes: DecimalCounter("0".into()),
            power_cycles: DecimalCounter("0".into()),
            power_on_hours: DecimalCounter("0".into()),
            unsafe_shutdowns: DecimalCounter("0".into()),
            media_errors: DecimalCounter("0".into()),
            error_log_entries: DecimalCounter("0".into()),
        }),
    };
    let mut snapshot = disk("disk:test", "/dev/disk9");
    snapshot.health = evaluate_health(&smart);
    snapshot.smart = SmartState::Available {
        snapshot: Box::new(smart),
        warnings: Vec::new(),
    };
    let figures = ScaledFigures {
        capacity: "2.0 GB".into(),
        data_read: "1.0 TB".into(),
        data_written: "0 B".into(),
        busy_hours: "0.0".into(),
    };
    let detail = render_detail(&snapshot, &figures, Locale::En);
    assert!(detail.contains("Data read (06)\t1.0 TB\t2000000"));
}

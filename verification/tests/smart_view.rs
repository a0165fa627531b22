use diskscry::domain::{
    evaluate_health, AtaSmartAttribute, AtaSmartSnapshot, ConnectionBus, ConnectionInfo,
    DecimalCounter, DeviceId, DeviceIdentity, DeviceIdentityData, DeviceRecord, DeviceSnapshot,
    NvmeSmartSnapshot, SmartSnapshot, SmartState, SmartUnavailableReason, StorageProtocol,
};
use diskscry::presentation::locale::Locale;
use diskscry::presentation::smart_view::{
    project_smart, render_smart_text, ScaledFigures, Severity, SmartViewKind,
};

fn format_bytes(bytes: f64) -> String {
    const UNITS: [&str; 6] = ["B", "KB", "MB", "GB", "TB", "PB"];
    let mut value = bytes;
    let mut index = 0;
    while value >= 1_000.0 && index < UNITS.len() - 1 {
        value /= 1_000.0;
        index += 1;
    }
    if index == 0 {
        format!("{value:.0} {}", UNITS[index])
    } else {
        format!("{value:.1} {}", UNITS[index])
    }
}

fn data_units(value: &str, locale: Locale) -> String {
    match value.parse::<f64>() {
        Ok(units) => format_bytes(units * 512_000.0),
        Err(_) => locale.messages().not_available.to_string(),
    }
}

fn figures(snapshot: &DeviceSnapshot, locale: Locale) -> ScaledFigures {
    let mut figures = ScaledFigures {
        capacity: format!(
            "{:.1} GB",
            snapshot.device.capacity_bytes as f64 / 1_000_000_000.0
        ),
        ..ScaledFigures::default()
    };
    if let SmartState::Available { snapshot: smart, .. } = &snapshot.smart {
        if let SmartSnapshot::Nvme { data } = smart.as_ref() {
            figures.data_read = data_units(&data.data_units_read.0, locale);
            figures.data_written = data_units(&data.data_units_written.0, locale);
            if let Ok(minutes) = data.controller_busy_minutes.0.parse::<u128>() {
                figures.busy_hours = format!("{:.1}", minutes as f64 / 60.0);
            }
        }
    }
    figures
}

fn available_snapshot(smart: SmartSnapshot) -> DeviceSnapshot {
    DeviceSnapshot {
        device: device(),
        health: evaluate_health(&smart),
        smart: SmartState::Available {
            snapshot: Box::new(smart),
            warnings: Vec::new(),
        },
        observed_at_unix_seconds: 0,
    }
}

fn device() -> DeviceRecord {
    DeviceRecord {
        id: DeviceId("disk:test".into()),
        generation: 1,
        device_node: "/dev/disk9".into(),
        identity: DeviceIdentity {
            model: Some("Test Disk".into()),
            serial: Some("SERIAL".into()),
            firmware: Some("1.0".into()),
        },
        connection: ConnectionInfo {
            protocol: StorageProtocol::Nvme,
            bus: ConnectionBus::Pcie,
            removable: false,
        },
        capacity_bytes: 1_000_000_000,
        external: true,
    }
}

fn nvme_defaults() -> NvmeSmartSnapshot {
    NvmeSmartSnapshot {
        identity: DeviceIdentityData::default(),
        critical_warning: 0,
        temperature_celsius: None,
        available_spare_percent: 100,
        available_spare_threshold_percent: 10,
        percentage_used: 0,
        data_units_read: DecimalCounter("0".into()),
        data_units_written: DecimalCounter("0".into()),
        host_read_commands: DecimalCounter("0".into()),
        host_write_commands: DecimalCounter("0".into()),
        controller_busy_minutes: DecimalCounter("0".into()),
        power_cycles: DecimalCounter("0".into()),
        power_on_hours: DecimalCounter("0".into()),
        unsafe_shutdowns: DecimalCounter("0".into()),
        media_errors: DecimalCounter("0".into()),
        error_log_entries: DecimalCounter("0".into()),
    }
}

#[test]
fn ata_projection_uses_catalog_and_preserves_raw_bytes() {
    let smart = SmartSnapshot::Ata {
        data: AtaSmartSnapshot {
            identity: DeviceIdentityData::default(),
            version: 1,
            overall_passed: Some(true),
            attributes: vec![
                AtaSmartAttribute {
                    id: 0x05,
                    flags: 0,
                    current: 5,
                    worst: 5,
                    threshold: Some(10),
                    raw_value: 3,
                    raw_bytes: [3, 2, 1, 0, 0, 0],
                },
                AtaSmartAttribute {
                    id: 0xAA,
                    flags: 0,
                    current: 1,
                    worst: 1,
                    threshold: None,
                    raw_value: 0,
                    raw_bytes: [0; 6],
                },
            ],
        },
    };
    let snapshot = available_snapshot(smart);
    let view = project_smart(&snapshot, &figures(&snapshot, Locale::ZhCn), Locale::ZhCn);
    assert_eq!(view.kind, SmartViewKind::Ata);
    assert_eq!(view.rows[0].cells[0], "重新分配扇区数 (05)");
    assert_eq!(view.rows[0].cells[5], "000000010203");
    assert_eq!(view.rows[0].severity, Severity::Warning);
    assert_eq!(view.rows[1].cells[0], "未知属性 (AA)");
}

#[test]
fn nvme_projection_formats_units_and_retains_exact_counter() {
    let smart = SmartSnapshot::Nvme {
        data: Box::new(NvmeSmartSnapshot {
            identity: DeviceIdentityData::default(),
            critical_warning: 0,
            temperature_celsius: Some(31),
            available_spare_percent: 100,
            available_spare_threshold_percent: 10,
            percentage_used: 1,
            data_units_read: DecimalCounter("2_000_000".replace('_', "")),
            data_units_written: DecimalCounter("0".into()),
            host_read_commands: DecimalCounter("1234567".into()),
            host_write_commands: DecimalCounter("0".into()),
            controller_busy_minutes: DecimalCounter("90".into()),
            power_cycles: DecimalCounter("10".into()),
            power_on_hours: DecimalCounter("48".into()),
            unsafe_shutdowns: DecimalCounter("0".into()),
            media_errors: DecimalCounter("0".into()),
            error_log_entries: DecimalCounter("0".into()),
        }),
    };
    let snapshot = available_snapshot(smart);
    let scaled = figures(&snapshot, Locale::En);
    let view = project_smart(&snapshot, &scaled, Locale::En);
    assert_eq!(view.kind, SmartViewKind::Nvme);
    let read = view
        .rows
        .iter()
        .find(|row| row.cells[0] == "Data read (06)")
        .unwrap();
    assert_eq!(read.cells[1], "1.0 TB");
    assert_eq!(read.cells[2], "2000000");
    assert!(
        view.rows
            .iter()
            .any(|row| row.cells[0] == "Media errors (0E)")
    );
    assert!(render_smart_text(&snapshot, &scaled, Locale::En).contains("1,234,567"));
}

#[test]
fn unavailable_projection_keeps_primary_label_and_reason() {
    let snapshot =
        DeviceSnapshot::unavailable(device(), SmartUnavailableReason::InterfaceNotExposed);
    let text = render_smart_text(&snapshot, &figures(&snapshot, Locale::ZhCn), Locale::ZhCn);
    assert!(text.contains("SMART 不可用"));
    assert!(text.contains("设备接口未公开 SMART 数据"));
}

#[test]
fn nvme_evidence_drives_row_severity() {
    let smart = SmartSnapshot::Nvme {
        data: Box::new(NvmeSmartSnapshot {
            critical_warning: 2,
            available_spare_percent: 5,
            available_spare_threshold_percent: 10,
            percentage_used: 100,
            ..nvme_defaults()
        }),
    };
    let snapshot = available_snapshot(smart);
    let view = project_smart(&snapshot, &figures(&snapshot, Locale::En), Locale::En);
    assert_eq!(view.rows[0].severity, Severity::Critical);
    assert_eq!(view.rows[2].severity, Severity::Warning);
    assert_eq!(view.rows[4].severity, Severity::Warning);
}

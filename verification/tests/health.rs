use diskscry::domain::{
    evaluate_ata, evaluate_nvme, AtaSmartAttribute, AtaSmartSnapshot, DecimalCounter,
    DeviceIdentityData, HealthState, HealthUnknownReason, NvmeSmartSnapshot,
};

fn nvme() -> NvmeSmartSnapshot {
    NvmeSmartSnapshot {
        identity: DeviceIdentityData::default(),
        critical_warning: 0,
        temperature_celsius: Some(30),
        available_spare_percent: 100,
        available_spare_threshold_percent: 10,
        percentage_used: 1,
        data_units_read: DecimalCounter::default(),
        data_units_written: DecimalCounter::default(),
        host_read_commands: DecimalCounter::default(),
        host_write_commands: DecimalCounter::default(),
        controller_busy_minutes: DecimalCounter::default(),
        power_cycles: DecimalCounter::default(),
        power_on_hours: DecimalCounter::default(),
        unsafe_shutdowns: DecimalCounter::default(),
        media_errors: DecimalCounter::default(),
        error_log_entries: DecimalCounter::default(),
    }
}

#[test]
fn nvme_critical_warning_is_critical() {
    let mut value = nvme();
    value.critical_warning = 0b10;
    assert!(matches!(
        evaluate_nvme(&value),
        HealthState::Critical { .. }
    ));
}

#[test]
fn ata_without_reported_status_is_unknown() {
    let value = AtaSmartSnapshot {
        identity: DeviceIdentityData::default(),
        version: 1,
        overall_passed: None,
        attributes: vec![AtaSmartAttribute {
            id: 5,
            flags: 0,
            current: 100,
            worst: 100,
            threshold: None,
            raw_value: 0,
            raw_bytes: [0; 6],
        }],
    };
    assert_eq!(
        evaluate_ata(&value),
        HealthState::Unknown {
            reason: HealthUnknownReason::InsufficientEvidence
        }
    );
}

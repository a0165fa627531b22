use diskscry::app::AppError;
use diskscry::domain::{
    evaluate_health, ConnectionBus, ConnectionInfo, DecimalCounter, DeviceId, DeviceIdentity,
    DeviceIdentityData, DeviceRecord, DeviceSnapshot, NvmeSmartSnapshot, SmartSnapshot, SmartState,
    SmartUnavailableReason, StorageProtocol,
};
use diskscry::presentation::locale::Locale;
use diskscry::presentation::tui::{TuiState, SAMPLE_LIMIT};

fn test_device() -> DeviceRecord {
    DeviceRecord {
        id: DeviceId("disk:external".into()),
        generation: 1,
        device_node: "/dev/disk9".into(),
        identity: DeviceIdentity {
            model: Some("External Test Disk".into()),
            serial: None,
            firmware: None,
        },
        connection: ConnectionInfo {
            protocol: StorageProtocol::Scsi,
            bus: ConnectionBus::Usb,
            removable: true,
        },
        capacity_bytes: 1_000_000_000,
        external: true,
    }
}

fn test_nvme(temperature: Option<i32>) -> NvmeSmartSnapshot {
    NvmeSmartSnapshot {
        identity: DeviceIdentityData::default(),
        critical_warning: 0,
        temperature_celsius: temperature,
        available_spare_percent: 100,
        available_spare_threshold_percent: 10,
        percentage_used: 1,
        data_units_read: DecimalCounter("2000000".into()),
        data_units_written: DecimalCounter("0".into()),
        host_read_commands: DecimalCounter("0".into()),
        host_write_commands: DecimalCounter("0".into()),
        controller_busy_minutes: DecimalCounter("0".into()),
        power_cycles: DecimalCounter("0".into()),
        power_on_hours: DecimalCounter("0".into()),
        unsafe_shutdowns: DecimalCounter("0".into()),
        media_errors: DecimalCounter("0".into()),
        error_log_entries: DecimalCounter("0".into()),
    }
}

fn nvme_snapshot_at(temperature: Option<i32>) -> DeviceSnapshot {
    let smart = SmartSnapshot::Nvme {
        data: Box::new(test_nvme(temperature)),
    };
    DeviceSnapshot {
        device: test_device(),
        health: evaluate_health(&smart),
        smart: SmartState::Available {
            snapshot: Box::new(smart),
            warnings: Vec::new(),
        },
        observed_at_unix_seconds: 0,
    }
}

fn available_nvme_snapshot() -> DeviceSnapshot {
    nvme_snapshot_at(Some(31))
}

fn with_id(mut snapshot: DeviceSnapshot, id: &str) -> DeviceSnapshot {
    snapshot.device.id = DeviceId(id.into());
    snapshot
}

#[test]
fn smart_viewport_pages_and_resets_on_disk_selection() {
    let mut second = available_nvme_snapshot();
    second.device.id = DeviceId("disk:second".into());
    let mut state = TuiState::new(vec![available_nvme_snapshot(), second], 60, Locale::En);
    state.set_smart_viewport(30, 10);
    state.smart_page_down();
    assert_eq!(state.smart_offset, 10);
    state.smart_end();
    assert_eq!(state.smart_offset, 20);
    state.smart_page_up();
    assert_eq!(state.smart_offset, 10);
    state.select_next();
    assert_eq!(state.smart_offset, 0);
}

#[test]
fn scheduler_respects_disabled_and_elapsed_intervals() {
    let disabled = TuiState::new(Vec::new(), 0, Locale::En);
    assert!(!disabled.should_refresh(0));

    let elapsed = TuiState::new(Vec::new(), 5, Locale::En);
    assert!(elapsed.should_refresh(6_000_000_000));
}

#[test]
fn hotplug_discards_stale_in_flight_snapshot() {
    let original =
        DeviceSnapshot::unavailable(test_device(), SmartUnavailableReason::InterfaceNotExposed);
    let mut state = TuiState::new(vec![original], 60, Locale::En);
    state.refresh_in_flight = true;
    state.refresh_pending = true;
    state.complete_refresh(Ok(Vec::new()));
    assert_eq!(state.devices.len(), 1);
    assert!(!state.refresh_in_flight);
    assert!(state.refresh_pending);
}

#[test]
fn scheduler_waits_for_the_full_interval() {
    let state = TuiState::new(Vec::new(), 5, Locale::En);
    assert!(!state.should_refresh(4_999_999_999));
    assert!(state.should_refresh(5_000_000_000));
    let disabled = TuiState::new(Vec::new(), 0, Locale::En);
    assert!(!disabled.should_refresh(u128::MAX));
}

#[test]
fn selection_wraps_in_both_directions() {
    let devices = vec![
        with_id(available_nvme_snapshot(), "disk:a"),
        with_id(available_nvme_snapshot(), "disk:b"),
        with_id(available_nvme_snapshot(), "disk:c"),
    ];
    let mut state = TuiState::new(devices, 60, Locale::En);
    assert_eq!(state.selected, Some(0));
    state.select_previous();
    assert_eq!(state.selected, Some(2));
    state.select_next();
    assert_eq!(state.selected, Some(0));
    state.select_next();
    state.select_next();
    assert_eq!(state.selected, Some(2));
    state.select_next();
    assert_eq!(state.selected, Some(0));
    assert_eq!(state.selected().unwrap().device.id.0, "disk:a");
}

#[test]
fn moving_on_an_empty_list_changes_nothing() {
    let mut state = TuiState::new(Vec::new(), 60, Locale::En);
    state.select_next();
    state.select_previous();
    assert_eq!(state.selected, None);
    assert!(state.selected().is_none());
}

#[test]
fn replacement_keeps_the_selected_disk_by_id() {
    let devices = vec![
        with_id(available_nvme_snapshot(), "disk:a"),
        with_id(available_nvme_snapshot(), "disk:b"),
    ];
    let mut state = TuiState::new(devices, 60, Locale::En);
    state.select_next();
    assert_eq!(state.selected, Some(1));
    state.replace_devices(vec![
        with_id(available_nvme_snapshot(), "disk:c"),
        with_id(available_nvme_snapshot(), "disk:a"),
        with_id(available_nvme_snapshot(), "disk:b"),
    ]);
    assert_eq!(state.selected, Some(2));
    assert_eq!(state.selected().unwrap().device.id.0, "disk:b");

    state.replace_devices(vec![with_id(available_nvme_snapshot(), "disk:z")]);
    assert_eq!(state.selected, Some(0));
    state.replace_devices(Vec::new());
    assert_eq!(state.selected, None);
}

#[test]
fn completed_refresh_replaces_devices_or_shows_the_error() {
    let mut state = TuiState::new(vec![available_nvme_snapshot()], 60, Locale::En);
    assert!(state.manual_refresh());
    assert!(!state.manual_refresh());
    assert!(!state.complete_refresh(Err(AppError::DeviceNotFound("disk99".into()))));
    assert!(!state.refresh_in_flight);
    assert_eq!(state.devices.len(), 1);
    let error = state.error.clone().unwrap();
    assert!(error.contains("disk99"));

    assert!(state.manual_refresh());
    assert!(state.complete_refresh(Ok(Vec::new())));
    assert!(state.devices.is_empty());
    assert!(state.error.is_none());
    assert_eq!(state.selected, None);
}

#[test]
fn inventory_change_during_refresh_marks_it_stale() {
    let mut state = TuiState::new(Vec::new(), 0, Locale::En);
    state.note_inventory_change(true);
    assert!(!state.refresh_pending);
    assert!(state.start_refresh(true, false));
    assert!(state.refresh_in_flight);
    state.note_inventory_change(true);
    assert!(state.refresh_pending);
    assert!(!state.start_refresh(true, true));
    assert!(!state.complete_refresh(Ok(Vec::new())));
    assert!(state.refresh_pending);
    assert!(state.start_refresh(false, false));
    assert!(!state.refresh_pending);
    assert!(state.refresh_in_flight);
}

#[test]
fn samples_accumulate_per_disk_and_stay_bounded() {
    let mut state = TuiState::new(vec![nvme_snapshot_at(Some(31))], 60, Locale::En);
    state.replace_devices(vec![nvme_snapshot_at(Some(-4))]);
    state.replace_devices(vec![nvme_snapshot_at(None)]);
    state.replace_devices(vec![with_id(nvme_snapshot_at(Some(50)), "disk:other")]);
    assert_eq!(state.samples_for("disk:external"), vec![31, 0]);
    assert_eq!(state.samples_for("disk:other"), vec![50]);
    assert!(state.samples_for("disk:missing").is_empty());

    for step in 0..(SAMPLE_LIMIT as i32 + 5) {
        state.replace_devices(vec![nvme_snapshot_at(Some(step))]);
    }
    let samples = state.samples_for("disk:external");
    assert_eq!(samples.len(), SAMPLE_LIMIT);
    assert_eq!(samples[SAMPLE_LIMIT - 1], SAMPLE_LIMIT as u64 + 4);
    assert_eq!(samples[0], 5);
}

#[test]
fn tabs_cycle_and_raw_view_toggles() {
    let mut state = TuiState::new(vec![available_nvme_snapshot()], 60, Locale::En);
    state.set_smart_viewport(40, 5);
    state.smart_page_down();
    state.toggle_smart_view();
    assert!(state.smart_raw);
    assert_eq!(state.smart_offset, 0);
    state.next_tab();
    state.next_tab();
    assert_eq!(state.tab, 2);
    state.next_tab();
    assert_eq!(state.tab, 0);
}

#[test]
fn viewport_shrinks_the_offset_with_its_content() {
    let mut state = TuiState::new(Vec::new(), 60, Locale::En);
    state.set_smart_viewport(100, 0);
    assert_eq!(state.smart_page_len, 1);
    state.smart_end();
    assert_eq!(state.max_smart_offset(), 99);
    assert_eq!(state.smart_offset, 99);
    state.set_smart_viewport(12, 10);
    assert_eq!(state.smart_offset, 2);
    state.smart_home();
    assert_eq!(state.smart_offset, 0);
    state.smart_page_up();
    assert_eq!(state.smart_offset, 0);
}

use diskscry::presentation::tui::{Key, KeyAction};

#[test]
fn keys_drive_the_interface() {
    let devices = vec![
        with_id(available_nvme_snapshot(), "disk:a"),
        with_id(available_nvme_snapshot(), "disk:b"),
    ];
    let mut state = TuiState::new(devices, 60, Locale::En);
    assert_eq!(state.handle_key(Key::Next), KeyAction::Redraw);
    assert_eq!(state.selected, Some(1));
    assert_eq!(state.handle_key(Key::Previous), KeyAction::Redraw);
    assert_eq!(state.selected, Some(0));

    state.set_smart_viewport(30, 10);
    assert_eq!(state.handle_key(Key::PageDown), KeyAction::Redraw);
    assert_eq!(state.smart_offset, 0, "scrolling only acts on the SMART tab");
    assert_eq!(state.handle_key(Key::ToggleView), KeyAction::Redraw);
    assert!(!state.smart_raw);

    state.handle_key(Key::Tab);
    assert_eq!(state.tab, 1);
    state.handle_key(Key::PageDown);
    assert_eq!(state.smart_offset, 10);
    state.handle_key(Key::End);
    assert_eq!(state.smart_offset, 20);
    state.handle_key(Key::PageUp);
    assert_eq!(state.smart_offset, 10);
    state.handle_key(Key::Home);
    assert_eq!(state.smart_offset, 0);
    state.handle_key(Key::ToggleView);
    assert!(state.smart_raw);

    assert_eq!(state.handle_key(Key::Refresh), KeyAction::StartRefresh);
    assert!(state.refresh_in_flight);
    assert_eq!(state.handle_key(Key::Refresh), KeyAction::Redraw);
    assert_eq!(state.handle_key(Key::Other), KeyAction::Redraw);
    assert_eq!(state.handle_key(Key::Quit), KeyAction::Quit);
}

use diskscry::presentation::smart_view::SmartViewKind;
use diskscry::presentation::tui::{page_len, smart_table_widths, summary_height, ColumnWidth};

#[test]
fn footer_shows_interval_or_refresh_error() {
    let mut state = TuiState::new(Vec::new(), 60, Locale::En);
    assert!(state.footer().ends_with(" 60s"));
    state.complete_refresh(Err(AppError::DeviceNotFound("disk7".into())));
    let footer = state.footer();
    assert!(footer.contains(" | device selector 'disk7'"));
    let chinese = TuiState::new(Vec::new(), 0, Locale::ZhCn);
    assert!(chinese.footer().contains("q 退出"));
    assert!(chinese.footer().ends_with(" 0s"));
}

#[test]
fn disk_rows_narrow_on_the_smart_tab() {
    let unavailable =
        DeviceSnapshot::unavailable(test_device(), SmartUnavailableReason::InterfaceNotExposed);
    let mut state = TuiState::new(vec![unavailable], 60, Locale::ZhCn);
    let rows = state.disk_rows();
    assert_eq!(rows.len(), 1);
    assert_eq!(rows[0][0], "/dev/disk9");
    assert_eq!(rows[0][1], "External Test Disk");
    assert_eq!(rows[0][3], "SMART 不可用");
    state.next_tab();
    assert_eq!(state.disk_rows(), vec![vec!["/dev/disk9".to_string()]]);
}

#[test]
fn smart_table_layout_follows_the_area() {
    assert_eq!(smart_table_widths(SmartViewKind::Nvme, 90)[0], ColumnWidth::Length(28));
    assert_eq!(smart_table_widths(SmartViewKind::Nvme, 89)[0], ColumnWidth::Fill(1));
    assert_eq!(smart_table_widths(SmartViewKind::Ata, 108).len(), 6);
    assert_eq!(smart_table_widths(SmartViewKind::Ata, 107)[4], ColumnWidth::Length(12));
    assert!(smart_table_widths(SmartViewKind::Diagnostic, 200).is_empty());
    assert_eq!(page_len(24, 3), 21);
    assert_eq!(page_len(2, 3), 1);
    assert_eq!(summary_height(5, 2, true, 40), 9);
    assert_eq!(summary_height(5, 2, false, 40), 7);
    assert_eq!(summary_height(5, 2, true, 6), 5);
    assert_eq!(summary_height(usize::MAX, 2, true, u16::MAX), u16::MAX - 1);
}

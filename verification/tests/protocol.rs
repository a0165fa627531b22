use diskscry::domain::DeviceIdentityData;
use diskscry::protocol::ata::{parse_identify, parse_smart, ATA_SECTOR_SIZE};
use diskscry::protocol::nvme::{
    parse_identify_controller, parse_smart_log, IDENTIFY_CONTROLLER_SIZE, SMART_LOG_SIZE,
};
use diskscry::protocol::ParseError;

fn finalize_checksum(page: &mut [u8; ATA_SECTOR_SIZE]) {
    let sum = page[..ATA_SECTOR_SIZE - 1]
        .iter()
        .fold(0_u8, |sum, byte| sum.wrapping_add(*byte));
    page[ATA_SECTOR_SIZE - 1] = 0_u8.wrapping_sub(sum);
}

fn write_ata_string(page: &mut [u8; ATA_SECTOR_SIZE], start_word: usize, text: &str) {
    let mut bytes = text.as_bytes().to_vec();
    if bytes.len() % 2 != 0 {
        bytes.push(b' ');
    }
    for (index, pair) in bytes.chunks_exact(2).enumerate() {
        page[(start_word + index) * 2] = pair[1];
        page[(start_word + index) * 2 + 1] = pair[0];
    }
}

#[test]
fn parses_identify_word_swapped_strings() {
    let mut page = [b' '; ATA_SECTOR_SIZE];
    write_ata_string(&mut page, 10, "SERIAL123");
    write_ata_string(&mut page, 23, "1.0");
    write_ata_string(&mut page, 27, "DiskScry Test Disk");

    let identity = parse_identify(&page).unwrap();
    assert_eq!(identity.serial.as_deref(), Some("SERIAL123"));
    assert_eq!(identity.firmware.as_deref(), Some("1.0"));
    assert_eq!(identity.model.as_deref(), Some("DiskScry Test Disk"));
}

#[test]
fn parses_attributes_and_thresholds() {
    let mut data = [0_u8; ATA_SECTOR_SIZE];
    data[0..2].copy_from_slice(&1_u16.to_le_bytes());
    data[2] = 5;
    data[3..5].copy_from_slice(&1_u16.to_le_bytes());
    data[5] = 10;
    data[6] = 9;
    data[7..13].copy_from_slice(&[1, 2, 3, 4, 5, 6]);
    finalize_checksum(&mut data);

    let mut thresholds = [0_u8; ATA_SECTOR_SIZE];
    thresholds[2] = 5;
    thresholds[3] = 11;
    finalize_checksum(&mut thresholds);

    let snapshot = parse_smart(
        DeviceIdentityData::default(),
        &data,
        Some(&thresholds),
        Some(true),
    )
    .unwrap();
    let attribute = &snapshot.attributes[0];
    assert_eq!(attribute.id, 5);
    assert_eq!(attribute.threshold, Some(11));
    assert!(attribute.threshold_crossed());
    assert_eq!(attribute.raw_value, 0x0605_0403_0201);
}

#[test]
fn rejects_invalid_checksum() {
    let mut data = [0_u8; ATA_SECTOR_SIZE];
    data[3] = 1;
    assert!(matches!(
        parse_smart(DeviceIdentityData::default(), &data, None, None),
        Err(ParseError::InvalidChecksum { .. })
    ));
}

#[test]
fn parses_identify_and_health_log() {
    let mut identify = [0_u8; IDENTIFY_CONTROLLER_SIZE];
    identify[4..24].copy_from_slice(b"SERIAL              ");
    identify[24..64].copy_from_slice(b"DiskScry NVMe                           ");
    identify[64..72].copy_from_slice(b"1.0     ");
    let identity = parse_identify_controller(&identify).unwrap();

    let mut log = [0_u8; SMART_LOG_SIZE];
    log[0] = 0;
    log[1..3].copy_from_slice(&303_u16.to_le_bytes());
    log[3] = 100;
    log[4] = 10;
    log[5] = 4;
    log[32..48].copy_from_slice(&1234_u128.to_le_bytes());

    let snapshot = parse_smart_log(identity, &log).unwrap();
    assert_eq!(snapshot.identity.serial.as_deref(), Some("SERIAL"));
    assert_eq!(snapshot.temperature_celsius, Some(30));
    assert_eq!(snapshot.data_units_read.0, "1234");
}

#[test]
fn rejects_short_log() {
    assert!(matches!(
        parse_smart_log(DeviceIdentityData::default(), &[0; 64]),
        Err(ParseError::Truncated { .. })
    ));
}

use diskscry::domain::{SmartReadStage, SmartSnapshot, SmartState};
use diskscry::platform::smart::{
    ata_identity, ata_smart_state, nvme_identity, nvme_smart_state, AtaIdentifyRead,
};

fn valid_smart_page() -> [u8; ATA_SECTOR_SIZE] {
    let mut data = [0_u8; ATA_SECTOR_SIZE];
    data[0] = 16;
    data[2] = 194;
    data[5] = 100;
    data[6] = 100;
    data[7] = 35;
    finalize_checksum(&mut data);
    data
}

#[test]
fn ata_identity_reports_why_it_has_none() {
    let (identity, warning) = ata_identity(None);
    assert_eq!(identity, DeviceIdentityData::default());
    assert_eq!(
        warning.unwrap().message,
        "IOATASMARTInterface does not expose GetATAIdentifyData"
    );

    let (_, warning) = ata_identity(Some(AtaIdentifyRead {
        status: 0,
        output_size: 256,
        bytes: vec![0; 512],
    }));
    let warning = warning.unwrap();
    assert_eq!(warning.stage, SmartReadStage::Identify);
    assert_eq!(warning.native_code, Some(0));
    assert_eq!(warning.message, "read ATA identify data failed with native status 0x0");

    let mut page = [b' '; ATA_SECTOR_SIZE];
    write_ata_string(&mut page, 27, "Model X");
    let (identity, warning) = ata_identity(Some(AtaIdentifyRead {
        status: 0,
        output_size: 512,
        bytes: page.to_vec(),
    }));
    assert!(warning.is_none());
    assert_eq!(identity.model.as_deref(), Some("Model X"));
}

#[test]
fn ata_read_keeps_warnings_in_call_order() {
    let identity_warning = ata_identity(None).1;
    let state = ata_smart_state(
        DeviceIdentityData::default(),
        identity_warning,
        &valid_smart_page(),
        Some((7, vec![0; 512])),
        Some((0, 1)),
    );
    match state {
        SmartState::Available { snapshot, warnings } => {
            assert_eq!(warnings.len(), 2);
            assert_eq!(warnings[0].stage, SmartReadStage::Identify);
            assert_eq!(warnings[1].stage, SmartReadStage::Thresholds);
            assert_eq!(
                warnings[1].message,
                "read ATA SMART thresholds failed with native status 0x7"
            );
            match *snapshot {
                SmartSnapshot::Ata { data } => {
                    assert_eq!(data.version, 16);
                    assert_eq!(data.overall_passed, Some(false));
                    assert_eq!(data.attributes.len(), 1);
                    assert_eq!(data.attributes[0].threshold, None);
                    assert_eq!(data.attributes[0].raw_value, 35);
                }
                other => panic!("unexpected {other:?}"),
            }
        }
        other => panic!("unexpected {other:?}"),
    }

    let mut broken = valid_smart_page();
    broken[100] ^= 1;
    match ata_smart_state(DeviceIdentityData::default(), None, &broken, None, None) {
        SmartState::Failed { error } => {
            assert_eq!(error.stage, SmartReadStage::Parse);
            assert_eq!(error.operation, "parse SMART response");
        }
        other => panic!("unexpected {other:?}"),
    }
}

#[test]
fn nvme_reads_report_short_buffers() {
    let (identity, warning) = nvme_identity(Some((0, vec![0; 100])));
    assert_eq!(identity, DeviceIdentityData::default());
    assert_eq!(warning.unwrap().stage, SmartReadStage::Identify);
    let (_, warning) = nvme_identity(Some((0x2c1, vec![0; 4096])));
    assert!(warning.unwrap().permission_denied);

    match nvme_smart_state(DeviceIdentityData::default(), None, &[0; 64]) {
        SmartState::Failed { error } => assert_eq!(error.stage, SmartReadStage::Parse),
        other => panic!("unexpected {other:?}"),
    }
    let mut log = [0_u8; SMART_LOG_SIZE];
    log[1] = 0x2f;
    log[2] = 0x01;
    match nvme_smart_state(DeviceIdentityData::default(), None, &log) {
        SmartState::Available { snapshot, warnings } => {
            assert!(warnings.is_empty());
            match *snapshot {
                SmartSnapshot::Nvme { data } => assert_eq!(data.temperature_celsius, Some(30)),
                other => panic!("unexpected {other:?}"),
            }
        }
        other => panic!("unexpected {other:?}"),
    }
}

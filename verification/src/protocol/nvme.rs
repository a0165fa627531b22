//! NVMe Identify Controller data and the SMART / Health Information log.

use vstd::prelude::*;

use crate::domain::{DecimalCounter, DeviceIdentityData, HealthEvidence, NvmeSmartSnapshot};
use crate::domain::health::{nvme_verdict, nvme_warnings, HealthVerdict};
use crate::text::decimal;

use super::bytes::{reads_as, le_u128, le_value, opt_text, require_len, trimmed_range, ParseError};

verus! {

/// Size of the Identify Controller data structure.
pub const IDENTIFY_CONTROLLER_SIZE: usize = 4096;

/// Size of the SMART / Health Information log page.
pub const SMART_LOG_SIZE: usize = 512;

/// Decodes serial number, model number and firmware revision.
pub fn parse_identify_controller(bytes: &[u8]) -> (r: Result<DeviceIdentityData, ParseError>)
    ensures
        r is Ok <==> bytes@.len() >= 4096,
        r is Err ==> r->Err_0 == (ParseError::Truncated {
            structure: "NVMe Identify Controller",
            expected: 4096,
            actual: bytes@.len() as usize,
        }),
        r is Ok ==> {
            &&& reads_as(opt_text(r->Ok_0.serial), bytes@.subrange(4, 24))
            &&& reads_as(opt_text(r->Ok_0.model), bytes@.subrange(24, 64))
            &&& reads_as(opt_text(r->Ok_0.firmware), bytes@.subrange(64, 72))
        },
{
    require_len(bytes, IDENTIFY_CONTROLLER_SIZE, "NVMe Identify Controller")?;
    Ok(
        DeviceIdentityData {
            serial: trimmed_range(bytes, 4, 24),
            model: trimmed_range(bytes, 24, 64),
            firmware: trimmed_range(bytes, 64, 72),
        },
    )
}

/// The 128-bit little-endian counter at `offset`, as decimal text.
pub open spec fn counter_text(bytes: Seq<u8>, offset: int) -> Seq<char> {
    decimal(le_value(bytes.subrange(offset, offset + 16)))
}

/// The composite temperature: Kelvin converted to Celsius, absent when
/// the device reports zero.
pub open spec fn log_temperature(bytes: Seq<u8>) -> Option<i32> {
    let kelvin = bytes[1] + 256 * bytes[2];
    if kelvin != 0 {
        Some((kelvin - 273) as i32)
    } else {
        None
    }
}

/// `s` holds the fields of the log page `bytes`.
pub open spec fn decodes_smart_log(s: NvmeSmartSnapshot, bytes: Seq<u8>) -> bool {
    &&& s.critical_warning == bytes[0]
    &&& s.temperature_celsius == log_temperature(bytes)
    &&& s.available_spare_percent == bytes[3]
    &&& s.available_spare_threshold_percent == bytes[4]
    &&& s.percentage_used == bytes[5]
    &&& s.data_units_read.0@ == counter_text(bytes, 32)
    &&& s.data_units_written.0@ == counter_text(bytes, 48)
    &&& s.host_read_commands.0@ == counter_text(bytes, 64)
    &&& s.host_write_commands.0@ == counter_text(bytes, 80)
    &&& s.controller_busy_minutes.0@ == counter_text(bytes, 96)
    &&& s.power_cycles.0@ == counter_text(bytes, 112)
    &&& s.power_on_hours.0@ == counter_text(bytes, 128)
    &&& s.unsafe_shutdowns.0@ == counter_text(bytes, 144)
    &&& s.media_errors.0@ == counter_text(bytes, 160)
    &&& s.error_log_entries.0@ == counter_text(bytes, 176)
}

/// Where each field sits in the SMART / Health Information log page: byte 0
/// is the critical warning, bytes 1 and 2 the composite temperature in
/// kelvin (little-endian), byte 3 the available spare, byte 4 the spare
/// threshold, byte 5 the percentage used, and from byte 32 on ten 16-byte
/// little-endian counters: data units read and written, host read and
/// write commands, controller busy time, power cycles, power-on hours,
/// unsafe shutdowns, media errors and error log entries.
pub proof fn lemma_log_layout(s: NvmeSmartSnapshot, bytes: Seq<u8>)
    requires
        decodes_smart_log(s, bytes),
    ensures
        s.critical_warning == bytes[0],
        bytes[1] + 256 * bytes[2] == 0 ==> s.temperature_celsius is None,
        bytes[1] + 256 * bytes[2] != 0 ==> s.temperature_celsius == Some(
            (bytes[1] + 256 * bytes[2] - 273) as i32,
        ),
        s.available_spare_percent == bytes[3],
        s.available_spare_threshold_percent == bytes[4],
        s.percentage_used == bytes[5],
        s.data_units_read.0@ == decimal(le_value(bytes.subrange(32, 48))),
        s.data_units_written.0@ == decimal(le_value(bytes.subrange(48, 64))),
        s.host_read_commands.0@ == decimal(le_value(bytes.subrange(64, 80))),
        s.host_write_commands.0@ == decimal(le_value(bytes.subrange(80, 96))),
        s.controller_busy_minutes.0@ == decimal(le_value(bytes.subrange(96, 112))),
        s.power_cycles.0@ == decimal(le_value(bytes.subrange(112, 128))),
        s.power_on_hours.0@ == decimal(le_value(bytes.subrange(128, 144))),
        s.unsafe_shutdowns.0@ == decimal(le_value(bytes.subrange(144, 160))),
        s.media_errors.0@ == decimal(le_value(bytes.subrange(160, 176))),
        s.error_log_entries.0@ == decimal(le_value(bytes.subrange(176, 192))),
{
}

/// A decoded log page with no critical warning, the available spare (byte
/// 3) at or above its threshold (byte 4) and less than 100% used (byte 5)
/// is healthy; a spare below its threshold is never healthy, and the
/// evidence names the spare as byte 3 and the threshold as byte 4.
pub proof fn lemma_log_spare_health(s: NvmeSmartSnapshot, bytes: Seq<u8>)
    requires
        decodes_smart_log(s, bytes),
    ensures
        (bytes[0] == 0 && bytes[3] >= bytes[4] && bytes[5] < 100) ==> nvme_verdict(s)
            == HealthVerdict::Healthy(seq![HealthEvidence::NvmeCriticalWarning { bits: 0 }]),
        (bytes[0] == 0 && bytes[3] < bytes[4]) ==> (nvme_verdict(s) matches HealthVerdict::Warning(ev)
            && ev[0] == HealthEvidence::NvmeSpare {
            available_percent: bytes[3],
            threshold_percent: bytes[4],
        }),
{
    if bytes[0] == 0 && bytes[3] >= bytes[4] && bytes[5] < 100 {
        assert(nvme_warnings(s) =~= Seq::<HealthEvidence>::empty());
    }
}

/// Decodes the SMART / Health Information log page.
pub fn parse_smart_log(identity: DeviceIdentityData, bytes: &[u8]) -> (r: Result<
    NvmeSmartSnapshot,
    ParseError,
>)
    ensures
        r is Ok <==> bytes@.len() >= 512,
        r is Err ==> r->Err_0 == (ParseError::Truncated {
            structure: "NVMe SMART / Health log",
            expected: 512,
            actual: bytes@.len() as usize,
        }),
        r is Ok ==> r->Ok_0.identity == identity && decodes_smart_log(r->Ok_0, bytes@),
        r is Ok ==> {
            let s = r->Ok_0;
            &&& s.critical_warning == bytes@[0]
            &&& s.available_spare_percent == bytes@[3]
            &&& s.available_spare_threshold_percent == bytes@[4]
            &&& s.percentage_used == bytes@[5]
            &&& s.host_read_commands.0@ == decimal(le_value(bytes@.subrange(64, 80)))
            &&& s.host_write_commands.0@ == decimal(le_value(bytes@.subrange(80, 96)))
        },
{
    require_len(bytes, SMART_LOG_SIZE, "NVMe SMART / Health log")?;
    let kelvin: u16 = bytes[1] as u16 + 256 * bytes[2] as u16;
    let temperature_celsius = if kelvin != 0 {
        Some(kelvin as i32 - 273)
    } else {
        None
    };
    Ok(
        NvmeSmartSnapshot {
            identity,
            critical_warning: bytes[0],
            temperature_celsius,
            available_spare_percent: bytes[3],
            available_spare_threshold_percent: bytes[4],
            percentage_used: bytes[5],
            data_units_read: counter(bytes, 32),
            data_units_written: counter(bytes, 48),
            host_read_commands: counter(bytes, 64),
            host_write_commands: counter(bytes, 80),
            controller_busy_minutes: counter(bytes, 96),
            power_cycles: counter(bytes, 112),
            power_on_hours: counter(bytes, 128),
            unsafe_shutdowns: counter(bytes, 144),
            media_errors: counter(bytes, 160),
            error_log_entries: counter(bytes, 176),
        },
    )
}

/// The 16-byte little-endian counter at `offset`.
fn counter(bytes: &[u8], offset: usize) -> (c: DecimalCounter)
    requires
        offset + 16 <= bytes@.len(),
    ensures
        c.0@ == counter_text(bytes@, offset as int),
{
    DecimalCounter::from_count(le_u128(bytes, offset, 16))
}

} // verus!

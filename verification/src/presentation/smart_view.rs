//! The readable SMART projection: a summary, a table of localized metrics
//! with exact raw values, and diagnostics.

use vstd::prelude::*;

use crate::domain::{
    crossed, AtaSmartAttribute, AtaSmartSnapshot, DecimalCounter, DeviceIdentityData,
    DeviceSnapshot, HealthState, NvmeSmartSnapshot, SmartReadError, SmartReadStage, SmartSnapshot,
    SmartState, SmartUnavailableReason,
};
use crate::text::{
    decimal, digits, group_decimal, grouped, hex2_upper, i32_text, is_digit, owned, parse_u128,
    parsed_u128, push_str, signed_decimal, u128_text, u64_text, u8_text, zero_padded,
};

use crate::domain::health::{nvme_verdict, nvme_warnings, HealthEvidence};
use crate::protocol::bytes::le_value;
use crate::protocol::nvme::decodes_smart_log;

use super::locale::{health_text, messages_of, smart_text, Locale, Messages};
use super::smart_catalog::{ata_attribute_name, attribute_name};

verus! {

/// How much attention a value calls for.
#[derive(Clone, Copy, Debug, Default, PartialEq, Eq)]
pub enum Severity {
    #[default]
    Normal,
    Warning,
    Critical,
}

/// A labelled summary value.
#[derive(Clone, Debug, PartialEq, Eq)]
pub struct SmartField {
    pub label: &'static str,
    pub value: String,
    pub severity: Severity,
}

/// One table row.
#[derive(Clone, Debug, PartialEq, Eq)]
pub struct SmartRow {
    pub cells: Vec<String>,
    pub severity: Severity,
}

/// Which table a view holds.
#[derive(Clone, Copy, Debug, PartialEq, Eq)]
pub enum SmartViewKind {
    Ata,
    Nvme,
    Diagnostic,
}

/// The readable projection of a disk's SMART state.
#[derive(Clone, Debug, PartialEq, Eq)]
pub struct SmartView {
    pub kind: SmartViewKind,
    pub summary: Vec<SmartField>,
    pub columns: Vec<&'static str>,
    pub rows: Vec<SmartRow>,
    pub diagnostics: Vec<String>,
}

/// Figures whose text comes from binary floating-point arithmetic, which
/// the caller renders: the capacity (`{:.1} GB` of bytes / 10^9), NVMe data
/// read and written (512,000-byte units scaled by 1000 to B…PB, or the
/// locale's N/A when the counter is not a number), and the controller busy
/// time in hours (`{:.1}` of minutes / 60).
#[derive(Clone, Debug, Default, PartialEq, Eq)]
pub struct ScaledFigures {
    pub capacity: String,
    pub data_read: String,
    pub data_written: String,
    pub busy_hours: String,
}

/// A summary field as text.
pub struct FieldText {
    pub label: Seq<char>,
    pub value: Seq<char>,
    pub severity: Severity,
}

/// A table row as text.
pub struct RowText {
    pub cells: Seq<Seq<char>>,
    pub severity: Severity,
}

/// A SMART view as text.
pub struct ViewText {
    pub kind: SmartViewKind,
    pub summary: Seq<FieldText>,
    pub columns: Seq<Seq<char>>,
    pub rows: Seq<RowText>,
    pub diagnostics: Seq<Seq<char>>,
}

/// The characters of each string.
pub open spec fn texts(v: Seq<String>) -> Seq<Seq<char>> {
    Seq::new(v.len(), |i: int| v[i]@)
}

/// The characters of each string slice.
pub open spec fn str_texts(v: Seq<&'static str>) -> Seq<Seq<char>> {
    Seq::new(v.len(), |i: int| v[i]@)
}

impl View for SmartField {
    type V = FieldText;

    open spec fn view(&self) -> FieldText {
        FieldText { label: self.label@, value: self.value@, severity: self.severity }
    }
}

impl View for SmartRow {
    type V = RowText;

    open spec fn view(&self) -> RowText {
        RowText { cells: texts(self.cells@), severity: self.severity }
    }
}

/// The rows of a table as text.
pub open spec fn row_texts(v: Seq<SmartRow>) -> Seq<RowText> {
    Seq::new(v.len(), |i: int| v[i]@)
}

/// The summary fields as text.
pub open spec fn field_texts(v: Seq<SmartField>) -> Seq<FieldText> {
    Seq::new(v.len(), |i: int| v[i]@)
}

impl View for SmartView {
    type V = ViewText;

    open spec fn view(&self) -> ViewText {
        ViewText {
            kind: self.kind,
            summary: field_texts(self.summary@),
            columns: str_texts(self.columns@),
            rows: row_texts(self.rows@),
            diagnostics: texts(self.diagnostics@),
        }
    }
}

// ---------------------------------------------------------------------------
// Value formats
// ---------------------------------------------------------------------------

/// `{:02X}`.
pub open spec fn hex2(n: u8) -> Seq<char> {
    zero_padded(digits(n as nat, 16, true), 2)
}

/// Thousands grouping of a text, measured in UTF-8 bytes.
pub open spec fn group_text(s: Seq<char>) -> Seq<char> {
    grouped(s, vstd::utf8::encode_utf8(s).len() as int)
}

/// `name (XX)`: a metric name with its two-digit hexadecimal code.
pub open spec fn coded_metric_text(name: Seq<char>, code: u8) -> Seq<char> {
    name + " ("@ + hex2(code) + ")"@
}

/// A temperature in degrees Celsius.
pub open spec fn celsius_text(t: i32) -> Seq<char> {
    signed_decimal(t as int) + " °C"@
}

/// Hours, with whole days first when there is at least one; the locale's
/// N/A when the text is not an unsigned integer.
pub open spec fn hours_text(value: Seq<char>, m: Messages) -> Seq<char> {
    match parsed_u128(value) {
        None => m.not_available@,
        Some(hours) => if hours / 24 == 0 {
            group_text(value) + " "@ + m.hours@
        } else {
            group_text(decimal(hours / 24)) + " "@ + m.days@ + " / "@ + group_text(value) + " "@
                + m.hours@
        },
    }
}

/// Minutes, with the hours from `busy_hours` first from one hour up; the
/// locale's N/A when the text is not an unsigned integer.
pub open spec fn minutes_text(value: Seq<char>, m: Messages, busy_hours: Seq<char>) -> Seq<char> {
    match parsed_u128(value) {
        None => m.not_available@,
        Some(minutes) => if minutes < 60 {
            group_text(value) + " "@ + m.minutes@
        } else {
            busy_hours + " "@ + m.hours@ + " / "@ + group_text(value) + " "@ + m.minutes@
        },
    }
}

/// A count: grouped when the text is a nonempty run of ASCII digits,
/// otherwise the locale's N/A.
pub open spec fn count_text(value: Seq<char>, m: Messages) -> Seq<char> {
    if value.len() > 0 && forall|i: int| 0 <= i < value.len() ==> is_digit(#[trigger] value[i]) {
        group_text(value)
    } else {
        m.not_available@
    }
}

/// The six raw bytes as hexadecimal, most significant first.
pub open spec fn raw_bytes_text(b: Seq<u8>) -> Seq<char> {
    hex2(b[5]) + hex2(b[4]) + hex2(b[3]) + hex2(b[2]) + hex2(b[1]) + hex2(b[0])
}

/// Attributes whose raw value is a count.
pub open spec fn is_count_attribute(id: u8) -> bool {
    id == 0x0C || id == 0x04 || id == 0x05 || id == 0xBB || id == 0xBC || id == 0xBF || id == 0xC0
        || id == 0xC1 || id == 0xC4 || id == 0xC5 || id == 0xC6 || id == 0xC7
}

/// The interpretation of an ATA raw value: power-on hours, a count, a
/// temperature in the lowest raw byte (up to 125 °C), or a dash.
pub open spec fn interpretation(a: AtaSmartAttribute, m: Messages) -> Seq<char> {
    if a.id == 0x09 {
        hours_text(decimal(a.raw_value as nat), m)
    } else if is_count_attribute(a.id) {
        group_text(decimal(a.raw_value as nat))
    } else if (a.id == 0xBE || a.id == 0xC2) && a.raw_bytes@[0] <= 125 {
        decimal(a.raw_bytes@[0] as nat) + " °C"@
    } else {
        "—"@
    }
}

/// The unavailability reason in words.
pub open spec fn reason_text(reason: SmartUnavailableReason, m: Messages) -> Seq<char> {
    match reason {
        SmartUnavailableReason::InterfaceNotExposed => m.interface_not_exposed@,
        SmartUnavailableReason::DeviceNotSmartCapable => m.device_not_smart_capable@,
        SmartUnavailableReason::UnsupportedProtocol { protocol } => m.unsupported_protocol@ + ": "@
            + protocol@,
        SmartUnavailableReason::UnsupportedTransport { transport } => m.unsupported_transport@
            + ": "@ + transport@,
    }
}

/// The name of a read stage (its `Debug` text).
pub open spec fn stage_text(stage: SmartReadStage) -> Seq<char> {
    match stage {
        SmartReadStage::InterfaceAcquisition => "InterfaceAcquisition"@,
        SmartReadStage::Identify => "Identify"@,
        SmartReadStage::SmartData => "SmartData"@,
        SmartReadStage::Thresholds => "Thresholds"@,
        SmartReadStage::Parse => "Parse"@,
    }
}

/// The severity a health state gives the summary.
pub open spec fn severity_of(health: HealthState) -> Severity {
    match health {
        HealthState::Warning { .. } => Severity::Warning,
        HealthState::Critical { .. } => Severity::Critical,
        _ => Severity::Normal,
    }
}

fn coded_metric(name: &str, code: u8) -> (s: String)
    ensures
        s@ == coded_metric_text(name@, code),
{
    let mut s = owned(name);
    push_str(&mut s, " (");
    let h = hex2_upper(code);
    push_str(&mut s, h.as_str());
    push_str(&mut s, ")");
    s
}

fn celsius(t: i32) -> (s: String)
    ensures
        s@ == celsius_text(t),
{
    let mut s = i32_text(t);
    push_str(&mut s, " °C");
    s
}

/// Renders hours.
pub fn format_hours(value: &str, messages: &Messages) -> (s: String)
    ensures
        s@ == hours_text(value@, *messages),
{
    match parse_u128(value) {
        None => owned(messages.not_available),
        Some(hours) => {
            let days = hours / 24;
            if days == 0 {
                let mut s = group_decimal(value);
                push_str(&mut s, " ");
                push_str(&mut s, messages.hours);
                s
            } else {
                let d = u128_text(days);
                let mut s = group_decimal(d.as_str());
                push_str(&mut s, " ");
                push_str(&mut s, messages.days);
                push_str(&mut s, " / ");
                let g = group_decimal(value);
                push_str(&mut s, g.as_str());
                push_str(&mut s, " ");
                push_str(&mut s, messages.hours);
                s
            }
        },
    }
}

/// Renders minutes; `busy_hours` is the caller's rendering of the hours.
pub fn format_minutes(value: &str, messages: &Messages, busy_hours: &str) -> (s: String)
    ensures
        s@ == minutes_text(value@, *messages, busy_hours@),
{
    match parse_u128(value) {
        None => owned(messages.not_available),
        Some(minutes) => {
            if minutes < 60 {
                let mut s = group_decimal(value);
                push_str(&mut s, " ");
                push_str(&mut s, messages.minutes);
                s
            } else {
                let mut s = owned(busy_hours);
                push_str(&mut s, " ");
                push_str(&mut s, messages.hours);
                push_str(&mut s, " / ");
                let g = group_decimal(value);
                push_str(&mut s, g.as_str());
                push_str(&mut s, " ");
                push_str(&mut s, messages.minutes);
                s
            }
        },
    }
}

/// Renders a count.
pub fn format_decimal_count(value: &str, messages: &Messages) -> (s: String)
    ensures
        s@ == count_text(value@, *messages),
{
    let cs = crate::text::chars_of(value);
    let mut i: usize = 0;
    while i < cs.len()
        invariant
            cs@ == value@,
            i <= cs.len(),
            forall|k: int| 0 <= k < i ==> is_digit(#[trigger] cs@[k]),
        decreases cs.len() - i,
    {
        if !('0' <= cs[i] && cs[i] <= '9') {
            assert(!is_digit(value@[i as int]));
            return owned(messages.not_available);
        }
        i = i + 1;
    }
    if cs.len() == 0 {
        return owned(messages.not_available);
    }
    group_decimal(value)
}

fn format_ata_raw(bytes: [u8; 6]) -> (s: String)
    ensures
        s@ == raw_bytes_text(bytes@),
{
    let mut s = hex2_upper(bytes[5]);
    let h4 = hex2_upper(bytes[4]);
    push_str(&mut s, h4.as_str());
    let h3 = hex2_upper(bytes[3]);
    push_str(&mut s, h3.as_str());
    let h2 = hex2_upper(bytes[2]);
    push_str(&mut s, h2.as_str());
    let h1 = hex2_upper(bytes[1]);
    push_str(&mut s, h1.as_str());
    let h0 = hex2_upper(bytes[0]);
    push_str(&mut s, h0.as_str());
    s
}

fn interpret_ata(attribute: &AtaSmartAttribute, messages: &Messages) -> (s: String)
    ensures
        s@ == interpretation(*attribute, *messages),
{
    let id = attribute.id;
    if id == 0x09 {
        let raw = u64_text(attribute.raw_value);
        format_hours(raw.as_str(), messages)
    } else if id == 0x0C || id == 0x04 || id == 0x05 || id == 0xBB || id == 0xBC || id == 0xBF
        || id == 0xC0 || id == 0xC1 || id == 0xC4 || id == 0xC5 || id == 0xC6 || id == 0xC7 {
        let raw = u64_text(attribute.raw_value);
        group_decimal(raw.as_str())
    } else if (id == 0xBE || id == 0xC2) && attribute.raw_bytes[0] <= 125 {
        let mut s = u8_text(attribute.raw_bytes[0]);
        push_str(&mut s, " °C");
        s
    } else {
        owned("—")
    }
}

fn format_unavailable_reason(reason: &SmartUnavailableReason, messages: &Messages) -> (s: String)
    ensures
        s@ == reason_text(*reason, *messages),
{
    match reason {
        SmartUnavailableReason::InterfaceNotExposed => owned(messages.interface_not_exposed),
        SmartUnavailableReason::DeviceNotSmartCapable => owned(messages.device_not_smart_capable),
        SmartUnavailableReason::UnsupportedProtocol { protocol } => {
            let mut s = owned(messages.unsupported_protocol);
            push_str(&mut s, ": ");
            push_str(&mut s, protocol.as_str());
            s
        },
        SmartUnavailableReason::UnsupportedTransport { transport } => {
            let mut s = owned(messages.unsupported_transport);
            push_str(&mut s, ": ");
            push_str(&mut s, transport.as_str());
            s
        },
    }
}

fn stage_name(stage: SmartReadStage) -> (s: &'static str)
    ensures
        s@ == stage_text(stage),
{
    match stage {
        SmartReadStage::InterfaceAcquisition => "InterfaceAcquisition",
        SmartReadStage::Identify => "Identify",
        SmartReadStage::SmartData => "SmartData",
        SmartReadStage::Thresholds => "Thresholds",
        SmartReadStage::Parse => "Parse",
    }
}

fn health_severity(health: &HealthState) -> (s: Severity)
    ensures
        s == severity_of(*health),
{
    match health {
        HealthState::Warning { .. } => Severity::Warning,
        HealthState::Critical { .. } => Severity::Critical,
        HealthState::Healthy { .. } => Severity::Normal,
        HealthState::Unknown { .. } => Severity::Normal,
    }
}

// ---------------------------------------------------------------------------
// Projection
// ---------------------------------------------------------------------------

/// The first present text, or `default`.
pub open spec fn first_text(a: Option<String>, b: Option<String>, default: Seq<char>) -> Seq<char> {
    match a {
        Some(x) => x@,
        None => match b {
            Some(y) => y@,
            None => default,
        },
    }
}

/// A field as text.
pub open spec fn field_text(label: &'static str, value: Seq<char>, severity: Severity) -> FieldText {
    FieldText { label: label@, value, severity }
}

/// The optional identity's model, firmware and serial.
pub open spec fn ident_model(i: Option<DeviceIdentityData>) -> Option<String> {
    match i {
        Some(d) => d.model,
        None => None,
    }
}

/// The optional identity's firmware.
pub open spec fn ident_firmware(i: Option<DeviceIdentityData>) -> Option<String> {
    match i {
        Some(d) => d.firmware,
        None => None,
    }
}

/// The optional identity's serial.
pub open spec fn ident_serial(i: Option<DeviceIdentityData>) -> Option<String> {
    match i {
        Some(d) => d.serial,
        None => None,
    }
}

/// The summary shared by every view: health, SMART state, temperature,
/// and model, firmware and serial (from the SMART identity first, then
/// from the inventory).
pub open spec fn common_summary_text(
    snapshot: DeviceSnapshot,
    ident: Option<DeviceIdentityData>,
    temperature: Option<i32>,
    m: Messages,
) -> Seq<FieldText> {
    seq![
        field_text(m.health, health_text(m, snapshot.health)@, severity_of(snapshot.health)),
        field_text(m.smart, smart_text(m, snapshot.smart)@, severity_of(snapshot.health)),
        field_text(
            m.temperature,
            match temperature {
                Some(t) => celsius_text(t),
                None => m.not_available@,
            },
            Severity::Normal,
        ),
        field_text(
            m.model,
            first_text(ident_model(ident), snapshot.device.identity.model, m.unknown@),
            Severity::Normal,
        ),
        field_text(
            m.firmware,
            first_text(ident_firmware(ident), snapshot.device.identity.firmware, m.not_available@),
            Severity::Normal,
        ),
        field_text(
            m.serial,
            first_text(ident_serial(ident), snapshot.device.identity.serial, m.not_available@),
            Severity::Normal,
        ),
    ]
}

/// The table row of one ATA attribute.
pub open spec fn ata_row(a: AtaSmartAttribute, locale: Locale) -> RowText {
    let m = messages_of(locale);
    let name = match attribute_name(a.id, locale) {
        Some(n) => n@,
        None => m.unknown_attribute@,
    };
    RowText {
        cells: seq![
            coded_metric_text(name, a.id),
            decimal(a.current as nat),
            decimal(a.worst as nat),
            match a.threshold {
                Some(t) => decimal(t as nat),
                None => "—"@,
            },
            interpretation(a, m),
            raw_bytes_text(a.raw_bytes@),
        ],
        severity: if crossed(a.current, a.threshold) {
            Severity::Warning
        } else {
            Severity::Normal
        },
    }
}

/// The temperature of the first temperature attribute (0xC2) whose lowest
/// raw byte is a plausible value (at most 125 °C).
pub open spec fn ata_temperature_of(attrs: Seq<AtaSmartAttribute>) -> Option<i32>
    decreases attrs.len(),
{
    if attrs.len() == 0 {
        None
    } else if attrs[0].id == 0xC2 && attrs[0].raw_bytes@[0] <= 125 {
        Some(attrs[0].raw_bytes@[0] as i32)
    } else {
        ata_temperature_of(attrs.drop_first())
    }
}

/// The ATA overall status as a field.
pub open spec fn overall_field(passed: Option<bool>, m: Messages) -> FieldText {
    match passed {
        Some(true) => field_text(m.ata_overall_status, m.passed@, Severity::Normal),
        Some(false) => field_text(m.ata_overall_status, m.failed@, Severity::Critical),
        None => field_text(m.ata_overall_status, m.not_reported@, Severity::Normal),
    }
}

/// The view of ATA SMART data.
pub open spec fn ata_view(snapshot: DeviceSnapshot, data: AtaSmartSnapshot, locale: Locale) -> ViewText {
    let m = messages_of(locale);
    ViewText {
        kind: SmartViewKind::Ata,
        summary: common_summary_text(
            snapshot,
            Some(data.identity),
            ata_temperature_of(data.attributes@),
            m,
        ).push(overall_field(data.overall_passed, m)),
        columns: seq![m.attribute@, m.current@, m.worst@, m.threshold@, m.interpreted@, m.raw_value@],
        rows: Seq::new(data.attributes@.len(), |i: int| ata_row(data.attributes@[i], locale)),
        diagnostics: Seq::empty(),
    }
}

/// An NVMe table row.
pub open spec fn metric_row(
    code: u8,
    name: &'static str,
    value: Seq<char>,
    raw: Seq<char>,
    severity: Severity,
) -> RowText {
    RowText { cells: seq![coded_metric_text(name@, code), value, raw], severity }
}

/// The fifteen rows of NVMe health information, in log order.
pub open spec fn nvme_rows(d: NvmeSmartSnapshot, m: Messages, f: ScaledFigures) -> Seq<RowText> {
    seq![
        metric_row(
            0x01,
            m.critical_warning,
            "0x"@ + hex2(d.critical_warning),
            decimal(d.critical_warning as nat),
            if d.critical_warning == 0 {
                Severity::Normal
            } else {
                Severity::Critical
            },
        ),
        metric_row(
            0x02,
            m.temperature,
            match d.temperature_celsius {
                Some(t) => celsius_text(t),
                None => m.not_available@,
            },
            match d.temperature_celsius {
                Some(t) => signed_decimal(t as int),
                None => "—"@,
            },
            Severity::Normal,
        ),
        metric_row(
            0x03,
            m.available_spare,
            decimal(d.available_spare_percent as nat) + "%"@,
            decimal(d.available_spare_percent as nat),
            if d.available_spare_percent < d.available_spare_threshold_percent {
                Severity::Warning
            } else {
                Severity::Normal
            },
        ),
        metric_row(
            0x04,
            m.available_spare_threshold,
            decimal(d.available_spare_threshold_percent as nat) + "%"@,
            decimal(d.available_spare_threshold_percent as nat),
            Severity::Normal,
        ),
        metric_row(
            0x05,
            m.percentage_used,
            decimal(d.percentage_used as nat) + "%"@,
            decimal(d.percentage_used as nat),
            if d.percentage_used >= 100 {
                Severity::Warning
            } else {
                Severity::Normal
            },
        ),
        metric_row(0x06, m.data_units_read, f.data_read@, d.data_units_read.0@, Severity::Normal),
        metric_row(
            0x07,
            m.data_units_written,
            f.data_written@,
            d.data_units_written.0@,
            Severity::Normal,
        ),
        metric_row(
            0x08,
            m.host_read_commands,
            count_text(d.host_read_commands.0@, m),
            d.host_read_commands.0@,
            Severity::Normal,
        ),
        metric_row(
            0x09,
            m.host_write_commands,
            count_text(d.host_write_commands.0@, m),
            d.host_write_commands.0@,
            Severity::Normal,
        ),
        metric_row(
            0x0A,
            m.controller_busy_time,
            minutes_text(d.controller_busy_minutes.0@, m, f.busy_hours@),
            d.controller_busy_minutes.0@,
            Severity::Normal,
        ),
        metric_row(
            0x0B,
            m.power_cycles,
            count_text(d.power_cycles.0@, m),
            d.power_cycles.0@,
            Severity::Normal,
        ),
        metric_row(
            0x0C,
            m.power_on_hours,
            hours_text(d.power_on_hours.0@, m),
            d.power_on_hours.0@,
            Severity::Normal,
        ),
        metric_row(
            0x0D,
            m.unsafe_shutdowns,
            count_text(d.unsafe_shutdowns.0@, m),
            d.unsafe_shutdowns.0@,
            Severity::Normal,
        ),
        metric_row(
            0x0E,
            m.media_errors,
            count_text(d.media_errors.0@, m),
            d.media_errors.0@,
            Severity::Normal,
        ),
        metric_row(
            0x0F,
            m.error_log_entries,
            count_text(d.error_log_entries.0@, m),
            d.error_log_entries.0@,
            Severity::Normal,
        ),
    ]
}

/// The view of NVMe SMART data.
pub open spec fn nvme_view(
    snapshot: DeviceSnapshot,
    data: NvmeSmartSnapshot,
    f: ScaledFigures,
    locale: Locale,
) -> ViewText {
    let m = messages_of(locale);
    ViewText {
        kind: SmartViewKind::Nvme,
        summary: common_summary_text(snapshot, Some(data.identity), data.temperature_celsius, m),
        columns: seq![m.metric@, m.value@, m.raw_value@],
        rows: nvme_rows(data, m, f),
        diagnostics: Seq::empty(),
    }
}

/// Read warnings as diagnostics.
pub open spec fn warning_texts(warnings: Seq<SmartReadError>, m: Messages) -> Seq<Seq<char>> {
    Seq::new(
        warnings.len(),
        |i: int| m.warning@ + ": "@ + warnings[i].operation@ + ": "@ + warnings[i].message@,
    )
}

/// A failed read as diagnostics, with the advice to elevate when access
/// was denied.
pub open spec fn failure_texts(e: SmartReadError, m: Messages) -> Seq<Seq<char>> {
    seq![m.error@ + ": "@ + stage_text(e.stage) + ": "@ + e.operation@ + ": "@ + e.message@] + (if e.permission_denied {
        seq![m.action@ + ": "@ + m.elevate_action@]
    } else {
        Seq::empty()
    })
}

/// A view of diagnostics only.
pub open spec fn diagnostic_view(snapshot: DeviceSnapshot, diagnostics: Seq<Seq<char>>, m: Messages) -> ViewText {
    ViewText {
        kind: SmartViewKind::Diagnostic,
        summary: common_summary_text(snapshot, None, None, m),
        columns: Seq::empty(),
        rows: Seq::empty(),
        diagnostics,
    }
}

/// The view before the empty-view rule.
pub open spec fn base_view(snapshot: DeviceSnapshot, f: ScaledFigures, locale: Locale) -> ViewText {
    let m = messages_of(locale);
    match snapshot.smart {
        SmartState::Available { snapshot: smart, warnings } => {
            let v = match *smart {
                SmartSnapshot::Ata { data } => ata_view(snapshot, data, locale),
                SmartSnapshot::Nvme { data } => nvme_view(snapshot, *data, f, locale),
            };
            ViewText {
                kind: v.kind,
                summary: v.summary,
                columns: v.columns,
                rows: v.rows,
                diagnostics: v.diagnostics + warning_texts(warnings@, m),
            }
        },
        SmartState::Unavailable { reason } => diagnostic_view(snapshot, seq![reason_text(reason, m)], m),
        SmartState::Failed { error } => diagnostic_view(snapshot, failure_texts(error, m), m),
    }
}

/// The SMART projection: a view with neither rows nor diagnostics says N/A.
pub open spec fn projected_view(snapshot: DeviceSnapshot, f: ScaledFigures, locale: Locale) -> ViewText {
    let v = base_view(snapshot, f, locale);
    if v.diagnostics.len() == 0 && v.rows.len() == 0 {
        ViewText {
            kind: v.kind,
            summary: v.summary,
            columns: v.columns,
            rows: v.rows,
            diagnostics: seq![messages_of(locale).not_available@],
        }
    } else {
        v
    }
}

fn field(label: &'static str, value: String, severity: Severity) -> (f: SmartField)
    ensures
        f@ == field_text(label, value@, severity),
{
    SmartField { label, value, severity }
}

fn first_present(a: Option<&String>, b: &Option<String>, default: &'static str) -> (s: String)
    ensures
        s@ == first_text(
            match a {
                Some(x) => Some(*x),
                None => None,
            },
            *b,
            default@,
        ),
{
    match a {
        Some(x) => owned(x.as_str()),
        None => match b {
            Some(y) => owned(y.as_str()),
            None => owned(default),
        },
    }
}

fn common_summary(
    snapshot: &DeviceSnapshot,
    ident: Option<&DeviceIdentityData>,
    temperature: Option<i32>,
    locale: Locale,
) -> (v: Vec<SmartField>)
    ensures
        field_texts(v@) == common_summary_text(
            *snapshot,
            match ident {
                Some(i) => Some(*i),
                None => None,
            },
            temperature,
            messages_of(locale),
        ),
{
    let m = locale.messages();
    let model = first_present(
        match ident {
            Some(i) => match &i.model {
                Some(x) => Some(x),
                None => None,
            },
            None => None,
        },
        &snapshot.device.identity.model,
        m.unknown,
    );
    let firmware = first_present(
        match ident {
            Some(i) => match &i.firmware {
                Some(x) => Some(x),
                None => None,
            },
            None => None,
        },
        &snapshot.device.identity.firmware,
        m.not_available,
    );
    let serial = first_present(
        match ident {
            Some(i) => match &i.serial {
                Some(x) => Some(x),
                None => None,
            },
            None => None,
        },
        &snapshot.device.identity.serial,
        m.not_available,
    );
    let severity = health_severity(&snapshot.health);
    let temperature_text = match temperature {
        Some(t) => celsius(t),
        None => owned(m.not_available),
    };
    let mut v: Vec<SmartField> = Vec::new();
    v.push(field(m.health, owned(locale.health_label(&snapshot.health)), severity));
    v.push(field(m.smart, owned(locale.smart_label(&snapshot.smart)), severity));
    v.push(field(m.temperature, temperature_text, Severity::Normal));
    v.push(field(m.model, model, Severity::Normal));
    v.push(field(m.firmware, firmware, Severity::Normal));
    v.push(field(m.serial, serial, Severity::Normal));
    proof {
        assert(field_texts(v@) =~= common_summary_text(
            *snapshot,
            match ident {
                Some(i) => Some(*i),
                None => None,
            },
            temperature,
            messages_of(locale),
        ));
    }
    v
}

fn cells3(a: String, b: String, c: String) -> (v: Vec<String>)
    ensures
        texts(v@) == seq![a@, b@, c@],
{
    let mut v: Vec<String> = Vec::new();
    v.push(a);
    v.push(b);
    v.push(c);
    assert(texts(v@) =~= seq![a@, b@, c@]);
    v
}

fn project_ata_attribute(attribute: &AtaSmartAttribute, locale: Locale) -> (r: SmartRow)
    ensures
        r@ == ata_row(*attribute, locale),
{
    let m = locale.messages();
    let name = match ata_attribute_name(attribute.id, locale) {
        Some(n) => n,
        None => m.unknown_attribute,
    };
    let threshold = match attribute.threshold {
        Some(t) => u8_text(t),
        None => owned("—"),
    };
    let mut cells: Vec<String> = Vec::new();
    cells.push(coded_metric(name, attribute.id));
    cells.push(u8_text(attribute.current));
    cells.push(u8_text(attribute.worst));
    cells.push(threshold);
    cells.push(interpret_ata(attribute, &m));
    cells.push(format_ata_raw(attribute.raw_bytes));
    let severity = if attribute.threshold_crossed() {
        Severity::Warning
    } else {
        Severity::Normal
    };
    let r = SmartRow { cells, severity };
    assert(r@.cells =~= ata_row(*attribute, locale).cells);
    r
}

fn ata_temperature(data: &AtaSmartSnapshot) -> (t: Option<i32>)
    ensures
        t == ata_temperature_of(data.attributes@),
{
    let mut i: usize = 0;
    proof {
        assert(data.attributes@.subrange(0, data.attributes@.len() as int) =~= data.attributes@);
    }
    while i < data.attributes.len()
        invariant
            i <= data.attributes.len(),
            ata_temperature_of(data.attributes@.subrange(i as int, data.attributes@.len() as int))
                == ata_temperature_of(data.attributes@),
        decreases data.attributes.len() - i,
    {
        let ghost rest = data.attributes@.subrange(i as int, data.attributes@.len() as int);
        let attribute = &data.attributes[i];
        if attribute.id == 0xC2 && attribute.raw_bytes[0] <= 125 {
            assert(rest[0] == *attribute);
            return Some(attribute.raw_bytes[0] as i32);
        }
        proof {
            assert(rest.drop_first() =~= data.attributes@.subrange(i + 1, data.attributes@.len() as int));
        }
        i = i + 1;
    }
    proof {
        assert(data.attributes@.subrange(i as int, data.attributes@.len() as int) =~= Seq::<AtaSmartAttribute>::empty());
    }
    None
}

fn project_ata(snapshot: &DeviceSnapshot, data: &AtaSmartSnapshot, locale: Locale) -> (v: SmartView)
    ensures
        v@ == ata_view(*snapshot, *data, locale),
{
    let m = locale.messages();
    let temperature = ata_temperature(data);
    let mut summary = common_summary(snapshot, Some(&data.identity), temperature, locale);
    let overall = match data.overall_passed {
        Some(true) => field(m.ata_overall_status, owned(m.passed), Severity::Normal),
        Some(false) => field(m.ata_overall_status, owned(m.failed), Severity::Critical),
        None => field(m.ata_overall_status, owned(m.not_reported), Severity::Normal),
    };
    summary.push(overall);
    let mut columns: Vec<&'static str> = Vec::new();
    columns.push(m.attribute);
    columns.push(m.current);
    columns.push(m.worst);
    columns.push(m.threshold);
    columns.push(m.interpreted);
    columns.push(m.raw_value);
    let mut rows: Vec<SmartRow> = Vec::new();
    let mut i: usize = 0;
    while i < data.attributes.len()
        invariant
            i <= data.attributes.len(),
            rows@.len() == i,
            forall|k: int| 0 <= k < i ==> (#[trigger] rows@[k])@ == ata_row(data.attributes@[k], locale),
        decreases data.attributes.len() - i,
    {
        rows.push(project_ata_attribute(&data.attributes[i], locale));
        i = i + 1;
    }
    let v = SmartView {
        kind: SmartViewKind::Ata,
        summary,
        columns,
        rows,
        diagnostics: Vec::new(),
    };
    proof {
        let spec_v = ata_view(*snapshot, *data, locale);
        assert(v@.summary =~= spec_v.summary);
        assert(v@.columns =~= spec_v.columns);
        assert(v@.rows =~= spec_v.rows);
        assert(v@.diagnostics =~= spec_v.diagnostics);
    }
    v
}

fn nvme_row(code: u8, name: &'static str, value: String, raw: String, severity: Severity) -> (r: SmartRow)
    ensures
        r@ == metric_row(code, name, value@, raw@, severity),
{
    SmartRow { cells: cells3(coded_metric(name, code), value, raw), severity }
}

fn decimal_row(code: u8, name: &'static str, counter: &DecimalCounter, value: String) -> (r: SmartRow)
    ensures
        r@ == metric_row(code, name, value@, counter.0@, Severity::Normal),
{
    nvme_row(code, name, value, owned(counter.0.as_str()), Severity::Normal)
}

fn percent(n: u8) -> (s: String)
    ensures
        s@ == decimal(n as nat) + "%"@,
{
    let mut s = u8_text(n);
    push_str(&mut s, "%");
    s
}

fn project_nvme(
    snapshot: &DeviceSnapshot,
    data: &NvmeSmartSnapshot,
    figures: &ScaledFigures,
    locale: Locale,
) -> (v: SmartView)
    ensures
        v@ == nvme_view(*snapshot, *data, *figures, locale),
{
    let m = locale.messages();
    let summary = common_summary(snapshot, Some(&data.identity), data.temperature_celsius, locale);
    let mut warning_value = owned("0x");
    let h = hex2_upper(data.critical_warning);
    push_str(&mut warning_value, h.as_str());
    let mut rows: Vec<SmartRow> = Vec::new();
    rows.push(
        nvme_row(
            0x01,
            m.critical_warning,
            warning_value,
            u8_text(data.critical_warning),
            if data.critical_warning == 0 {
                Severity::Normal
            } else {
                Severity::Critical
            },
        ),
    );
    rows.push(
        nvme_row(
            0x02,
            m.temperature,
            match data.temperature_celsius {
                Some(t) => celsius(t),
                None => owned(m.not_available),
            },
            match data.temperature_celsius {
                Some(t) => i32_text(t),
                None => owned("—"),
            },
            Severity::Normal,
        ),
    );
    rows.push(
        nvme_row(
            0x03,
            m.available_spare,
            percent(data.available_spare_percent),
            u8_text(data.available_spare_percent),
            if data.available_spare_percent < data.available_spare_threshold_percent {
                Severity::Warning
            } else {
                Severity::Normal
            },
        ),
    );
    rows.push(
        nvme_row(
            0x04,
            m.available_spare_threshold,
            percent(data.available_spare_threshold_percent),
            u8_text(data.available_spare_threshold_percent),
            Severity::Normal,
        ),
    );
    rows.push(
        nvme_row(
            0x05,
            m.percentage_used,
            percent(data.percentage_used),
            u8_text(data.percentage_used),
            if data.percentage_used >= 100 {
                Severity::Warning
            } else {
                Severity::Normal
            },
        ),
    );
    rows.push(
        decimal_row(0x06, m.data_units_read, &data.data_units_read, owned(figures.data_read.as_str())),
    );
    rows.push(
        decimal_row(
            0x07,
            m.data_units_written,
            &data.data_units_written,
            owned(figures.data_written.as_str()),
        ),
    );
    rows.push(
        decimal_row(
            0x08,
            m.host_read_commands,
            &data.host_read_commands,
            format_decimal_count(data.host_read_commands.0.as_str(), &m),
        ),
    );
    rows.push(
        decimal_row(
            0x09,
            m.host_write_commands,
            &data.host_write_commands,
            format_decimal_count(data.host_write_commands.0.as_str(), &m),
        ),
    );
    rows.push(
        decimal_row(
            0x0A,
            m.controller_busy_time,
            &data.controller_busy_minutes,
            format_minutes(data.controller_busy_minutes.0.as_str(), &m, figures.busy_hours.as_str()),
        ),
    );
    rows.push(
        decimal_row(
            0x0B,
            m.power_cycles,
            &data.power_cycles,
            format_decimal_count(data.power_cycles.0.as_str(), &m),
        ),
    );
    rows.push(
        decimal_row(
            0x0C,
            m.power_on_hours,
            &data.power_on_hours,
            format_hours(data.power_on_hours.0.as_str(), &m),
        ),
    );
    rows.push(
        decimal_row(
            0x0D,
            m.unsafe_shutdowns,
            &data.unsafe_shutdowns,
            format_decimal_count(data.unsafe_shutdowns.0.as_str(), &m),
        ),
    );
    rows.push(
        decimal_row(
            0x0E,
            m.media_errors,
            &data.media_errors,
            format_decimal_count(data.media_errors.0.as_str(), &m),
        ),
    );
    rows.push(
        decimal_row(
            0x0F,
            m.error_log_entries,
            &data.error_log_entries,
            format_decimal_count(data.error_log_entries.0.as_str(), &m),
        ),
    );
    let mut columns: Vec<&'static str> = Vec::new();
    columns.push(m.metric);
    columns.push(m.value);
    columns.push(m.raw_value);
    let v = SmartView { kind: SmartViewKind::Nvme, summary, columns, rows, diagnostics: Vec::new() };
    proof {
        let spec_v = nvme_view(*snapshot, *data, *figures, locale);
        assert(v@.summary =~= spec_v.summary);
        assert(v@.columns =~= spec_v.columns);
        assert(v@.rows =~= spec_v.rows);
        assert(v@.diagnostics =~= spec_v.diagnostics);
    }
    v
}

fn warning_line(warning: &SmartReadError, m: &Messages) -> (s: String)
    ensures
        s@ == m.warning@ + ": "@ + warning.operation@ + ": "@ + warning.message@,
{
    let mut s = owned(m.warning);
    push_str(&mut s, ": ");
    push_str(&mut s, warning.operation.as_str());
    push_str(&mut s, ": ");
    push_str(&mut s, warning.message.as_str());
    s
}

fn failure_lines(error: &SmartReadError, m: &Messages) -> (v: Vec<String>)
    ensures
        texts(v@) == failure_texts(*error, *m),
{
    let mut first = owned(m.error);
    push_str(&mut first, ": ");
    push_str(&mut first, stage_name(error.stage));
    push_str(&mut first, ": ");
    push_str(&mut first, error.operation.as_str());
    push_str(&mut first, ": ");
    push_str(&mut first, error.message.as_str());
    let mut v: Vec<String> = Vec::new();
    v.push(first);
    if error.permission_denied {
        let mut advice = owned(m.action);
        push_str(&mut advice, ": ");
        push_str(&mut advice, m.elevate_action);
        v.push(advice);
    }
    assert(texts(v@) =~= failure_texts(*error, *m));
    v
}

/// Projects a disk's SMART state into the readable view.
pub fn project_smart(snapshot: &DeviceSnapshot, figures: &ScaledFigures, locale: Locale) -> (v:
    SmartView)
    ensures
        v@ == projected_view(*snapshot, *figures, locale),
{
    let m = locale.messages();
    let mut view = match &snapshot.smart {
        SmartState::Available { snapshot: smart, warnings } => {
            let mut view = match &**smart {
                SmartSnapshot::Ata { data } => project_ata(snapshot, data, locale),
                SmartSnapshot::Nvme { data } => project_nvme(snapshot, data, figures, locale),
            };
            let ghost before = view@.diagnostics;
            let mut i: usize = 0;
            while i < warnings.len()
                invariant
                    i <= warnings.len(),
                    texts(view.diagnostics@) =~= before + warning_texts(warnings@, m).subrange(0, i as int),
                    view@.kind == base_view(*snapshot, *figures, locale).kind,
                    view@.summary == base_view(*snapshot, *figures, locale).summary,
                    view@.columns == base_view(*snapshot, *figures, locale).columns,
                    view@.rows == base_view(*snapshot, *figures, locale).rows,
                    m == messages_of(locale),
                decreases warnings.len() - i,
            {
                let line = warning_line(&warnings[i], &m);
                let ghost prev = view.diagnostics@;
                view.diagnostics.push(line);
                proof {
                    assert(texts(view.diagnostics@) =~= texts(prev).push(line@));
                    assert(warning_texts(warnings@, m).subrange(0, i + 1) =~= warning_texts(
                        warnings@,
                        m,
                    ).subrange(0, i as int).push(line@));
                }
                i = i + 1;
            }
            proof {
                assert(warning_texts(warnings@, m).subrange(0, warnings@.len() as int) =~= warning_texts(warnings@, m));
            }
            view
        },
        SmartState::Unavailable { reason } => {
            let mut diagnostics: Vec<String> = Vec::new();
            diagnostics.push(format_unavailable_reason(reason, &m));
            let v = SmartView {
                kind: SmartViewKind::Diagnostic,
                summary: common_summary(snapshot, None, None, locale),
                columns: Vec::new(),
                rows: Vec::new(),
                diagnostics,
            };
            proof {
                let b = base_view(*snapshot, *figures, locale);
                assert(v@.columns =~= b.columns);
                assert(v@.rows =~= b.rows);
                assert(v@.diagnostics =~= b.diagnostics);
            }
            v
        },
        SmartState::Failed { error } => {
            let v = SmartView {
                kind: SmartViewKind::Diagnostic,
                summary: common_summary(snapshot, None, None, locale),
                columns: Vec::new(),
                rows: Vec::new(),
                diagnostics: failure_lines(error, &m),
            };
            proof {
                let b = base_view(*snapshot, *figures, locale);
                assert(v@.columns =~= b.columns);
                assert(v@.rows =~= b.rows);
            }
            v
        },
    };
    assert(view@ == base_view(*snapshot, *figures, locale));
    if view.diagnostics.len() == 0 && view.rows.len() == 0 {
        view.diagnostics.push(owned(m.not_available));
        proof {
            assert(texts(view.diagnostics@) =~= seq![m.not_available@]);
        }
    }
    view
}

// ---------------------------------------------------------------------------
// Text rendering
// ---------------------------------------------------------------------------

/// The parts joined with `sep` between consecutive parts.
pub open spec fn join(parts: Seq<Seq<char>>, sep: Seq<char>) -> Seq<char>
    decreases parts.len(),
{
    if parts.len() == 0 {
        Seq::empty()
    } else if parts.len() == 1 {
        parts[0]
    } else {
        join(parts.drop_last(), sep) + sep + parts.last()
    }
}

/// Each part followed by a line break.
pub open spec fn lines(parts: Seq<Seq<char>>) -> Seq<char>
    decreases parts.len(),
{
    if parts.len() == 0 {
        Seq::empty()
    } else {
        lines(parts.drop_last()) + parts.last() + "\n"@
    }
}

/// The text of a view: a heading, `label: value` lines for the summary,
/// the diagnostics, and, when the view has columns, a blank line and the
/// tab-separated table.
pub open spec fn view_text(v: ViewText, m: Messages) -> Seq<char> {
    m.smart_details@ + ":\n"@ + lines(
        Seq::new(v.summary.len(), |i: int| v.summary[i].label + ": "@ + v.summary[i].value),
    ) + lines(v.diagnostics) + if v.columns.len() > 0 {
        "\n"@ + join(v.columns, "\t"@) + "\n"@ + lines(
            Seq::new(v.rows.len(), |i: int| join(v.rows[i].cells, "\t"@)),
        )
    } else {
        Seq::empty()
    }
}

/// Joins texts with a separator.
pub fn join_texts(parts: &Vec<String>, sep: &str) -> (s: String)
    ensures
        s@ == join(texts(parts@), sep@),
{
    let mut s = String::new();
    let mut i: usize = 0;
    while i < parts.len()
        invariant
            i <= parts.len(),
            s@ == join(texts(parts@).subrange(0, i as int), sep@),
        decreases parts.len() - i,
    {
        proof {
            assert(texts(parts@).subrange(0, i + 1).drop_last() =~= texts(parts@).subrange(0, i as int));
        }
        if i > 0 {
            push_str(&mut s, sep);
        }
        push_str(&mut s, parts[i].as_str());
        proof {
            if i == 0 {
                assert(s@ =~= join(texts(parts@).subrange(0, 1), sep@));
            }
        }
        i = i + 1;
    }
    proof {
        assert(texts(parts@).subrange(0, parts@.len() as int) =~= texts(parts@));
    }
    s
}

fn join_columns(parts: &Vec<&'static str>, sep: &str) -> (s: String)
    ensures
        s@ == join(str_texts(parts@), sep@),
{
    let mut s = String::new();
    let mut i: usize = 0;
    while i < parts.len()
        invariant
            i <= parts.len(),
            s@ == join(str_texts(parts@).subrange(0, i as int), sep@),
        decreases parts.len() - i,
    {
        proof {
            assert(str_texts(parts@).subrange(0, i + 1).drop_last() =~= str_texts(parts@).subrange(0, i as int));
        }
        if i > 0 {
            push_str(&mut s, sep);
        }
        push_str(&mut s, parts[i]);
        proof {
            if i == 0 {
                assert(s@ =~= join(str_texts(parts@).subrange(0, 1), sep@));
            }
        }
        i = i + 1;
    }
    proof {
        assert(str_texts(parts@).subrange(0, parts@.len() as int) =~= str_texts(parts@));
    }
    s
}

/// Renders the SMART projection as text.
pub fn render_smart_text(snapshot: &DeviceSnapshot, figures: &ScaledFigures, locale: Locale) -> (s:
    String)
    ensures
        s@ == view_text(projected_view(*snapshot, *figures, locale), messages_of(locale)),
{
    let m = locale.messages();
    let view = project_smart(snapshot, figures, locale);
    render_view(&view, &m)
}

/// Renders a view as text.
pub fn render_view(view: &SmartView, m: &Messages) -> (s: String)
    ensures
        s@ == view_text(view@, *m),
{
    let ghost v = view@;
    let ghost summary_lines = Seq::new(v.summary.len(), |i: int| v.summary[i].label + ": "@ + v.summary[i].value);
    let mut s = owned(m.smart_details);
    push_str(&mut s, ":\n");
    let ghost head = s@;
    let mut i: usize = 0;
    while i < view.summary.len()
        invariant
            i <= view.summary.len(),
            v == view@,
            summary_lines == Seq::new(v.summary.len(), |i: int| v.summary[i].label + ": "@ + v.summary[i].value),
            s@ == head + lines(summary_lines.subrange(0, i as int)),
        decreases view.summary.len() - i,
    {
        proof {
            assert(summary_lines.subrange(0, i + 1).drop_last() =~= summary_lines.subrange(0, i as int));
        }
        push_str(&mut s, view.summary[i].label);
        push_str(&mut s, ": ");
        push_str(&mut s, view.summary[i].value.as_str());
        push_str(&mut s, "\n");
        i = i + 1;
    }
    proof {
        assert(summary_lines.subrange(0, summary_lines.len() as int) =~= summary_lines);
    }
    let ghost mid = s@;
    let mut j: usize = 0;
    while j < view.diagnostics.len()
        invariant
            j <= view.diagnostics.len(),
            v == view@,
            s@ == mid + lines(v.diagnostics.subrange(0, j as int)),
        decreases view.diagnostics.len() - j,
    {
        proof {
            assert(v.diagnostics.subrange(0, j + 1).drop_last() =~= v.diagnostics.subrange(0, j as int));
        }
        push_str(&mut s, view.diagnostics[j].as_str());
        push_str(&mut s, "\n");
        j = j + 1;
    }
    proof {
        assert(v.diagnostics.subrange(0, v.diagnostics.len() as int) =~= v.diagnostics);
    }
    if view.columns.len() > 0 {
        push_str(&mut s, "\n");
        let header = join_columns(&view.columns, "\t");
        push_str(&mut s, header.as_str());
        push_str(&mut s, "\n");
        let ghost row_lines = Seq::new(v.rows.len(), |i: int| join(v.rows[i].cells, "\t"@));
        let ghost table_head = s@;
        let mut k: usize = 0;
        while k < view.rows.len()
            invariant
                k <= view.rows.len(),
                v == view@,
                row_lines == Seq::new(v.rows.len(), |i: int| join(v.rows[i].cells, "\t"@)),
                s@ == table_head + lines(row_lines.subrange(0, k as int)),
            decreases view.rows.len() - k,
        {
            proof {
                assert(row_lines.subrange(0, k + 1).drop_last() =~= row_lines.subrange(0, k as int));
            }
            let line = join_texts(&view.rows[k].cells, "\t");
            push_str(&mut s, line.as_str());
            push_str(&mut s, "\n");
            k = k + 1;
        }
        proof {
            assert(row_lines.subrange(0, row_lines.len() as int) =~= row_lines);
        }
    }
    s
}

/// The ATA table has one row per attribute, in order; a row warns exactly
/// when its attribute's current value is at or below a nonzero threshold;
/// its cells show, in this order, the attribute's name with its id, its
/// current value, its worst value, its threshold (a dash without one), the
/// reading of its raw value and the six raw bytes.
pub proof fn lemma_ata_rows_follow_attributes(
    snapshot: DeviceSnapshot,
    data: AtaSmartSnapshot,
    locale: Locale,
)
    ensures
        ata_view(snapshot, data, locale).rows.len() == data.attributes@.len(),
        forall|i: int|
            0 <= i < data.attributes@.len() ==> {
                let row = #[trigger] ata_view(snapshot, data, locale).rows[i];
                &&& row.severity == Severity::Warning <==> crossed(
                    data.attributes@[i].current,
                    data.attributes@[i].threshold,
                )
                &&& row.cells.len() == 6
                &&& row.cells[5] == raw_bytes_text(data.attributes@[i].raw_bytes@)
                &&& row.severity == Severity::Warning <==> (data.attributes@[i].threshold matches Some(
                    t,
                ) && t > 0 && data.attributes@[i].current <= t)
                &&& row.cells[0] == coded_metric_text(
                    match attribute_name(data.attributes@[i].id, locale) {
                        Some(n) => n@,
                        None => messages_of(locale).unknown_attribute@,
                    },
                    data.attributes@[i].id,
                )
                &&& row.cells[1] == decimal(data.attributes@[i].current as nat)
                &&& row.cells[2] == decimal(data.attributes@[i].worst as nat)
                &&& row.cells[3] == match data.attributes@[i].threshold {
                    Some(t) => decimal(t as nat),
                    None => "—"@,
                }
                &&& row.cells[4] == interpretation(data.attributes@[i], messages_of(locale))
            },
{
}

/// The NVMe table has one row per health field, in log order, the row for
/// log field `code` labelled with its name and `code`; each row shows the
/// field its label names: the spare, threshold and wear rows their
/// percentages, the data-unit rows the scaled figures and the exact
/// counters, the command, cycle, shutdown, error and log-entry rows the
/// grouped and the exact text of their own counter, the busy-time and
/// power-on rows the minutes and hours of theirs.
pub proof fn lemma_nvme_rows_show_their_fields(d: NvmeSmartSnapshot, m: Messages, f: ScaledFigures)
    ensures
        nvme_rows(d, m, f).len() == 15,
        forall|i: int| 0 <= i < 15 ==> (#[trigger] nvme_rows(d, m, f)[i]).cells.len() == 3,
        nvme_rows(d, m, f)[0].cells[0] == coded_metric_text(m.critical_warning@, 0x01),
        nvme_rows(d, m, f)[0].cells[2] == decimal(d.critical_warning as nat),
        nvme_rows(d, m, f)[1].cells[0] == coded_metric_text(m.temperature@, 0x02),
        nvme_rows(d, m, f)[2].cells[0] == coded_metric_text(m.available_spare@, 0x03),
        nvme_rows(d, m, f)[2].cells[1] == decimal(d.available_spare_percent as nat) + "%"@,
        nvme_rows(d, m, f)[2].cells[2] == decimal(d.available_spare_percent as nat),
        nvme_rows(d, m, f)[3].cells[0] == coded_metric_text(m.available_spare_threshold@, 0x04),
        nvme_rows(d, m, f)[3].cells[1] == decimal(d.available_spare_threshold_percent as nat) + "%"@,
        nvme_rows(d, m, f)[3].cells[2] == decimal(d.available_spare_threshold_percent as nat),
        nvme_rows(d, m, f)[4].cells[0] == coded_metric_text(m.percentage_used@, 0x05),
        nvme_rows(d, m, f)[4].cells[1] == decimal(d.percentage_used as nat) + "%"@,
        nvme_rows(d, m, f)[4].cells[2] == decimal(d.percentage_used as nat),
        nvme_rows(d, m, f)[5].cells[0] == coded_metric_text(m.data_units_read@, 0x06),
        nvme_rows(d, m, f)[5].cells[1] == f.data_read@,
        nvme_rows(d, m, f)[5].cells[2] == d.data_units_read.0@,
        nvme_rows(d, m, f)[6].cells[0] == coded_metric_text(m.data_units_written@, 0x07),
        nvme_rows(d, m, f)[6].cells[1] == f.data_written@,
        nvme_rows(d, m, f)[6].cells[2] == d.data_units_written.0@,
        nvme_rows(d, m, f)[7].cells[0] == coded_metric_text(m.host_read_commands@, 0x08),
        nvme_rows(d, m, f)[7].cells[1] == count_text(d.host_read_commands.0@, m),
        nvme_rows(d, m, f)[7].cells[2] == d.host_read_commands.0@,
        nvme_rows(d, m, f)[8].cells[0] == coded_metric_text(m.host_write_commands@, 0x09),
        nvme_rows(d, m, f)[8].cells[1] == count_text(d.host_write_commands.0@, m),
        nvme_rows(d, m, f)[8].cells[2] == d.host_write_commands.0@,
        nvme_rows(d, m, f)[9].cells[0] == coded_metric_text(m.controller_busy_time@, 0x0A),
        nvme_rows(d, m, f)[9].cells[1] == minutes_text(d.controller_busy_minutes.0@, m, f.busy_hours@),
        nvme_rows(d, m, f)[9].cells[2] == d.controller_busy_minutes.0@,
        nvme_rows(d, m, f)[10].cells[0] == coded_metric_text(m.power_cycles@, 0x0B),
        nvme_rows(d, m, f)[10].cells[1] == count_text(d.power_cycles.0@, m),
        nvme_rows(d, m, f)[10].cells[2] == d.power_cycles.0@,
        nvme_rows(d, m, f)[11].cells[0] == coded_metric_text(m.power_on_hours@, 0x0C),
        nvme_rows(d, m, f)[11].cells[1] == hours_text(d.power_on_hours.0@, m),
        nvme_rows(d, m, f)[11].cells[2] == d.power_on_hours.0@,
        nvme_rows(d, m, f)[12].cells[0] == coded_metric_text(m.unsafe_shutdowns@, 0x0D),
        nvme_rows(d, m, f)[12].cells[1] == count_text(d.unsafe_shutdowns.0@, m),
        nvme_rows(d, m, f)[12].cells[2] == d.unsafe_shutdowns.0@,
        nvme_rows(d, m, f)[13].cells[0] == coded_metric_text(m.media_errors@, 0x0E),
        nvme_rows(d, m, f)[13].cells[1] == count_text(d.media_errors.0@, m),
        nvme_rows(d, m, f)[13].cells[2] == d.media_errors.0@,
        nvme_rows(d, m, f)[14].cells[0] == coded_metric_text(m.error_log_entries@, 0x0F),
        nvme_rows(d, m, f)[14].cells[1] == count_text(d.error_log_entries.0@, m),
        nvme_rows(d, m, f)[14].cells[2] == d.error_log_entries.0@,
{
}

/// Read from a log page, each counter row shows the 16 little-endian bytes
/// of its own place in the page: data units read at 32, written at 48,
/// host read commands at 64, host write commands at 80, busy time at 96,
/// power cycles at 112, power-on hours at 128, unsafe shutdowns at 144,
/// media errors at 160 and error log entries at 176; the spare rows show
/// bytes 3 and 4 and the wear row byte 5.
pub proof fn lemma_nvme_rows_from_log(d: NvmeSmartSnapshot, bytes: Seq<u8>, m: Messages, f: ScaledFigures)
    requires
        decodes_smart_log(d, bytes),
    ensures
        nvme_rows(d, m, f)[2].cells[2] == decimal(bytes[3] as nat),
        nvme_rows(d, m, f)[3].cells[2] == decimal(bytes[4] as nat),
        nvme_rows(d, m, f)[4].cells[2] == decimal(bytes[5] as nat),
        nvme_rows(d, m, f)[5].cells[2] == decimal(le_value(bytes.subrange(32, 48))),
        nvme_rows(d, m, f)[6].cells[2] == decimal(le_value(bytes.subrange(48, 64))),
        nvme_rows(d, m, f)[7].cells[2] == decimal(le_value(bytes.subrange(64, 80))),
        nvme_rows(d, m, f)[8].cells[2] == decimal(le_value(bytes.subrange(80, 96))),
        nvme_rows(d, m, f)[9].cells[2] == decimal(le_value(bytes.subrange(96, 112))),
        nvme_rows(d, m, f)[10].cells[2] == decimal(le_value(bytes.subrange(112, 128))),
        nvme_rows(d, m, f)[11].cells[2] == decimal(le_value(bytes.subrange(128, 144))),
        nvme_rows(d, m, f)[12].cells[2] == decimal(le_value(bytes.subrange(144, 160))),
        nvme_rows(d, m, f)[13].cells[2] == decimal(le_value(bytes.subrange(160, 176))),
        nvme_rows(d, m, f)[14].cells[2] == decimal(le_value(bytes.subrange(176, 192))),
{
    crate::protocol::nvme::lemma_log_layout(d, bytes);
    lemma_nvme_rows_show_their_fields(d, m, f);
}

/// NVMe row severities agree with the health evaluation: the critical
/// warning row is critical exactly when the health is critical, the spare
/// row warns exactly when spare evidence is recorded, and the wear row
/// warns exactly when wear evidence is recorded.
pub proof fn lemma_nvme_rows_match_health(d: NvmeSmartSnapshot, m: Messages, f: ScaledFigures)
    ensures
        nvme_rows(d, m, f).len() == 15,
        nvme_rows(d, m, f)[0].severity == Severity::Critical <==> nvme_verdict(d) is Critical,
        nvme_rows(d, m, f)[2].severity == Severity::Warning <==> nvme_warnings(d).contains(
            HealthEvidence::NvmeSpare {
                available_percent: d.available_spare_percent,
                threshold_percent: d.available_spare_threshold_percent,
            },
        ),
        nvme_rows(d, m, f)[4].severity == Severity::Warning <==> nvme_warnings(d).contains(
            HealthEvidence::NvmePercentageUsed { percent: d.percentage_used },
        ),
        forall|i: int| 5 <= i < 15 ==> (#[trigger] nvme_rows(d, m, f)[i]).severity == Severity::Normal,
{
    crate::domain::health::lemma_nvme_warnings_exact(d);
}

/// A projection is never empty: it has table rows or at least one
/// diagnostic. An unavailable or failed read shows no table and names the
/// reason or the failure, and a read refused for lack of permission ends
/// with the advice to elevate.
pub proof fn lemma_projection_explains_itself(snapshot: DeviceSnapshot, f: ScaledFigures, locale: Locale)
    ensures
        projected_view(snapshot, f, locale).rows.len() > 0 || projected_view(
            snapshot,
            f,
            locale,
        ).diagnostics.len() > 0,
        !(snapshot.smart is Available) ==> {
            let v = projected_view(snapshot, f, locale);
            &&& v.kind == SmartViewKind::Diagnostic
            &&& v.rows.len() == 0
            &&& v.columns.len() == 0
            &&& v.diagnostics.len() > 0
        },
        snapshot.smart matches SmartState::Unavailable { reason } ==> projected_view(
            snapshot,
            f,
            locale,
        ).diagnostics == seq![reason_text(reason, messages_of(locale))],
        snapshot.smart matches SmartState::Failed { error } && error.permission_denied
            ==> projected_view(snapshot, f, locale).diagnostics.last() == messages_of(locale).action@
            + ": "@ + messages_of(locale).elevate_action@,
{
}

/// Every summary starts with the health and SMART labels of the snapshot,
/// whatever the SMART state.
pub proof fn lemma_summary_leads_with_labels(snapshot: DeviceSnapshot, f: ScaledFigures, locale: Locale)
    ensures
        projected_view(snapshot, f, locale).summary.len() >= 6,
        projected_view(snapshot, f, locale).summary[0].value == health_text(
            messages_of(locale),
            snapshot.health,
        )@,
        projected_view(snapshot, f, locale).summary[1].value == smart_text(
            messages_of(locale),
            snapshot.smart,
        )@,
{
}

} // verus!

//! The state of the interactive interface and the decisions it makes:
//! which disk is selected, where the SMART viewport stands, when to
//! refresh, and the temperature samples kept for the session.

use vstd::prelude::*;

use crate::app::{app_error_text, AppError};
use crate::domain::DeviceSnapshot;
use crate::text::str_equal;

use super::locale::Locale;
use super::locale::{health_text, messages_of, smart_text, Messages};
use super::output::{health_label, model_text, smart_label, temperature, temperature_of};
use super::smart_view::SmartViewKind;
use crate::text::{decimal, owned, push_str, u64_text};

verus! {

/// Most temperature samples kept per disk.
pub const SAMPLE_LIMIT: usize = 240;

/// Temperature samples of one disk, oldest first.
#[derive(Clone, Debug, PartialEq, Eq)]
pub struct SampleSeries {
    pub device_id: String,
    pub values: Vec<u64>,
}

/// The interface state.
#[derive(Clone, Debug)]
pub struct TuiState {
    pub devices: Vec<DeviceSnapshot>,
    /// Index of the selected disk.
    pub selected: Option<usize>,
    /// Shown tab: overview, SMART, session.
    pub tab: usize,
    /// Seconds between scheduled refreshes; zero turns them off.
    pub interval_seconds: u64,
    pub refresh_in_flight: bool,
    /// A refresh was asked for while one was running; its result is stale.
    pub refresh_pending: bool,
    pub error: Option<String>,
    pub samples: Vec<SampleSeries>,
    pub locale: Locale,
    pub smart_offset: usize,
    pub smart_page_len: usize,
    pub smart_content_len: usize,
    pub smart_raw: bool,
}

/// A key press as the interface tells them apart.
#[derive(Clone, Copy, Debug, PartialEq, Eq)]
pub enum Key {
    Quit,
    Next,
    Previous,
    Tab,
    ToggleView,
    PageDown,
    PageUp,
    Home,
    End,
    Refresh,
    Other,
}

/// What the interface does after a key press.
#[derive(Clone, Copy, Debug, PartialEq, Eq)]
pub enum KeyAction {
    Quit,
    Redraw,
    StartRefresh,
}

/// The width of a table column: a fixed number of cells, or a share of
/// what the fixed columns leave.
#[derive(Clone, Copy, Debug, PartialEq, Eq)]
pub enum ColumnWidth {
    Length(u16),
    Fill(u16),
}

/// The column widths of the readable SMART table: ATA tables from 108
/// cells and NVMe tables from 90 cells wide keep metric and value
/// together; narrower ones let the name column take the rest.
pub open spec fn table_widths(kind: SmartViewKind, area_width: u16) -> Seq<ColumnWidth> {
    match kind {
        SmartViewKind::Ata => if area_width >= 108 {
            seq![
                ColumnWidth::Length(40),
                ColumnWidth::Length(7),
                ColumnWidth::Length(7),
                ColumnWidth::Length(9),
                ColumnWidth::Length(18),
                ColumnWidth::Length(14),
            ]
        } else {
            seq![
                ColumnWidth::Fill(1),
                ColumnWidth::Length(5),
                ColumnWidth::Length(5),
                ColumnWidth::Length(5),
                ColumnWidth::Length(12),
                ColumnWidth::Length(12),
            ]
        },
        SmartViewKind::Nvme => if area_width >= 90 {
            seq![ColumnWidth::Length(28), ColumnWidth::Length(30), ColumnWidth::Length(24)]
        } else {
            seq![ColumnWidth::Fill(1), ColumnWidth::Length(20), ColumnWidth::Length(16)]
        },
        SmartViewKind::Diagnostic => Seq::empty(),
    }
}

/// The column widths of the readable SMART table in an area this wide.
pub fn smart_table_widths(kind: SmartViewKind, area_width: u16) -> (w: Vec<ColumnWidth>)
    ensures
        w@ == table_widths(kind, area_width),
{
    let w = match kind {
        SmartViewKind::Ata => if area_width >= 108 {
            vec![
                ColumnWidth::Length(40),
                ColumnWidth::Length(7),
                ColumnWidth::Length(7),
                ColumnWidth::Length(9),
                ColumnWidth::Length(18),
                ColumnWidth::Length(14),
            ]
        } else {
            vec![
                ColumnWidth::Fill(1),
                ColumnWidth::Length(5),
                ColumnWidth::Length(5),
                ColumnWidth::Length(5),
                ColumnWidth::Length(12),
                ColumnWidth::Length(12),
            ]
        },
        SmartViewKind::Nvme => if area_width >= 90 {
            vec![ColumnWidth::Length(28), ColumnWidth::Length(30), ColumnWidth::Length(24)]
        } else {
            vec![ColumnWidth::Fill(1), ColumnWidth::Length(20), ColumnWidth::Length(16)]
        },
        SmartViewKind::Diagnostic => Vec::new(),
    };
    assert(w@ =~= table_widths(kind, area_width));
    w
}

/// The lines of a page in an area `height` lines high of which `chrome`
/// are borders and headers: at least one.
pub fn page_len(height: u16, chrome: u16) -> (n: usize)
    ensures
        n == if height > chrome {
            height - chrome
        } else {
            1
        },
{
    if height > chrome {
        (height - chrome) as usize
    } else {
        1
    }
}

/// The height of the SMART summary block: one line per field, plus one
/// per diagnostic when a table follows, plus two border lines, leaving at
/// least one line of the area for what follows.
pub open spec fn summary_block_height(summary_len: nat, diagnostics_len: nat, has_rows: bool, area_height: u16) -> int {
    let wanted: int = summary_len + if has_rows {
        diagnostics_len as int
    } else {
        0int
    };
    let clamped: int = if wanted > 65535 {
        65535
    } else {
        wanted
    };
    let framed: int = if clamped + 2 > 65535 {
        65535
    } else {
        clamped + 2
    };
    let room: int = if area_height >= 1 {
        area_height - 1
    } else {
        0
    };
    if framed < room {
        framed
    } else {
        room
    }
}

/// The height of the SMART summary block in an area this high.
pub fn summary_height(summary_len: usize, diagnostics_len: usize, has_rows: bool, area_height: u16) -> (h: u16)
    ensures
        h == summary_block_height(summary_len as nat, diagnostics_len as nat, has_rows, area_height),
{
    let extra: usize = if has_rows {
        diagnostics_len
    } else {
        0
    };
    let clamped: u16 = if summary_len > 65535 || extra > 65535 - summary_len {
        65535
    } else {
        (summary_len + extra) as u16
    };
    let framed: u16 = if clamped > 65533 {
        65535
    } else {
        clamped + 2
    };
    let room: u16 = if area_height >= 1 {
        area_height - 1
    } else {
        0
    };
    if framed < room {
        framed
    } else {
        room
    }
}

/// The cells of a disk's row in the disk table: the device node alone in
/// the narrow list beside the SMART tab, else also the model (or the
/// unknown label), the health label and the SMART label.
pub open spec fn disk_cells(d: DeviceSnapshot, m: Messages, compact: bool) -> Seq<Seq<char>> {
    if compact {
        seq![d.device.device_node@]
    } else {
        seq![
            d.device.device_node@,
            model_text(d, m),
            health_text(m, d.health)@,
            smart_text(m, d.smart)@,
        ]
    }
}

/// The text of each string.
pub open spec fn texts(v: Seq<String>) -> Seq<Seq<char>> {
    Seq::new(v.len(), |i: int| v[i]@)
}

/// The footer: the refresh error when the last refresh failed, else the
/// key help and the refresh interval.
pub open spec fn footer_text(s: TuiState) -> Seq<char> {
    let m = messages_of(s.locale);
    match s.error {
        Some(e) => m.refresh_error_prefix@ + " | "@ + e@,
        None => m.footer@ + " "@ + decimal(s.interval_seconds as nat) + "s"@,
    }
}

/// Each disk id has at most one sample series.
pub open spec fn unique_series(samples: Seq<SampleSeries>) -> bool {
    forall|i: int, j: int|
        0 <= i < j < samples.len() ==> (#[trigger] samples[i]).device_id@
            != (#[trigger] samples[j]).device_id@
}

/// The samples of the disk with id `id`, empty when there are none.
pub open spec fn series_of(samples: Seq<SampleSeries>, id: Seq<char>) -> Seq<u64> {
    if exists|k: int| 0 <= k < samples.len() && (#[trigger] samples[k]).device_id@ == id {
        samples[choose|k: int| 0 <= k < samples.len() && (#[trigger] samples[k]).device_id@ == id].values@
    } else {
        Seq::empty()
    }
}

/// A series after one more sample: negative temperatures count as zero,
/// and the oldest sample goes once there are more than the limit.
pub open spec fn recorded(series: Seq<u64>, t: i32) -> Seq<u64> {
    let s = series.push(if t > 0 { t as u64 } else { 0 });
    if s.len() > 240 {
        s.drop_first()
    } else {
        s
    }
}

/// A disk's series after sampling `devices` in order: each snapshot of
/// that disk with a temperature adds one sample.
pub open spec fn sampled(prev: Seq<u64>, devices: Seq<DeviceSnapshot>, id: Seq<char>) -> Seq<u64>
    decreases devices.len(),
{
    if devices.len() == 0 {
        prev
    } else {
        let s = sampled(prev, devices.drop_last(), id);
        let d = devices.last();
        if d.device.id.0@ == id && temperature_of(d) is Some {
            recorded(s, temperature_of(d)->0)
        } else {
            s
        }
    }
}

/// The index of the first disk with id `id` at or after `i`.
pub open spec fn find_from(devices: Seq<DeviceSnapshot>, id: Seq<char>, i: int) -> Option<int>
    decreases devices.len() - i,
{
    if i < 0 || i >= devices.len() {
        None
    } else if devices[i].device.id.0@ == id {
        Some(i)
    } else {
        find_from(devices, id, i + 1)
    }
}

/// The selection after the disks are replaced: the previously selected
/// disk when it is still listed, else the first disk, else none.
pub open spec fn reselect(previous: Option<Seq<char>>, devices: Seq<DeviceSnapshot>) -> Option<usize> {
    let first = if devices.len() > 0 {
        Some(0usize)
    } else {
        None
    };
    match previous {
        Some(id) => match find_from(devices, id, 0) {
            Some(i) => Some(i as usize),
            None => first,
        },
        None => first,
    }
}

/// The selection after moving down a list of `len` disks: the next one,
/// after the last the first; with none selected, the first.
pub open spec fn next_selection(selected: Option<usize>, len: nat) -> Option<usize> {
    match selected {
        Some(i) => Some(((i + 1) % (len as int)) as usize),
        None => Some(0usize),
    }
}

/// The selection after moving up a list of `len` disks: the previous one,
/// before the first the last; with none selected, the first.
pub open spec fn previous_selection(selected: Option<usize>, len: nat) -> Option<usize> {
    match selected {
        Some(i) => if i == 0 {
            Some((len - 1) as usize)
        } else {
            Some((i - 1) as usize)
        },
        None => Some(0usize),
    }
}

/// The last offset at which a page still shows content.
pub open spec fn max_offset(content_len: usize, page_len: usize) -> usize {
    let page = if page_len > 1 { page_len } else { 1 };
    if content_len > page {
        (content_len - page) as usize
    } else {
        0
    }
}

impl TuiState {
    /// The state is consistent: the selection is a listed disk and there is
    /// one when any disk is listed, the viewport stays within its content,
    /// and sample series are unique per disk and bounded.
    pub open spec fn wf(&self) -> bool {
        &&& match self.selected {
            Some(i) => i < self.devices@.len(),
            None => self.devices@.len() == 0,
        }
        &&& self.smart_page_len >= 1
        &&& self.smart_offset <= max_offset(self.smart_content_len, self.smart_page_len)
        &&& unique_series(self.samples@)
        &&& forall|k: int| 0 <= k < self.samples@.len() ==> (#[trigger] self.samples@[k]).values@.len() <= 240
    }

    /// The id of the selected disk.
    pub open spec fn selected_id(&self) -> Option<Seq<char>> {
        match self.selected {
            Some(i) => if i < self.devices@.len() {
                Some(self.devices@[i as int].device.id.0@)
            } else {
                None
            },
            None => None,
        }
    }
}

impl TuiState {
    /// The state after moving down the disk list.
    pub open spec fn moved_next(self) -> TuiState {
        if self.devices@.len() > 0 {
            TuiState {
                selected: next_selection(self.selected, self.devices@.len()),
                smart_offset: 0,
                smart_content_len: 0,
                ..self
            }
        } else {
            self
        }
    }

    /// The state after moving up the disk list.
    pub open spec fn moved_previous(self) -> TuiState {
        if self.devices@.len() > 0 {
            TuiState {
                selected: previous_selection(self.selected, self.devices@.len()),
                smart_offset: 0,
                smart_content_len: 0,
                ..self
            }
        } else {
            self
        }
    }

    /// The state showing the next tab.
    pub open spec fn tabbed(self) -> TuiState {
        TuiState { tab: ((self.tab + 1) % 3) as usize, ..self }
    }

    /// The state after switching between the readable and the raw view.
    pub open spec fn toggled(self) -> TuiState {
        TuiState { smart_raw: !self.smart_raw, smart_offset: 0, smart_content_len: 0, ..self }
    }

    /// The state scrolled one page down, no further than the last page.
    pub open spec fn paged_down(self) -> TuiState {
        let max = max_offset(self.smart_content_len, self.smart_page_len);
        TuiState {
            smart_offset: if self.smart_offset + self.smart_page_len < max {
                (self.smart_offset + self.smart_page_len) as usize
            } else {
                max
            },
            ..self
        }
    }

    /// The state scrolled one page up, no further than the top.
    pub open spec fn paged_up(self) -> TuiState {
        TuiState {
            smart_offset: if self.smart_offset >= self.smart_page_len {
                (self.smart_offset - self.smart_page_len) as usize
            } else {
                0
            },
            ..self
        }
    }

    /// The state scrolled to the top.
    pub open spec fn at_home(self) -> TuiState {
        TuiState { smart_offset: 0, ..self }
    }

    /// The state scrolled to the last page.
    pub open spec fn at_end(self) -> TuiState {
        TuiState { smart_offset: max_offset(self.smart_content_len, self.smart_page_len), ..self }
    }
}

proof fn lemma_series_at(samples: Seq<SampleSeries>, id: Seq<char>, k: int)
    requires
        unique_series(samples),
        0 <= k < samples.len(),
        samples[k].device_id@ == id,
    ensures
        series_of(samples, id) == samples[k].values@,
{
    let c = choose|c: int| 0 <= c < samples.len() && (#[trigger] samples[c]).device_id@ == id;
    if c != k {
        if c < k {
            assert(samples[c].device_id@ != samples[k].device_id@);
        } else {
            assert(samples[k].device_id@ != samples[c].device_id@);
        }
    }
}

/// Putting back the series of `id`, taken out at `removed` or new, leaves
/// the series of every other disk as it was.
proof fn lemma_replace_series(
    prev: Seq<SampleSeries>,
    mid: Seq<SampleSeries>,
    entry: SampleSeries,
    id: Seq<char>,
    x: Seq<char>,
    removed: Option<int>,
)
    requires
        unique_series(prev),
        entry.device_id@ == id,
        match removed {
            Some(k) => 0 <= k < prev.len() && prev[k].device_id@ == id && mid == prev.remove(k),
            None => mid == prev && forall|k: int| 0 <= k < prev.len() ==> (#[trigger] prev[k]).device_id@ != id,
        },
    ensures
        unique_series(mid.push(entry)),
        series_of(mid.push(entry), id) == entry.values@,
        x != id ==> series_of(mid.push(entry), x) == series_of(prev, x),
{
    let now = mid.push(entry);
    // where an element of `mid` sits in `prev`
    let at = |a: int| -> int {
        match removed {
            Some(k) => if a < k { a } else { a + 1 },
            None => a,
        }
    };
    assert forall|a: int| 0 <= a < mid.len() implies prev[at(a)] == #[trigger] mid[a] && 0 <= at(a) < prev.len() by {
        if let Some(k) = removed {
            prev.remove_ensures(k);
        }
    }
    assert forall|a: int| 0 <= a < mid.len() implies (#[trigger] mid[a]).device_id@ != id by {
        let b = at(a);
        assert(prev[b] == mid[a]);
        if let Some(k) = removed {
            if b < k {
                assert(prev[b].device_id@ != prev[k].device_id@);
            } else {
                assert(b != k);
                assert(prev[k].device_id@ != prev[b].device_id@);
            }
        }
    }
    assert forall|a: int, b: int| 0 <= a < b < now.len() implies (#[trigger] now[a]).device_id@
        != (#[trigger] now[b]).device_id@ by {
        if b == now.len() - 1 {
            assert(now[a] == mid[a]);
        } else {
            assert(now[a] == mid[a] && now[b] == mid[b]);
            assert(prev[at(a)] == mid[a] && prev[at(b)] == mid[b]);
            assert(at(a) < at(b));
        }
    }
    lemma_series_at(now, id, now.len() - 1);
    if x != id {
        if exists|k: int| 0 <= k < prev.len() && (#[trigger] prev[k]).device_id@ == x {
            let k0 = choose|k: int| 0 <= k < prev.len() && (#[trigger] prev[k]).device_id@ == x;
            lemma_series_at(prev, x, k0);
            let a: int = match removed {
                Some(k) => if k0 < k { k0 } else { k0 - 1 },
                None => k0,
            };
            if let Some(k) = removed {
                prev.remove_ensures(k);
                assert(k0 != k);
            }
            assert(mid[a] == prev[k0]);
            assert(now[a] == mid[a]);
            lemma_series_at(now, x, a);
        } else {
            assert forall|k: int| 0 <= k < now.len() implies (#[trigger] now[k]).device_id@ != x by {
                if k < now.len() - 1 {
                    assert(now[k] == mid[k]);
                    assert(prev[at(k)] == mid[k]);
                }
            }
        }
    }
}

proof fn lemma_recorded_bounded(series: Seq<u64>, t: i32)
    requires
        series.len() <= 240,
    ensures
        recorded(series, t).len() <= 240,
        recorded(series, t).len() > 0,
{
}

fn find_series(samples: &Vec<SampleSeries>, id: &str) -> (r: Option<usize>)
    ensures
        match r {
            Some(k) => k < samples@.len() && samples@[k as int].device_id@ == id@,
            None => forall|k: int| 0 <= k < samples@.len() ==> (#[trigger] samples@[k]).device_id@ != id@,
        },
{
    let mut k: usize = 0;
    while k < samples.len()
        invariant
            k <= samples@.len(),
            forall|j: int| 0 <= j < k ==> (#[trigger] samples@[j]).device_id@ != id@,
        decreases samples@.len() - k,
    {
        if str_equal(samples[k].device_id.as_str(), id) {
            return Some(k);
        }
        k = k + 1;
    }
    None
}

fn find_device(devices: &Vec<DeviceSnapshot>, id: &str) -> (r: Option<usize>)
    ensures
        match r {
            Some(i) => find_from(devices@, id@, 0) == Some(i as int),
            None => find_from(devices@, id@, 0) is None,
        },
{
    let mut i: usize = 0;
    while i < devices.len()
        invariant
            i <= devices@.len(),
            find_from(devices@, id@, 0) == find_from(devices@, id@, i as int),
        decreases devices@.len() - i,
    {
        if str_equal(devices[i].device.id.0.as_str(), id) {
            return Some(i);
        }
        i = i + 1;
    }
    None
}

impl TuiState {
    /// A fresh state showing `devices` in `locale`.
    pub fn new(devices: Vec<DeviceSnapshot>, interval_seconds: u64, locale: Locale) -> (s: Self)
        ensures
            s.wf(),
            s.devices@ == devices@,
            s.selected == reselect(None, devices@),
            s.tab == 0,
            s.interval_seconds == interval_seconds,
            !s.refresh_in_flight && !s.refresh_pending,
            s.error is None,
            s.locale == locale,
            s.smart_offset == 0 && s.smart_page_len == 1 && s.smart_content_len == 0,
            !s.smart_raw,
            forall|id: Seq<char>| #[trigger] series_of(s.samples@, id) == sampled(Seq::empty(), devices@, id),
    {
        let mut state = TuiState {
            devices: Vec::new(),
            selected: None,
            tab: 0,
            interval_seconds,
            refresh_in_flight: false,
            refresh_pending: false,
            error: None,
            samples: Vec::new(),
            locale,
            smart_offset: 0,
            smart_page_len: 1,
            smart_content_len: 0,
            smart_raw: false,
        };
        proof {
            assert forall|id: Seq<char>| #[trigger] series_of(state.samples@, id) == Seq::<u64>::empty() by {}
        }
        state.replace_devices(devices);
        state
    }

    /// The selected disk.
    pub fn selected(&self) -> (r: Option<&DeviceSnapshot>)
        requires
            self.wf(),
        ensures
            match self.selected {
                Some(i) => r == Some(&self.devices@[i as int]),
                None => r is None,
            },
    {
        match self.selected {
            Some(i) => Some(&self.devices[i]),
            None => None,
        }
    }

    fn record_samples(&mut self, devices: &Vec<DeviceSnapshot>)
        requires
            old(self).wf(),
        ensures
            final(self).wf(),
            *final(self) == (TuiState { samples: final(self).samples, ..*old(self) }),
            forall|id: Seq<char>|
                #[trigger] series_of(final(self).samples@, id) == sampled(
                    series_of(old(self).samples@, id),
                    devices@,
                    id,
                ),
    {
        let ghost before = self.samples@;
        let mut i: usize = 0;
        while i < devices.len()
            invariant
                i <= devices@.len(),
                self.wf(),
                *self == (TuiState { samples: self.samples, ..*old(self) }),
                before == old(self).samples@,
                forall|id: Seq<char>|
                    #[trigger] series_of(self.samples@, id) == sampled(
                        series_of(before, id),
                        devices@.subrange(0, i as int),
                        id,
                    ),
            decreases devices@.len() - i,
        {
            let device = &devices[i];
            let ghost prev_samples = self.samples@;
            proof {
                assert(devices@.subrange(0, i + 1).drop_last() =~= devices@.subrange(0, i as int));
                assert(devices@.subrange(0, i + 1).last() == devices@[i as int]);
            }
            match temperature(device) {
                Some(t) => {
                    let value: u64 = if t > 0 {
                        t as u64
                    } else {
                        0
                    };
                    let id = device.device.id.0.as_str();
                    let ghost mut removed: Option<int> = None;
                    let mut entry = match find_series(&self.samples, id) {
                        Some(k) => {
                            proof {
                                lemma_series_at(prev_samples, id@, k as int);
                                removed = Some(k as int);
                            }
                            let e = self.samples.remove(k);
                            assert(self.samples@ == prev_samples.remove(k as int));
                            e
                        },
                        None => SampleSeries { device_id: crate::text::owned(id), values: Vec::new() },
                    };
                    let ghost old_values = entry.values@;
                    assert(old_values == series_of(prev_samples, id@));
                    entry.values.push(value);
                    if entry.values.len() > SAMPLE_LIMIT {
                        entry.values.remove(0);
                    }
                    proof {
                        assert(entry.values@ =~= recorded(old_values, t));
                        lemma_recorded_bounded(old_values, t);
                    }
                    let ghost mid = self.samples@;
                    let ghost entry_view = entry;
                    self.samples.push(entry);
                    proof {
                        assert forall|x: Seq<char>| #[trigger] series_of(self.samples@, x) == sampled(
                            series_of(before, x),
                            devices@.subrange(0, i + 1),
                            x,
                        ) by {
                            lemma_replace_series(prev_samples, mid, entry_view, id@, x, removed);
                        }
                        lemma_replace_series(prev_samples, mid, entry_view, id@, id@, removed);
                    }
                },
                None => {},
            }
            i = i + 1;
        }
        proof {
            assert(devices@.subrange(0, devices@.len() as int) =~= devices@);
        }
    }

    /// Shows new snapshots: records their temperatures, keeps the
    /// selected disk selected when it is still listed, resets the SMART
    /// viewport and clears the error.
    pub fn replace_devices(&mut self, devices: Vec<DeviceSnapshot>)
        requires
            old(self).wf(),
        ensures
            final(self).wf(),
            *final(self) == (TuiState {
                devices: devices,
                selected: reselect(old(self).selected_id(), devices@),
                smart_offset: 0,
                smart_content_len: 0,
                error: None,
                samples: final(self).samples,
                ..*old(self)
            }),
            forall|id: Seq<char>|
                #[trigger] series_of(final(self).samples@, id) == sampled(
                    series_of(old(self).samples@, id),
                    devices@,
                    id,
                ),
    {
        let previous: Option<String> = match self.selected() {
            Some(snapshot) => Some(crate::text::owned(snapshot.device.id.0.as_str())),
            None => None,
        };
        self.record_samples(&devices);
        let index = match &previous {
            Some(id) => match find_device(&devices, id.as_str()) {
                Some(i) => Some(i),
                None => if devices.len() > 0 {
                    Some(0)
                } else {
                    None
                },
            },
            None => if devices.len() > 0 {
                Some(0)
            } else {
                None
            },
        };
        proof {
            if let Some(p) = &previous {
                lemma_find_from_bound(devices@, p@, 0);
            }
        }
        self.devices = devices;
        self.selected = index;
        self.smart_offset = 0;
        self.smart_content_len = 0;
        self.error = None;
    }

    /// Takes the result of a refresh. A result that arrives while a newer
    /// refresh is pending is stale and dropped; otherwise the snapshots
    /// replace the shown ones, or the error is shown. Returns whether the
    /// snapshots were replaced.
    pub fn complete_refresh(&mut self, result: Result<Vec<DeviceSnapshot>, AppError>) -> (replaced: bool)
        requires
            old(self).wf(),
        ensures
            final(self).wf(),
            replaced == (!old(self).refresh_pending && result is Ok),
            !final(self).refresh_in_flight,
            final(self).refresh_pending == old(self).refresh_pending,
            old(self).refresh_pending ==> *final(self) == (TuiState {
                refresh_in_flight: false,
                ..*old(self)
            }),
            !old(self).refresh_pending ==> match result {
                Ok(devices) => {
                    &&& *final(self) == (TuiState {
                        devices: devices,
                        selected: reselect(old(self).selected_id(), devices@),
                        refresh_in_flight: false,
                        smart_offset: 0,
                        smart_content_len: 0,
                        error: None,
                        samples: final(self).samples,
                        ..*old(self)
                    })
                    &&& forall|id: Seq<char>|
                        #[trigger] series_of(final(self).samples@, id) == sampled(
                            series_of(old(self).samples@, id),
                            devices@,
                            id,
                        )
                },
                Err(e) => {
                    &&& final(self).error is Some
                    &&& final(self).error->0@ == app_error_text(e)
                    &&& *final(self) == (TuiState {
                        refresh_in_flight: false,
                        error: final(self).error,
                        ..*old(self)
                    })
                },
            },
    {
        self.refresh_in_flight = false;
        if self.refresh_pending {
            return false;
        }
        match result {
            Ok(devices) => {
                self.replace_devices(devices);
                true
            },
            Err(error) => {
                self.error = Some(error.message());
                false
            },
        }
    }

    /// Selects the next disk, wrapping to the first, and resets the SMART
    /// viewport.
    pub fn select_next(&mut self)
        requires
            old(self).wf(),
        ensures
            final(self).wf(),
            *final(self) == old(self).moved_next(),
    {
        if self.devices.len() == 0 {
            return;
        }
        let next = match self.selected {
            Some(index) => (index + 1) % self.devices.len(),
            None => 0,
        };
        self.selected = Some(next);
        self.reset_smart_viewport();
    }

    /// Selects the previous disk, wrapping to the last, and resets the
    /// SMART viewport.
    pub fn select_previous(&mut self)
        requires
            old(self).wf(),
        ensures
            final(self).wf(),
            *final(self) == old(self).moved_previous(),
    {
        if self.devices.len() == 0 {
            return;
        }
        let previous = match self.selected {
            Some(index) => if index == 0 {
                self.devices.len() - 1
            } else {
                index - 1
            },
            None => 0,
        };
        self.selected = Some(previous);
        self.reset_smart_viewport();
    }

    /// Switches to the next tab, after the last back to the first.
    pub fn next_tab(&mut self)
        ensures
            *final(self) == old(self).tabbed(),
    {
        self.tab = if self.tab >= 2 {
            (self.tab - 2) % 3
        } else {
            self.tab + 1
        };
    }

    /// Switches between the readable and the raw SMART view.
    pub fn toggle_smart_view(&mut self)
        requires
            old(self).wf(),
        ensures
            final(self).wf(),
            *final(self) == old(self).toggled(),
    {
        self.smart_raw = !self.smart_raw;
        self.reset_smart_viewport();
    }

    /// The last offset of the SMART viewport.
    pub fn max_smart_offset(&self) -> (m: usize)
        ensures
            m == max_offset(self.smart_content_len, self.smart_page_len),
    {
        let page = if self.smart_page_len > 1 {
            self.smart_page_len
        } else {
            1
        };
        if self.smart_content_len > page {
            self.smart_content_len - page
        } else {
            0
        }
    }

    /// Scrolls one page down, no further than the last page.
    pub fn smart_page_down(&mut self)
        requires
            old(self).wf(),
        ensures
            final(self).wf(),
            *final(self) == old(self).paged_down(),
    {
        let page = if self.smart_page_len > 1 {
            self.smart_page_len
        } else {
            1
        };
        let max = self.max_smart_offset();
        let next = if self.smart_offset <= usize::MAX - page {
            self.smart_offset + page
        } else {
            usize::MAX
        };
        self.smart_offset = if next < max {
            next
        } else {
            max
        };
    }

    /// Scrolls one page up, no further than the top.
    pub fn smart_page_up(&mut self)
        requires
            old(self).wf(),
        ensures
            final(self).wf(),
            *final(self) == old(self).paged_up(),
    {
        let page = if self.smart_page_len > 1 {
            self.smart_page_len
        } else {
            1
        };
        self.smart_offset = if self.smart_offset >= page {
            self.smart_offset - page
        } else {
            0
        };
    }

    /// Scrolls to the top.
    pub fn smart_home(&mut self)
        requires
            old(self).wf(),
        ensures
            final(self).wf(),
            *final(self) == old(self).at_home(),
    {
        self.smart_offset = 0;
    }

    /// Scrolls to the last page.
    pub fn smart_end(&mut self)
        requires
            old(self).wf(),
        ensures
            final(self).wf(),
            *final(self) == old(self).at_end(),
    {
        self.smart_offset = self.max_smart_offset();
    }

    /// Sets the size of the SMART content and of one page, keeping the
    /// offset within the new content.
    pub fn set_smart_viewport(&mut self, content_len: usize, page_len: usize)
        requires
            old(self).wf(),
        ensures
            final(self).wf(),
            final(self).smart_content_len == content_len,
            final(self).smart_page_len == if page_len > 1 {
                page_len
            } else {
                1
            },
            final(self).smart_offset == if old(self).smart_offset < max_offset(content_len, page_len) {
                old(self).smart_offset
            } else {
                max_offset(content_len, page_len)
            },
            *final(self) == (TuiState {
                smart_offset: final(self).smart_offset,
                smart_page_len: final(self).smart_page_len,
                smart_content_len: content_len,
                ..*old(self)
            }),
    {
        self.smart_content_len = content_len;
        self.smart_page_len = if page_len > 1 {
            page_len
        } else {
            1
        };
        let max = self.max_smart_offset();
        if self.smart_offset > max {
            self.smart_offset = max;
        }
    }

    /// Returns the SMART viewport to the top with no content measured yet.
    pub fn reset_smart_viewport(&mut self)
        requires
            old(self).wf(),
        ensures
            final(self).wf(),
            *final(self) == (TuiState { smart_offset: 0, smart_content_len: 0, ..*old(self) }),
    {
        self.smart_offset = 0;
        self.smart_content_len = 0;
    }

    /// Acts on a key press: quits, moves the selection, switches the tab,
    /// or, on the SMART tab, toggles the view and scrolls; asks for a
    /// refresh unless one is running. Other keys change nothing.
    pub fn handle_key(&mut self, key: Key) -> (action: KeyAction)
        requires
            old(self).wf(),
        ensures
            final(self).wf(),
            action == match key {
                Key::Quit => KeyAction::Quit,
                Key::Refresh => if old(self).refresh_in_flight {
                    KeyAction::Redraw
                } else {
                    KeyAction::StartRefresh
                },
                _ => KeyAction::Redraw,
            },
            *final(self) == match key {
                Key::Next => old(self).moved_next(),
                Key::Previous => old(self).moved_previous(),
                Key::Tab => old(self).tabbed(),
                Key::ToggleView => if old(self).tab == 1 { old(self).toggled() } else { *old(self) },
                Key::PageDown => if old(self).tab == 1 { old(self).paged_down() } else { *old(self) },
                Key::PageUp => if old(self).tab == 1 { old(self).paged_up() } else { *old(self) },
                Key::Home => if old(self).tab == 1 { old(self).at_home() } else { *old(self) },
                Key::End => if old(self).tab == 1 { old(self).at_end() } else { *old(self) },
                Key::Refresh => TuiState { refresh_in_flight: true, ..*old(self) },
                _ => *old(self),
            },
    {
        let on_smart_tab = self.tab == 1;
        match key {
            Key::Quit => KeyAction::Quit,
            Key::Next => {
                self.select_next();
                KeyAction::Redraw
            },
            Key::Previous => {
                self.select_previous();
                KeyAction::Redraw
            },
            Key::Tab => {
                self.next_tab();
                KeyAction::Redraw
            },
            Key::ToggleView => {
                if on_smart_tab {
                    self.toggle_smart_view();
                }
                KeyAction::Redraw
            },
            Key::PageDown => {
                if on_smart_tab {
                    self.smart_page_down();
                }
                KeyAction::Redraw
            },
            Key::PageUp => {
                if on_smart_tab {
                    self.smart_page_up();
                }
                KeyAction::Redraw
            },
            Key::Home => {
                if on_smart_tab {
                    self.smart_home();
                }
                KeyAction::Redraw
            },
            Key::End => {
                if on_smart_tab {
                    self.smart_end();
                }
                KeyAction::Redraw
            },
            Key::Refresh => {
                if self.manual_refresh() {
                    KeyAction::StartRefresh
                } else {
                    KeyAction::Redraw
                }
            },
            Key::Other => KeyAction::Redraw,
        }
    }

    /// Notes whether the disks changed; a change while a refresh is running
    /// makes that refresh stale.
    pub fn note_inventory_change(&mut self, changed: bool)
        ensures
            *final(self) == (TuiState {
                refresh_pending: old(self).refresh_pending || (changed && old(self).refresh_in_flight),
                ..*old(self)
            }),
    {
        if changed && self.refresh_in_flight {
            self.refresh_pending = true;
        }
    }

    /// Decides whether to start a refresh now: never while one runs;
    /// otherwise for a pending refresh (which is then no longer pending), a
    /// change of disks, or a due scheduled refresh.
    pub fn start_refresh(&mut self, changed: bool, due: bool) -> (start: bool)
        ensures
            start == (!old(self).refresh_in_flight && (old(self).refresh_pending || changed || due)),
            *final(self) == (TuiState {
                refresh_in_flight: old(self).refresh_in_flight || start,
                refresh_pending: old(self).refresh_pending && !start,
                ..*old(self)
            }),
    {
        if self.refresh_in_flight {
            return false;
        }
        if self.refresh_pending {
            self.refresh_pending = false;
            self.refresh_in_flight = true;
            return true;
        }
        if changed || due {
            self.refresh_in_flight = true;
            return true;
        }
        false
    }

    /// A refresh asked for by the user, unless one is running.
    pub fn manual_refresh(&mut self) -> (start: bool)
        ensures
            start == !old(self).refresh_in_flight,
            *final(self) == (TuiState { refresh_in_flight: true, ..*old(self) }),
    {
        if self.refresh_in_flight {
            return false;
        }
        self.refresh_in_flight = true;
        true
    }

    /// Whether a scheduled refresh is due, `elapsed_nanos` after the last
    /// one: scheduling is on (a nonzero interval) and at least the interval
    /// has passed.
    pub fn should_refresh(&self, elapsed_nanos: u128) -> (due: bool)
        ensures
            due == (self.interval_seconds != 0 && elapsed_nanos >= self.interval_seconds * 1_000_000_000),
    {
        let interval = self.interval_seconds as u128;
        assert(interval * 1_000_000_000 <= u128::MAX) by (nonlinear_arith)
            requires
                interval <= u64::MAX,
        ;
        self.interval_seconds != 0 && elapsed_nanos >= interval * 1_000_000_000
    }

    /// The footer line.
    pub fn footer(&self) -> (s: String)
        ensures
            s@ == footer_text(*self),
    {
        let m = self.locale.messages();
        match &self.error {
            Some(e) => {
                let mut s = owned(m.refresh_error_prefix);
                push_str(&mut s, " | ");
                push_str(&mut s, e.as_str());
                s
            },
            None => {
                let mut s = owned(m.footer);
                push_str(&mut s, " ");
                let n = u64_text(self.interval_seconds);
                push_str(&mut s, n.as_str());
                push_str(&mut s, "s");
                s
            },
        }
    }

    /// The cells of each row of the disk table; the table is narrow on the
    /// SMART tab.
    pub fn disk_rows(&self) -> (rows: Vec<Vec<String>>)
        ensures
            rows@.len() == self.devices@.len(),
            forall|i: int|
                0 <= i < rows@.len() ==> texts(#[trigger] rows@[i]@) == disk_cells(
                    self.devices@[i],
                    messages_of(self.locale),
                    self.tab == 1,
                ),
    {
        let m = self.locale.messages();
        let compact = self.tab == 1;
        let mut rows: Vec<Vec<String>> = Vec::new();
        let mut i: usize = 0;
        while i < self.devices.len()
            invariant
                i <= self.devices@.len(),
                m == messages_of(self.locale),
                compact == (self.tab == 1),
                rows@.len() == i,
                forall|k: int|
                    0 <= k < i ==> texts(#[trigger] rows@[k]@) == disk_cells(self.devices@[k], m, compact),
            decreases self.devices@.len() - i,
        {
            let d = &self.devices[i];
            let mut cells: Vec<String> = Vec::new();
            cells.push(owned(d.device.device_node.as_str()));
            if !compact {
                match &d.device.identity.model {
                    Some(model) => cells.push(owned(model.as_str())),
                    None => cells.push(owned(m.unknown)),
                }
                cells.push(owned(health_label(&d.health, self.locale)));
                cells.push(owned(smart_label(d, self.locale)));
            }
            assert(texts(cells@) =~= disk_cells(*d, m, compact));
            rows.push(cells);
            i = i + 1;
        }
        rows
    }

    /// The temperature samples of a disk.
    pub fn samples_for(&self, id: &str) -> (r: Vec<u64>)
        requires
            self.wf(),
        ensures
            r@ == series_of(self.samples@, id@),
    {
        match find_series(&self.samples, id) {
            Some(k) => {
                proof {
                    lemma_series_at(self.samples@, id@, k as int);
                }
                let mut r: Vec<u64> = Vec::new();
                let mut j: usize = 0;
                while j < self.samples[k].values.len()
                    invariant
                        k < self.samples@.len(),
                        j <= self.samples@[k as int].values@.len(),
                        r@ == self.samples@[k as int].values@.subrange(0, j as int),
                    decreases self.samples@[k as int].values@.len() - j,
                {
                    r.push(self.samples[k].values[j]);
                    j = j + 1;
                }
                proof {
                    assert(self.samples@[k as int].values@.subrange(0, j as int) =~= self.samples@[k as int].values@);
                }
                r
            },
            None => Vec::new(),
        }
    }
}


/// Moving up after moving down returns to the disk that was selected.
pub proof fn lemma_previous_undoes_next(i: usize, len: nat)
    requires
        i < len,
        len <= usize::MAX,
    ensures
        previous_selection(next_selection(Some(i), len), len) == Some(i),
{
    lemma_next_index(i, len);
}

proof fn lemma_next_index(i: usize, len: nat)
    requires
        i < len,
    ensures
        (i + 1) % (len as int) == if i + 1 < len {
            i + 1
        } else {
            0
        },
{
    if i + 1 < len {
        vstd::arithmetic::div_mod::lemma_small_mod((i + 1) as nat, len);
    } else {
        vstd::arithmetic::div_mod::lemma_mod_self_0(len as int);
    }
}

/// Moving down after moving up returns to the disk that was selected.
pub proof fn lemma_next_undoes_previous(i: usize, len: nat)
    requires
        i < len,
        len <= usize::MAX,
    ensures
        next_selection(previous_selection(Some(i), len), len) == Some(i),
{
    if i == 0 {
        lemma_next_index((len - 1) as usize, len);
    } else {
        lemma_next_index((i - 1) as usize, len);
    }
}

/// Pressing down and then up, or up and then down, selects the disk that
/// was selected before, with the SMART viewport back at the top.
pub proof fn lemma_moves_undo_each_other(s: TuiState)
    requires
        s.wf(),
        s.devices@.len() <= usize::MAX,
    ensures
        s.selected is Some ==> s.moved_next().moved_previous().selected == s.selected,
        s.selected is Some ==> s.moved_previous().moved_next().selected == s.selected,
        s.moved_next().moved_previous().smart_offset == if s.devices@.len() > 0 {
            0
        } else {
            s.smart_offset
        },
{
    if let Some(i) = s.selected {
        lemma_previous_undoes_next(i, s.devices@.len());
        lemma_next_undoes_previous(i, s.devices@.len());
        lemma_moves_stay_in_list(s.selected, s.devices@.len());
    }
}

/// Moving down or up keeps the selection on a listed disk.
pub proof fn lemma_moves_stay_in_list(selected: Option<usize>, len: nat)
    requires
        len > 0,
        len <= usize::MAX,
        selected matches Some(i) ==> i < len,
    ensures
        (next_selection(selected, len) matches Some(j) && j < len),
        (previous_selection(selected, len) matches Some(j) && j < len),
{
    if let Some(i) = selected {
        lemma_next_index(i, len);
    }
}

/// After new snapshots arrive, the disk that was selected stays selected
/// when it is still listed; otherwise the first disk is selected.
pub proof fn lemma_reselect_follows_disk(previous: Seq<char>, devices: Seq<DeviceSnapshot>)
    requires
        devices.len() <= usize::MAX,
    ensures
        (exists|k: int| 0 <= k < devices.len() && #[trigger] devices[k].device.id.0@ == previous)
            ==> (reselect(Some(previous), devices) matches Some(i) && i < devices.len()
            && devices[i as int].device.id.0@ == previous),
        !(exists|k: int| 0 <= k < devices.len() && #[trigger] devices[k].device.id.0@ == previous)
            ==> reselect(Some(previous), devices) == (if devices.len() > 0 {
            Some(0usize)
        } else {
            None
        }),
{
    lemma_find_from_bound(devices, previous, 0);
    lemma_find_from_hit(devices, previous, 0);
}

proof fn lemma_find_from_hit(devices: Seq<DeviceSnapshot>, id: Seq<char>, i: int)
    requires
        0 <= i,
    ensures
        (find_from(devices, id, i) matches Some(k) ==> devices[k].device.id.0@ == id),
        (find_from(devices, id, i) is None ==> forall|k: int| i <= k < devices.len() ==> #[trigger] devices[k].device.id.0@ != id),
    decreases devices.len() - i,
{
    if i < devices.len() && devices[i].device.id.0@ != id {
        lemma_find_from_hit(devices, id, i + 1);
    }
}

proof fn lemma_find_from_bound(devices: Seq<DeviceSnapshot>, id: Seq<char>, i: int)
    ensures
        find_from(devices, id, i) matches Some(k) ==> i <= k < devices.len(),
    decreases devices.len() - i,
{
    if 0 <= i < devices.len() && devices[i].device.id.0@ != id {
        lemma_find_from_bound(devices, id, i + 1);
    }
}

} // verus!

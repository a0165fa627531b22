//! Snapshot collection and device selection.

use vstd::prelude::*;

use crate::domain::{health_of_read, read_verdict, DeviceRecord, DeviceSnapshot, SmartState};
use crate::platform::{platform_error_text, DeviceInventory, PlatformError, SmartReader};
use crate::text::{chars_equal, chars_of, owned, push_str, string_from_chars};
use crate::JSON_SCHEMA_VERSION;

verus! {

/// The versioned machine-readable snapshot of all disks.
#[derive(Clone, Debug, PartialEq, Eq)]
pub struct SnapshotEnvelope {
    pub schema_version: u32,
    pub devices: Vec<DeviceSnapshot>,
}

impl SnapshotEnvelope {
    /// Wraps the snapshots with the current schema version.
    pub fn new(devices: Vec<DeviceSnapshot>) -> (e: Self)
        ensures
            e.schema_version == JSON_SCHEMA_VERSION,
            e.devices == devices,
    {
        SnapshotEnvelope { schema_version: JSON_SCHEMA_VERSION, devices }
    }
}

/// A failure of a command.
#[derive(Clone, Debug, PartialEq, Eq)]
pub enum AppError {
    Platform(PlatformError),
    DeviceNotFound(String),
}

/// The description of an application error.
pub open spec fn app_error_text(e: AppError) -> Seq<char> {
    match e {
        AppError::Platform(p) => platform_error_text(p),
        AppError::DeviceNotFound(selector) => "device selector '"@ + selector@
            + "' did not match an emitted device id or device node"@,
    }
}

impl AppError {
    /// The description of the error.
    pub fn message(&self) -> (s: String)
        ensures
            s@ == app_error_text(*self),
    {
        match self {
            AppError::Platform(p) => p.message(),
            AppError::DeviceNotFound(selector) => {
                let mut s = owned("device selector '");
                push_str(&mut s, selector.as_str());
                push_str(&mut s, "' did not match an emitted device id or device node");
                s
            },
        }
    }
}

/// Seconds since the Unix epoch on the system clock, zero when the clock
/// is set before the epoch (`SystemTime::now` and `duration_since`).
/// Trusted: nothing is stated of the reading, which depends on the clock.
#[verifier::external_body]
fn unix_now_seconds() -> u64 {
    std::time::SystemTime::now()
        .duration_since(std::time::UNIX_EPOCH)
        .unwrap_or_default()
        .as_secs()
}

/// The snapshot of one disk: its SMART read, the health that read
/// supports, and the time of observation.
pub fn snapshot_device(device: DeviceRecord, smart: SmartState, observed_at_unix_seconds: u64) -> (s:
    DeviceSnapshot)
    ensures
        s.device == device,
        s.smart == smart,
        s.health@ == read_verdict(smart),
        s.observed_at_unix_seconds == observed_at_unix_seconds,
{
    let health = health_of_read(&smart);
    DeviceSnapshot { device, smart, health, observed_at_unix_seconds }
}

/// Every snapshot's health is the one its SMART read supports, and all
/// were observed at the same time.
pub open spec fn consistent_snapshots(snapshots: Seq<DeviceSnapshot>) -> bool {
    &&& forall|i: int| 0 <= i < snapshots.len() ==> (#[trigger] snapshots[i]).health@ == read_verdict(
        snapshots[i].smart,
    )
    &&& forall|i: int|
        0 <= i < snapshots.len() ==> (#[trigger] snapshots[i]).observed_at_unix_seconds
            == snapshots[0].observed_at_unix_seconds
}

/// Reads SMART data from each disk, in order: every disk gets exactly one
/// snapshot holding what the reader returned for it, with the health that
/// read supports, all observed at `observed_at_unix_seconds`.
pub fn snapshot_devices<R: SmartReader>(
    devices: Vec<DeviceRecord>,
    reader: &R,
    observed_at_unix_seconds: u64,
) -> (r: Vec<DeviceSnapshot>)
    ensures
        r@.len() == devices@.len(),
        forall|i: int| 0 <= i < r@.len() ==> (#[trigger] r@[i]).device == devices@[i],
        forall|i: int|
            0 <= i < r@.len() ==> (#[trigger] r@[i]).health@ == read_verdict(r@[i].smart)
                && r@[i].observed_at_unix_seconds == observed_at_unix_seconds,
        forall|i: int|
            0 <= i < r@.len() ==> call_ensures(R::read, (reader, &devices@[i]), (#[trigger] r@[i]).smart),
{
    let mut snapshots: Vec<DeviceSnapshot> = Vec::new();
    let mut remaining = devices;
    while remaining.len() > 0
        invariant
            snapshots@.len() + remaining@.len() == devices@.len(),
            remaining@ == devices@.subrange(snapshots@.len() as int, devices@.len() as int),
            forall|i: int| 0 <= i < snapshots@.len() ==> (#[trigger] snapshots@[i]).device == devices@[i],
            forall|i: int|
                0 <= i < snapshots@.len() ==> (#[trigger] snapshots@[i]).health@ == read_verdict(
                    snapshots@[i].smart,
                ) && snapshots@[i].observed_at_unix_seconds == observed_at_unix_seconds,
            forall|i: int|
                0 <= i < snapshots@.len() ==> call_ensures(
                    R::read,
                    (reader, &devices@[i]),
                    (#[trigger] snapshots@[i]).smart,
                ),
        decreases remaining.len(),
    {
        let ghost done = snapshots@.len();
        let device = remaining.remove(0);
        assert(device == devices@[done as int]);
        let smart = reader.read(&device);
        let snapshot = snapshot_device(device, smart, observed_at_unix_seconds);
        snapshots.push(snapshot);
        assert(remaining@ =~= devices@.subrange(snapshots@.len() as int, devices@.len() as int));
    }
    snapshots
}

/// Lists the disks and reads SMART data from each, in inventory order: the
/// listing's error comes back as the platform error, and otherwise each
/// listed disk gets the snapshot of its own read. An inventory failure is
/// the only error; a disk whose SMART read fails is
/// still listed, with unknown health. All snapshots carry the time the
/// collection started.
pub fn collect_snapshots<I: DeviceInventory, R: SmartReader>(inventory: &I, reader: &R) -> (r: Result<
    Vec<DeviceSnapshot>,
    AppError,
>)
    ensures
        r is Ok ==> consistent_snapshots(r->Ok_0@),
        r is Err ==> r->Err_0 is Platform,
        exists|listed: Result<Vec<DeviceRecord>, PlatformError>|
            #[trigger] call_ensures(I::list, (inventory,), listed) && match listed {
                Ok(ds) => {
                    &&& r is Ok
                    &&& r->Ok_0@.len() == ds@.len()
                    &&& forall|i: int|
                        0 <= i < ds@.len() ==> (#[trigger] r->Ok_0@[i]).device == ds@[i]
                            && call_ensures(R::read, (reader, &ds@[i]), r->Ok_0@[i].smart)
                },
                Err(e) => r == Err::<Vec<DeviceSnapshot>, AppError>(AppError::Platform(e)),
            },
{
    let observed_at_unix_seconds = unix_now_seconds();
    let listed = inventory.list();
    let ghost listed_view = listed;
    assert(call_ensures(I::list, (inventory,), listed_view));
    match listed {
        Ok(devices) => Ok(snapshot_devices(devices, reader, observed_at_unix_seconds)),
        Err(error) => Err(AppError::Platform(error)),
    }
}

/// The last component of a path when it is a file or directory name
/// (`Path::file_name`): trailing separators and `.` components are
/// skipped, and a path ending in `..` has none.
pub open spec fn file_name(p: Seq<char>) -> Option<Seq<char>>
    decreases p.len(),
{
    if p.len() == 0 {
        None
    } else if p.last() == '/' {
        file_name(p.drop_last())
    } else {
        let start = last_separator(p) + 1;
        let name = p.subrange(start, p.len() as int);
        if name == "."@ {
            proof {
                lemma_last_separator(p);
            }
            file_name(p.subrange(0, start))
        } else if name == ".."@ {
            None
        } else {
            Some(name)
        }
    }
}

/// The index of the last `/` in `p`, or -1.
pub open spec fn last_separator(p: Seq<char>) -> int
    decreases p.len(),
{
    if p.len() == 0 {
        -1
    } else if p.last() == '/' {
        p.len() - 1
    } else {
        last_separator(p.drop_last())
    }
}

pub proof fn lemma_last_separator(p: Seq<char>)
    ensures
        -1 <= last_separator(p) < p.len(),
        last_separator(p) >= 0 ==> p[last_separator(p)] == '/',
        forall|k: int| last_separator(p) < k < p.len() ==> p[k] != '/',
    decreases p.len(),
{
    if p.len() > 0 && p.last() != '/' {
        lemma_last_separator(p.drop_last());
        assert forall|k: int| last_separator(p) < k < p.len() implies p[k] != '/' by {
            if k < p.len() - 1 {
                assert(p[k] == p.drop_last()[k]);
            }
        }
    }
}

proof fn lemma_last_separator_is(p: Seq<char>, j: int)
    requires
        -1 <= j < p.len(),
        j >= 0 ==> p[j] == '/',
        forall|k: int| j < k < p.len() ==> p[k] != '/',
    ensures
        last_separator(p) == j,
    decreases p.len(),
{
    if p.len() > 0 && p.last() != '/' {
        assert forall|k: int| j < k < p.drop_last().len() implies p.drop_last()[k] != '/' by {
            assert(p.drop_last()[k] == p[k]);
        }
        lemma_last_separator_is(p.drop_last(), j);
    }
}

/// The file name of a device path.
pub fn path_file_name(path: &str) -> (r: Option<String>)
    ensures
        crate::text::opt_text(r) == file_name(path@),
{
    let cs = chars_of(path);
    let dot = chars_of(".");
    let dot_dot = chars_of("..");
    let mut end: usize = cs.len();
    proof {
        assert(cs@.subrange(0, end as int) =~= path@);
    }
    loop
        invariant
            end <= cs.len(),
            cs@ == path@,
            dot@ == "."@,
            dot_dot@ == ".."@,
            file_name(cs@.subrange(0, end as int)) == file_name(path@),
        decreases end,
    {
        let ghost p = cs@.subrange(0, end as int);
        if end == 0 {
            return None;
        }
        if cs[end - 1] == '/' {
            proof {
                assert(p.drop_last() =~= cs@.subrange(0, end - 1));
            }
            end = end - 1;
        } else {
            let mut j: usize = end - 1;
            while j > 0 && cs[j - 1] != '/'
                invariant
                    j < end <= cs.len(),
                    forall|k: int| j <= k < end ==> cs@[k] != '/',
                decreases j,
            {
                j = j - 1;
            }
            proof {
                lemma_last_separator_is(p, j - 1);
            }
            let name = string_from_chars(&cs, j, end);
            let name_chars = chars_of(name.as_str());
            proof {
                assert(p.subrange(j as int, p.len() as int) =~= cs@.subrange(j as int, end as int));
            }
            if chars_equal(&name_chars, &dot) {
                proof {
                    assert(p.subrange(0, j as int) =~= cs@.subrange(0, j as int));
                }
                end = j;
            } else if chars_equal(&name_chars, &dot_dot) {
                return None;
            } else {
                return Some(name);
            }
        }
    }
}

/// Whether `selector` names a snapshot: by its id, by its device node, or
/// by the file name of its device node (the BSD name).
pub open spec fn selects(s: DeviceSnapshot, selector: Seq<char>) -> bool {
    ||| s.device.id.0@ == selector
    ||| s.device.device_node@ == selector
    ||| file_name(s.device.device_node@) == Some(selector)
}

fn selector_matches(s: &DeviceSnapshot, selector: &str) -> (r: bool)
    ensures
        r == selects(*s, selector@),
{
    if crate::text::str_equal(s.device.id.0.as_str(), selector) {
        return true;
    }
    if crate::text::str_equal(s.device.device_node.as_str(), selector) {
        return true;
    }
    match path_file_name(s.device.device_node.as_str()) {
        Some(name) => crate::text::str_equal(name.as_str(), selector),
        None => false,
    }
}

/// The index of the first snapshot that `selector` names.
pub fn select_index(devices: &[DeviceSnapshot], selector: &str) -> (r: Option<usize>)
    ensures
        r is None <==> forall|k: int| 0 <= k < devices@.len() ==> !selects(#[trigger] devices@[k], selector@),
        r matches Some(i) ==> i < devices@.len() && selects(devices@[i as int], selector@)
            && forall|k: int| 0 <= k < i ==> !selects(#[trigger] devices@[k], selector@),
{
    let mut i: usize = 0;
    while i < devices.len()
        invariant
            i <= devices@.len(),
            forall|k: int| 0 <= k < i ==> !selects(#[trigger] devices@[k], selector@),
        decreases devices@.len() - i,
    {
        if selector_matches(&devices[i], selector) {
            return Some(i);
        }
        i = i + 1;
    }
    None
}

/// The first snapshot that `selector` names, or `DeviceNotFound` with the
/// selector when none does.
pub fn select_device<'a>(devices: &'a [DeviceSnapshot], selector: &str) -> (r: Result<
    &'a DeviceSnapshot,
    AppError,
>)
    ensures
        r is Ok <==> exists|i: int| 0 <= i < devices@.len() && selects(#[trigger] devices@[i], selector@),
        r is Ok ==> exists|i: int|
            0 <= i < devices@.len() && *r->Ok_0 == devices@[i] && selects(devices@[i], selector@)
                && forall|k: int| 0 <= k < i ==> !selects(#[trigger] devices@[k], selector@),
        r is Err ==> (r->Err_0 matches AppError::DeviceNotFound(s) && s@ == selector@),
{
    match select_index(devices, selector) {
        Some(i) => Ok(&devices[i]),
        None => Err(AppError::DeviceNotFound(owned(selector))),
    }
}

} // verus!

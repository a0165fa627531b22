//! Classification of discovered media: bus, protocol, and the device record
//! built from the registry properties of a whole physical disk.

use vstd::prelude::*;

use crate::domain::{ConnectionBus, ConnectionInfo, DeviceId, DeviceIdentity, DeviceRecord, StorageProtocol};
use crate::text::{
    ascii_lowercase, chars_of, contains_chars, contains_seq, eq_ignore_ascii_case,
    equal_ignoring_ascii_case, hex16_lower, lowercase_chars, opt_text, owned, push_str, trim_chars,
    trim_text, zero_padded, digits, TrimSet,
};

use super::node_order::{
    lemma_tokens_le_reflexive, lemma_tokens_le_total, lemma_tokens_le_transitive, node_le, path_key,
    path_tokens, tokens_in_order, PathToken,
};

verus! {

/// The lowercase text of an optional property, empty when absent.
pub open spec fn lowered(value: Option<Seq<char>>) -> Seq<char> {
    match value {
        Some(v) => ascii_lowercase(v),
        None => Seq::empty(),
    }
}

/// Whether an optional property equals `word` ignoring ASCII case.
pub open spec fn is_word(value: Option<Seq<char>>, word: Seq<char>) -> bool {
    match value {
        Some(v) => eq_ignore_ascii_case(v, word),
        None => false,
    }
}

/// The bus named by the physical interconnect (checked for `usb`,
/// `thunderbolt`, `pci`, `sata` or `ata`, `sas`, in that order, ignoring
/// case), else internal when the location says so, else unknown.
pub open spec fn bus_of(interconnect: Option<Seq<char>>, location: Option<Seq<char>>) -> ConnectionBus {
    let v = lowered(interconnect);
    if contains_seq(v, "usb"@) {
        ConnectionBus::Usb
    } else if contains_seq(v, "thunderbolt"@) {
        ConnectionBus::Thunderbolt
    } else if contains_seq(v, "pci"@) {
        ConnectionBus::Pcie
    } else if contains_seq(v, "sata"@) || contains_seq(v, "ata"@) {
        ConnectionBus::Sata
    } else if contains_seq(v, "sas"@) {
        ConnectionBus::Sas
    } else if is_word(location, "internal"@) {
        ConnectionBus::Internal
    } else {
        ConnectionBus::Unknown
    }
}

/// The protocol: NVMe when NVMe SMART is offered, the interconnect says
/// NVMe, or the bus is PCIe; else ATA when ATA SMART is offered or the
/// interconnect says SATA or ATA; else SCSI when the interconnect says so
/// or the bus is USB or SAS; else unknown.
pub open spec fn protocol_of(
    bus: ConnectionBus,
    interconnect: Option<Seq<char>>,
    nvme_smart_capable: bool,
    ata_smart_capable: bool,
) -> StorageProtocol {
    let v = lowered(interconnect);
    if nvme_smart_capable || contains_seq(v, "nvme"@) || bus == ConnectionBus::Pcie {
        StorageProtocol::Nvme
    } else if ata_smart_capable || contains_seq(v, "sata"@) || contains_seq(v, "ata"@) {
        StorageProtocol::Ata
    } else if contains_seq(v, "scsi"@) || bus == ConnectionBus::Usb || bus == ConnectionBus::Sas {
        StorageProtocol::Scsi
    } else {
        StorageProtocol::Unknown
    }
}

/// The view of an optional string slice.
pub open spec fn opt_str(s: Option<&str>) -> Option<Seq<char>> {
    match s {
        Some(t) => Some(t@),
        None => None,
    }
}

fn lowered_chars(value: Option<&str>) -> (v: Vec<char>)
    ensures
        v@ == lowered(opt_str(value)),
{
    match value {
        Some(t) => lowercase_chars(t),
        None => {
            let v: Vec<char> = Vec::new();
            assert(v@ =~= Seq::<char>::empty());
            v
        },
    }
}

fn mentions(v: &Vec<char>, needle: &str) -> (r: bool)
    ensures
        r == contains_seq(v@, needle@),
{
    let n = chars_of(needle);
    contains_chars(v, &n)
}

/// Classifies the bus of a disk.
pub fn classify_bus(interconnect: Option<&str>, location: Option<&str>) -> (b: ConnectionBus)
    ensures
        b == bus_of(opt_str(interconnect), opt_str(location)),
{
    let value = lowered_chars(interconnect);
    if mentions(&value, "usb") {
        ConnectionBus::Usb
    } else if mentions(&value, "thunderbolt") {
        ConnectionBus::Thunderbolt
    } else if mentions(&value, "pci") {
        ConnectionBus::Pcie
    } else if mentions(&value, "sata") || mentions(&value, "ata") {
        ConnectionBus::Sata
    } else if mentions(&value, "sas") {
        ConnectionBus::Sas
    } else if match location {
        Some(l) => equal_ignoring_ascii_case(l, "internal"),
        None => false,
    } {
        ConnectionBus::Internal
    } else {
        ConnectionBus::Unknown
    }
}

/// Classifies the protocol of a disk.
pub fn classify_protocol(
    bus: &ConnectionBus,
    interconnect: Option<&str>,
    nvme_smart_capable: bool,
    ata_smart_capable: bool,
) -> (p: StorageProtocol)
    ensures
        p == protocol_of(*bus, opt_str(interconnect), nvme_smart_capable, ata_smart_capable),
{
    let value = lowered_chars(interconnect);
    let is_pcie = match bus {
        ConnectionBus::Pcie => true,
        _ => false,
    };
    let is_usb_or_sas = match bus {
        ConnectionBus::Usb => true,
        ConnectionBus::Sas => true,
        _ => false,
    };
    if nvme_smart_capable || mentions(&value, "nvme") || is_pcie {
        StorageProtocol::Nvme
    } else if ata_smart_capable || mentions(&value, "sata") || mentions(&value, "ata") {
        StorageProtocol::Ata
    } else if mentions(&value, "scsi") || is_usb_or_sas {
        StorageProtocol::Scsi
    } else {
        StorageProtocol::Unknown
    }
}

/// The registry properties of a whole media object that the device record
/// is built from. Each is as the registry reports it; `None` when absent or
/// of another type.
#[derive(Clone, Debug, Default, PartialEq, Eq)]
pub struct MediaProperties {
    /// `BSD Name` of the media object itself.
    pub bsd_name: Option<String>,
    /// `Size` of the media object itself.
    pub size: Option<i64>,
    /// `Removable`, on the object or its ancestors.
    pub removable: Option<bool>,
    /// `Ejectable`, on the object or its ancestors.
    pub ejectable: Option<bool>,
    /// `Physical Interconnect` inside the nearest `Protocol Characteristics`.
    pub characteristics_interconnect: Option<String>,
    /// `Physical Interconnect Location` inside `Protocol Characteristics`.
    pub characteristics_location: Option<String>,
    /// `Physical Interconnect`, on the object or its ancestors.
    pub interconnect: Option<String>,
    /// `Physical Interconnect Location`, on the object or its ancestors.
    pub location: Option<String>,
    /// Whether an ancestor has `NVMe SMART Capable`.
    pub nvme_smart_capable: bool,
    /// Whether an ancestor has `SMART Capable`.
    pub smart_capable: bool,
    /// `Product Name`, on the object or its ancestors.
    pub product_name: Option<String>,
    /// `Model`, on the object or its ancestors.
    pub model: Option<String>,
    /// The registry entry name.
    pub entry_name: Option<String>,
    /// `Serial Number`, on the object or its ancestors.
    pub serial_number: Option<String>,
    /// `Firmware Revision`, on the object or its ancestors.
    pub firmware_revision: Option<String>,
    /// `Revision`, on the object or its ancestors.
    pub revision: Option<String>,
    /// The registry entry id.
    pub registry_id: Option<u64>,
}

/// The first present text.
pub open spec fn either(a: Option<String>, b: Option<String>) -> Option<Seq<char>> {
    match a {
        Some(x) => Some(x@),
        None => opt_text(b),
    }
}

/// A text trimmed of whitespace, absent when it is absent or empty after
/// trimming.
pub open spec fn nonblank(v: Option<Seq<char>>) -> Option<Seq<char>> {
    match v {
        Some(t) => if trim_chars(t, TrimSet::Whitespace).len() > 0 {
            Some(trim_chars(t, TrimSet::Whitespace))
        } else {
            None
        },
        None => None,
    }
}

/// The device record that the properties describe, if they describe one:
/// it needs a BSD name, a nonnegative size and a registry id. The disk is
/// external when removable, ejectable, located externally, or on USB or
/// Thunderbolt.
pub open spec fn record_holds(r: DeviceRecord, p: MediaProperties) -> bool {
    let interconnect = either(p.characteristics_interconnect, p.interconnect);
    let location = either(p.characteristics_location, p.location);
    let bus = bus_of(interconnect, location);
    let removable = p.removable == Some(true);
    let ejectable = p.ejectable == Some(true);
    &&& r.id.0@ == "iokit:"@ + zero_padded(digits(p.registry_id->0 as nat, 16, false), 16)
    &&& r.generation == p.registry_id->0
    &&& r.device_node@ == "/dev/"@ + p.bsd_name->0@
    &&& opt_text(r.identity.model) == nonblank(
        match p.product_name {
            Some(x) => Some(x@),
            None => either(p.model, p.entry_name),
        },
    )
    &&& opt_text(r.identity.serial) == nonblank(opt_text(p.serial_number))
    &&& opt_text(r.identity.firmware) == nonblank(either(p.firmware_revision, p.revision))
    &&& r.connection.protocol == protocol_of(bus, interconnect, p.nvme_smart_capable, p.smart_capable)
    &&& r.connection.bus == bus
    &&& r.connection.removable == removable
    &&& r.capacity_bytes == p.size->0
    &&& r.external == (removable || ejectable || is_word(location, "external"@) || bus
        == ConnectionBus::Usb || bus == ConnectionBus::Thunderbolt)
}

/// Whether the properties describe a device.
pub open spec fn describes_device(p: MediaProperties) -> bool {
    p.bsd_name is Some && p.size is Some && p.size->0 >= 0 && p.registry_id is Some
}

fn first_of<'a>(a: &'a Option<String>, b: &'a Option<String>) -> (r: Option<&'a str>)
    ensures
        opt_str(r) == either(*a, *b),
{
    match a {
        Some(x) => Some(x.as_str()),
        None => match b {
            Some(y) => Some(y.as_str()),
            None => None,
        },
    }
}

fn nonblank_text(v: Option<&str>) -> (r: Option<String>)
    ensures
        opt_text(r) == nonblank(opt_str(v)),
{
    match v {
        Some(t) => {
            let trimmed = trim_text(t, TrimSet::Whitespace);
            if trimmed.as_str().unicode_len() > 0 {
                Some(trimmed)
            } else {
                None
            }
        },
        None => None,
    }
}

/// Builds the device record of a whole physical disk from its properties.
pub fn device_from_properties(p: &MediaProperties) -> (r: Option<DeviceRecord>)
    ensures
        r is Some <==> describes_device(*p),
        r is Some ==> record_holds(r->0, *p),
{
    let bsd_name = match &p.bsd_name {
        Some(name) => name,
        None => return None,
    };
    let capacity_bytes: u64 = match p.size {
        Some(size) => if size >= 0 {
            size as u64
        } else {
            return None;
        },
        None => return None,
    };
    let removable = match p.removable {
        Some(v) => v,
        None => false,
    };
    let ejectable = match p.ejectable {
        Some(v) => v,
        None => false,
    };
    let interconnect = first_of(&p.characteristics_interconnect, &p.interconnect);
    let location = first_of(&p.characteristics_location, &p.location);
    let bus = classify_bus(interconnect, location);
    let protocol = classify_protocol(&bus, interconnect, p.nvme_smart_capable, p.smart_capable);
    let located_external = match location {
        Some(l) => equal_ignoring_ascii_case(l, "external"),
        None => false,
    };
    let on_hotplug_bus = match bus {
        ConnectionBus::Usb => true,
        ConnectionBus::Thunderbolt => true,
        _ => false,
    };
    let external = removable || ejectable || located_external || on_hotplug_bus;
    let model_source = match &p.product_name {
        Some(x) => Some(x.as_str()),
        None => first_of(&p.model, &p.entry_name),
    };
    let model = nonblank_text(model_source);
    let serial = nonblank_text(
        match &p.serial_number {
            Some(x) => Some(x.as_str()),
            None => None,
        },
    );
    let firmware = nonblank_text(first_of(&p.firmware_revision, &p.revision));
    let registry_id = match p.registry_id {
        Some(id) => id,
        None => return None,
    };
    let mut id = owned("iokit:");
    let hex = hex16_lower(registry_id);
    push_str(&mut id, hex.as_str());
    let mut device_node = owned("/dev/");
    push_str(&mut device_node, bsd_name.as_str());
    Some(
        DeviceRecord {
            id: DeviceId(id),
            generation: registry_id,
            device_node,
            identity: DeviceIdentity { model, serial, firmware },
            connection: ConnectionInfo { protocol, bus, removable },
            capacity_bytes,
            external,
        },
    )
}

/// What the registry says of one media object: whether it is a whole disk
/// (`Whole`, on the object or its ancestors), whether it is an APFS
/// container's media (`AppleAPFSMedia`), whether it sits under a disk
/// image driver (an ancestor is `IOHDIXHDDriveInKernel` or
/// `IOHDIXController`), and its properties.
#[derive(Clone, Debug, Default, PartialEq, Eq)]
pub struct MediaEntry {
    pub whole: Option<bool>,
    pub apfs_media: bool,
    pub disk_image: bool,
    pub properties: MediaProperties,
}

/// A media object is listed when it is a whole, physical disk: not an
/// APFS container's media and not part of a mounted disk image.
pub open spec fn is_listed(e: MediaEntry) -> bool {
    e.whole == Some(true) && !e.apfs_media && !e.disk_image
}

/// The properties of the listed media objects that describe a device, in
/// the order of the objects.
pub open spec fn listed(entries: Seq<MediaEntry>) -> Seq<MediaProperties>
    decreases entries.len(),
{
    if entries.len() == 0 {
        Seq::empty()
    } else {
        let rest = listed(entries.drop_last());
        let e = entries.last();
        if is_listed(e) && describes_device(e.properties) {
            rest.push(e.properties)
        } else {
            rest
        }
    }
}

/// `built` holds one record for each of `props`, in the same order.
pub open spec fn records_of(built: Seq<DeviceRecord>, props: Seq<MediaProperties>) -> bool {
    &&& built.len() == props.len()
    &&& forall|k: int| 0 <= k < built.len() ==> record_holds(#[trigger] built[k], props[k])
}

/// The records come in the order of their device nodes, compared as
/// paths.
pub open spec fn node_sorted(s: Seq<DeviceRecord>) -> bool {
    forall|i: int, j: int| 0 <= i < j < s.len() ==> node_le(
        (#[trigger] s[i]).device_node@,
        (#[trigger] s[j]).device_node@,
    )
}

/// The records of `s` whose device node compares by `key`, in order.
pub open spec fn with_node(s: Seq<DeviceRecord>, key: Seq<PathToken>) -> Seq<DeviceRecord>
    decreases s.len(),
{
    if s.len() == 0 {
        Seq::empty()
    } else {
        let r = with_node(s.drop_last(), key);
        if path_key(s.last().device_node@) == key {
            r.push(s.last())
        } else {
            r
        }
    }
}

proof fn lemma_with_node_concat(a: Seq<DeviceRecord>, b: Seq<DeviceRecord>, key: Seq<PathToken>)
    ensures
        with_node(a + b, key) == with_node(a, key) + with_node(b, key),
    decreases b.len(),
{
    if b.len() == 0 {
        assert(a + b =~= a);
        assert(with_node(a, key) + with_node(b, key) =~= with_node(a, key));
    } else {
        lemma_with_node_concat(a, b.drop_last(), key);
        assert((a + b).drop_last() =~= a + b.drop_last());
        assert((a + b).last() == b.last());
        if path_key(b.last().device_node@) == key {
            assert(with_node(a, key) + with_node(b, key) =~= (with_node(a, key) + with_node(
                b.drop_last(),
                key,
            )).push(b.last()));
        }
    }
}

proof fn lemma_with_node_none(a: Seq<DeviceRecord>, key: Seq<PathToken>)
    requires
        forall|j: int| 0 <= j < a.len() ==> path_key((#[trigger] a[j]).device_node@) != key,
    ensures
        with_node(a, key) == Seq::<DeviceRecord>::empty(),
    decreases a.len(),
{
    if a.len() > 0 {
        assert forall|j: int| 0 <= j < a.drop_last().len() implies path_key(
            (#[trigger] a.drop_last()[j]).device_node@,
        ) != key by {
            assert(a.drop_last()[j] == a[j]);
        }
        lemma_with_node_none(a.drop_last(), key);
    }
}

/// The records ordered by device node, compared as paths; records whose
/// nodes compare equal keep their order.
pub fn sort_by_device_node(devices: Vec<DeviceRecord>) -> (r: Vec<DeviceRecord>)
    ensures
        node_sorted(r@),
        r@.to_multiset() == devices@.to_multiset(),
        forall|key: Seq<PathToken>| #[trigger] with_node(r@, key) == with_node(devices@, key),
{
    broadcast use vstd::multiset::group_multiset_axioms;

    let mut rest = devices;
    let mut sorted: Vec<DeviceRecord> = Vec::new();
    proof {
        lemma_no_elements(sorted@);
        assert(sorted@.to_multiset().add(rest@.to_multiset()) =~= rest@.to_multiset());
        assert forall|key: Seq<PathToken>| #[trigger] with_node(rest@, key) + with_node(sorted@, key)
            == with_node(devices@, key) by {
            assert(with_node(rest@, key) + with_node(sorted@, key) =~= with_node(rest@, key));
        }
    }
    while rest.len() > 0
        invariant
            node_sorted(sorted@),
            sorted@.to_multiset().add(rest@.to_multiset()) == devices@.to_multiset(),
            forall|key: Seq<PathToken>| #[trigger] with_node(rest@, key) + with_node(sorted@, key)
                == with_node(devices@, key),
        decreases rest@.len(),
    {
        let ghost before = rest@;
        let x = rest.pop().unwrap();
        assert(before == rest@.push(x));
        let xk = path_tokens(x.device_node.as_str());
        let mut pos: usize = 0;
        while pos < sorted.len() && !tokens_in_order(&xk, &path_tokens(sorted[pos].device_node.as_str()))
            invariant
                xk@ == path_key(x.device_node@),
                pos <= sorted@.len(),
                forall|k: int| 0 <= k < pos ==> !node_le(x.device_node@, #[trigger] sorted@[k].device_node@),
            decreases sorted@.len() - pos,
        {
            pos = pos + 1;
        }
        let ghost old_sorted = sorted@;
        sorted.insert(pos, x);
        proof {
            let now = sorted@;
            let xn = x.device_node@;
            assert forall|i: int, j: int| 0 <= i < j < now.len() implies node_le(
                (#[trigger] now[i]).device_node@,
                (#[trigger] now[j]).device_node@,
            ) by {
                if j < pos {
                    assert(now[i] == old_sorted[i] && now[j] == old_sorted[j]);
                } else if j == pos {
                    assert(now[i] == old_sorted[i]);
                    lemma_tokens_le_total(path_key(xn), path_key(old_sorted[i].device_node@));
                } else if i == pos {
                    assert(now[j] == old_sorted[j - 1]);
                    if j - 1 > pos {
                        assert(node_le(old_sorted[pos as int].device_node@, old_sorted[j - 1].device_node@));
                        lemma_tokens_le_transitive(
                            path_key(xn),
                            path_key(old_sorted[pos as int].device_node@),
                            path_key(old_sorted[j - 1].device_node@),
                        );
                    }
                } else if i < pos {
                    assert(now[i] == old_sorted[i] && now[j] == old_sorted[j - 1]);
                } else {
                    assert(now[i] == old_sorted[i - 1] && now[j] == old_sorted[j - 1]);
                }
            }
            vstd::seq_lib::to_multiset_insert(old_sorted, pos as int, x);
            vstd::seq_lib::to_multiset_build(rest@, x);
            assert(sorted@.to_multiset().add(rest@.to_multiset()) =~= old_sorted.to_multiset().add(before.to_multiset()));
            let front = old_sorted.subrange(0, pos as int);
            let back = old_sorted.subrange(pos as int, old_sorted.len() as int);
            assert(old_sorted =~= front + back);
            assert(now =~= front + seq![x] + back);
            assert(before.drop_last() =~= rest@);
            assert(seq![x].drop_last() =~= Seq::<DeviceRecord>::empty());
            assert forall|key: Seq<PathToken>| #[trigger] with_node(rest@, key) + with_node(sorted@, key)
                == with_node(devices@, key) by {
                lemma_with_node_concat(front, back, key);
                lemma_with_node_concat(front + seq![x], back, key);
                lemma_with_node_concat(front, seq![x], key);
                assert(with_node(before, key) + with_node(old_sorted, key) == with_node(devices@, key));
                assert(seq![x].last() == x);
                assert(before.last() == x);
                let wx = with_node(seq![x], key);
                assert(with_node(seq![x].drop_last(), key) == Seq::<DeviceRecord>::empty());
                assert(wx =~= if path_key(xn) == key {
                    seq![x]
                } else {
                    Seq::<DeviceRecord>::empty()
                });
                assert(with_node(before, key) == if path_key(xn) == key {
                    with_node(rest@, key).push(x)
                } else {
                    with_node(rest@, key)
                });
                assert(with_node(sorted@, key) == with_node(front, key) + wx + with_node(back, key));
                if path_key(xn) == key {
                    assert forall|j: int| 0 <= j < front.len() implies path_key(
                        (#[trigger] front[j]).device_node@,
                    ) != key by {
                        assert(front[j] == old_sorted[j]);
                        if path_key(front[j].device_node@) == key {
                            lemma_tokens_le_reflexive(key);
                        }
                    }
                    lemma_with_node_none(front, key);
                    assert(with_node(rest@, key) + with_node(sorted@, key) =~= with_node(before, key)
                        + with_node(old_sorted, key));
                } else {
                    assert(with_node(rest@, key) + with_node(sorted@, key) =~= with_node(before, key)
                        + with_node(old_sorted, key));
                }
            }
        }
    }
    proof {
        lemma_no_elements(rest@);
        assert forall|key: Seq<PathToken>| #[trigger] with_node(sorted@, key) == with_node(devices@, key) by {
            assert(with_node(rest@, key) + with_node(sorted@, key) =~= with_node(sorted@, key));
        }
    }
    assert(sorted@.to_multiset().add(rest@.to_multiset()) =~= sorted@.to_multiset());
    sorted
}

proof fn lemma_no_elements(s: Seq<DeviceRecord>)
    requires
        s.len() == 0,
    ensures
        s.to_multiset() =~= vstd::multiset::Multiset::empty(),
{
    vstd::seq_lib::to_multiset_len(s);
    vstd::multiset::lemma_multiset_empty_len(s.to_multiset());
}

/// The disks that the media objects describe: each listed object that
/// describes a device gives one record, and the records come ordered by
/// device node, compared as paths; records whose nodes compare equal keep
/// the order of their objects.
pub fn inventory_from(entries: Vec<MediaEntry>) -> (r: Vec<DeviceRecord>)
    ensures
        node_sorted(r@),
        exists|built: Seq<DeviceRecord>|
            #[trigger] records_of(built, listed(entries@)) && r@.to_multiset() == built.to_multiset()
                && forall|key: Seq<PathToken>| #[trigger] with_node(r@, key) == with_node(built, key),
{
    let mut built: Vec<DeviceRecord> = Vec::new();
    let mut i: usize = 0;
    while i < entries.len()
        invariant
            i <= entries@.len(),
            built@.len() == listed(entries@.subrange(0, i as int)).len(),
            forall|k: int| 0 <= k < built@.len() ==> record_holds(
                #[trigger] built@[k],
                listed(entries@.subrange(0, i as int))[k],
            ),
        decreases entries@.len() - i,
    {
        let entry = &entries[i];
        proof {
            assert(entries@.subrange(0, i + 1).drop_last() =~= entries@.subrange(0, i as int));
            assert(entries@.subrange(0, i + 1).last() == entries@[i as int]);
        }
        let listed_entry = match entry.whole {
            Some(w) => w,
            None => false,
        } && !entry.apfs_media && !entry.disk_image;
        if listed_entry {
            match device_from_properties(&entry.properties) {
                Some(record) => built.push(record),
                None => {},
            }
        }
        i = i + 1;
    }
    proof {
        assert(entries@.subrange(0, entries@.len() as int) =~= entries@);
    }
    let ghost built_view = built@;
    let r = sort_by_device_node(built);
    assert(records_of(built_view, listed(entries@)));
    r
}

/// A disk on USB or Thunderbolt is external; NVMe SMART capability or a
/// PCIe bus makes the protocol NVMe; ATA SMART capability without either
/// makes it ATA.
pub proof fn lemma_classification(r: DeviceRecord, p: MediaProperties)
    requires
        record_holds(r, p),
    ensures
        (r.connection.bus == ConnectionBus::Usb || r.connection.bus == ConnectionBus::Thunderbolt)
            ==> r.external,
        (p.nvme_smart_capable || r.connection.bus == ConnectionBus::Pcie) ==> r.connection.protocol
            == StorageProtocol::Nvme,
        r.connection.removable ==> r.external,
{
}

} // verus!

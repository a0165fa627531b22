//! ATA IDENTIFY DEVICE and SMART READ DATA / READ THRESHOLDS sectors.

use vstd::prelude::*;

use crate::domain::{AtaSmartAttribute, AtaSmartSnapshot, DeviceIdentityData};
use crate::domain::smart::crossed;

use super::bytes::{
    checksum_holds, checksum_ok, reads_as, le_u128, le_value, opt_text, require_len,
    trimmed_ascii, ParseError,
};

verus! {

/// Size of an ATA sector.
pub const ATA_SECTOR_SIZE: usize = 512;

/// Offset of the first attribute record in a SMART sector.
pub const ATTRIBUTE_START: usize = 2;

/// Size of one attribute record.
pub const ATTRIBUTE_SIZE: usize = 12;

/// Number of attribute records in a SMART sector.
pub const ATTRIBUTE_COUNT: usize = 30;

/// Offset of attribute record `k`.
pub open spec fn record_offset(k: int) -> int {
    2 + 12 * k
}

/// The bytes of an ATA string: `word_count` 16-bit words from `start_word`,
/// each stored with its two characters swapped.
pub open spec fn ata_string_bytes(bytes: Seq<u8>, start_word: int, word_count: int) -> Seq<u8> {
    Seq::new(
        (2 * word_count) as nat,
        |k: int|
            if k % 2 == 0 {
                bytes[(start_word + k / 2) * 2 + 1]
            } else {
                bytes[(start_word + k / 2) * 2]
            },
    )
}

/// `t` is the device string held in `word_count` words from `start_word`.
pub open spec fn ata_text(t: Option<Seq<char>>, bytes: Seq<u8>, start_word: int, word_count: int) -> bool {
    reads_as(t, ata_string_bytes(bytes, start_word, word_count))
}

fn ata_string(bytes: &[u8], start_word: usize, word_count: usize) -> (r: Option<String>)
    requires
        (start_word + word_count) * 2 <= bytes@.len(),
        word_count <= 0x1000,
        start_word <= 0x1000,
    ensures
        ata_text(opt_text(r), bytes@, start_word as int, word_count as int),
{
    let mut value: Vec<u8> = Vec::new();
    let mut word = start_word;
    while word < start_word + word_count
        invariant
            (start_word + word_count) * 2 <= bytes@.len(),
            start_word <= word <= start_word + word_count,
            word_count <= 0x1000,
            start_word <= 0x1000,
            value@ =~= ata_string_bytes(bytes@, start_word as int, (word - start_word) as int),
        decreases start_word + word_count - word,
    {
        value.push(bytes[word * 2 + 1]);
        value.push(bytes[word * 2]);
        word = word + 1;
    }
    proof {
        assert(value@ =~= ata_string_bytes(bytes@, start_word as int, word_count as int));
    }
    trimmed_ascii(value.as_slice())
}

/// Decodes the serial number, firmware revision and model number of an
/// IDENTIFY DEVICE sector.
pub fn parse_identify(bytes: &[u8]) -> (r: Result<DeviceIdentityData, ParseError>)
    ensures
        r is Ok <==> bytes@.len() >= 512,
        r is Err ==> r->Err_0 == (ParseError::Truncated {
            structure: "ATA IDENTIFY DEVICE",
            expected: 512,
            actual: bytes@.len() as usize,
        }),
        r is Ok ==> {
            &&& ata_text(opt_text(r->Ok_0.serial), bytes@, 10, 10)
            &&& ata_text(opt_text(r->Ok_0.firmware), bytes@, 23, 4)
            &&& ata_text(opt_text(r->Ok_0.model), bytes@, 27, 20)
        },
{
    require_len(bytes, ATA_SECTOR_SIZE, "ATA IDENTIFY DEVICE")?;
    Ok(
        DeviceIdentityData {
            serial: ata_string(bytes, 10, 10),
            firmware: ata_string(bytes, 23, 4),
            model: ata_string(bytes, 27, 20),
        },
    )
}

/// The threshold table of a thresholds sector: record by record, each
/// nonzero id maps to its threshold byte, a later record replacing an
/// earlier one with the same id.
pub open spec fn threshold_map(t: Seq<u8>, k: int) -> Map<u8, u8>
    decreases k,
{
    if k <= 0 {
        Map::empty()
    } else {
        let m = threshold_map(t, k - 1);
        let off = record_offset(k - 1);
        if t[off] != 0 {
            m.insert(t[off], t[off + 1])
        } else {
            m
        }
    }
}

/// The thresholds of all attribute records.
pub open spec fn thresholds_of(t: Seq<u8>) -> Map<u8, u8> {
    threshold_map(t, 30)
}

/// The threshold recorded for `id`, if any.
pub open spec fn lookup(m: Map<u8, u8>, id: u8) -> Option<u8> {
    if m.dom().contains(id) {
        Some(m[id])
    } else {
        None
    }
}

/// Why a SMART data sector together with an optional thresholds sector
/// cannot be decoded, checked in that order: short data, bad data
/// checksum, short thresholds, bad thresholds checksum.
pub open spec fn smart_failure(data: Seq<u8>, thresholds: Option<Seq<u8>>) -> Option<ParseError> {
    if data.len() < 512 {
        Some(ParseError::Truncated {
            structure: "ATA SMART data",
            expected: 512,
            actual: data.len() as usize,
        })
    } else if !checksum_ok(data, 512) {
        Some(ParseError::InvalidChecksum { structure: "ATA SMART data" })
    } else {
        match thresholds {
            Some(t) => if t.len() < 512 {
                Some(ParseError::Truncated {
                    structure: "ATA SMART thresholds",
                    expected: 512,
                    actual: t.len() as usize,
                })
            } else if !checksum_ok(t, 512) {
                Some(ParseError::InvalidChecksum { structure: "ATA SMART thresholds" })
            } else {
                None
            },
            None => None,
        }
    }
}

/// The threshold table used for decoding: empty without a thresholds sector.
pub open spec fn threshold_table(thresholds: Option<Seq<u8>>) -> Map<u8, u8> {
    match thresholds {
        Some(t) => thresholds_of(t),
        None => Map::empty(),
    }
}

/// Indices of the attribute records among the first `k` whose id is
/// nonzero, in order.
pub open spec fn present_records(data: Seq<u8>, k: int) -> Seq<int>
    decreases k,
{
    if k <= 0 {
        Seq::empty()
    } else {
        let r = present_records(data, k - 1);
        if data[record_offset(k - 1)] != 0 {
            r.push(k - 1)
        } else {
            r
        }
    }
}

/// `a` is the decoding of attribute record `k` of `data`, with its
/// threshold taken from `m`.
pub open spec fn decodes_record(a: AtaSmartAttribute, data: Seq<u8>, k: int, m: Map<u8, u8>) -> bool {
    let off = record_offset(k);
    &&& a.id == data[off]
    &&& a.flags == data[off + 1] + 256 * data[off + 2]
    &&& a.current == data[off + 3]
    &&& a.worst == data[off + 4]
    &&& a.threshold == lookup(m, data[off])
    &&& a.raw_bytes@ == data.subrange(off + 5, off + 11)
    &&& a.raw_value == le_value(data.subrange(off + 5, off + 11))
}

/// `attrs` are the decodings of the records with a nonzero id, in order.
pub open spec fn decodes_attributes(attrs: Seq<AtaSmartAttribute>, data: Seq<u8>, m: Map<u8, u8>) -> bool {
    let recs = present_records(data, 30);
    &&& attrs.len() == recs.len()
    &&& forall|j: int| 0 <= j < attrs.len() ==> decodes_record(#[trigger] attrs[j], data, recs[j], m)
}

/// The view of an optional byte slice.
pub open spec fn opt_bytes(t: Option<&[u8]>) -> Option<Seq<u8>> {
    match t {
        Some(b) => Some(b@),
        None => None,
    }
}

/// A threshold lookup table: entry `id` holds the threshold of attribute
/// `id`, if any.
fn parse_thresholds(bytes: &[u8]) -> (r: Result<Vec<Option<u8>>, ParseError>)
    ensures
        r is Ok <==> bytes@.len() >= 512 && checksum_ok(bytes@, 512),
        bytes@.len() < 512 ==> r == Err::<Vec<Option<u8>>, ParseError>(ParseError::Truncated {
            structure: "ATA SMART thresholds",
            expected: 512,
            actual: bytes@.len() as usize,
        }),
        bytes@.len() >= 512 && !checksum_ok(bytes@, 512) ==> r == Err::<Vec<Option<u8>>, ParseError>(
            ParseError::InvalidChecksum { structure: "ATA SMART thresholds" },
        ),
        r is Ok ==> r->Ok_0@.len() == 256 && forall|id: u8| #[trigger] r->Ok_0@[id as int] == lookup(
            thresholds_of(bytes@),
            id,
        ),
{
    require_len(bytes, ATA_SECTOR_SIZE, "ATA SMART thresholds")?;
    if !checksum_holds(bytes, ATA_SECTOR_SIZE) {
        return Err(ParseError::InvalidChecksum { structure: "ATA SMART thresholds" });
    }
    let mut table: Vec<Option<u8>> = Vec::new();
    let mut n: usize = 0;
    while n < 256
        invariant
            n <= 256,
            table@.len() == n,
            forall|j: int| 0 <= j < n ==> table@[j] is None,
        decreases 256 - n,
    {
        table.push(None);
        n = n + 1;
    }
    let mut index: usize = 0;
    while index < ATTRIBUTE_COUNT
        invariant
            bytes@.len() >= 512,
            index <= 30,
            table@.len() == 256,
            forall|id: u8| #[trigger] table@[id as int] == lookup(threshold_map(bytes@, index as int), id),
        decreases 30 - index,
    {
        let offset = ATTRIBUTE_START + index * ATTRIBUTE_SIZE;
        let id = bytes[offset];
        if id != 0 {
            table.set(id as usize, Some(bytes[offset + 1]));
        }
        proof {
            let m = threshold_map(bytes@, index + 1);
            assert forall|x: u8| #[trigger] table@[x as int] == lookup(m, x) by {
                if id != 0 && x == id {
                } else {
                }
            }
        }
        index = index + 1;
    }
    Ok(table)
}

/// Decodes a SMART READ DATA sector, with the thresholds sector when one
/// was read and the overall status when one was reported.
pub fn parse_smart(
    identify: DeviceIdentityData,
    data: &[u8],
    thresholds: Option<&[u8]>,
    overall_passed: Option<bool>,
) -> (r: Result<AtaSmartSnapshot, ParseError>)
    ensures
        r is Err <==> smart_failure(data@, opt_bytes(thresholds)) is Some,
        r is Err ==> Some(r->Err_0) == smart_failure(data@, opt_bytes(thresholds)),
        r is Ok ==> {
            let s = r->Ok_0;
            &&& s.identity == identify
            &&& s.version == data@[0] + 256 * data@[1]
            &&& s.overall_passed == overall_passed
            &&& decodes_attributes(s.attributes@, data@, threshold_table(opt_bytes(thresholds)))
        },
        r is Ok ==> forall|j: int|
            0 <= j < r->Ok_0.attributes@.len() ==> {
                let k = #[trigger] present_records(data@, 30)[j];
                &&& 0 <= k < 30
                &&& r->Ok_0.attributes@[j].id == data@[2 + 12 * k]
                &&& r->Ok_0.attributes@[j].current == data@[2 + 12 * k + 3]
                &&& r->Ok_0.attributes@[j].worst == data@[2 + 12 * k + 4]
            },
{
    require_len(data, ATA_SECTOR_SIZE, "ATA SMART data")?;
    if !checksum_holds(data, ATA_SECTOR_SIZE) {
        return Err(ParseError::InvalidChecksum { structure: "ATA SMART data" });
    }
    let table: Option<Vec<Option<u8>>> = match thresholds {
        Some(t) => Some(parse_thresholds(t)?),
        None => None,
    };
    let ghost m = threshold_table(opt_bytes(thresholds));
    let mut attributes: Vec<AtaSmartAttribute> = Vec::new();
    let mut index: usize = 0;
    while index < ATTRIBUTE_COUNT
        invariant
            data@.len() >= 512,
            index <= 30,
            m == threshold_table(opt_bytes(thresholds)),
            match table {
                Some(tb) => tb@.len() == 256 && forall|id: u8| #[trigger] tb@[id as int] == lookup(m, id),
                None => m == Map::<u8, u8>::empty(),
            },
            attributes@.len() == present_records(data@, index as int).len(),
            forall|j: int|
                0 <= j < attributes@.len() ==> decodes_record(
                    #[trigger] attributes@[j],
                    data@,
                    present_records(data@, index as int)[j],
                    m,
                ),
        decreases 30 - index,
    {
        let offset = ATTRIBUTE_START + index * ATTRIBUTE_SIZE;
        let id = data[offset];
        if id != 0 {
            let raw_bytes: [u8; 6] = [
                data[offset + 5],
                data[offset + 6],
                data[offset + 7],
                data[offset + 8],
                data[offset + 9],
                data[offset + 10],
            ];
            let raw_value = le_u128(data, offset + 5, 6);
            proof {
                crate::protocol::bytes::lemma_le_value_bound(data@.subrange(offset + 5, offset + 11));
                reveal_with_fuel(crate::protocol::bytes::pow256, 7);
                assert(raw_bytes@ =~= data@.subrange(offset + 5, offset + 11));
            }
            let threshold = match &table {
                Some(tb) => tb[id as usize],
                None => None,
            };
            let attribute = AtaSmartAttribute {
                id,
                flags: data[offset + 1] as u16 + 256 * data[offset + 2] as u16,
                current: data[offset + 3],
                worst: data[offset + 4],
                threshold,
                raw_value: raw_value as u64,
                raw_bytes,
            };
            attributes.push(attribute);
        }
        proof {
            let prev = present_records(data@, index as int);
            let next = present_records(data@, index + 1);
            assert forall|j: int| 0 <= j < attributes@.len() implies decodes_record(
                #[trigger] attributes@[j],
                data@,
                next[j],
                m,
            ) by {
                if j < prev.len() {
                    assert(next[j] == prev[j]);
                }
            }
        }
        index = index + 1;
    }
    proof {
        lemma_record_layout(attributes@, data@, m);
    }
    Ok(
        AtaSmartSnapshot {
            identity: identify,
            version: data[0] as u16 + 256 * data[1] as u16,
            overall_passed,
            attributes,
        },
    )
}

/// Where each field of a decoded attribute sits in the SMART data sector:
/// the attribute decoded from the 12-byte record at offset `2 + 12k` has
/// its id in byte 0 of the record, its flags in bytes 1 and 2
/// (little-endian), its current value in byte 3, its worst value in byte 4
/// and its raw value in bytes 5 to 10 (little-endian); its threshold is the
/// byte after the same id in the thresholds sector.
pub proof fn lemma_record_layout(attrs: Seq<AtaSmartAttribute>, data: Seq<u8>, m: Map<u8, u8>)
    requires
        decodes_attributes(attrs, data, m),
    ensures
        forall|j: int|
            0 <= j < attrs.len() ==> {
                let k = #[trigger] present_records(data, 30)[j];
                &&& 0 <= k < 30
                &&& attrs[j].id == data[2 + 12 * k]
                &&& attrs[j].id != 0
                &&& attrs[j].flags == data[2 + 12 * k + 1] + 256 * data[2 + 12 * k + 2]
                &&& attrs[j].current == data[2 + 12 * k + 3]
                &&& attrs[j].worst == data[2 + 12 * k + 4]
                &&& attrs[j].raw_bytes@ == data.subrange(2 + 12 * k + 5, 2 + 12 * k + 11)
                &&& attrs[j].raw_value == le_value(data.subrange(2 + 12 * k + 5, 2 + 12 * k + 11))
                &&& attrs[j].threshold == (if m.dom().contains(data[2 + 12 * k]) {
                    Some(m[data[2 + 12 * k]])
                } else {
                    None
                })
            },
{
    lemma_present_records(data, 30);
    assert forall|j: int| 0 <= j < attrs.len() implies {
        let k = #[trigger] present_records(data, 30)[j];
        &&& 0 <= k < 30
        &&& attrs[j].id == data[2 + 12 * k]
        &&& attrs[j].id != 0
        &&& attrs[j].flags == data[2 + 12 * k + 1] + 256 * data[2 + 12 * k + 2]
        &&& attrs[j].current == data[2 + 12 * k + 3]
        &&& attrs[j].worst == data[2 + 12 * k + 4]
        &&& attrs[j].raw_bytes@ == data.subrange(2 + 12 * k + 5, 2 + 12 * k + 11)
        &&& attrs[j].raw_value == le_value(data.subrange(2 + 12 * k + 5, 2 + 12 * k + 11))
        &&& attrs[j].threshold == (if m.dom().contains(data[2 + 12 * k]) {
            Some(m[data[2 + 12 * k]])
        } else {
            None
        })
    } by {
        assert(decodes_record(attrs[j], data, present_records(data, 30)[j], m));
    }
}

/// A decoded attribute crosses its threshold exactly when byte 3 of its
/// record (the current value) is at or below a nonzero threshold for its
/// id.
pub proof fn lemma_crossing_reads_current_value(
    attrs: Seq<AtaSmartAttribute>,
    data: Seq<u8>,
    m: Map<u8, u8>,
    j: int,
)
    requires
        decodes_attributes(attrs, data, m),
        0 <= j < attrs.len(),
    ensures
        crossed(attrs[j].current, attrs[j].threshold) <==> {
            let k = present_records(data, 30)[j];
            let id = data[2 + 12 * k];
            m.dom().contains(id) && m[id] > 0 && data[2 + 12 * k + 3] <= m[id]
        },
{
    lemma_record_layout(attrs, data, m);
    let k = present_records(data, 30)[j];
    assert(attrs[j].current == data[2 + 12 * k + 3]);
}

/// The records that are decoded are exactly those with a nonzero id, in
/// record order.
pub proof fn lemma_present_records(data: Seq<u8>, k: int)
    requires
        0 <= k,
    ensures
        forall|j: int|
            0 <= j < present_records(data, k).len() ==> 0 <= #[trigger] present_records(data, k)[j] < k
                && data[record_offset(present_records(data, k)[j])] != 0,
        forall|j1: int, j2: int|
            0 <= j1 < j2 < present_records(data, k).len() ==> #[trigger] present_records(data, k)[j1]
                < #[trigger] present_records(data, k)[j2],
        forall|r: int|
            0 <= r < k && data[record_offset(r)] != 0 ==> present_records(data, k).contains(r),
    decreases k,
{
    if k > 0 {
        lemma_present_records(data, k - 1);
        let prev = present_records(data, k - 1);
        if data[record_offset(k - 1)] != 0 {
            assert(present_records(data, k) == prev.push(k - 1));
            assert forall|r: int| 0 <= r < k && data[record_offset(r)] != 0 implies present_records(
                data,
                k,
            ).contains(r) by {
                if r < k - 1 {
                    assert(prev.contains(r));
                    let j = choose|j: int| 0 <= j < prev.len() && prev[j] == r;
                    assert(prev.push(k - 1)[j] == r);
                    assert(present_records(data, k)[j] == r);
                } else {
                    assert(present_records(data, k)[prev.len() as int] == r);
                }
            }
        }
    }
}

/// Every decoded attribute has a nonzero id, and its raw value is the
/// little-endian reading of its six raw bytes.
pub proof fn lemma_decoded_attributes(attrs: Seq<AtaSmartAttribute>, data: Seq<u8>, m: Map<u8, u8>)
    requires
        decodes_attributes(attrs, data, m),
    ensures
        forall|j: int|
            0 <= j < attrs.len() ==> (#[trigger] attrs[j]).id != 0 && attrs[j].raw_value == le_value(
                attrs[j].raw_bytes@,
            ),
{
    lemma_present_records(data, 30);
    assert forall|j: int| 0 <= j < attrs.len() implies (#[trigger] attrs[j]).id != 0
        && attrs[j].raw_value == le_value(attrs[j].raw_bytes@) by {
        assert(decodes_record(attrs[j], data, present_records(data, 30)[j], m));
    }
}

} // verus!

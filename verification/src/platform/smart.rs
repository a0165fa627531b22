//! The decisions of a SMART read: which outcome the platform's interface
//! calls amount to, and how failures are reported.

use vstd::prelude::*;

use crate::domain::{
    AtaSmartSnapshot, DeviceIdentityData, NvmeSmartSnapshot, SmartReadError, SmartReadStage,
    SmartSnapshot, SmartState, SmartUnavailableReason,
};
use crate::protocol::ata::{
    ata_text, decodes_attributes, opt_bytes, parse_identify, parse_smart, smart_failure,
    threshold_table,
};
use crate::protocol::bytes::{reads_as, truncated_message, checksum_message, ParseError};
use crate::protocol::nvme::{decodes_smart_log, parse_identify_controller, parse_smart_log};
use crate::app::{file_name, path_file_name};
use crate::text::{chars_of, digits, hex_status, opt_text, owned, push_str};

verus! {

/// An IOKit status that denies access: the low 14 bits are
/// `kIOReturnNotPrivileged` (0x2c1) or `kIOReturnNotPermitted` (0x2e2), or
/// the whole status is 0x80000009.
pub open spec fn permission_status(status: i32) -> bool {
    let raw = status as u32;
    (raw & 0x3fff) == 0x2c1 || (raw & 0x3fff) == 0x2e2 || raw == 0x8000_0009
}

/// Whether a native status means the caller lacks permission.
pub fn is_permission_status(status: i32) -> (r: bool)
    ensures
        r == permission_status(status),
{
    let raw = status as u32;
    let code = raw & 0x3fff;
    code == 0x2c1 || code == 0x2e2 || raw == 0x8000_0009
}

/// `e` reports `operation` failing at `stage` with `message`, carrying the
/// native status when there is one and flagging denied permission.
pub open spec fn reports(
    e: SmartReadError,
    stage: SmartReadStage,
    operation: Seq<char>,
    message: Seq<char>,
    native_code: Option<i32>,
) -> bool {
    &&& e.stage == stage
    &&& e.operation@ == operation
    &&& e.message@ == message
    &&& e.native_code == match native_code {
        Some(c) => Some(c as i64),
        None => None,
    }
    &&& e.permission_denied == match native_code {
        Some(c) => permission_status(c),
        None => false,
    }
}

/// Builds a read error.
pub fn read_error(stage: SmartReadStage, operation: String, message: String, native_code: Option<
    i32,
>) -> (e: SmartReadError)
    ensures
        reports(e, stage, operation@, message@, native_code),
{
    let code = match native_code {
        Some(c) => Some(c as i64),
        None => None,
    };
    let permission_denied = match native_code {
        Some(c) => is_permission_status(c),
        None => false,
    };
    SmartReadError { stage, operation, message, native_code: code, permission_denied }
}

/// `operation failed with native status 0x…`.
pub open spec fn status_message(operation: Seq<char>, status: i32) -> Seq<char> {
    operation + " failed with native status "@ + seq!['0', 'x'] + digits(
        (status as u32) as nat,
        16,
        false,
    )
}

/// A failed native call.
pub fn status_error(stage: SmartReadStage, operation: &'static str, status: i32) -> (e:
    SmartReadError)
    ensures
        reports(e, stage, operation@, status_message(operation@, status), Some(status)),
{
    let mut message = owned(operation);
    push_str(&mut message, " failed with native status ");
    let hex = hex_status(#[verifier::truncate] (status as u32));
    push_str(&mut message, hex.as_str());
    assert(message@ =~= status_message(operation@, status));
    read_error(stage, owned(operation), message, Some(status))
}

/// A response that could not be decoded.
pub fn parse_warning(stage: SmartReadStage, message: String) -> (e: SmartReadError)
    ensures
        reports(e, stage, "parse SMART response"@, message@, None),
{
    read_error(stage, owned("parse SMART response"), message, None)
}

/// An interface call that returned a null interface pointer.
pub fn interface_pointer_error(name: &'static str) -> (e: SmartReadError)
    ensures
        reports(
            e,
            SmartReadStage::InterfaceAcquisition,
            "acquire IOKit SMART interface"@,
            name@ + " returned a null interface pointer"@,
            None,
        ),
{
    let mut message = owned(name);
    push_str(&mut message, " returned a null interface pointer");
    read_error(
        SmartReadStage::InterfaceAcquisition,
        owned("acquire IOKit SMART interface"),
        message,
        None,
    )
}

/// The message of a decoding error.
pub open spec fn parse_error_text(e: ParseError) -> Seq<char> {
    match e {
        ParseError::Truncated { structure, expected, actual } => truncated_message(
            structure@,
            expected as nat,
            actual as nat,
        ),
        ParseError::InvalidChecksum { structure } => checksum_message(structure@),
    }
}

fn no_identity() -> (d: DeviceIdentityData)
    ensures
        d.model is None && d.serial is None && d.firmware is None,
{
    DeviceIdentityData { model: None, serial: None, firmware: None }
}

/// What an ATA IDENTIFY call returned: its status, the number of bytes it
/// reported, and the buffer.
#[derive(Clone, Debug, PartialEq, Eq)]
pub struct AtaIdentifyRead {
    pub status: i32,
    pub output_size: u32,
    pub bytes: Vec<u8>,
}

/// The identity from an ATA IDENTIFY read (`None` when the interface lacks
/// the call), with the warning to report when it yields none.
pub fn ata_identity(read: Option<AtaIdentifyRead>) -> (r: (DeviceIdentityData, Option<SmartReadError>))
    ensures
        match read {
            None => r.0.model is None && r.0.serial is None && r.0.firmware is None && r.1 is Some
                && reports(
                r.1->0,
                SmartReadStage::Identify,
                "read ATA identify data"@,
                "IOATASMARTInterface does not expose GetATAIdentifyData"@,
                None,
            ),
            Some(rd) => if rd.status == 0 && rd.output_size == 512 {
                if rd.bytes@.len() >= 512 {
                    &&& r.1 is None
                    &&& ata_text(opt_text(r.0.serial), rd.bytes@, 10, 10)
                    &&& ata_text(opt_text(r.0.firmware), rd.bytes@, 23, 4)
                    &&& ata_text(opt_text(r.0.model), rd.bytes@, 27, 20)
                } else {
                    &&& r.0.model is None && r.0.serial is None && r.0.firmware is None
                    &&& r.1 is Some
                    &&& reports(
                        r.1->0,
                        SmartReadStage::Identify,
                        "parse SMART response"@,
                        truncated_message("ATA IDENTIFY DEVICE"@, 512, rd.bytes@.len()),
                        None,
                    )
                }
            } else {
                &&& r.0.model is None && r.0.serial is None && r.0.firmware is None
                &&& r.1 is Some
                &&& reports(
                    r.1->0,
                    SmartReadStage::Identify,
                    "read ATA identify data"@,
                    status_message("read ATA identify data"@, rd.status),
                    Some(rd.status),
                )
            },
        },
{
    match read {
        None => (
            no_identity(),
            Some(
                read_error(
                    SmartReadStage::Identify,
                    owned("read ATA identify data"),
                    owned("IOATASMARTInterface does not expose GetATAIdentifyData"),
                    None,
                ),
            ),
        ),
        Some(rd) => {
            if rd.status == 0 && rd.output_size as usize == 512 {
                match parse_identify(rd.bytes.as_slice()) {
                    Ok(identity) => (identity, None),
                    Err(error) => (
                        no_identity(),
                        Some(parse_warning(SmartReadStage::Identify, error.message())),
                    ),
                }
            } else {
                (
                    no_identity(),
                    Some(status_error(SmartReadStage::Identify, "read ATA identify data", rd.status)),
                )
            }
        },
    }
}

/// The failure of an ATA SMART READ DATA call, if it failed: `None` for
/// `read` when the interface lacks the call, otherwise its status.
pub fn ata_data_failure(read: Option<i32>) -> (r: Option<SmartState>)
    ensures
        read == Some(0i32) <==> r is None,
        read is None ==> (r matches Some(SmartState::Failed { error }) && reports(
            error,
            SmartReadStage::SmartData,
            "read ATA SMART data"@,
            "IOATASMARTInterface does not expose SMARTReadData"@,
            None,
        )),
        (read matches Some(st) && st != 0) ==> (r matches Some(SmartState::Failed { error })
            && reports(
            error,
            SmartReadStage::SmartData,
            "read ATA SMART data"@,
            status_message("read ATA SMART data"@, read->0),
            read,
        )),
{
    match read {
        None => Some(
            SmartState::Failed {
                error: read_error(
                    SmartReadStage::SmartData,
                    owned("read ATA SMART data"),
                    owned("IOATASMARTInterface does not expose SMARTReadData"),
                    None,
                ),
            },
        ),
        Some(status) => if status != 0 {
            Some(
                SmartState::Failed {
                    error: status_error(SmartReadStage::SmartData, "read ATA SMART data", status),
                },
            )
        } else {
            None
        },
    }
}

/// The thresholds a READ THRESHOLDS call yields: its buffer when it
/// succeeded.
pub open spec fn thresholds_used(read: Option<(i32, Vec<u8>)>) -> Option<Seq<u8>> {
    match read {
        Some((status, bytes)) => if status == 0 {
            Some(bytes@)
        } else {
            None
        },
        None => None,
    }
}

/// The overall status a RETURN STATUS call yields: passed when no
/// threshold was exceeded.
pub open spec fn overall_used(read: Option<(i32, u8)>) -> Option<bool> {
    match read {
        Some((status, exceeded)) => if status == 0 {
            Some(exceeded == 0)
        } else {
            None
        },
        None => None,
    }
}

/// The status of a READ THRESHOLDS call.
pub open spec fn threshold_status(read: Option<(i32, Vec<u8>)>) -> i32 {
    match read {
        Some((status, _)) => status,
        None => 0,
    }
}

/// The status of a RETURN STATUS call.
pub open spec fn overall_status(read: Option<(i32, u8)>) -> i32 {
    match read {
        Some((status, _)) => status,
        None => 0,
    }
}

/// The outcome of an ATA SMART read whose data call succeeded, from the
/// identity and its warning, the data sector, and the thresholds and
/// overall-status calls (`None` when the interface lacks them). Failed
/// optional calls become warnings, after the identity warning, thresholds
/// first.
pub fn ata_smart_state(
    identity: DeviceIdentityData,
    identity_warning: Option<SmartReadError>,
    data: &[u8],
    thresholds: Option<(i32, Vec<u8>)>,
    overall: Option<(i32, u8)>,
) -> (r: SmartState)
    ensures
        r is Available <==> smart_failure(data@, thresholds_used(thresholds)) is None,
        r is Failed <==> smart_failure(data@, thresholds_used(thresholds)) is Some,
        r is Failed ==> reports(
            r->error,
            SmartReadStage::Parse,
            "parse SMART response"@,
            parse_error_text(smart_failure(data@, thresholds_used(thresholds))->0),
            None,
        ),
        r is Available ==> {
            let warnings = r->warnings@;
            let expected = (if identity_warning is Some {
                1int
            } else {
                0int
            }) + (if thresholds matches Some((st, _)) && st != 0 {
                1int
            } else {
                0int
            }) + (if overall matches Some((st, _)) && st != 0 {
                1int
            } else {
                0int
            });
            &&& warnings.len() == expected
            &&& identity_warning is Some ==> warnings[0] == identity_warning->0
            &&& (thresholds matches Some((st, _)) && st != 0) ==> reports(
                warnings[if identity_warning is Some {
                    1int
                } else {
                    0int
                }],
                SmartReadStage::Thresholds,
                "read ATA SMART thresholds"@,
                status_message("read ATA SMART thresholds"@, threshold_status(thresholds)),
                Some(threshold_status(thresholds)),
            )
            &&& (overall matches Some((st, _)) && st != 0) ==> reports(
                warnings.last(),
                SmartReadStage::SmartData,
                "read ATA SMART overall status"@,
                status_message("read ATA SMART overall status"@, overall_status(overall)),
                Some(overall_status(overall)),
            )
            &&& *r->snapshot matches SmartSnapshot::Ata { data: s } && {
                &&& s.identity == identity
                &&& s.version == data@[0] + 256 * data@[1]
                &&& s.overall_passed == overall_used(overall)
                &&& decodes_attributes(
                    s.attributes@,
                    data@,
                    threshold_table(thresholds_used(thresholds)),
                )
            }
        },
{
    let mut warnings: Vec<SmartReadError> = Vec::new();
    match identity_warning {
        Some(w) => warnings.push(w),
        None => {},
    }
    let table: Option<Vec<u8>> = match thresholds {
        Some((status, bytes)) => if status == 0 {
            Some(bytes)
        } else {
            warnings.push(
                status_error(SmartReadStage::Thresholds, "read ATA SMART thresholds", status),
            );
            None
        },
        None => None,
    };
    let overall_passed = match overall {
        Some((status, exceeded)) => if status == 0 {
            Some(exceeded == 0)
        } else {
            warnings.push(
                status_error(SmartReadStage::SmartData, "read ATA SMART overall status", status),
            );
            None
        },
        None => None,
    };
    let slice: Option<&[u8]> = match &table {
        Some(t) => Some(t.as_slice()),
        None => None,
    };
    assert(opt_bytes(slice) == thresholds_used(thresholds));
    match parse_smart(identity, data, slice, overall_passed) {
        Ok(parsed) => SmartState::Available {
            snapshot: Box::new(SmartSnapshot::Ata { data: parsed }),
            warnings,
        },
        Err(error) => SmartState::Failed {
            error: parse_warning(SmartReadStage::Parse, error.message()),
        },
    }
}

/// The identity from an NVMe Identify Controller read (`None` when the
/// interface lacks the call), with the warning to report when it yields
/// none.
pub fn nvme_identity(read: Option<(i32, Vec<u8>)>) -> (r: (DeviceIdentityData, Option<SmartReadError>))
    ensures
        match read {
            None => r.0.model is None && r.0.serial is None && r.0.firmware is None && r.1 is Some
                && reports(
                r.1->0,
                SmartReadStage::Identify,
                "read NVMe identify controller"@,
                "IONVMeSMARTInterface does not expose GetIdentifyData"@,
                None,
            ),
            Some((status, bytes)) => if status == 0 {
                if bytes@.len() >= 4096 {
                    &&& r.1 is None
                    &&& reads_as(opt_text(r.0.serial), bytes@.subrange(4, 24))
                    &&& reads_as(opt_text(r.0.model), bytes@.subrange(24, 64))
                    &&& reads_as(opt_text(r.0.firmware), bytes@.subrange(64, 72))
                } else {
                    &&& r.0.model is None && r.0.serial is None && r.0.firmware is None
                    &&& r.1 is Some
                    &&& reports(
                        r.1->0,
                        SmartReadStage::Identify,
                        "parse SMART response"@,
                        truncated_message("NVMe Identify Controller"@, 4096, bytes@.len()),
                        None,
                    )
                }
            } else {
                &&& r.0.model is None && r.0.serial is None && r.0.firmware is None
                &&& r.1 is Some
                &&& reports(
                    r.1->0,
                    SmartReadStage::Identify,
                    "read NVMe identify controller"@,
                    status_message("read NVMe identify controller"@, status),
                    Some(status),
                )
            },
        },
{
    match read {
        None => (
            no_identity(),
            Some(
                read_error(
                    SmartReadStage::Identify,
                    owned("read NVMe identify controller"),
                    owned("IONVMeSMARTInterface does not expose GetIdentifyData"),
                    None,
                ),
            ),
        ),
        Some((status, bytes)) => {
            if status == 0 {
                match parse_identify_controller(bytes.as_slice()) {
                    Ok(identity) => (identity, None),
                    Err(error) => (
                        no_identity(),
                        Some(parse_warning(SmartReadStage::Identify, error.message())),
                    ),
                }
            } else {
                (
                    no_identity(),
                    Some(
                        status_error(SmartReadStage::Identify, "read NVMe identify controller", status),
                    ),
                )
            }
        },
    }
}

/// The failure of an NVMe SMART read call, if it failed: `None` for `read`
/// when the interface lacks the call, otherwise its status.
pub fn nvme_data_failure(read: Option<i32>) -> (r: Option<SmartState>)
    ensures
        read == Some(0i32) <==> r is None,
        read is None ==> (r matches Some(SmartState::Failed { error }) && reports(
            error,
            SmartReadStage::SmartData,
            "read NVMe SMART data"@,
            "IONVMeSMARTInterface does not expose SMARTReadData"@,
            None,
        )),
        (read matches Some(st) && st != 0) ==> (r matches Some(SmartState::Failed { error })
            && reports(
            error,
            SmartReadStage::SmartData,
            "read NVMe SMART data"@,
            status_message("read NVMe SMART data"@, read->0),
            read,
        )),
{
    match read {
        None => Some(
            SmartState::Failed {
                error: read_error(
                    SmartReadStage::SmartData,
                    owned("read NVMe SMART data"),
                    owned("IONVMeSMARTInterface does not expose SMARTReadData"),
                    None,
                ),
            },
        ),
        Some(status) => if status != 0 {
            Some(
                SmartState::Failed {
                    error: status_error(SmartReadStage::SmartData, "read NVMe SMART data", status),
                },
            )
        } else {
            None
        },
    }
}

/// The outcome of an NVMe SMART read whose data call succeeded.
pub fn nvme_smart_state(
    identity: DeviceIdentityData,
    identity_warning: Option<SmartReadError>,
    log: &[u8],
) -> (r: SmartState)
    ensures
        r is Available <==> log@.len() >= 512,
        r is Failed <==> log@.len() < 512,
        r is Failed ==> reports(
            r->error,
            SmartReadStage::Parse,
            "parse SMART response"@,
            truncated_message("NVMe SMART / Health log"@, 512, log@.len()),
            None,
        ),
        r is Available ==> {
            &&& r->warnings@.len() == if identity_warning is Some {
                1int
            } else {
                0int
            }
            &&& identity_warning is Some ==> r->warnings@[0] == identity_warning->0
            &&& *r->snapshot matches SmartSnapshot::Nvme { data: s } && s.identity == identity
                && decodes_smart_log(*s, log@)
        },
{
    let mut warnings: Vec<SmartReadError> = Vec::new();
    match identity_warning {
        Some(w) => warnings.push(w),
        None => {},
    }
    match parse_smart_log(identity, log) {
        Ok(data) => SmartState::Available {
            snapshot: Box::new(SmartSnapshot::Nvme { data: Box::new(data) }),
            warnings,
        },
        Err(error) => SmartState::Failed {
            error: parse_warning(SmartReadStage::Parse, error.message()),
        },
    }
}

/// The SMART interface that a registry entry offers.
#[derive(Clone, Copy, Debug, PartialEq, Eq)]
pub enum SmartKind {
    Ata,
    Nvme,
}

/// The SMART properties of one registry entry: whether it has
/// `NVMe SMART Capable` and whether it has `SMART Capable`.
#[derive(Clone, Copy, Debug, Default, PartialEq, Eq)]
pub struct ServiceFlags {
    pub nvme_smart_capable: bool,
    pub smart_capable: bool,
}

/// The interface an entry offers; NVMe wins when it offers both.
pub open spec fn offered(f: ServiceFlags) -> Option<SmartKind> {
    if f.nvme_smart_capable {
        Some(SmartKind::Nvme)
    } else if f.smart_capable {
        Some(SmartKind::Ata)
    } else {
        None
    }
}

/// The first entry from `i` on that offers an interface, with its index.
pub open spec fn first_service(chain: Seq<ServiceFlags>, i: int) -> Option<(SmartKind, int)>
    decreases chain.len() - i,
{
    if i < 0 || i >= chain.len() {
        None
    } else {
        match offered(chain[i]) {
            Some(k) => Some((k, i)),
            None => first_service(chain, i + 1),
        }
    }
}

/// Finds the SMART service of a disk. `chain` holds the SMART properties
/// of the disk's media object and then of each of its ancestors, nearest
/// first; it is `None` when the registry could not resolve the disk. The
/// nearest entry that offers an interface serves; with none the disk's
/// SMART data is unavailable.
pub fn locate_smart_service(chain: Option<Vec<ServiceFlags>>) -> (r: Result<(SmartKind, usize), SmartState>)
    ensures
        match chain {
            None => (r matches Err(SmartState::Failed { error }) && reports(
                error,
                SmartReadStage::InterfaceAcquisition,
                "locate IOKit media service"@,
                "IOKit could not resolve the device node"@,
                None,
            )),
            Some(c) => match first_service(c@, 0) {
                Some((k, i)) => r == Ok::<(SmartKind, usize), SmartState>((k, i as usize)),
                None => r == Err::<(SmartKind, usize), SmartState>(
                    SmartState::Unavailable { reason: SmartUnavailableReason::InterfaceNotExposed },
                ),
            },
        },
{
    let c = match chain {
        Some(c) => c,
        None => {
            return Err(
                SmartState::Failed {
                    error: read_error(
                        SmartReadStage::InterfaceAcquisition,
                        owned("locate IOKit media service"),
                        owned("IOKit could not resolve the device node"),
                        None,
                    ),
                },
            );
        },
    };
    let mut i: usize = 0;
    while i < c.len()
        invariant
            chain == Some(c),
            i <= c@.len(),
            first_service(c@, 0) == first_service(c@, i as int),
        decreases c@.len() - i,
    {
        let f = c[i];
        if f.nvme_smart_capable {
            return Ok((SmartKind::Nvme, i));
        }
        if f.smart_capable {
            return Ok((SmartKind::Ata, i));
        }
        i = i + 1;
    }
    Err(SmartState::Unavailable { reason: SmartUnavailableReason::InterfaceNotExposed })
}

/// The BSD name of a disk, the file name of its device node, as the
/// registry is asked for it: a name with a NUL character cannot be passed.
pub fn bsd_name_of(device_node: &str) -> (r: Result<String, SmartReadError>)
    ensures
        match file_name(device_node@) {
            None => r is Err && reports(
                r->Err_0,
                SmartReadStage::InterfaceAcquisition,
                "resolve BSD device name"@,
                "device node has no valid UTF-8 file name"@,
                None,
            ),
            Some(n) => if n.contains('\0') {
                r is Err && reports(
                    r->Err_0,
                    SmartReadStage::InterfaceAcquisition,
                    "resolve BSD device name"@,
                    "device node contains an interior null byte"@,
                    None,
                )
            } else {
                r is Ok && r->Ok_0@ == n
            },
        },
{
    let name = match path_file_name(device_node) {
        Some(n) => n,
        None => {
            return Err(
                read_error(
                    SmartReadStage::InterfaceAcquisition,
                    owned("resolve BSD device name"),
                    owned("device node has no valid UTF-8 file name"),
                    None,
                ),
            );
        },
    };
    let cs = chars_of(name.as_str());
    let mut k: usize = 0;
    while k < cs.len()
        invariant
            cs@ == name@,
            file_name(device_node@) == Some(name@),
            k <= cs@.len(),
            forall|j: int| 0 <= j < k ==> cs@[j] != '\0',
        decreases cs@.len() - k,
    {
        if cs[k] == '\0' {
            assert(name@[k as int] == '\0');
            return Err(
                read_error(
                    SmartReadStage::InterfaceAcquisition,
                    owned("resolve BSD device name"),
                    owned("device node contains an interior null byte"),
                    None,
                ),
            );
        }
        k = k + 1;
    }
    Ok(name)
}

} // verus!

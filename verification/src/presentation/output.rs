//! Text output of the disk list and of one disk's details.

use vstd::prelude::*;

use crate::domain::{ConnectionBus, DeviceSnapshot, HealthState, SmartSnapshot, SmartState, StorageProtocol};
use crate::text::{owned, push_str};

use super::locale::{health_text, messages_of, smart_text, Locale, Messages};
use super::smart_view::{lines, projected_view, render_smart_text, view_text, ScaledFigures};

verus! {

/// The SMART label of a snapshot.
pub fn smart_label(snapshot: &DeviceSnapshot, locale: Locale) -> (label: &'static str)
    ensures
        label == smart_text(messages_of(locale), snapshot.smart),
{
    locale.smart_label(&snapshot.smart)
}

/// The label of a health state.
pub fn health_label(health: &HealthState, locale: Locale) -> (label: &'static str)
    ensures
        label == health_text(messages_of(locale), *health),
{
    locale.health_label(health)
}

/// The name of a protocol (its `Debug` text).
pub open spec fn protocol_text(p: StorageProtocol) -> Seq<char> {
    match p {
        StorageProtocol::Ata => "Ata"@,
        StorageProtocol::Nvme => "Nvme"@,
        StorageProtocol::Scsi => "Scsi"@,
        StorageProtocol::Unknown => "Unknown"@,
    }
}

/// The name of a bus (its `Debug` text).
pub open spec fn bus_text(b: ConnectionBus) -> Seq<char> {
    match b {
        ConnectionBus::Internal => "Internal"@,
        ConnectionBus::Usb => "Usb"@,
        ConnectionBus::Thunderbolt => "Thunderbolt"@,
        ConnectionBus::Pcie => "Pcie"@,
        ConnectionBus::Sata => "Sata"@,
        ConnectionBus::Sas => "Sas"@,
        ConnectionBus::Virtual => "Virtual"@,
        ConnectionBus::Unknown => "Unknown"@,
    }
}

fn protocol_name(p: StorageProtocol) -> (s: &'static str)
    ensures
        s@ == protocol_text(p),
{
    match p {
        StorageProtocol::Ata => "Ata",
        StorageProtocol::Nvme => "Nvme",
        StorageProtocol::Scsi => "Scsi",
        StorageProtocol::Unknown => "Unknown",
    }
}

fn bus_name(b: ConnectionBus) -> (s: &'static str)
    ensures
        s@ == bus_text(b),
{
    match b {
        ConnectionBus::Internal => "Internal",
        ConnectionBus::Usb => "Usb",
        ConnectionBus::Thunderbolt => "Thunderbolt",
        ConnectionBus::Pcie => "Pcie",
        ConnectionBus::Sata => "Sata",
        ConnectionBus::Sas => "Sas",
        ConnectionBus::Virtual => "Virtual",
        ConnectionBus::Unknown => "Unknown",
    }
}

/// The inventory model of a snapshot, or the locale's "unknown".
pub open spec fn model_text(s: DeviceSnapshot, m: Messages) -> Seq<char> {
    match s.device.identity.model {
        Some(model) => model@,
        None => m.unknown@,
    }
}

/// The header line of the disk list.
pub open spec fn list_header(m: Messages) -> Seq<char> {
    m.device@ + "\t"@ + m.model@ + "\t"@ + m.capacity@ + "\t"@ + m.health@ + "\t"@ + m.smart@
}

/// The list line of one disk: device node, model, capacity, health and
/// SMART label, tab-separated.
pub open spec fn list_line(s: DeviceSnapshot, capacity: Seq<char>, m: Messages) -> Seq<char> {
    s.device.device_node@ + "\t"@ + model_text(s, m) + "\t"@ + capacity + "\t"@ + health_text(
        m,
        s.health,
    )@ + "\t"@ + smart_text(m, s.smart)@
}

/// The disk list: a header line, then one line per disk in order.
pub open spec fn list_text(
    devices: Seq<DeviceSnapshot>,
    figures: Seq<ScaledFigures>,
    locale: Locale,
) -> Seq<char> {
    let m = messages_of(locale);
    lines(
        seq![list_header(m)] + Seq::new(
            devices.len(),
            |i: int| list_line(devices[i], figures[i].capacity@, m),
        ),
    )
}

/// The parts of a text between the occurrences of `sep`, in order; a text
/// without `sep` is one part.
pub open spec fn split_at(line: Seq<char>, sep: char) -> Seq<Seq<char>>
    decreases line.len(),
{
    if line.len() == 0 {
        seq![Seq::empty()]
    } else {
        let p = split_at(line.drop_last(), sep);
        if line.last() == sep {
            p.push(Seq::empty())
        } else {
            p.update(p.len() - 1, p.last().push(line.last()))
        }
    }
}

/// A text in which `sep` does not occur.
pub open spec fn lacks(t: Seq<char>, sep: char) -> bool
    decreases t.len(),
{
    t.len() == 0 || (t.last() != sep && lacks(t.drop_last(), sep))
}

/// The tab-separated fields of a line, in order.
pub open spec fn tab_fields(line: Seq<char>) -> Seq<Seq<char>> {
    split_at(line, '\t')
}

/// A text without tabs.
pub open spec fn no_tab(t: Seq<char>) -> bool {
    lacks(t, '\t')
}

proof fn lemma_split_nonempty(line: Seq<char>, sep: char)
    ensures
        split_at(line, sep).len() >= 1,
    decreases line.len(),
{
    if line.len() > 0 {
        lemma_split_nonempty(line.drop_last(), sep);
    }
}

proof fn lemma_split_append(p: Seq<char>, x: Seq<char>, sep: char)
    requires
        lacks(x, sep),
    ensures
        split_at(p + x, sep) == split_at(p, sep).drop_last().push(split_at(p, sep).last() + x),
    decreases x.len(),
{
    lemma_split_nonempty(p, sep);
    if x.len() == 0 {
        assert(p + x =~= p);
        assert(split_at(p, sep).last() + x =~= split_at(p, sep).last());
        assert(split_at(p, sep).drop_last().push(split_at(p, sep).last()) =~= split_at(p, sep));
    } else {
        lemma_split_append(p, x.drop_last(), sep);
        assert((p + x).drop_last() =~= p + x.drop_last());
        assert((p + x).last() == x.last());
        let q = split_at(p + x.drop_last(), sep);
        assert((split_at(p, sep).last() + x.drop_last()).push(x.last()) =~= split_at(p, sep).last() + x);
        assert(q.update(q.len() - 1, q.last().push(x.last())) =~= split_at(p, sep).drop_last().push(
            split_at(p, sep).last() + x,
        ));
    }
}

proof fn lemma_split_sep(p: Seq<char>, sep: char)
    ensures
        split_at(p + seq![sep], sep) == split_at(p, sep).push(Seq::empty()),
{
    assert((p + seq![sep]).drop_last() =~= p);
    assert((p + seq![sep]).last() == sep);
}

/// Closing a part: `p` followed by a part `x` and `sep` splits into the
/// parts of `p` with `x` added to its last, then an empty part.
proof fn lemma_split_step(p: Seq<char>, x: Seq<char>, sep: char)
    requires
        lacks(x, sep),
    ensures
        split_at(p + x + seq![sep], sep) == split_at(p, sep).drop_last().push(split_at(p, sep).last() + x).push(
            Seq::empty(),
        ),
{
    lemma_split_append(p, x, sep);
    lemma_split_sep(p + x, sep);
}

proof fn lemma_lacks_concat(a: Seq<char>, b: Seq<char>, sep: char)
    requires
        lacks(a, sep),
        lacks(b, sep),
    ensures
        lacks(a + b, sep),
    decreases b.len(),
{
    if b.len() == 0 {
        assert(a + b =~= a);
    } else {
        lemma_lacks_concat(a, b.drop_last(), sep);
        assert((a + b).drop_last() =~= a + b.drop_last());
    }
}

/// Five tab-free texts joined by tabs split back into those five fields.
proof fn lemma_five_fields(a: Seq<char>, b: Seq<char>, c: Seq<char>, d: Seq<char>, e: Seq<char>)
    requires
        no_tab(a),
        no_tab(b),
        no_tab(c),
        no_tab(d),
        no_tab(e),
    ensures
        tab_fields(a + "\t"@ + b + "\t"@ + c + "\t"@ + d + "\t"@ + e) == seq![a, b, c, d, e],
{
    reveal_strlit("\t");
    let t = seq!['\t'];
    assert("\t"@ =~= t);
    let e0 = Seq::<char>::empty();
    assert(split_at(e0, '\t') == seq![e0]);
    lemma_split_step(e0, a, '\t');
    assert(e0 + a =~= a);
    assert(split_at(a + t, '\t') =~= seq![a, e0]);
    lemma_split_step(a + t, b, '\t');
    assert(split_at(a + t + b + t, '\t') =~= seq![a, b, e0]);
    lemma_split_step(a + t + b + t, c, '\t');
    assert(split_at(a + t + b + t + c + t, '\t') =~= seq![a, b, c, e0]);
    lemma_split_step(a + t + b + t + c + t, d, '\t');
    assert(split_at(a + t + b + t + c + t + d + t, '\t') =~= seq![a, b, c, d, e0]);
    lemma_split_append(a + t + b + t + c + t + d + t, e, '\t');
    assert(split_at(a + t + b + t + c + t + d + t + e, '\t') =~= seq![a, b, c, d, e]);
}

/// The headings and labels of the list and the overview contain no tab
/// and no line break, in either language.
proof fn lemma_labels_plain(locale: Locale)
    ensures
        ({
            let m = messages_of(locale);
            &&& no_tab(m.device@) && no_tab(m.model@) && no_tab(m.capacity@)
            &&& no_tab(m.health@) && no_tab(m.smart@) && no_tab(m.unknown@)
            &&& no_tab(m.healthy@) && no_tab(m.warning_health@) && no_tab(m.critical@)
            &&& no_tab(m.smart_available@) && no_tab(m.smart_unavailable@)
            &&& lacks(m.device@, '\n') && lacks(m.id@, '\n') && lacks(m.model@, '\n')
            &&& lacks(m.capacity@, '\n') && lacks(m.protocol@, '\n') && lacks(m.connection@, '\n')
            &&& lacks(m.health@, '\n') && lacks(m.smart@, '\n') && lacks(m.unknown@, '\n')
            &&& lacks(m.healthy@, '\n') && lacks(m.warning_health@, '\n') && lacks(m.critical@, '\n')
            &&& lacks(m.smart_available@, '\n') && lacks(m.smart_unavailable@, '\n')
        }),
{
    reveal_with_fuel(lacks, 20);
    match locale {
        Locale::En => {
            reveal_strlit("Device");
            reveal_strlit("Model");
            reveal_strlit("Capacity");
            reveal_strlit("Health");
            reveal_strlit("SMART");
            reveal_strlit("Unknown");
            reveal_strlit("Healthy");
            reveal_strlit("Warning");
            reveal_strlit("Critical");
            reveal_strlit("SMART available");
            reveal_strlit("SMART unavailable");
            reveal_strlit("ID");
            reveal_strlit("Protocol");
            reveal_strlit("Connection");
        },
        Locale::ZhCn => {
            reveal_strlit("设备");
            reveal_strlit("型号");
            reveal_strlit("容量");
            reveal_strlit("健康状态");
            reveal_strlit("SMART");
            reveal_strlit("未知");
            reveal_strlit("健康");
            reveal_strlit("警告");
            reveal_strlit("严重");
            reveal_strlit("SMART 可用");
            reveal_strlit("SMART 不可用");
            reveal_strlit("ID");
            reveal_strlit("协议");
            reveal_strlit("连接");
        },
    }
}

/// Protocol and bus names contain no line break.
proof fn lemma_names_plain(p: StorageProtocol, b: ConnectionBus)
    ensures
        lacks(protocol_text(p), '\n'),
        lacks(bus_text(b), '\n'),
{
    reveal_with_fuel(lacks, 12);
    reveal_strlit("Ata");
    reveal_strlit("Nvme");
    reveal_strlit("Scsi");
    reveal_strlit("Unknown");
    reveal_strlit("Internal");
    reveal_strlit("Usb");
    reveal_strlit("Thunderbolt");
    reveal_strlit("Pcie");
    reveal_strlit("Sata");
    reveal_strlit("Sas");
    reveal_strlit("Virtual");
}

/// Split at tabs, every list line lines up with the header: the device
/// node under the device heading, the model under the model heading, the
/// capacity under the capacity heading, the health label of the disk's
/// health under the health heading and the SMART label of its read under
/// the SMART heading (when the node, model and capacity hold no tab).
pub proof fn lemma_list_columns(s: DeviceSnapshot, capacity: Seq<char>, locale: Locale)
    requires
        no_tab(s.device.device_node@),
        s.device.identity.model matches Some(x) ==> no_tab(x@),
        no_tab(capacity),
    ensures
        tab_fields(list_header(messages_of(locale))) == seq![
            messages_of(locale).device@,
            messages_of(locale).model@,
            messages_of(locale).capacity@,
            messages_of(locale).health@,
            messages_of(locale).smart@,
        ],
        tab_fields(list_line(s, capacity, messages_of(locale))) == seq![
            s.device.device_node@,
            model_text(s, messages_of(locale)),
            capacity,
            health_text(messages_of(locale), s.health)@,
            smart_text(messages_of(locale), s.smart)@,
        ],
{
    let m = messages_of(locale);
    lemma_labels_plain(locale);
    lemma_five_fields(m.device@, m.model@, m.capacity@, m.health@, m.smart@);
    lemma_five_fields(
        s.device.device_node@,
        model_text(s, m),
        capacity,
        health_text(m, s.health)@,
        smart_text(m, s.smart)@,
    );
}

proof fn lemma_lines_push(parts: Seq<Seq<char>>, p: Seq<char>)
    ensures
        lines(parts.push(p)) == lines(parts) + p + "\n"@,
{
    assert(parts.push(p).drop_last() =~= parts);
}

fn list_line_text(snapshot: &DeviceSnapshot, capacity: &str, locale: Locale) -> (s: String)
    ensures
        s@ == list_line(*snapshot, capacity@, messages_of(locale)),
{
    let m = locale.messages();
    let mut s = owned(snapshot.device.device_node.as_str());
    push_str(&mut s, "\t");
    match &snapshot.device.identity.model {
        Some(model) => push_str(&mut s, model.as_str()),
        None => push_str(&mut s, m.unknown),
    }
    push_str(&mut s, "\t");
    push_str(&mut s, capacity);
    push_str(&mut s, "\t");
    push_str(&mut s, health_label(&snapshot.health, locale));
    push_str(&mut s, "\t");
    push_str(&mut s, smart_label(snapshot, locale));
    s
}

/// Renders the disk list. `figures[i]` holds the capacity text of
/// `devices[i]`.
pub fn render_list(devices: &[DeviceSnapshot], figures: &[ScaledFigures], locale: Locale) -> (s:
    String)
    requires
        figures@.len() == devices@.len(),
    ensures
        s@ == list_text(devices@, figures@, locale),
{
    let m = locale.messages();
    let ghost all = seq![list_header(m)] + Seq::new(
        devices@.len(),
        |i: int| list_line(devices@[i], figures@[i].capacity@, m),
    );
    let mut s = owned(m.device);
    push_str(&mut s, "\t");
    push_str(&mut s, m.model);
    push_str(&mut s, "\t");
    push_str(&mut s, m.capacity);
    push_str(&mut s, "\t");
    push_str(&mut s, m.health);
    push_str(&mut s, "\t");
    push_str(&mut s, m.smart);
    push_str(&mut s, "\n");
    proof {
        lemma_lines_push(Seq::empty(), list_header(m));
        assert(all.subrange(0, 1) =~= Seq::<Seq<char>>::empty().push(list_header(m)));
    }
    let mut i: usize = 0;
    while i < devices.len()
        invariant
            i <= devices@.len(),
            figures@.len() == devices@.len(),
            m == messages_of(locale),
            all == seq![list_header(m)] + Seq::new(
                devices@.len(),
                |i: int| list_line(devices@[i], figures@[i].capacity@, m),
            ),
            s@ == lines(all.subrange(0, i + 1)),
        decreases devices@.len() - i,
    {
        let line = list_line_text(&devices[i], figures[i].capacity.as_str(), locale);
        push_str(&mut s, line.as_str());
        push_str(&mut s, "\n");
        proof {
            assert(all.subrange(0, i + 2) =~= all.subrange(0, i + 1).push(line@));
            lemma_lines_push(all.subrange(0, i + 1), line@);
        }
        i = i + 1;
    }
    proof {
        assert(all.subrange(0, devices@.len() as int + 1) =~= all);
    }
    s
}

/// The overview of one disk: device node, id, model, capacity, protocol,
/// connection, health and SMART label, one `label: value` line each.
pub open spec fn overview_text(s: DeviceSnapshot, capacity: Seq<char>, locale: Locale) -> Seq<char> {
    let m = messages_of(locale);
    m.device@ + ": "@ + s.device.device_node@ + "\n"@ + m.id@ + ": "@ + s.device.id.0@ + "\n"@
        + m.model@ + ": "@ + model_text(s, m) + "\n"@ + m.capacity@ + ": "@ + capacity + "\n"@
        + m.protocol@ + ": "@ + protocol_text(s.device.connection.protocol) + "\n"@
        + m.connection@ + ": "@ + bus_text(s.device.connection.bus) + "\n"@ + m.health@ + ": "@
        + health_text(m, s.health)@ + "\n"@ + m.smart@ + ": "@ + smart_text(m, s.smart)@ + "\n"@
}

proof fn lemma_label_line(label: Seq<char>, value: Seq<char>)
    requires
        lacks(label, '\n'),
        lacks(value, '\n'),
    ensures
        lacks(label + ": "@ + value, '\n'),
{
    reveal_strlit(": ");
    assert(lacks(": "@, '\n')) by {
        reveal_with_fuel(lacks, 3);
    }
    lemma_lacks_concat(label, ": "@, '\n');
    lemma_lacks_concat(label + ": "@, value, '\n');
}

/// Eight lines without breaks, each ended by a break, split back into
/// those lines and an empty rest.
proof fn lemma_eight_lines(
    l1: Seq<char>,
    l2: Seq<char>,
    l3: Seq<char>,
    l4: Seq<char>,
    l5: Seq<char>,
    l6: Seq<char>,
    l7: Seq<char>,
    l8: Seq<char>,
)
    requires
        lacks(l1, '\n') && lacks(l2, '\n') && lacks(l3, '\n') && lacks(l4, '\n'),
        lacks(l5, '\n') && lacks(l6, '\n') && lacks(l7, '\n') && lacks(l8, '\n'),
    ensures
        split_at(
            l1 + "\n"@ + l2 + "\n"@ + l3 + "\n"@ + l4 + "\n"@ + l5 + "\n"@ + l6 + "\n"@ + l7 + "\n"@ + l8
                + "\n"@,
            '\n',
        ) == seq![l1, l2, l3, l4, l5, l6, l7, l8, Seq::<char>::empty()],
{
    reveal_strlit("\n");
    let nl = seq!['\n'];
    assert("\n"@ =~= nl);
    let e0 = Seq::<char>::empty();
    assert(split_at(e0, '\n') == seq![e0]);
    lemma_split_step(e0, l1, '\n');
    assert(e0 + l1 =~= l1);
    let p1 = l1 + nl;
    assert(split_at(p1, '\n') =~= seq![l1, e0]);
    lemma_split_step(p1, l2, '\n');
    let p2 = p1 + l2 + nl;
    assert(split_at(p2, '\n') =~= seq![l1, l2, e0]);
    lemma_split_step(p2, l3, '\n');
    let p3 = p2 + l3 + nl;
    assert(split_at(p3, '\n') =~= seq![l1, l2, l3, e0]);
    lemma_split_step(p3, l4, '\n');
    let p4 = p3 + l4 + nl;
    assert(split_at(p4, '\n') =~= seq![l1, l2, l3, l4, e0]);
    lemma_split_step(p4, l5, '\n');
    let p5 = p4 + l5 + nl;
    assert(split_at(p5, '\n') =~= seq![l1, l2, l3, l4, l5, e0]);
    lemma_split_step(p5, l6, '\n');
    let p6 = p5 + l6 + nl;
    assert(split_at(p6, '\n') =~= seq![l1, l2, l3, l4, l5, l6, e0]);
    lemma_split_step(p6, l7, '\n');
    let p7 = p6 + l7 + nl;
    assert(split_at(p7, '\n') =~= seq![l1, l2, l3, l4, l5, l6, l7, e0]);
    lemma_split_step(p7, l8, '\n');
    let p8 = p7 + l8 + nl;
    assert(split_at(p8, '\n') =~= seq![l1, l2, l3, l4, l5, l6, l7, l8, e0]);
}

/// Eight `label: value` lines, each ended by a break, split back into
/// those lines and an empty rest, when no label or value holds a break.
proof fn lemma_eight_label_lines(
    a1: Seq<char>, v1: Seq<char>, a2: Seq<char>, v2: Seq<char>,
    a3: Seq<char>, v3: Seq<char>, a4: Seq<char>, v4: Seq<char>,
    a5: Seq<char>, v5: Seq<char>, a6: Seq<char>, v6: Seq<char>,
    a7: Seq<char>, v7: Seq<char>, a8: Seq<char>, v8: Seq<char>,
)
    requires
        lacks(a1, '\n') && lacks(a2, '\n') && lacks(a3, '\n') && lacks(a4, '\n'),
        lacks(a5, '\n') && lacks(a6, '\n') && lacks(a7, '\n') && lacks(a8, '\n'),
        lacks(v1, '\n') && lacks(v2, '\n') && lacks(v3, '\n') && lacks(v4, '\n'),
        lacks(v5, '\n') && lacks(v6, '\n') && lacks(v7, '\n') && lacks(v8, '\n'),
    ensures
        split_at(
            a1 + ": "@ + v1 + "\n"@ + a2 + ": "@ + v2 + "\n"@ + a3 + ": "@ + v3 + "\n"@ + a4 + ": "@
                + v4 + "\n"@ + a5 + ": "@ + v5 + "\n"@ + a6 + ": "@ + v6 + "\n"@ + a7 + ": "@ + v7
                + "\n"@ + a8 + ": "@ + v8 + "\n"@,
            '\n',
        ) == seq![
            a1 + ": "@ + v1,
            a2 + ": "@ + v2,
            a3 + ": "@ + v3,
            a4 + ": "@ + v4,
            a5 + ": "@ + v5,
            a6 + ": "@ + v6,
            a7 + ": "@ + v7,
            a8 + ": "@ + v8,
            Seq::<char>::empty(),
        ],
{
    let l1 = a1 + ": "@ + v1;
    let l2 = a2 + ": "@ + v2;
    let l3 = a3 + ": "@ + v3;
    let l4 = a4 + ": "@ + v4;
    let l5 = a5 + ": "@ + v5;
    let l6 = a6 + ": "@ + v6;
    let l7 = a7 + ": "@ + v7;
    let l8 = a8 + ": "@ + v8;
    lemma_label_line(a1, v1);
    lemma_label_line(a2, v2);
    lemma_label_line(a3, v3);
    lemma_label_line(a4, v4);
    lemma_label_line(a5, v5);
    lemma_label_line(a6, v6);
    lemma_label_line(a7, v7);
    lemma_label_line(a8, v8);
    lemma_eight_lines(l1, l2, l3, l4, l5, l6, l7, l8);
    assert(a1 + ": "@ + v1 + "\n"@ + a2 + ": "@ + v2 + "\n"@ + a3 + ": "@ + v3 + "\n"@ + a4 + ": "@
        + v4 + "\n"@ + a5 + ": "@ + v5 + "\n"@ + a6 + ": "@ + v6 + "\n"@ + a7 + ": "@ + v7 + "\n"@
        + a8 + ": "@ + v8 + "\n"@ =~= l1 + "\n"@ + l2 + "\n"@ + l3 + "\n"@ + l4 + "\n"@ + l5 + "\n"@
        + l6 + "\n"@ + l7 + "\n"@ + l8 + "\n"@);
}

/// Split into lines, the overview of a disk is eight `label: value` lines,
/// each label with its own value: device node, id, model, capacity,
/// protocol, connection, health label and SMART label, every line ended by
/// a line break (when the node, id, model and capacity hold none).
pub proof fn lemma_overview_lines(s: DeviceSnapshot, capacity: Seq<char>, locale: Locale)
    requires
        lacks(s.device.device_node@, '\n'),
        lacks(s.device.id.0@, '\n'),
        s.device.identity.model matches Some(x) ==> lacks(x@, '\n'),
        lacks(capacity, '\n'),
    ensures
        ({
            let m = messages_of(locale);
            split_at(overview_text(s, capacity, locale), '\n') == seq![
                m.device@ + ": "@ + s.device.device_node@,
                m.id@ + ": "@ + s.device.id.0@,
                m.model@ + ": "@ + model_text(s, m),
                m.capacity@ + ": "@ + capacity,
                m.protocol@ + ": "@ + protocol_text(s.device.connection.protocol),
                m.connection@ + ": "@ + bus_text(s.device.connection.bus),
                m.health@ + ": "@ + health_text(m, s.health)@,
                m.smart@ + ": "@ + smart_text(m, s.smart)@,
                Seq::<char>::empty(),
            ]
        }),
{
    let m = messages_of(locale);
    lemma_labels_plain(locale);
    lemma_names_plain(s.device.connection.protocol, s.device.connection.bus);
    lemma_eight_label_lines(
        m.device@, s.device.device_node@, m.id@, s.device.id.0@,
        m.model@, model_text(s, m), m.capacity@, capacity,
        m.protocol@, protocol_text(s.device.connection.protocol),
        m.connection@, bus_text(s.device.connection.bus),
        m.health@, health_text(m, s.health)@, m.smart@, smart_text(m, s.smart)@,
    );
}

fn push_line(s: &mut String, label: &str, value: &str)
    ensures
        final(s)@ == old(s)@ + label@ + ": "@ + value@ + "\n"@,
{
    push_str(s, label);
    push_str(s, ": ");
    push_str(s, value);
    push_str(s, "\n");
}

/// Renders the overview of one disk.
pub fn render_overview(snapshot: &DeviceSnapshot, figures: &ScaledFigures, locale: Locale) -> (s:
    String)
    ensures
        s@ == overview_text(*snapshot, figures.capacity@, locale),
{
    let m = locale.messages();
    let mut s = String::new();
    push_line(&mut s, m.device, snapshot.device.device_node.as_str());
    push_line(&mut s, m.id, snapshot.device.id.0.as_str());
    match &snapshot.device.identity.model {
        Some(model) => push_line(&mut s, m.model, model.as_str()),
        None => push_line(&mut s, m.model, m.unknown),
    }
    push_line(&mut s, m.capacity, figures.capacity.as_str());
    push_line(&mut s, m.protocol, protocol_name(snapshot.device.connection.protocol));
    push_line(&mut s, m.connection, bus_name(snapshot.device.connection.bus));
    push_line(&mut s, m.health, health_label(&snapshot.health, locale));
    push_line(&mut s, m.smart, smart_label(snapshot, locale));
    s
}

/// The details of one disk: the overview, a blank line, and the SMART text.
pub open spec fn detail_text(s: DeviceSnapshot, figures: ScaledFigures, locale: Locale) -> Seq<char> {
    overview_text(s, figures.capacity@, locale) + "\n"@ + view_text(
        projected_view(s, figures, locale),
        messages_of(locale),
    )
}

/// Renders the details of one disk.
pub fn render_detail(snapshot: &DeviceSnapshot, figures: &ScaledFigures, locale: Locale) -> (s:
    String)
    ensures
        s@ == detail_text(*snapshot, *figures, locale),
{
    let mut s = render_overview(snapshot, figures, locale);
    push_str(&mut s, "\n");
    let smart = render_smart_text(snapshot, figures, locale);
    push_str(&mut s, smart.as_str());
    s
}

/// The NVMe temperature of an available read; ATA and unavailable reads
/// have none.
pub open spec fn temperature_of(s: DeviceSnapshot) -> Option<i32> {
    match s.smart {
        SmartState::Available { snapshot, .. } => match *snapshot {
            SmartSnapshot::Nvme { data } => data.temperature_celsius,
            SmartSnapshot::Ata { .. } => None,
        },
        _ => None,
    }
}

/// The temperature sample a snapshot contributes.
pub fn temperature(snapshot: &DeviceSnapshot) -> (t: Option<i32>)
    ensures
        t == temperature_of(*snapshot),
{
    match &snapshot.smart {
        SmartState::Available { snapshot: smart, .. } => match &**smart {
            SmartSnapshot::Nvme { data } => data.temperature_celsius,
            SmartSnapshot::Ata { .. } => None,
        },
        _ => None,
    }
}

} // verus!

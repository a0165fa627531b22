//! Conservative health evaluation of SMART snapshots, with the evidence
//! that caused each verdict.

use vstd::prelude::*;

use super::smart::{
    crossed, AtaSmartAttribute, AtaSmartSnapshot, NvmeSmartSnapshot, SmartSnapshot, SmartState,
};

verus! {

/// Health verdict of a disk, with the evidence that supports it.
#[derive(Clone, Debug, PartialEq, Eq)]
pub enum HealthState {
    Healthy { evidence: Vec<HealthEvidence> },
    Warning { evidence: Vec<HealthEvidence> },
    Critical { evidence: Vec<HealthEvidence> },
    Unknown { reason: HealthUnknownReason },
}

/// One observation that a verdict rests on.
#[derive(Clone, Copy, Debug, PartialEq, Eq)]
pub enum HealthEvidence {
    AtaOverall { passed: bool },
    AtaThresholdCrossed { attribute_id: u8, current: u8, threshold: u8 },
    NvmeCriticalWarning { bits: u8 },
    NvmeSpare { available_percent: u8, threshold_percent: u8 },
    NvmePercentageUsed { percent: u8 },
}

/// Why no verdict could be reached.
#[derive(Clone, Copy, Debug, PartialEq, Eq)]
pub enum HealthUnknownReason {
    SmartUnavailable,
    SmartReadFailed,
    InsufficientEvidence,
}

/// A health state as a mathematical value: its level and its evidence in
/// order, or the reason it is unknown.
pub enum HealthVerdict {
    Healthy(Seq<HealthEvidence>),
    Warning(Seq<HealthEvidence>),
    Critical(Seq<HealthEvidence>),
    Unknown(HealthUnknownReason),
}

impl View for HealthState {
    type V = HealthVerdict;

    open spec fn view(&self) -> HealthVerdict {
        match self {
            HealthState::Healthy { evidence } => HealthVerdict::Healthy(evidence@),
            HealthState::Warning { evidence } => HealthVerdict::Warning(evidence@),
            HealthState::Critical { evidence } => HealthVerdict::Critical(evidence@),
            HealthState::Unknown { reason } => HealthVerdict::Unknown(*reason),
        }
    }
}

/// The evidence for one attribute whose threshold is crossed.
pub open spec fn crossing_of(a: AtaSmartAttribute) -> HealthEvidence {
    HealthEvidence::AtaThresholdCrossed {
        attribute_id: a.id,
        current: a.current,
        threshold: a.threshold->0,
    }
}

/// Threshold crossings among `attrs`, in attribute order.
pub open spec fn crossing_evidence(attrs: Seq<AtaSmartAttribute>) -> Seq<HealthEvidence>
    decreases attrs.len(),
{
    if attrs.len() == 0 {
        Seq::empty()
    } else {
        let rest = crossing_evidence(attrs.drop_last());
        let a = attrs.last();
        if crossed(a.current, a.threshold) {
            rest.push(crossing_of(a))
        } else {
            rest
        }
    }
}

/// Health of ATA data: a failed overall status is critical (with any crossings
/// after it); otherwise any crossing is a warning; otherwise a passed
/// status is healthy and a missing one leaves the health unknown.
pub open spec fn ata_verdict(s: AtaSmartSnapshot) -> HealthVerdict {
    let crossings = crossing_evidence(s.attributes@);
    if s.overall_passed == Some(false) {
        HealthVerdict::Critical(seq![HealthEvidence::AtaOverall { passed: false }] + crossings)
    } else if crossings.len() > 0 {
        HealthVerdict::Warning(crossings)
    } else if s.overall_passed == Some(true) {
        HealthVerdict::Healthy(seq![HealthEvidence::AtaOverall { passed: true }])
    } else {
        HealthVerdict::Unknown(HealthUnknownReason::InsufficientEvidence)
    }
}

/// NVMe warnings: spare below its threshold, then wear at or above 100%.
pub open spec fn nvme_warnings(s: NvmeSmartSnapshot) -> Seq<HealthEvidence> {
    (if s.available_spare_percent < s.available_spare_threshold_percent {
        seq![
            HealthEvidence::NvmeSpare {
                available_percent: s.available_spare_percent,
                threshold_percent: s.available_spare_threshold_percent,
            },
        ]
    } else {
        Seq::empty()
    }) + (if s.percentage_used >= 100 {
        seq![HealthEvidence::NvmePercentageUsed { percent: s.percentage_used }]
    } else {
        Seq::empty()
    })
}

/// Health of NVMe data: any critical-warning bit is critical; otherwise any
/// warning is a warning; otherwise healthy, citing the clear warning bits.
pub open spec fn nvme_verdict(s: NvmeSmartSnapshot) -> HealthVerdict {
    if s.critical_warning != 0 {
        HealthVerdict::Critical(seq![HealthEvidence::NvmeCriticalWarning { bits: s.critical_warning }])
    } else if nvme_warnings(s).len() > 0 {
        HealthVerdict::Warning(nvme_warnings(s))
    } else {
        HealthVerdict::Healthy(seq![HealthEvidence::NvmeCriticalWarning { bits: 0 }])
    }
}

/// The verdict for a SMART snapshot of either protocol.
pub open spec fn smart_verdict(s: SmartSnapshot) -> HealthVerdict {
    match s {
        SmartSnapshot::Ata { data } => ata_verdict(data),
        SmartSnapshot::Nvme { data } => nvme_verdict(*data),
    }
}

/// A vector holding exactly `e`.
fn single(e: HealthEvidence) -> (v: Vec<HealthEvidence>)
    ensures
        v@ == seq![e],
{
    let mut v: Vec<HealthEvidence> = Vec::new();
    v.push(e);
    v
}

/// Evaluates the health of a SMART snapshot.
pub fn evaluate_health(snapshot: &SmartSnapshot) -> (h: HealthState)
    ensures
        h@ == smart_verdict(*snapshot),
{
    match snapshot {
        SmartSnapshot::Ata { data } => evaluate_ata(data),
        SmartSnapshot::Nvme { data } => evaluate_nvme(data),
    }
}

/// Evaluates ATA SMART data.
pub fn evaluate_ata(snapshot: &AtaSmartSnapshot) -> (h: HealthState)
    ensures
        h@ == ata_verdict(*snapshot),
        snapshot.overall_passed == Some(false) ==> (h@ matches HealthVerdict::Critical(ev) && {
            let attrs = snapshot.attributes@;
            &&& ev.len() == 1 + attrs.filter(|a: AtaSmartAttribute| crossed(a.current, a.threshold)).len()
            &&& ev[0] == HealthEvidence::AtaOverall { passed: false }
            &&& forall|i: int|
                0 <= i < attrs.len() && (attrs[i].threshold matches Some(t) && t > 0 && attrs[i].current
                    <= t) ==> exists|j: int|
                    1 <= j < ev.len() && #[trigger] ev[j] == HealthEvidence::AtaThresholdCrossed {
                        attribute_id: (#[trigger] attrs[i]).id,
                        current: attrs[i].current,
                        threshold: attrs[i].threshold->0,
                    }
        }),
{
    proof {
        if snapshot.overall_passed == Some(false) {
            lemma_failed_status_evidence(*snapshot);
        }
    }
    let mut crossings: Vec<HealthEvidence> = Vec::new();
    let mut i: usize = 0;
    while i < snapshot.attributes.len()
        invariant
            i <= snapshot.attributes.len(),
            crossings@ == crossing_evidence(snapshot.attributes@.subrange(0, i as int)),
        decreases snapshot.attributes.len() - i,
    {
        let attribute = &snapshot.attributes[i];
        proof {
            assert(snapshot.attributes@.subrange(0, i + 1).drop_last()
                =~= snapshot.attributes@.subrange(0, i as int));
        }
        if attribute.threshold_crossed() {
            let threshold = match attribute.threshold {
                Some(t) => t,
                None => 0,
            };
            crossings.push(
                HealthEvidence::AtaThresholdCrossed {
                    attribute_id: attribute.id,
                    current: attribute.current,
                    threshold,
                },
            );
        }
        i = i + 1;
    }
    proof {
        assert(snapshot.attributes@.subrange(0, snapshot.attributes.len() as int)
            =~= snapshot.attributes@);
    }
    if match snapshot.overall_passed { Some(p) => !p, None => false } {
        let mut evidence = single(HealthEvidence::AtaOverall { passed: false });
        evidence.append(&mut crossings);
        return HealthState::Critical { evidence };
    }
    if crossings.len() > 0 {
        return HealthState::Warning { evidence: crossings };
    }
    match snapshot.overall_passed {
        Some(_) => HealthState::Healthy {
            evidence: single(HealthEvidence::AtaOverall { passed: true }),
        },
        None => HealthState::Unknown { reason: HealthUnknownReason::InsufficientEvidence },
    }
}

/// Evaluates NVMe SMART data.
pub fn evaluate_nvme(snapshot: &NvmeSmartSnapshot) -> (h: HealthState)
    ensures
        h@ == nvme_verdict(*snapshot),
{
    if snapshot.critical_warning != 0 {
        return HealthState::Critical {
            evidence: single(HealthEvidence::NvmeCriticalWarning { bits: snapshot.critical_warning }),
        };
    }
    let mut warnings: Vec<HealthEvidence> = Vec::new();
    if snapshot.available_spare_percent < snapshot.available_spare_threshold_percent {
        warnings.push(
            HealthEvidence::NvmeSpare {
                available_percent: snapshot.available_spare_percent,
                threshold_percent: snapshot.available_spare_threshold_percent,
            },
        );
    }
    if snapshot.percentage_used >= 100 {
        warnings.push(HealthEvidence::NvmePercentageUsed { percent: snapshot.percentage_used });
    }
    proof {
        assert(warnings@ =~= nvme_warnings(*snapshot));
    }
    if warnings.len() == 0 {
        HealthState::Healthy { evidence: single(HealthEvidence::NvmeCriticalWarning { bits: 0 }) }
    } else {
        HealthState::Warning { evidence: warnings }
    }
}

/// The verdict for a SMART read: the evaluated snapshot when the read
/// succeeded, otherwise unknown because SMART is unavailable or because
/// the read failed.
pub open spec fn read_verdict(smart: SmartState) -> HealthVerdict {
    match smart {
        SmartState::Available { snapshot, .. } => smart_verdict(*snapshot),
        SmartState::Unavailable { .. } => HealthVerdict::Unknown(HealthUnknownReason::SmartUnavailable),
        SmartState::Failed { .. } => HealthVerdict::Unknown(HealthUnknownReason::SmartReadFailed),
    }
}

/// The health that a SMART read supports.
pub fn health_of_read(smart: &SmartState) -> (h: HealthState)
    ensures
        h@ == read_verdict(*smart),
{
    match smart {
        SmartState::Available { snapshot, .. } => evaluate_health(snapshot),
        SmartState::Unavailable { .. } => HealthState::Unknown {
            reason: HealthUnknownReason::SmartUnavailable,
        },
        SmartState::Failed { .. } => HealthState::Unknown {
            reason: HealthUnknownReason::SmartReadFailed,
        },
    }
}

/// Every threshold-crossing evidence names an attribute whose current
/// value is at or below its nonzero threshold, with that attribute's id,
/// value and threshold; and there is exactly one per such attribute.
pub proof fn lemma_crossings_are_causal(attrs: Seq<AtaSmartAttribute>)
    ensures
        forall|j: int|
            0 <= j < crossing_evidence(attrs).len() ==> exists|i: int|
                0 <= i < attrs.len() && crossed(attrs[i].current, attrs[i].threshold)
                    && #[trigger] crossing_evidence(attrs)[j] == crossing_of(attrs[i]),
        crossing_evidence(attrs).len() == attrs.filter(
            |a: AtaSmartAttribute| crossed(a.current, a.threshold),
        ).len(),
    decreases attrs.len(),
{
    reveal_with_fuel(Seq::filter, 1);
    if attrs.len() > 0 {
        let rest = attrs.drop_last();
        lemma_crossings_are_causal(rest);
        let e = crossing_evidence(attrs);
        assert forall|j: int| 0 <= j < e.len() implies exists|i: int|
            0 <= i < attrs.len() && crossed(attrs[i].current, attrs[i].threshold)
                && #[trigger] e[j] == crossing_of(attrs[i]) by {
            if j < crossing_evidence(rest).len() {
                let i = choose|i: int|
                    0 <= i < rest.len() && crossed(rest[i].current, rest[i].threshold)
                        && crossing_evidence(rest)[j] == crossing_of(rest[i]);
                assert(rest[i] == attrs[i]);
            } else {
                assert(attrs[attrs.len() - 1] == attrs.last());
            }
        }
    }
}

/// Every attribute that crossed its threshold has its evidence among the
/// crossings.
proof fn lemma_crossings_complete(attrs: Seq<AtaSmartAttribute>)
    ensures
        forall|i: int|
            0 <= i < attrs.len() && crossed(attrs[i].current, attrs[i].threshold) ==> exists|j: int|
                0 <= j < crossing_evidence(attrs).len() && #[trigger] crossing_evidence(attrs)[j]
                    == crossing_of(#[trigger] attrs[i]),
    decreases attrs.len(),
{
    if attrs.len() > 0 {
        let rest = attrs.drop_last();
        lemma_crossings_complete(rest);
        let e = crossing_evidence(attrs);
        assert forall|i: int|
            0 <= i < attrs.len() && crossed(attrs[i].current, attrs[i].threshold) implies exists|j: int|
                0 <= j < e.len() && #[trigger] e[j] == crossing_of(#[trigger] attrs[i]) by {
            if i < attrs.len() - 1 {
                assert(rest[i] == attrs[i]);
                let j = choose|j: int|
                    0 <= j < crossing_evidence(rest).len() && #[trigger] crossing_evidence(rest)[j]
                        == crossing_of(rest[i]);
                assert(e[j] == crossing_evidence(rest)[j]);
            } else {
                assert(attrs[i] == attrs.last());
                assert(e[e.len() - 1] == crossing_of(attrs[i]));
            }
        }
    }
}

/// When the overall status reports failure, the health is critical and
/// its evidence is that failure followed by one entry per attribute that
/// crossed its threshold: 1 + (number of crossed attributes) entries, the
/// first `AtaOverall { passed: false }`, and each crossed attribute's id,
/// current value and threshold among the entries after it, every one of
/// which names a crossed attribute.
pub proof fn lemma_failed_status_evidence(s: AtaSmartSnapshot)
    requires
        s.overall_passed == Some(false),
    ensures
        ata_verdict(s) is Critical,
        ata_verdict(s) matches HealthVerdict::Critical(ev) && {
            let attrs = s.attributes@;
            &&& ev.len() == 1 + attrs.filter(|a: AtaSmartAttribute| crossed(a.current, a.threshold)).len()
            &&& ev[0] == HealthEvidence::AtaOverall { passed: false }
            &&& forall|i: int|
                0 <= i < attrs.len() && (attrs[i].threshold matches Some(t) && t > 0 && attrs[i].current
                    <= t) ==> exists|j: int|
                    1 <= j < ev.len() && #[trigger] ev[j] == HealthEvidence::AtaThresholdCrossed {
                        attribute_id: (#[trigger] attrs[i]).id,
                        current: attrs[i].current,
                        threshold: attrs[i].threshold->0,
                    }
            &&& forall|j: int|
                1 <= j < ev.len() ==> exists|i: int|
                    0 <= i < attrs.len() && (attrs[i].threshold matches Some(t) && t > 0
                        && attrs[i].current <= t) && #[trigger] ev[j]
                        == HealthEvidence::AtaThresholdCrossed {
                        attribute_id: attrs[i].id,
                        current: attrs[i].current,
                        threshold: attrs[i].threshold->0,
                    }
        },
{
    let attrs = s.attributes@;
    let c = crossing_evidence(attrs);
    lemma_crossings_are_causal(attrs);
    lemma_crossings_complete(attrs);
    let ev = seq![HealthEvidence::AtaOverall { passed: false }] + c;
    assert(ata_verdict(s) == HealthVerdict::Critical(ev));
    assert forall|i: int|
        0 <= i < attrs.len() && (attrs[i].threshold matches Some(t) && t > 0 && attrs[i].current <= t)
            implies exists|j: int|
            1 <= j < ev.len() && #[trigger] ev[j] == HealthEvidence::AtaThresholdCrossed {
                attribute_id: (#[trigger] attrs[i]).id,
                current: attrs[i].current,
                threshold: attrs[i].threshold->0,
            } by {
        assert(crossed(attrs[i].current, attrs[i].threshold));
        let j = choose|j: int| 0 <= j < c.len() && #[trigger] c[j] == crossing_of(attrs[i]);
        assert(ev[j + 1] == c[j]);
    }
    assert forall|j: int| 1 <= j < ev.len() implies exists|i: int|
        0 <= i < attrs.len() && (attrs[i].threshold matches Some(t) && t > 0 && attrs[i].current <= t)
            && #[trigger] ev[j] == HealthEvidence::AtaThresholdCrossed {
            attribute_id: attrs[i].id,
            current: attrs[i].current,
            threshold: attrs[i].threshold->0,
        } by {
        assert(ev[j] == c[j - 1]);
        let i = choose|i: int|
            0 <= i < attrs.len() && crossed(attrs[i].current, attrs[i].threshold) && #[trigger] c[j - 1]
                == crossing_of(attrs[i]);
        assert(crossed(attrs[i].current, attrs[i].threshold));
    }
}

/// The crossings, stated over the attribute fields: one entry per
/// attribute whose current value is at or below a nonzero threshold, each
/// naming such an attribute, and every such attribute named.
pub open spec fn names_crossed(ev: Seq<HealthEvidence>, attrs: Seq<AtaSmartAttribute>) -> bool {
    &&& ev.len() == attrs.filter(|a: AtaSmartAttribute| crossed(a.current, a.threshold)).len()
    &&& forall|i: int|
        0 <= i < attrs.len() && (attrs[i].threshold matches Some(t) && t > 0 && attrs[i].current <= t)
            ==> exists|j: int|
            0 <= j < ev.len() && #[trigger] ev[j] == HealthEvidence::AtaThresholdCrossed {
                attribute_id: (#[trigger] attrs[i]).id,
                current: attrs[i].current,
                threshold: attrs[i].threshold->0,
            }
    &&& forall|j: int|
        0 <= j < ev.len() ==> exists|i: int|
            0 <= i < attrs.len() && (attrs[i].threshold matches Some(t) && t > 0 && attrs[i].current
                <= t) && #[trigger] ev[j] == HealthEvidence::AtaThresholdCrossed {
                attribute_id: attrs[i].id,
                current: attrs[i].current,
                threshold: attrs[i].threshold->0,
            }
}

proof fn lemma_crossings_named(attrs: Seq<AtaSmartAttribute>)
    ensures
        names_crossed(crossing_evidence(attrs), attrs),
{
    let c = crossing_evidence(attrs);
    lemma_crossings_are_causal(attrs);
    lemma_crossings_complete(attrs);
    assert forall|i: int|
        0 <= i < attrs.len() && (attrs[i].threshold matches Some(t) && t > 0 && attrs[i].current <= t)
            implies exists|j: int|
            0 <= j < c.len() && #[trigger] c[j] == HealthEvidence::AtaThresholdCrossed {
                attribute_id: (#[trigger] attrs[i]).id,
                current: attrs[i].current,
                threshold: attrs[i].threshold->0,
            } by {
        assert(crossed(attrs[i].current, attrs[i].threshold));
        let j = choose|j: int| 0 <= j < c.len() && #[trigger] c[j] == crossing_of(attrs[i]);
    }
    assert forall|j: int| 0 <= j < c.len() implies exists|i: int|
        0 <= i < attrs.len() && (attrs[i].threshold matches Some(t) && t > 0 && attrs[i].current <= t)
            && #[trigger] c[j] == HealthEvidence::AtaThresholdCrossed {
            attribute_id: attrs[i].id,
            current: attrs[i].current,
            threshold: attrs[i].threshold->0,
        } by {
        let i = choose|i: int|
            0 <= i < attrs.len() && crossed(attrs[i].current, attrs[i].threshold) && #[trigger] c[j]
                == crossing_of(attrs[i]);
        assert(crossed(attrs[i].current, attrs[i].threshold));
    }
}

/// Without a reported failure, an attribute at or below a nonzero
/// threshold makes the health a warning whose evidence is one entry per
/// such attribute, each naming one of them by id, current value and
/// threshold, and every one of them named.
pub proof fn lemma_crossing_warning_evidence(s: AtaSmartSnapshot, i: int)
    requires
        s.overall_passed != Some(false),
        0 <= i < s.attributes@.len(),
        s.attributes@[i].threshold matches Some(t) && t > 0 && s.attributes@[i].current <= t,
    ensures
        ata_verdict(s) matches HealthVerdict::Warning(ev) && names_crossed(ev, s.attributes@),
{
    let attrs = s.attributes@;
    lemma_crossings_named(attrs);
    assert(crossed(attrs[i].current, attrs[i].threshold));
    assert(crossing_evidence(attrs).len() > 0);
}

/// A set critical-warning byte makes NVMe health critical with that byte
/// as its only evidence; with the byte clear and no warning the evidence
/// is the clear byte.
pub proof fn lemma_nvme_critical_evidence(s: NvmeSmartSnapshot)
    ensures
        s.critical_warning != 0 ==> nvme_verdict(s) == HealthVerdict::Critical(
            seq![HealthEvidence::NvmeCriticalWarning { bits: s.critical_warning }],
        ),
        (s.critical_warning == 0 && s.available_spare_percent >= s.available_spare_threshold_percent
            && s.percentage_used < 100) ==> nvme_verdict(s) == HealthVerdict::Healthy(
            seq![HealthEvidence::NvmeCriticalWarning { bits: 0 }],
        ),
{
    if s.critical_warning == 0 && s.available_spare_percent >= s.available_spare_threshold_percent
        && s.percentage_used < 100 {
        assert(nvme_warnings(s) =~= Seq::<HealthEvidence>::empty());
    }
}

/// ATA data is critical exactly when the overall status reports failure,
/// and NVMe data exactly when a critical-warning bit is set.
pub proof fn lemma_critical_iff_failure(ata: AtaSmartSnapshot, nvme: NvmeSmartSnapshot)
    ensures
        ata_verdict(ata) is Critical <==> ata.overall_passed == Some(false),
        nvme_verdict(nvme) is Critical <==> nvme.critical_warning != 0,
{
}

/// ATA data is healthy only when the overall status passed and no
/// attribute has crossed its threshold, and its health is unknown exactly
/// when no overall status was reported and no attribute has crossed.
pub proof fn lemma_ata_healthy_and_unknown(s: AtaSmartSnapshot)
    ensures
        ata_verdict(s) is Healthy <==> (s.overall_passed == Some(true) && forall|i: int|
            0 <= i < s.attributes@.len() ==> !crossed(
                #[trigger] s.attributes@[i].current,
                s.attributes@[i].threshold,
            )),
        ata_verdict(s) is Unknown <==> (s.overall_passed is None && forall|i: int|
            0 <= i < s.attributes@.len() ==> !crossed(
                #[trigger] s.attributes@[i].current,
                s.attributes@[i].threshold,
            )),
{
    lemma_crossings_empty(s.attributes@);
    match s.overall_passed {
        Some(b) => {
            if b {
                assert(s.overall_passed == Some(true));
            } else {
                assert(s.overall_passed == Some(false));
            }
        },
        None => {},
    }
}

/// No crossing evidence exactly when no attribute has crossed.
pub proof fn lemma_crossings_empty(attrs: Seq<AtaSmartAttribute>)
    ensures
        crossing_evidence(attrs).len() == 0 <==> forall|i: int|
            0 <= i < attrs.len() ==> !crossed(#[trigger] attrs[i].current, attrs[i].threshold),
    decreases attrs.len(),
{
    if attrs.len() > 0 {
        let rest = attrs.drop_last();
        lemma_crossings_empty(rest);
        if forall|i: int| 0 <= i < attrs.len() ==> !crossed(#[trigger] attrs[i].current, attrs[i].threshold) {
            assert forall|i: int| 0 <= i < rest.len() implies !crossed(#[trigger] rest[i].current, rest[i].threshold) by {
                assert(rest[i] == attrs[i]);
            }
            assert(!crossed(attrs[attrs.len() - 1].current, attrs[attrs.len() - 1].threshold));
        } else {
            let i = choose|i: int| 0 <= i < attrs.len() && crossed(#[trigger] attrs[i].current, attrs[i].threshold);
            if i < attrs.len() - 1 {
                assert(rest[i] == attrs[i]);
            }
        }
    }
}

/// NVMe warning evidence records exactly the conditions that hold: spare
/// below its threshold, and wear at or above 100%.
pub proof fn lemma_nvme_warnings_exact(s: NvmeSmartSnapshot)
    ensures
        nvme_warnings(s).contains(
            HealthEvidence::NvmeSpare {
                available_percent: s.available_spare_percent,
                threshold_percent: s.available_spare_threshold_percent,
            },
        ) <==> s.available_spare_percent < s.available_spare_threshold_percent,
        nvme_warnings(s).contains(HealthEvidence::NvmePercentageUsed { percent: s.percentage_used })
            <==> s.percentage_used >= 100,
        s.critical_warning == 0 ==> (nvme_verdict(s) is Warning <==> (s.available_spare_percent
            < s.available_spare_threshold_percent || s.percentage_used >= 100)),
{
    let spare = HealthEvidence::NvmeSpare {
        available_percent: s.available_spare_percent,
        threshold_percent: s.available_spare_threshold_percent,
    };
    let used = HealthEvidence::NvmePercentageUsed { percent: s.percentage_used };
    let w = nvme_warnings(s);
    if s.available_spare_percent < s.available_spare_threshold_percent {
        assert(w[0] == spare);
    }
    if s.percentage_used >= 100 {
        assert(w[w.len() - 1] == used);
    }
    if w.contains(spare) {
        let k = choose|k: int| 0 <= k < w.len() && w[k] == spare;
    }
    if w.contains(used) {
        let k = choose|k: int| 0 <= k < w.len() && w[k] == used;
    }
}

/// A read that is unavailable or failed always leaves the health unknown,
/// for that reason; only an available read is evaluated.
pub proof fn lemma_unread_health_unknown(smart: SmartState)
    ensures
        smart is Unavailable ==> read_verdict(smart) == HealthVerdict::Unknown(
            HealthUnknownReason::SmartUnavailable,
        ),
        smart is Failed ==> read_verdict(smart) == HealthVerdict::Unknown(
            HealthUnknownReason::SmartReadFailed,
        ),
        read_verdict(smart) matches HealthVerdict::Unknown(r) && r == HealthUnknownReason::InsufficientEvidence
            ==> smart is Available,
{
}

} // verus!

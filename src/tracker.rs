//! The aircraft register and the tracker that keeps it: per-aircraft
//! accumulation of identification, CPR-paired positions and velocities,
//! pruning of silent aircraft, and hand-off to the output sinks.
use vstd::prelude::*;

use crate::adsb::AdsbIcao;
use crate::packet::{
    cpr_position, global_position, velocity_of, velocity_report, AdsbIdentification, AdsbMessage,
    AdsbPosition, AdsbVelocity, AircraftVelocity, CprFormat, DecoderMetaData,
};
use crate::output_module::OutputModuleManager;
use crate::rate_limited_manager::{keyed, pending_sum, released_all, RateLimitedStateManager};
use crate::rate_limiter::{RateLimitConfig, RateLimitResult, RateLimitStats, UpdateType};
use crate::time::{elapsed, elapsed_between, now_millis, Duration};

verus! {

/// Two CPR half-frames pair only while both are younger than this, in
/// milliseconds.
pub const ADSB_TIME_RECENT_MS: u64 = 10_000;

/// A CPR half-frame with the instant it arrived.
#[derive(Clone, Copy, Debug, PartialEq, Eq, Structural)]
pub struct CprFrameRecord {
    pub cpr_frame: AdsbPosition,
    pub time: u64,
}

/// A decoded position.
#[derive(Clone, Copy, Debug, PartialEq, Eq, Structural)]
pub struct AircraftPosition {
    /// Bit pattern of the latitude in degrees (an `f64`).
    pub latitude_bits: u64,
    /// Bit pattern of the longitude in degrees (an `f64`).
    pub longitude_bits: u64,
    pub altitude: Option<u16>,
    pub type_code: u8,
}

#[derive(Clone, Copy, Debug, PartialEq, Eq, Structural)]
pub struct AircraftPositionRecord {
    pub position: AircraftPosition,
    pub time: u64,
}

#[derive(Clone, Copy, Debug, PartialEq, Eq, Structural)]
pub struct AircraftVelocityRecord {
    pub velocity: AircraftVelocity,
    pub time: u64,
}

/// Everything known of one aircraft.
#[derive(Debug)]
pub struct AircraftRecord {
    pub icao: AdsbIcao,
    pub callsign: Option<String>,
    pub emitter_category: Option<u8>,
    pub positions: Vec<AircraftPositionRecord>,
    pub velocities: Vec<AircraftVelocityRecord>,
    pub last_cpr_even: Option<CprFrameRecord>,
    pub last_cpr_odd: Option<CprFrameRecord>,
    /// Instant of the latest message, in milliseconds.
    pub last_seen: u64,
}

/// An aircraft record as a value.
pub struct AircraftRecordView {
    pub icao: Seq<u8>,
    pub callsign: Option<Seq<char>>,
    pub emitter_category: Option<u8>,
    pub positions: Seq<AircraftPositionRecord>,
    pub velocities: Seq<AircraftVelocityRecord>,
    pub last_cpr_even: Option<CprFrameRecord>,
    pub last_cpr_odd: Option<CprFrameRecord>,
    pub last_seen: u64,
}

impl View for AircraftRecord {
    type V = AircraftRecordView;

    open spec fn view(&self) -> AircraftRecordView {
        AircraftRecordView {
            icao: self.icao.0@,
            callsign: match self.callsign {
                Some(c) => Some(c@),
                None => None,
            },
            emitter_category: self.emitter_category,
            positions: self.positions@,
            velocities: self.velocities@,
            last_cpr_even: self.last_cpr_even,
            last_cpr_odd: self.last_cpr_odd,
            last_seen: self.last_seen,
        }
    }
}

/// Whether a half-frame that arrived at `t` is still recent at `now`.
pub open spec fn recent(t: u64, now: u64) -> bool {
    t <= now && now - t < ADSB_TIME_RECENT_MS
}

/// The half-frames to decode at `now`, older first and odd first when both
/// arrived at one instant; none unless both are there and recent.
pub open spec fn cpr_pair(
    even: Option<CprFrameRecord>,
    odd: Option<CprFrameRecord>,
    now: u64,
) -> Option<(AdsbPosition, AdsbPosition)> {
    match (even, odd) {
        (Some(e), Some(o)) => if recent(e.time, now) && recent(o.time, now) {
            if e.time < o.time {
                Some((e.cpr_frame, o.cpr_frame))
            } else {
                Some((o.cpr_frame, e.cpr_frame))
            }
        } else {
            None
        },
        _ => None,
    }
}

/// The position that the global CPR decode gives for a pair, older first.
pub open spec fn decoded(older: AdsbPosition, newer: AdsbPosition) -> Option<(u64, u64)> {
    if older.odd_flag != newer.odd_flag {
        Some(
            cpr_position(
                older.odd_flag == CprFormat::Odd,
                older.lat_cpr,
                older.lon_cpr,
                newer.odd_flag == CprFormat::Odd,
                newer.lat_cpr,
                newer.lon_cpr,
            ),
        )
    } else {
        None
    }
}

pub open spec fn latest(a: u64, b: u64) -> u64 {
    if a >= b {
        a
    } else {
        b
    }
}

impl AircraftRecordView {
    /// The record created on the first message from `icao`, at `now`.
    pub open spec fn fresh(icao: Seq<u8>, now: u64) -> AircraftRecordView {
        AircraftRecordView {
            icao,
            callsign: None,
            emitter_category: None,
            positions: seq![],
            velocities: seq![],
            last_cpr_even: None,
            last_cpr_odd: None,
            last_seen: now,
        }
    }

    /// Every stored half-frame sits in the slot of its format and is no
    /// younger than the latest message.
    pub open spec fn wf(self) -> bool {
        &&& (self.last_cpr_even matches Some(e) ==> e.time <= self.last_seen && e.cpr_frame.odd_flag
            == CprFormat::Even)
        &&& (self.last_cpr_odd matches Some(o) ==> o.time <= self.last_seen && o.cpr_frame.odd_flag
            == CprFormat::Odd)
    }

    pub open spec fn after_identification(self, ca: u8, cn: Seq<char>, now: u64) -> AircraftRecordView {
        AircraftRecordView {
            callsign: Some(cn),
            emitter_category: Some(ca),
            last_seen: latest(self.last_seen, now),
            ..self
        }
    }

    /// The record with the half-frame `pos` stored at `now`.
    pub open spec fn with_half(self, pos: AdsbPosition, now: u64) -> AircraftRecordView {
        let rec = CprFrameRecord { cpr_frame: pos, time: now };
        if pos.odd_flag == CprFormat::Even {
            AircraftRecordView { last_cpr_even: Some(rec), ..self }
        } else {
            AircraftRecordView { last_cpr_odd: Some(rec), ..self }
        }
    }

    /// The record after the position message `pos` at `now`: the half-frame
    /// stored, and a position appended when the stored pair decodes.
    pub open spec fn after_position(self, pos: AdsbPosition, now: u64) -> AircraftRecordView {
        let h = self.with_half(pos, now);
        let positions = match cpr_pair(h.last_cpr_even, h.last_cpr_odd, now) {
            Some(pair) => match decoded(pair.0, pair.1) {
                Some(ll) => self.positions.push(
                    AircraftPositionRecord {
                        position: AircraftPosition {
                            latitude_bits: ll.0,
                            longitude_bits: ll.1,
                            altitude: pos.altitude,
                            type_code: pos.type_code,
                        },
                        time: now,
                    },
                ),
                None => self.positions,
            },
            None => self.positions,
        };
        AircraftRecordView { positions, last_seen: latest(self.last_seen, now), ..h }
    }

    /// The record after a velocity message at `now` that gave `v`.
    pub open spec fn after_velocity(self, v: Option<AircraftVelocity>, now: u64) -> AircraftRecordView {
        AircraftRecordView {
            velocities: match v {
                Some(vel) => self.velocities.push(AircraftVelocityRecord { velocity: vel, time: now }),
                None => self.velocities,
            },
            last_seen: latest(self.last_seen, now),
            ..self
        }
    }
}

/// The records of `recs` that remain after pruning at `now`: those heard
/// from within `prune_after`.
pub open spec fn unpruned(recs: Seq<AircraftRecordView>, prune_after: u64, now: u64) -> Seq<AircraftRecordView>
    decreases recs.len(),
{
    if recs.len() == 0 {
        seq![]
    } else {
        let rest = unpruned(recs.drop_last(), prune_after, now);
        if elapsed(recs.last().last_seen, now) <= prune_after {
            rest.push(recs.last())
        } else {
            rest
        }
    }
}

/// Every record that survives pruning at `now` was heard from within
/// `prune_after`.
pub proof fn lemma_unpruned_recent(recs: Seq<AircraftRecordView>, prune_after: u64, now: u64)
    ensures
        forall|i: int| 0 <= i < unpruned(recs, prune_after, now).len()
            ==> elapsed(#[trigger] unpruned(recs, prune_after, now)[i].last_seen, now) <= prune_after,
    decreases recs.len(),
{
    if recs.len() > 0 {
        lemma_unpruned_recent(recs.drop_last(), prune_after, now);
    }
}

/// The views of `s`.
pub open spec fn record_views(s: Seq<AircraftRecord>) -> Seq<AircraftRecordView> {
    s.map_values(|r: AircraftRecord| r@)
}

/// Whether `recs` holds a record of `icao`.
pub open spec fn has_record(recs: Seq<AircraftRecordView>, icao: Seq<u8>) -> bool {
    exists|i: int| 0 <= i < recs.len() && #[trigger] recs[i].icao == icao
}

/// `recs` after a message from `icao` at `now` changed its record by
/// `change`, creating it first when missing.
pub open spec fn changed_in(
    recs: Seq<AircraftRecordView>,
    icao: Seq<u8>,
    now: u64,
    change: spec_fn(AircraftRecordView) -> AircraftRecordView,
) -> Seq<AircraftRecordView> {
    if has_record(recs, icao) {
        let i = choose|i: int| 0 <= i < recs.len() && #[trigger] recs[i].icao == icao;
        recs.update(i, change(recs[i]))
    } else {
        recs.push(change(AircraftRecordView::fresh(icao, now)))
    }
}

/// `recs` after an identification from `icao` at `now`.
pub open spec fn identified(recs: Seq<AircraftRecordView>, icao: Seq<u8>, ca: u8, cn: Seq<char>, now: u64) -> Seq<AircraftRecordView> {
    changed_in(recs, icao, now, |r: AircraftRecordView| r.after_identification(ca, cn, now))
}

/// `recs` after a position half-frame from `icao` at `now`.
pub open spec fn positioned(recs: Seq<AircraftRecordView>, icao: Seq<u8>, pos: AdsbPosition, now: u64) -> Seq<AircraftRecordView> {
    changed_in(recs, icao, now, |r: AircraftRecordView| r.after_position(pos, now))
}

/// `recs` after a velocity message from `icao` at `now` that gave `v`.
pub open spec fn velocity_applied(
    recs: Seq<AircraftRecordView>,
    icao: Seq<u8>,
    v: Option<AircraftVelocity>,
    now: u64,
) -> Seq<AircraftRecordView> {
    changed_in(recs, icao, now, |r: AircraftRecordView| r.after_velocity(v, now))
}

/// `recs` after the update `data` from `icao` is applied at `now`, as the
/// handler of its kind applies it.
pub open spec fn apply_update(recs: Seq<AircraftRecordView>, icao: Seq<u8>, data: TrackerUpdateData, now: u64) -> Seq<AircraftRecordView> {
    match data {
        TrackerUpdateData::Identification(id) => identified(recs, icao, id.ca, id.cn@, now),
        TrackerUpdateData::Position(p, _) => positioned(recs, icao, p, now),
        TrackerUpdateData::Velocity(v) => velocity_applied(recs, icao, velocity_of(v), now),
    }
}

/// `recs` after the updates `us` are applied at `now`, in order.
pub open spec fn apply_updates(
    recs: Seq<AircraftRecordView>,
    us: Seq<(Seq<u8>, UpdateType, TrackerUpdateData)>,
    now: u64,
) -> Seq<AircraftRecordView>
    decreases us.len(),
{
    if us.len() == 0 {
        recs
    } else {
        apply_update(apply_updates(recs, us.drop_last(), now), us.last().0, us.last().2, now)
    }
}

/// The update that a message carries, with its kind; none for the other
/// variants.
pub open spec fn message_update(message: AdsbMessage, metadata: DecoderMetaData) -> Option<(UpdateType, TrackerUpdateData)> {
    match message {
        AdsbMessage::AircraftIdentification(id) => Some((UpdateType::Identification, TrackerUpdateData::Identification(id))),
        AdsbMessage::AirbornePosition(p) => Some((UpdateType::Position, TrackerUpdateData::Position(p, metadata))),
        AdsbMessage::AirborneVelocity(v) => Some((UpdateType::Velocity, TrackerUpdateData::Velocity(v))),
        AdsbMessage::Other => None,
    }
}

/// The register of aircraft, one record per address.
pub struct AircraftRegister {
    register: Vec<AircraftRecord>,
}

impl AircraftRegister {
    /// The records, in order of first observation.
    pub closed spec fn records(&self) -> Seq<AircraftRecordView> {
        record_views(self.register@)
    }

    /// No two records share an address, and each record is well formed.
    pub open spec fn wf(&self) -> bool {
        &&& forall|i: int, j: int|
            0 <= i < j < self.records().len() ==> #[trigger] self.records()[i].icao
                != #[trigger] self.records()[j].icao
        &&& forall|i: int| 0 <= i < self.records().len() ==> (#[trigger] self.records()[i]).wf()
    }

    /// Whether `icao` has a record.
    pub open spec fn has(&self, icao: Seq<u8>) -> bool {
        has_record(self.records(), icao)
    }

    /// The records after a message from `icao` at `now` changed its record
    /// by `change`, creating it first when missing.
    pub open spec fn changed(
        &self,
        icao: Seq<u8>,
        now: u64,
        change: spec_fn(AircraftRecordView) -> AircraftRecordView,
    ) -> Seq<AircraftRecordView> {
        changed_in(self.records(), icao, now, change)
    }

    /// The records after an identification from `icao` at `now`.
    pub open spec fn with_identification(&self, icao: Seq<u8>, ca: u8, cn: Seq<char>, now: u64) -> Seq<AircraftRecordView> {
        identified(self.records(), icao, ca, cn, now)
    }

    /// The records after a position half-frame from `icao` at `now`.
    pub open spec fn with_position(&self, icao: Seq<u8>, pos: AdsbPosition, now: u64) -> Seq<AircraftRecordView> {
        positioned(self.records(), icao, pos, now)
    }

    /// The records after a velocity message from `icao` at `now` that gave
    /// `v`.
    pub open spec fn with_velocity(&self, icao: Seq<u8>, v: Option<AircraftVelocity>, now: u64) -> Seq<AircraftRecordView> {
        velocity_applied(self.records(), icao, v, now)
    }

    pub fn new() -> (r: AircraftRegister)
        ensures
            r.wf(),
            r.records().len() == 0,
    {
        let r = AircraftRegister { register: Vec::new() };
        assert(r.records() =~= seq![]);
        r
    }

    pub fn len(&self) -> (r: usize)
        ensures
            r == self.records().len(),
    {
        self.register.len()
    }

    /// The record at `i`.
    pub fn record_at(&self, i: usize) -> (r: &AircraftRecord)
        requires
            i < self.records().len(),
        ensures
            r@ == self.records()[i as int],
    {
        &self.register[i]
    }

    fn find(&self, icao: &AdsbIcao) -> (r: Option<usize>)
        ensures
            match r {
                Some(i) => i < self.records().len() && self.records()[i as int].icao == icao.0@,
                None => !self.has(icao.0@),
            },
    {
        let mut i: usize = 0;
        while i < self.register.len()
            invariant
                i <= self.register@.len(),
                forall|j: int| 0 <= j < i ==> #[trigger] self.records()[j].icao != icao.0@,
            decreases self.register@.len() - i,
        {
            let r = &self.register[i];
            if r.icao.0[0] == icao.0[0] && r.icao.0[1] == icao.0[1] && r.icao.0[2] == icao.0[2] {
                assert(r.icao.0@ =~= icao.0@);
                return Some(i);
            }
            proof {
                assert(self.records()[i as int].icao == r.icao.0@);
                if r.icao.0[0] != icao.0[0] {
                    assert(r.icao.0@[0] != icao.0@[0]);
                } else if r.icao.0[1] != icao.0[1] {
                    assert(r.icao.0@[1] != icao.0@[1]);
                } else {
                    assert(r.icao.0@[2] != icao.0@[2]);
                }
            }
            i = i + 1;
        }
        None
    }

    /// The record of `icao`, if any.
    pub fn get(&self, icao: &AdsbIcao) -> (r: Option<&AircraftRecord>)
        requires
            self.wf(),
        ensures
            self.has(icao.0@) == r.is_some(),
            r matches Some(rec) ==> exists|i: int| 0 <= i < self.records().len() && self.records()[i] == rec@
                && rec@.icao == icao.0@,
    {
        match self.find(icao) {
            Some(i) => Some(&self.register[i]),
            None => None,
        }
    }

    /// Position of the record of `icao`, created at `now` when missing.
    fn find_or_create(&mut self, icao: &AdsbIcao, now: u64) -> (r: usize)
        requires
            old(self).wf(),
        ensures
            final(self).wf(),
            r < final(self).records().len(),
            final(self).records()[r as int].icao == icao.0@,
            old(self).has(icao.0@) ==> {
                &&& final(self).records() == old(self).records()
                &&& old(self).records()[r as int].icao == icao.0@
            },
            !old(self).has(icao.0@) ==> {
                &&& final(self).records() == old(self).records().push(AircraftRecordView::fresh(icao.0@, now))
                &&& r == old(self).records().len()
            },
    {
        match self.find(icao) {
            Some(i) => i,
            None => {
                let rec = AircraftRecord {
                    icao: adsb_deku::ICAO([icao.0[0], icao.0[1], icao.0[2]]),
                    callsign: None,
                    emitter_category: None,
                    positions: Vec::new(),
                    velocities: Vec::new(),
                    last_cpr_even: None,
                    last_cpr_odd: None,
                    last_seen: now,
                };
                proof {
                    assert(rec.icao.0@ =~= icao.0@);
                    assert(rec.positions@ =~= seq![]);
                    assert(rec.velocities@ =~= seq![]);
                    assert(rec@ == AircraftRecordView::fresh(icao.0@, now));
                }
                self.register.push(rec);
                proof {
                    assert(self.records() =~= old(self).records().push(AircraftRecordView::fresh(icao.0@, now)));
                }
                self.register.len() - 1
            },
        }
    }

    proof fn lemma_changed_at(
        &self,
        i: int,
        icao: Seq<u8>,
        now: u64,
        change: spec_fn(AircraftRecordView) -> AircraftRecordView,
    )
        requires
            self.wf(),
            0 <= i < self.records().len(),
            self.records()[i].icao == icao,
        ensures
            self.changed(icao, now, change) == self.records().update(i, change(self.records()[i])),
    {
        let j = choose|j: int| 0 <= j < self.records().len() && #[trigger] self.records()[j].icao == icao;
        if j < i {
            assert(self.records()[j].icao != self.records()[i].icao);
        } else if j > i {
            assert(self.records()[i].icao != self.records()[j].icao);
        }
    }

    proof fn lemma_wf_after_update(old_recs: Seq<AircraftRecordView>, i: int, new_rec: AircraftRecordView)
        requires
            forall|a: int, b: int| 0 <= a < b < old_recs.len() ==> #[trigger] old_recs[a].icao != #[trigger] old_recs[b].icao,
            forall|a: int| 0 <= a < old_recs.len() ==> (#[trigger] old_recs[a]).wf(),
            0 <= i < old_recs.len(),
            new_rec.icao == old_recs[i].icao,
            new_rec.wf(),
        ensures
            forall|a: int, b: int| 0 <= a < b < old_recs.update(i, new_rec).len()
                ==> #[trigger] old_recs.update(i, new_rec)[a].icao != #[trigger] old_recs.update(i, new_rec)[b].icao,
            forall|a: int| 0 <= a < old_recs.update(i, new_rec).len() ==> (#[trigger] old_recs.update(i, new_rec)[a]).wf(),
    {
        let s = old_recs.update(i, new_rec);
        assert forall|a: int, b: int| 0 <= a < b < s.len() implies #[trigger] s[a].icao != #[trigger] s[b].icao by {
            assert(s[a].icao == old_recs[a].icao);
            assert(s[b].icao == old_recs[b].icao);
        }
    }

    /// Records an identification from `icao` at `now`: callsign and emitter
    /// category set, record created when missing.
    pub fn record_identification_at(&mut self, icao: &AdsbIcao, identification: &AdsbIdentification, now: u64)
        requires
            old(self).wf(),
        ensures
            final(self).wf(),
            final(self).records() == old(self).with_identification(icao.0@, identification.ca, identification.cn@, now),
    {
        let i = self.find_or_create(icao, now);
        let ghost mid = self.records();
        let ghost change = |r: AircraftRecordView| r.after_identification(identification.ca, identification.cn@, now);
        let rec = &mut self.register[i];
        rec.callsign = Some(identification.cn.clone());
        rec.emitter_category = Some(identification.ca);
        if now > rec.last_seen {
            rec.last_seen = now;
        }
        proof {
            assert(self.register@[i as int]@ == change(mid[i as int]));
            assert(self.records() =~= mid.update(i as int, change(mid[i as int])));
            Self::lemma_wf_after_update(mid, i as int, change(mid[i as int]));
            if old(self).has(icao.0@) {
                old(self).lemma_changed_at(i as int, icao.0@, now, change);
            }
            assert(old(self).changed(icao.0@, now, change) == self.records());
        }
    }

    /// Records a position half-frame from `icao` at `now`: stored in the
    /// slot of its format, and, when the even and the odd half-frame are
    /// both recent, the pair decoded and the position appended.
    pub fn record_position_at(&mut self, icao: &AdsbIcao, pos: &AdsbPosition, now: u64)
        requires
            old(self).wf(),
        ensures
            final(self).wf(),
            final(self).records() == old(self).with_position(icao.0@, *pos, now),
    {
        let i = self.find_or_create(icao, now);
        let ghost mid = self.records();
        let ghost change = |r: AircraftRecordView| r.after_position(*pos, now);
        let rec = &mut self.register[i];
        let half = CprFrameRecord { cpr_frame: *pos, time: now };
        match pos.odd_flag {
            CprFormat::Even => rec.last_cpr_even = Some(half),
            CprFormat::Odd => rec.last_cpr_odd = Some(half),
        }
        if let (Some(even), Some(odd)) = (rec.last_cpr_even, rec.last_cpr_odd) {
            let recent_even = even.time <= now && now - even.time < ADSB_TIME_RECENT_MS;
            let recent_odd = odd.time <= now && now - odd.time < ADSB_TIME_RECENT_MS;
            if recent_even && recent_odd {
                let (older, newer) = if even.time < odd.time {
                    (even, odd)
                } else {
                    (odd, even)
                };
                if let Some((lat, lon)) = global_position(&older.cpr_frame, &newer.cpr_frame) {
                    let position = AircraftPosition {
                        latitude_bits: lat,
                        longitude_bits: lon,
                        altitude: pos.altitude,
                        type_code: pos.type_code,
                    };
                    rec.positions.push(AircraftPositionRecord { position, time: now });
                }
            }
        }
        if now > rec.last_seen {
            rec.last_seen = now;
        }
        proof {
            assert(self.register@[i as int]@ =~= change(mid[i as int]));
            assert(self.records() =~= mid.update(i as int, change(mid[i as int])));
            Self::lemma_wf_after_update(mid, i as int, change(mid[i as int]));
            if old(self).has(icao.0@) {
                old(self).lemma_changed_at(i as int, icao.0@, now, change);
            }
            assert(old(self).changed(icao.0@, now, change) == self.records());
        }
    }

    /// Records what a velocity message from `icao` at `now` gave: `velocity`
    /// appended when there is one.
    pub fn record_velocity_at(&mut self, icao: &AdsbIcao, velocity: Option<AircraftVelocity>, now: u64)
        requires
            old(self).wf(),
        ensures
            final(self).wf(),
            final(self).records() == old(self).with_velocity(icao.0@, velocity, now),
    {
        let i = self.find_or_create(icao, now);
        let ghost mid = self.records();
        let ghost change = |r: AircraftRecordView| r.after_velocity(velocity, now);
        let rec = &mut self.register[i];
        if let Some(v) = velocity {
            rec.velocities.push(AircraftVelocityRecord { velocity: v, time: now });
        }
        if now > rec.last_seen {
            rec.last_seen = now;
        }
        proof {
            assert(self.register@[i as int]@ =~= change(mid[i as int]));
            assert(self.records() =~= mid.update(i as int, change(mid[i as int])));
            Self::lemma_wf_after_update(mid, i as int, change(mid[i as int]));
            if old(self).has(icao.0@) {
                old(self).lemma_changed_at(i as int, icao.0@, now, change);
            }
            assert(old(self).changed(icao.0@, now, change) == self.records());
        }
    }

    /// Removes, at `now`, every record not heard from within `prune_after`.
    pub fn prune_at(&mut self, prune_after: Duration, now: u64)
        requires
            old(self).wf(),
        ensures
            final(self).wf(),
            final(self).records() == unpruned(old(self).records(), prune_after.millis, now),
    {
        let mut rest: Vec<AircraftRecord> = Vec::new();
        std::mem::swap(&mut rest, &mut self.register);
        let ghost s0 = record_views(rest@);
        let ghost n: int = 0;
        while rest.len() > 0
            invariant
                0 <= n <= s0.len(),
                record_views(rest@) == s0.skip(n),
                self.records() == unpruned(s0.take(n), prune_after.millis, now),
                forall|a: int| 0 <= a < self.records().len() ==>
                    exists|j: int| 0 <= j < n && #[trigger] self.records()[a] == s0[j],
                forall|a: int, b: int| 0 <= a < b < self.records().len() ==>
                    #[trigger] self.records()[a].icao != #[trigger] self.records()[b].icao,
                forall|i: int, j: int| 0 <= i < j < s0.len() ==> #[trigger] s0[i].icao != #[trigger] s0[j].icao,
                forall|i: int| 0 <= i < s0.len() ==> (#[trigger] s0[i]).wf(),
                s0 == old(self).records(),
            decreases rest@.len(),
        {
            let ghost rest_before = rest@;
            let rec = rest.remove(0);
            proof {
                assert(record_views(rest_before)[0] == rec@);
                assert(record_views(rest_before).len() == rest_before.len());
                assert(s0.skip(n)[0] == s0[n]);
                assert(rec@ == s0[n]);
                assert(s0.take(n + 1).drop_last() =~= s0.take(n));
                assert(s0.take(n + 1).last() == s0[n]);
            }
            if elapsed_between(rec.last_seen, now) <= prune_after.millis {
                let ghost before = self.records();
                proof {
                    assert forall|a: int| 0 <= a < before.len() implies #[trigger] before[a].icao != s0[n].icao by {
                        let j = choose|j: int| 0 <= j < n && before[a] == s0[j];
                        assert(s0[j].icao != s0[n].icao);
                    }
                }
                self.register.push(rec);
                proof {
                    assert(self.records() =~= before.push(s0[n]));
                    assert forall|a: int| 0 <= a < self.records().len() implies
                        exists|j: int| 0 <= j < n + 1 && #[trigger] self.records()[a] == s0[j] by {
                        if a < before.len() {
                            let j = choose|j: int| 0 <= j < n && before[a] == s0[j];
                            assert(self.records()[a] == s0[j]);
                        } else {
                            assert(self.records()[a] == s0[n]);
                        }
                    }
                }
            }
            proof {
                n = n + 1;
                assert forall|k: int| 0 <= k < rest@.len() implies #[trigger] record_views(rest@)[k] == s0.skip(n)[k] by {
                    assert(rest@[k] == rest_before[k + 1]);
                    assert(record_views(rest_before)[k + 1] == rest_before[k + 1]@);
                }
                assert(record_views(rest@) =~= s0.skip(n));
            }
        }
        proof {
            assert(s0.take(n) =~= s0);
            assert forall|a: int| 0 <= a < self.records().len() implies (#[trigger] self.records()[a]).wf() by {
                let j = choose|j: int| 0 <= j < n && self.records()[a] == s0[j];
            }
        }
    }
}


/// A position is appended only after an even and an odd half-frame were
/// paired, both recent, so that they arrived less than the recent window
/// apart; and the position carries the instant of the message.
pub proof fn lemma_position_needs_close_pair(rec: AircraftRecordView, pos: AdsbPosition, now: u64)
    ensures
        rec.after_position(pos, now).positions.len() > rec.positions.len() ==> {
            let after = rec.after_position(pos, now);
            &&& after.last_cpr_even is Some
            &&& after.last_cpr_odd is Some
            &&& recent(after.last_cpr_even.unwrap().time, now)
            &&& recent(after.last_cpr_odd.unwrap().time, now)
            &&& -(ADSB_TIME_RECENT_MS as int) < after.last_cpr_even.unwrap().time - after.last_cpr_odd.unwrap().time
                < ADSB_TIME_RECENT_MS as int
            &&& after.positions.last().time == now
        },
{
}

/// Every stored half-frame is no younger than the record's latest message,
/// whatever message comes next.
pub proof fn lemma_half_frames_not_after_last_seen(rec: AircraftRecordView, pos: AdsbPosition, ca: u8, cn: Seq<char>, v: Option<AircraftVelocity>, now: u64)
    requires
        rec.wf(),
    ensures
        rec.after_position(pos, now).wf(),
        rec.after_identification(ca, cn, now).wf(),
        rec.after_velocity(v, now).wf(),
        AircraftRecordView::fresh(rec.icao, now).wf(),
{
}

/// An update that waited in the rate limiter.
#[derive(Debug)]
pub enum TrackerUpdateData {
    Identification(AdsbIdentification),
    Position(AdsbPosition, DecoderMetaData),
    Velocity(AdsbVelocity),
}

/// What a control query asks for.
#[derive(Debug, PartialEq, Eq)]
pub enum ControlQuery {
    /// The whole register (an empty query, or `aircraft`).
    Register,
    /// The rate limiting counters (`stats`).
    Stats,
    /// Anything else; holds the error reply.
    Unknown(String),
}

impl ControlQuery {
    /// Reads a control query: none or `aircraft` asks for the register,
    /// `stats` for the rate limiting counters, and anything else gets the
    /// reply `{"error": "Unknown command: <query>"}`.
    pub fn parse(query: Option<&str>) -> (r: ControlQuery)
        ensures
            query is None ==> r == ControlQuery::Register,
            query matches Some(q) ==> {
                &&& q@ == "aircraft"@ ==> r == ControlQuery::Register
                &&& q@ == "stats"@ ==> r == ControlQuery::Stats
                &&& q@ != "aircraft"@ && q@ != "stats"@ ==> (r matches ControlQuery::Unknown(reply)
                    && reply@ == "{\"error\": \"Unknown command: "@ + q@ + "\"}"@)
            },
    {
        match query {
            None => ControlQuery::Register,
            Some(q) => {
                let q_owned = String::from_str(q);
                let aircraft = String::from_str("aircraft");
                let stats = String::from_str("stats");
                proof {
                    reveal_strlit("aircraft");
                    reveal_strlit("stats");
                    assert("stats"@.len() == 5);
                    assert("aircraft"@.len() == 8);
                }
                if q_owned.eq(&aircraft) {
                    ControlQuery::Register
                } else if q_owned.eq(&stats) {
                    ControlQuery::Stats
                } else {
                    let reply = String::from_str("{\"error\": \"Unknown command: ").concat(q).concat("\"}");
                    ControlQuery::Unknown(reply)
                }
            },
        }
    }
}

/// Owns the aircraft register and the rate limiter, and hands frames and
/// updated records to the output sinks.
pub struct Tracker {
    prune_after: Option<Duration>,
    aircraft_register: AircraftRegister,
    output_manager: OutputModuleManager,
    rate_limiter: Option<RateLimitedStateManager<AdsbIcao, TrackerUpdateData>>,
    last_stats_log: u64,
}

impl Tracker {
    pub closed spec fn register(&self) -> AircraftRegister {
        self.aircraft_register
    }

    pub closed spec fn pruning(&self) -> Option<Duration> {
        self.prune_after
    }

    /// The rate limiter, when rate limiting is on.
    pub closed spec fn limiter(&self) -> Option<RateLimitedStateManager<AdsbIcao, TrackerUpdateData>> {
        self.rate_limiter
    }

    pub open spec fn rate_limiting(&self) -> bool {
        self.limiter() is Some
    }

    /// When the rate limiting counters were last logged.
    pub closed spec fn stats_logged_at(&self) -> u64 {
        self.last_stats_log
    }

    pub closed spec fn outputs(&self) -> OutputModuleManager {
        self.output_manager
    }

    pub open spec fn wf(&self) -> bool {
        self.register().wf() && self.limiter_wf()
    }

    pub closed spec fn limiter_wf(&self) -> bool {
        self.rate_limiter matches Some(m) ==> m.wf()
    }

    /// How handling `message` from `icao` at `now` changes the register:
    /// applied as its handler applies it, unless the rate limiter holds it
    /// back, in which case nothing changes until it is released.
    pub open spec fn handled(
        before: Tracker,
        after: Tracker,
        icao: Seq<u8>,
        message: AdsbMessage,
        metadata: DecoderMetaData,
        now: u64,
    ) -> bool {
        &&& message is Other ==> after.register() == before.register()
        &&& message_update(message, metadata) matches Some(u) ==> {
                &&& before.limiter() is None ==> after.register().records() == apply_update(
                    before.register().records(),
                    icao,
                    u.1,
                    now,
                )
                &&& before.limiter() matches Some(l) ==> {
                    &&& l.admits(icao, u.0, now) ==> after.register().records() == apply_update(
                        before.register().records(),
                        icao,
                        u.1,
                        now,
                    )
                    &&& !l.admits(icao, u.0, now) ==> after.register() == before.register()
                }
            }
    }

    /// After a tick at `now`, with pruning on, every aircraft was heard from
    /// within the pruning time.
    pub open spec fn pruned_at(&self, now: u64) -> bool {
        self.pruning() matches Some(d) ==> forall|i: int|
            0 <= i < self.register().records().len() ==> elapsed(
                #[trigger] self.register().records()[i].last_seen,
                now,
            ) <= d.millis
    }

    /// A tracker with the given sinks, pruning after `prune_after` when set,
    /// and rate limiting by `rate_config` when set; the rate limiter then
    /// evicts aircraft after `prune_after`, or after 300 s without pruning.
    pub fn new_with_modules_and_rate_limiting(
        prune_after: Option<Duration>,
        output_manager: OutputModuleManager,
        rate_config: Option<RateLimitConfig>,
    ) -> (r: Tracker)
        ensures
            r.wf(),
            r.register().records().len() == 0,
            r.pruning() == prune_after,
            r.rate_limiting() == rate_config.is_some(),
            r.outputs() == output_manager,
    {
        let rate_limiter = match rate_config {
            Some(config) => {
                let timeout = match prune_after {
                    Some(after) => after,
                    None => Duration::from_secs(300),
                };
                Some(RateLimitedStateManager::with_config(config).with_eviction_timeout(timeout))
            },
            None => None,
        };
        Tracker {
            prune_after,
            aircraft_register: AircraftRegister::new(),
            output_manager,
            rate_limiter,
            last_stats_log: now_millis(),
        }
    }

    pub fn new_with_modules(prune_after: Option<Duration>, output_manager: OutputModuleManager) -> (r: Tracker)
        ensures
            r.wf(),
            r.register().records().len() == 0,
            r.pruning() == prune_after,
            !r.rate_limiting(),
            r.outputs() == output_manager,
    {
        Tracker::new_with_modules_and_rate_limiting(prune_after, output_manager, None)
    }

    /// A tracker without sinks, pruning or rate limiting.
    pub fn new() -> (r: Tracker)
        ensures
            r.wf(),
            r.register().records().len() == 0,
            r.pruning() is None,
            !r.rate_limiting(),
    {
        Tracker::new_with_modules(None, OutputModuleManager::new())
    }

    pub fn with_pruning(after: Duration) -> (r: Tracker)
        ensures
            r.wf(),
            r.register().records().len() == 0,
            r.pruning() == Some(after),
            !r.rate_limiting(),
    {
        Tracker::new_with_modules(Some(after), OutputModuleManager::new())
    }

    pub fn with_rate_limiting(rate_config: RateLimitConfig) -> (r: Tracker)
        ensures
            r.wf(),
            r.register().records().len() == 0,
            r.pruning() is None,
            r.rate_limiting(),
    {
        Tracker::new_with_modules_and_rate_limiting(None, OutputModuleManager::new(), Some(rate_config))
    }

    pub fn with_pruning_and_rate_limiting(prune_after: Duration, rate_config: RateLimitConfig) -> (r: Tracker)
        ensures
            r.wf(),
            r.register().records().len() == 0,
            r.pruning() == Some(prune_after),
            r.rate_limiting(),
    {
        Tracker::new_with_modules_and_rate_limiting(Some(prune_after), OutputModuleManager::new(), Some(rate_config))
    }

    /// The register, for queries and serialisation.
    pub fn aircraft_register(&self) -> (r: &AircraftRegister)
        ensures
            *r == self.register(),
    {
        &self.aircraft_register
    }

    /// Applies an update to the register at `now`, then hands the updated
    /// record to every state sink.
    fn apply_update_at(&mut self, icao: &AdsbIcao, data: TrackerUpdateData, now: u64)
        requires
            old(self).wf(),
        ensures
            final(self).wf(),
            final(self).register().records() == apply_update(old(self).register().records(), icao.0@, data, now),
            final(self).pruning() == old(self).pruning(),
            final(self).limiter() == old(self).limiter(),
            final(self).outputs() == old(self).outputs(),
    {
        match data {
            TrackerUpdateData::Identification(identification) => {
                self.aircraft_register.record_identification_at(icao, &identification, now);
            },
            TrackerUpdateData::Position(position, _meta) => {
                self.aircraft_register.record_position_at(icao, &position, now);
            },
            TrackerUpdateData::Velocity(velocity) => {
                let v = velocity_report(&velocity);
                self.aircraft_register.record_velocity_at(icao, v, now);
            },
        }
        if let Some(record) = self.aircraft_register.get(icao) {
            let _handed = self.output_manager.broadcast_state(icao, record);
        }
    }

    /// Handles one decoded ADS-B message from `icao` at `now`: its frame
    /// bytes go to every raw sink first, whatever follows; then the update
    /// goes through the rate limiter when there is one, and is applied when
    /// admitted. Returns how many legacy and raw sinks were handed the frame.
    pub fn packet_received_at(
        &mut self,
        icao: &AdsbIcao,
        message: AdsbMessage,
        raw_bytes: &[u8],
        metadata: &DecoderMetaData,
        now: u64,
    ) -> (r: (usize, usize))
        requires
            old(self).wf(),
        ensures
            final(self).wf(),
            r.0 == old(self).outputs().legacy_count(),
            r.1 == old(self).outputs().raw_count(),
            final(self).pruning() == old(self).pruning(),
            final(self).rate_limiting() == old(self).rate_limiting(),
            final(self).outputs() == old(self).outputs(),
            final(self).limiter() is Some == old(self).limiter() is Some,
            Tracker::handled(*old(self), *final(self), icao.0@, message, *metadata, now),
    {
        let handed = self.output_manager.broadcast_to_all(raw_bytes, metadata);
        let (kind, data) = match message {
            AdsbMessage::AircraftIdentification(identification) => {
                (UpdateType::Identification, TrackerUpdateData::Identification(identification))
            },
            AdsbMessage::AirbornePosition(position) => {
                (UpdateType::Position, TrackerUpdateData::Position(position, *metadata))
            },
            AdsbMessage::AirborneVelocity(velocity) => {
                (UpdateType::Velocity, TrackerUpdateData::Velocity(velocity))
            },
            AdsbMessage::Other => {
                return handed;
            },
        };
        let admitted = match &mut self.rate_limiter {
            Some(limiter) => {
                let key = adsb_deku::ICAO([icao.0[0], icao.0[1], icao.0[2]]);
                assert(key.0@ =~= icao.0@);
                let ghost before = *limiter;
                let verdict = limiter.process_update_at(key, kind, data, now);
                proof {
                    if before.tracks(icao.0@) {
                        let i = choose|i: int| #[trigger] before.at(i, icao.0@) && {
                            &&& verdict == before.limiters()[i].submit_result(kind, data, before.config(), now)
                            &&& limiter.limiters() == before.limiters().update(
                                i,
                                before.limiters()[i].after_submit(kind, data, before.config(), now),
                            )
                        };
                    }
                }
                match verdict {
                    RateLimitResult::Allowed(d) => Some(d),
                    RateLimitResult::RateLimited => None,
                }
            },
            None => Some(data),
        };
        if let Some(d) = admitted {
            self.apply_update_at(icao, d, now);
        }
        handed
    }

    /// As `packet_received_at`, at the instant the clock reads.
    pub fn packet_received(
        &mut self,
        icao: &AdsbIcao,
        message: AdsbMessage,
        raw_bytes: &[u8],
        metadata: &DecoderMetaData,
    ) -> (r: (usize, usize))
        requires
            old(self).wf(),
        ensures
            final(self).wf(),
            r.0 == old(self).outputs().legacy_count(),
            r.1 == old(self).outputs().raw_count(),
            exists|now: u64| #[trigger] Tracker::handled(*old(self), *final(self), icao.0@, message, *metadata, now),
    {
        self.packet_received_at(icao, message, raw_bytes, metadata, now_millis())
    }

    fn release_at(&mut self, now: u64, force: bool)
        requires
            old(self).wf(),
        ensures
            final(self).wf(),
            final(self).pruning() == old(self).pruning(),
            final(self).outputs() == old(self).outputs(),
            final(self).limiter() is Some == old(self).limiter() is Some,
            old(self).limiter() is None ==> final(self).register() == old(self).register(),
            old(self).limiter() matches Some(l) ==> {
                &&& final(self).register().records() == apply_updates(
                    old(self).register().records(),
                    released_all(l.limiters(), now, force),
                    now,
                )
                &&& final(self).limiter().unwrap().limiters().len() == l.limiters().len()
                &&& forall|i: int| 0 <= i < l.limiters().len() ==>
                    #[trigger] final(self).limiter().unwrap().limiters()[i] == l.limiters()[i].after_release(now, force)
            },
    {
        let mut limiter = match self.rate_limiter.take() {
            Some(l) => l,
            None => {
                return;
            },
        };
        let mut ready = limiter.release_all(now, force);
        let ghost l1 = limiter;
        self.rate_limiter = Some(limiter);
        let ghost recs0 = self.register().records();
        let ghost us = keyed(ready@);
        let ghost n: int = 0;
        while ready.len() > 0
            invariant
                self.wf(),
                self.pruning() == old(self).pruning(),
                self.outputs() == old(self).outputs(),
                self.limiter() == Some(l1),
                0 <= n <= us.len(),
                keyed(ready@) == us.skip(n),
                self.register().records() == apply_updates(recs0, us.take(n), now),
            decreases ready@.len(),
        {
            let ghost before = ready@;
            let (icao, kind, data) = ready.remove(0);
            proof {
                assert(keyed(before).len() == before.len());
                assert(us.skip(n).len() > 0);
                assert(keyed(before)[0] == (icao.0@, kind, data));
                assert(us[n] == us.skip(n)[0]);
            }
            self.apply_update_at(&icao, data, now);
            proof {
                assert(us.take(n + 1).drop_last() =~= us.take(n));
                assert(us.take(n + 1).last() == us[n]);
                n = n + 1;
                assert forall|k: int| 0 <= k < ready@.len() implies #[trigger] keyed(ready@)[k] == us.skip(n)[k] by {
                    assert(ready@[k] == before[k + 1]);
                    assert(keyed(before)[k + 1] == us.skip(n - 1)[k + 1]);
                }
                assert(keyed(ready@) =~= us.skip(n));
            }
        }
        proof {
            assert(us.take(n) =~= us);
        }
    }

    /// Applies, at `now`, every update that the rate limiter releases, in
    /// the order it releases them, each as the handler of its kind does.
    pub fn process_pending_updates_at(&mut self, now: u64)
        requires
            old(self).wf(),
        ensures
            final(self).wf(),
            final(self).pruning() == old(self).pruning(),
            final(self).outputs() == old(self).outputs(),
            final(self).limiter() is Some == old(self).limiter() is Some,
            old(self).limiter() is None ==> final(self).register() == old(self).register(),
            old(self).limiter() matches Some(l) ==> {
                &&& final(self).register().records() == apply_updates(
                    old(self).register().records(),
                    released_all(l.limiters(), now, false),
                    now,
                )
                &&& final(self).limiter().unwrap().limiters().len() == l.limiters().len()
                &&& forall|i: int| 0 <= i < l.limiters().len() ==>
                    #[trigger] final(self).limiter().unwrap().limiters()[i] == l.limiters()[i].after_release(now, false)
            },
    {
        self.release_at(now, false);
    }

    /// Removes, at `now`, the aircraft not heard from within the pruning
    /// time, when pruning is configured.
    pub fn prune_records_at(&mut self, now: u64)
        requires
            old(self).wf(),
        ensures
            final(self).wf(),
            old(self).pruning() matches Some(d) ==> final(self).register().records() == unpruned(
                old(self).register().records(),
                d.millis,
                now,
            ),
            old(self).pruning() matches Some(d) ==> forall|i: int|
                0 <= i < final(self).register().records().len() ==> elapsed(
                    #[trigger] final(self).register().records()[i].last_seen,
                    now,
                ) <= d.millis,
            old(self).pruning() is None ==> final(self).register() == old(self).register(),
            final(self).pruning() == old(self).pruning(),
            final(self).rate_limiting() == old(self).rate_limiting(),
            final(self).outputs() == old(self).outputs(),
    {
        if let Some(after) = self.prune_after {
            self.aircraft_register.prune_at(after, now);
            proof {
                lemma_unpruned_recent(old(self).register().records(), after.millis, now);
            }
        }
    }

    /// The periodic tick at `now`: releases due updates, prunes silent
    /// aircraft, and lets the rate limiter evict idle ones.
    pub fn tick_at(&mut self, now: u64)
        requires
            old(self).wf(),
        ensures
            final(self).wf(),
            final(self).pruned_at(now),
            old(self).pruning() matches Some(d) ==> forall|i: int|
                0 <= i < final(self).register().records().len() ==> elapsed(
                    #[trigger] final(self).register().records()[i].last_seen,
                    now,
                ) <= d.millis,
            !old(self).rate_limiting() && old(self).pruning() is Some ==> final(self).register().records()
                == unpruned(old(self).register().records(), old(self).pruning().unwrap().millis, now),
            final(self).pruning() == old(self).pruning(),
            final(self).rate_limiting() == old(self).rate_limiting(),
            final(self).outputs() == old(self).outputs(),
    {
        self.process_pending_updates_at(now);
        self.prune_records_at(now);
        if let Some(limiter) = &mut self.rate_limiter {
            limiter.cleanup_at(now);
        }
    }

    /// As `tick_at`, at the instant the clock reads.
    pub fn tick(&mut self)
        requires
            old(self).wf(),
        ensures
            final(self).wf(),
            exists|now: u64| #[trigger] final(self).pruned_at(now),
    {
        self.tick_at(now_millis());
    }

    /// Applies every waiting update at `now`, due or not (for shutdown), in
    /// the order the rate limiter hands them out.
    pub fn flush_pending_updates_at(&mut self, now: u64)
        requires
            old(self).wf(),
        ensures
            final(self).wf(),
            final(self).pruning() == old(self).pruning(),
            final(self).limiter() is Some == old(self).limiter() is Some,
            old(self).limiter() is None ==> final(self).register() == old(self).register(),
            old(self).limiter() matches Some(l) ==> {
                &&& final(self).register().records() == apply_updates(
                    old(self).register().records(),
                    released_all(l.limiters(), now, true),
                    now,
                )
                &&& final(self).limiter().unwrap().limiters().len() == l.limiters().len()
                &&& forall|i: int| 0 <= i < l.limiters().len() ==>
                    #[trigger] final(self).limiter().unwrap().limiters()[i] == l.limiters()[i].after_release(now, true)
            },
    {
        self.release_at(now, true);
    }

    /// The rate limiting counters, when rate limiting is on.
    pub fn get_rate_limit_stats(&self) -> (r: Option<RateLimitStats>)
        ensures
            r.is_some() == self.rate_limiting(),
            r matches Some(s) ==> {
                let l = self.limiter().unwrap();
                &&& s.total_updates_received == l.counters().total_updates_received
                &&& s.updates_allowed_immediately == l.counters().updates_allowed_immediately
                &&& s.updates_rate_limited == l.counters().updates_rate_limited
                &&& s.updates_dropped_obsolete == l.counters().updates_dropped_obsolete
                &&& s.active_items == l.limiters().len()
                &&& s.total_pending_updates == if pending_sum(l.limiters()) <= usize::MAX {
                    pending_sum(l.limiters())
                } else {
                    usize::MAX as nat
                }
            },
    {
        match &self.rate_limiter {
            Some(limiter) => Some(limiter.get_stats()),
            None => None,
        }
    }

    /// Whether the rate limiting counters are due to be logged at `now`
    /// (every 30 s); restarts the interval when they are.
    pub fn stats_log_due_at(&mut self, now: u64) -> (r: bool)
        ensures
            r == (old(self).rate_limiting() && elapsed(old(self).stats_logged_at(), now) >= 30_000),
            r ==> final(self).stats_logged_at() == now,
            !r ==> final(self).stats_logged_at() == old(self).stats_logged_at(),
            final(self).register() == old(self).register(),
            final(self).pruning() == old(self).pruning(),
            final(self).rate_limiting() == old(self).rate_limiting(),
            final(self).limiter_wf() == old(self).limiter_wf(),
            final(self).outputs() == old(self).outputs(),
    {
        if self.rate_limiter.is_some() && elapsed_between(self.last_stats_log, now) >= 30_000 {
            self.last_stats_log = now;
            true
        } else {
            false
        }
    }
}

} // verus!

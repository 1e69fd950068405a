//! Per-item, per-kind debouncing: an update is admitted at once when its
//! kind's interval has passed since the last admitted one, and otherwise
//! waits in a single pending slot per kind, where a newer update replaces
//! an older one.
use vstd::prelude::*;

use crate::time::{elapsed, elapsed_between, now_millis, sat_add, Duration};

verus! {

/// The least time between two admitted updates of each kind; zero admits
/// every update.
#[derive(Clone, Copy, Debug, PartialEq, Eq, Structural)]
pub struct RateLimitConfig {
    pub position_interval: Duration,
    pub velocity_interval: Duration,
    pub identification_interval: Duration,
    pub metadata_interval: Duration,
}

impl Default for RateLimitConfig {
    fn default() -> (r: RateLimitConfig)
        ensures
            r.position_interval.millis == 500,
            r.velocity_interval.millis == 1000,
            r.identification_interval.millis == 0,
            r.metadata_interval.millis == 5000,
    {
        RateLimitConfig {
            position_interval: Duration::from_millis(500),
            velocity_interval: Duration::from_millis(1000),
            identification_interval: Duration::from_millis(0),
            metadata_interval: Duration::from_millis(5000),
        }
    }
}

/// The categories that are rate limited independently of each other.
#[derive(Clone, Copy, Debug, PartialEq, Eq, Structural, Hash)]
pub enum UpdateType {
    Position,
    Velocity,
    Identification,
    Metadata,
}

/// The interval, in milliseconds, that `config` sets for `kind`.
pub open spec fn interval_ms(config: RateLimitConfig, kind: UpdateType) -> u64 {
    match kind {
        UpdateType::Position => config.position_interval.millis,
        UpdateType::Velocity => config.velocity_interval.millis,
        UpdateType::Identification => config.identification_interval.millis,
        UpdateType::Metadata => config.metadata_interval.millis,
    }
}

impl UpdateType {
    pub fn get_interval(&self, config: &RateLimitConfig) -> (r: Duration)
        ensures
            r.millis == interval_ms(*config, *self),
    {
        match self {
            UpdateType::Position => config.position_interval,
            UpdateType::Velocity => config.velocity_interval,
            UpdateType::Identification => config.identification_interval,
            UpdateType::Metadata => config.metadata_interval,
        }
    }
}

/// When an update of each kind was last admitted.
#[derive(Clone, Copy, Debug)]
pub struct UpdateTracker {
    position: Option<u64>,
    velocity: Option<u64>,
    identification: Option<u64>,
    metadata: Option<u64>,
}

impl UpdateTracker {
    /// The instant at which an update of `kind` was last admitted, if any.
    pub closed spec fn last_update(&self, kind: UpdateType) -> Option<u64> {
        match kind {
            UpdateType::Position => self.position,
            UpdateType::Velocity => self.velocity,
            UpdateType::Identification => self.identification,
            UpdateType::Metadata => self.metadata,
        }
    }

    /// Whether an update of `kind` arriving at `now` is admitted at once.
    pub open spec fn allows(&self, kind: UpdateType, config: RateLimitConfig, now: u64) -> bool {
        interval_ms(config, kind) == 0 || match self.last_update(kind) {
            None => true,
            Some(t) => elapsed(t, now) >= interval_ms(config, kind),
        }
    }

    /// The earliest instant at which the next update of `kind` is admitted.
    pub open spec fn next_allowed(&self, kind: UpdateType, config: RateLimitConfig, now: u64) -> u64 {
        match self.last_update(kind) {
            None => now,
            Some(t) => sat_add(t, interval_ms(config, kind)),
        }
    }

    /// A tracker that has admitted nothing.
    pub closed spec fn empty() -> UpdateTracker {
        UpdateTracker { position: None, velocity: None, identification: None, metadata: None }
    }

    /// This tracker after admitting an update of `kind` at `now`.
    pub closed spec fn with_update(self, kind: UpdateType, now: u64) -> UpdateTracker {
        match kind {
            UpdateType::Position => UpdateTracker { position: Some(now), ..self },
            UpdateType::Velocity => UpdateTracker { velocity: Some(now), ..self },
            UpdateType::Identification => UpdateTracker { identification: Some(now), ..self },
            UpdateType::Metadata => UpdateTracker { metadata: Some(now), ..self },
        }
    }

    pub fn new() -> (r: UpdateTracker)
        ensures
            r == UpdateTracker::empty(),
            forall|k: UpdateType| r.last_update(k).is_none(),
    {
        UpdateTracker { position: None, velocity: None, identification: None, metadata: None }
    }

    fn last_of(&self, kind: UpdateType) -> (r: Option<u64>)
        ensures
            r == self.last_update(kind),
    {
        match kind {
            UpdateType::Position => self.position,
            UpdateType::Velocity => self.velocity,
            UpdateType::Identification => self.identification,
            UpdateType::Metadata => self.metadata,
        }
    }

    pub fn is_update_allowed_at(&self, update_type: UpdateType, config: &RateLimitConfig, now: u64) -> (r: bool)
        ensures
            r == self.allows(update_type, *config, now),
    {
        let interval = update_type.get_interval(config);
        if interval.is_zero() {
            return true;
        }
        match self.last_of(update_type) {
            Some(last) => elapsed_between(last, now) >= interval.millis,
            None => true,
        }
    }

    /// Reads the clock; the answer is that of `is_update_allowed_at` at the
    /// instant read.
    pub fn is_update_allowed(&self, update_type: UpdateType, config: &RateLimitConfig) -> (r: bool)
        ensures
            exists|now: u64| r == #[trigger] self.allows(update_type, *config, now),
            interval_ms(*config, update_type) == 0 ==> r,
            self.last_update(update_type).is_none() ==> r,
    {
        self.is_update_allowed_at(update_type, config, now_millis())
    }

    pub fn record_update_at(&mut self, update_type: UpdateType, now: u64)
        ensures
            *final(self) == old(self).with_update(update_type, now),
            final(self).last_update(update_type) == Some(now),
            forall|k: UpdateType| k != update_type ==> final(self).last_update(k) == old(self).last_update(k),
    {
        match update_type {
            UpdateType::Position => self.position = Some(now),
            UpdateType::Velocity => self.velocity = Some(now),
            UpdateType::Identification => self.identification = Some(now),
            UpdateType::Metadata => self.metadata = Some(now),
        }
    }

    /// Records an admitted update at the instant the clock reads.
    pub fn record_update(&mut self, update_type: UpdateType)
        ensures
            exists|now: u64| *final(self) == #[trigger] old(self).with_update(update_type, now),
            final(self).last_update(update_type).is_some(),
            forall|k: UpdateType| k != update_type ==> final(self).last_update(k) == old(self).last_update(k),
    {
        self.record_update_at(update_type, now_millis());
    }

    pub fn time_since_last_update_at(&self, update_type: UpdateType, now: u64) -> (r: Option<Duration>)
        ensures
            match self.last_update(update_type) {
                None => r.is_none(),
                Some(t) => r == Some(Duration { millis: elapsed(t, now) }),
            },
    {
        match self.last_of(update_type) {
            Some(last) => Some(Duration::from_millis(elapsed_between(last, now))),
            None => None,
        }
    }

    pub fn time_since_last_update(&self, update_type: UpdateType) -> (r: Option<Duration>)
        ensures
            r.is_some() == self.last_update(update_type).is_some(),
    {
        self.time_since_last_update_at(update_type, now_millis())
    }

    pub fn next_allowed_update_at(&self, update_type: UpdateType, config: &RateLimitConfig, now: u64) -> (r: u64)
        ensures
            r == self.next_allowed(update_type, *config, now),
    {
        let interval = update_type.get_interval(config);
        match self.last_of(update_type) {
            Some(last) => last.saturating_add(interval.millis),
            None => now,
        }
    }

    pub fn next_allowed_update(&self, update_type: UpdateType, config: &RateLimitConfig) -> (r: u64)
        ensures
            exists|now: u64| r == #[trigger] self.next_allowed(update_type, *config, now),
            self.last_update(update_type) is Some ==> r == self.next_allowed(update_type, *config, 0),
    {
        self.next_allowed_update_at(update_type, config, now_millis())
    }
}

/// An update held back by the rate limit, with the instant it may go out.
#[derive(Debug)]
pub struct PendingUpdate<T> {
    pub data: T,
    pub received_at: u64,
    pub next_allowed_update: u64,
    pub update_type: UpdateType,
}

impl<T> PendingUpdate<T> {
    pub fn new_at(data: T, update_type: UpdateType, next_allowed: u64, now: u64) -> (r: PendingUpdate<T>)
        ensures
            r == (PendingUpdate { data, received_at: now, next_allowed_update: next_allowed, update_type }),
    {
        PendingUpdate { data, received_at: now, next_allowed_update: next_allowed, update_type }
    }

    /// Stamps the update with the instant the clock reads.
    pub fn new(data: T, update_type: UpdateType, next_allowed: u64) -> (r: PendingUpdate<T>)
        ensures
            r.data == data,
            r.update_type == update_type,
            r.next_allowed_update == next_allowed,
    {
        PendingUpdate::new_at(data, update_type, next_allowed, now_millis())
    }

    pub fn is_ready_at(&self, now: u64) -> (r: bool)
        ensures
            r == (now >= self.next_allowed_update),
    {
        now >= self.next_allowed_update
    }

    pub fn is_ready(&self) -> (r: bool)
        ensures
            self.next_allowed_update == 0 ==> r,
    {
        self.is_ready_at(now_millis())
    }

    pub fn time_until_ready_at(&self, now: u64) -> (r: Duration)
        ensures
            r.millis == elapsed(now, self.next_allowed_update),
    {
        Duration::from_millis(elapsed_between(now, self.next_allowed_update))
    }

    pub fn time_until_ready(&self) -> (r: Duration)
        ensures
            r.millis <= self.next_allowed_update,
    {
        self.time_until_ready_at(now_millis())
    }
}

/// Outcome of submitting an update.
#[derive(Debug)]
pub enum RateLimitResult<T> {
    /// Admitted: hand the update on now.
    Allowed(T),
    /// Held back in the pending slot of its kind.
    RateLimited,
}

/// Rate limiting state for one item: admission times and one pending
/// update per kind.
#[derive(Debug)]
pub struct ItemRateLimiter<ItemId, UpdateData> {
    pub item_id: ItemId,
    pub update_tracker: UpdateTracker,
    pub pending_position: Option<PendingUpdate<UpdateData>>,
    pub pending_velocity: Option<PendingUpdate<UpdateData>>,
    pub pending_identification: Option<PendingUpdate<UpdateData>>,
    pub pending_metadata: Option<PendingUpdate<UpdateData>>,
    pub last_seen: u64,
}

impl<ItemId, UpdateData> ItemRateLimiter<ItemId, UpdateData> {
    /// The update of `kind` that waits, if any.
    pub open spec fn pending(&self, kind: UpdateType) -> Option<PendingUpdate<UpdateData>> {
        match kind {
            UpdateType::Position => self.pending_position,
            UpdateType::Velocity => self.pending_velocity,
            UpdateType::Identification => self.pending_identification,
            UpdateType::Metadata => self.pending_metadata,
        }
    }

    /// This limiter with the slot of `kind` set to `v`.
    pub open spec fn with_slot(self, kind: UpdateType, v: Option<PendingUpdate<UpdateData>>) -> Self {
        match kind {
            UpdateType::Position => ItemRateLimiter { pending_position: v, ..self },
            UpdateType::Velocity => ItemRateLimiter { pending_velocity: v, ..self },
            UpdateType::Identification => ItemRateLimiter { pending_identification: v, ..self },
            UpdateType::Metadata => ItemRateLimiter { pending_metadata: v, ..self },
        }
    }

    /// A limiter for `item_id`, first seen at `now`, with nothing admitted
    /// or waiting.
    pub open spec fn fresh(item_id: ItemId, now: u64) -> Self {
        ItemRateLimiter {
            item_id,
            update_tracker: UpdateTracker::empty(),
            pending_position: None,
            pending_velocity: None,
            pending_identification: None,
            pending_metadata: None,
            last_seen: now,
        }
    }

    /// The answer to an update of `kind` submitted at `now`.
    pub open spec fn submit_result(
        self,
        kind: UpdateType,
        data: UpdateData,
        config: RateLimitConfig,
        now: u64,
    ) -> RateLimitResult<UpdateData> {
        if self.update_tracker.allows(kind, config, now) {
            RateLimitResult::Allowed(data)
        } else {
            RateLimitResult::RateLimited
        }
    }

    /// This limiter after an update of `kind` is submitted at `now`.
    pub open spec fn after_submit(self, kind: UpdateType, data: UpdateData, config: RateLimitConfig, now: u64) -> Self {
        if self.update_tracker.allows(kind, config, now) {
            ItemRateLimiter {
                update_tracker: self.update_tracker.with_update(kind, now),
                last_seen: now,
                ..self.with_slot(kind, None)
            }
        } else {
            ItemRateLimiter {
                last_seen: now,
                ..self.with_slot(
                    kind,
                    Some(PendingUpdate {
                        data,
                        received_at: now,
                        next_allowed_update: self.update_tracker.next_allowed(kind, config, now),
                        update_type: kind,
                    }),
                )
            }
        }
    }

    /// This limiter after the waiting update of `kind` goes out at `now`, if
    /// it does.
    pub open spec fn after_release_of(self, kind: UpdateType, now: u64, force: bool) -> Self {
        if self.due(kind, now, force) {
            ItemRateLimiter {
                update_tracker: self.update_tracker.with_update(kind, now),
                ..self.with_slot(kind, None)
            }
        } else {
            self
        }
    }

    /// This limiter after every update that goes out at `now` has gone.
    pub open spec fn after_release(self, now: u64, force: bool) -> Self {
        self.after_release_of(UpdateType::Position, now, force)
            .after_release_of(UpdateType::Velocity, now, force)
            .after_release_of(UpdateType::Identification, now, force)
            .after_release_of(UpdateType::Metadata, now, force)
    }

    /// Number of kinds with a waiting update.
    pub open spec fn pending_total(&self) -> nat {
        (if self.pending(UpdateType::Position) is Some { 1nat } else { 0nat })
            + (if self.pending(UpdateType::Velocity) is Some { 1nat } else { 0nat })
            + (if self.pending(UpdateType::Identification) is Some { 1nat } else { 0nat })
            + (if self.pending(UpdateType::Metadata) is Some { 1nat } else { 0nat })
    }

    /// Whether the waiting update of `kind` goes out at `now`: when it is
    /// due, or, with `force`, whenever one waits.
    pub open spec fn due(&self, kind: UpdateType, now: u64, force: bool) -> bool {
        match self.pending(kind) {
            Some(p) => force || p.next_allowed_update <= now,
            None => false,
        }
    }

    /// What goes out for `kind` at `now`.
    pub open spec fn released_part(&self, kind: UpdateType, now: u64, force: bool) -> Seq<(UpdateType, UpdateData)> {
        if self.due(kind, now, force) {
            seq![(kind, self.pending(kind).unwrap().data)]
        } else {
            seq![]
        }
    }

    /// Everything that goes out at `now`, kinds in declaration order.
    pub open spec fn released(&self, now: u64, force: bool) -> Seq<(UpdateType, UpdateData)> {
        self.released_part(UpdateType::Position, now, force)
            + self.released_part(UpdateType::Velocity, now, force)
            + self.released_part(UpdateType::Identification, now, force)
            + self.released_part(UpdateType::Metadata, now, force)
    }

    /// Every waiting update is filed under its own kind and may go out one
    /// interval after the last admitted update of that kind.
    /// The waiting update of `kind`, if any, is filed under `kind` and may go
    /// out one interval after the last admitted update of that kind.
    pub closed spec fn slot_wf(&self, kind: UpdateType, config: RateLimitConfig) -> bool {
        &&& self.pending(kind).unwrap().update_type == kind
        &&& self.update_tracker.last_update(kind) is Some
        &&& self.pending(kind).unwrap().next_allowed_update == sat_add(
            self.update_tracker.last_update(kind).unwrap(),
            interval_ms(config, kind),
        )
    }

    pub closed spec fn wf_for(&self, config: RateLimitConfig) -> bool {
        forall|k: UpdateType| #[trigger] self.pending(k) is Some ==> self.slot_wf(k, config)
    }

    pub fn new_at(item_id: ItemId, now: u64) -> (r: ItemRateLimiter<ItemId, UpdateData>)
        ensures
            r == ItemRateLimiter::<ItemId, UpdateData>::fresh(item_id, now),
            r.item_id == item_id,
            r.last_seen == now,
            forall|k: UpdateType| r.pending(k).is_none() && r.update_tracker.last_update(k).is_none(),
    {
        ItemRateLimiter {
            item_id,
            update_tracker: UpdateTracker::new(),
            pending_position: None,
            pending_velocity: None,
            pending_identification: None,
            pending_metadata: None,
            last_seen: now,
        }
    }

    /// A limiter first seen at the instant the clock reads.
    pub fn new(item_id: ItemId) -> (r: ItemRateLimiter<ItemId, UpdateData>)
        ensures
            exists|now: u64| r == #[trigger] ItemRateLimiter::<ItemId, UpdateData>::fresh(item_id, now),
            r.item_id == item_id,
            forall|k: UpdateType| r.pending(k).is_none() && r.update_tracker.last_update(k).is_none(),
    {
        ItemRateLimiter::new_at(item_id, now_millis())
    }

    fn take_pending(&mut self, kind: UpdateType) -> (r: Option<PendingUpdate<UpdateData>>)
        ensures
            r == old(self).pending(kind),
            *final(self) == old(self).with_slot(kind, None),
            final(self).pending(kind).is_none(),
            forall|k: UpdateType| k != kind ==> final(self).pending(k) == old(self).pending(k),
            final(self).item_id == old(self).item_id,
            final(self).update_tracker == old(self).update_tracker,
            final(self).last_seen == old(self).last_seen,
    {
        match kind {
            UpdateType::Position => self.pending_position.take(),
            UpdateType::Velocity => self.pending_velocity.take(),
            UpdateType::Identification => self.pending_identification.take(),
            UpdateType::Metadata => self.pending_metadata.take(),
        }
    }

    fn put_pending(&mut self, kind: UpdateType, p: PendingUpdate<UpdateData>)
        ensures
            *final(self) == old(self).with_slot(kind, Some(p)),
            final(self).pending(kind) == Some(p),
            forall|k: UpdateType| k != kind ==> final(self).pending(k) == old(self).pending(k),
            final(self).item_id == old(self).item_id,
            final(self).update_tracker == old(self).update_tracker,
            final(self).last_seen == old(self).last_seen,
    {
        match kind {
            UpdateType::Position => self.pending_position = Some(p),
            UpdateType::Velocity => self.pending_velocity = Some(p),
            UpdateType::Identification => self.pending_identification = Some(p),
            UpdateType::Metadata => self.pending_metadata = Some(p),
        }
    }

    /// Submits an update of `update_type` at `now`: admitted when the
    /// tracker allows it, which clears the waiting update of that kind;
    /// otherwise it replaces the waiting update of that kind.
    pub fn process_update_at(
        &mut self,
        update_type: UpdateType,
        data: UpdateData,
        config: &RateLimitConfig,
        now: u64,
    ) -> (r: RateLimitResult<UpdateData>)
        ensures
            *final(self) == old(self).after_submit(update_type, data, *config, now),
            r == old(self).submit_result(update_type, data, *config, now),
            final(self).item_id == old(self).item_id,
            final(self).last_seen == now,
            old(self).update_tracker.allows(update_type, *config, now) ==> {
                &&& r == RateLimitResult::Allowed(data)
                &&& final(self).update_tracker.last_update(update_type) == Some(now)
                &&& final(self).pending(update_type).is_none()
            },
            !old(self).update_tracker.allows(update_type, *config, now) ==> {
                &&& r == RateLimitResult::<UpdateData>::RateLimited
                &&& final(self).update_tracker.last_update(update_type) == old(self).update_tracker.last_update(update_type)
                &&& final(self).pending(update_type) == Some(PendingUpdate {
                    data,
                    received_at: now,
                    next_allowed_update: old(self).update_tracker.next_allowed(update_type, *config, now),
                    update_type,
                })
            },
            forall|k: UpdateType| k != update_type ==> {
                &&& final(self).pending(k) == old(self).pending(k)
                &&& final(self).update_tracker.last_update(k) == old(self).update_tracker.last_update(k)
            },
            old(self).wf_for(*config) ==> final(self).wf_for(*config),
    {
        self.last_seen = now;
        let r = if self.update_tracker.is_update_allowed_at(update_type, config, now) {
            self.update_tracker.record_update_at(update_type, now);
            let _obsolete = self.take_pending(update_type);
            RateLimitResult::Allowed(data)
        } else {
            let next_allowed = self.update_tracker.next_allowed_update_at(update_type, config, now);
            let pending = PendingUpdate::new_at(data, update_type, next_allowed, now);
            self.put_pending(update_type, pending);
            RateLimitResult::RateLimited
        };
        proof {
            if old(self).wf_for(*config) {
                assert forall|k: UpdateType| #[trigger] self.pending(k) is Some implies self.slot_wf(k, *config) by {
                    if k != update_type {
                        assert(old(self).pending(k) == self.pending(k));
                    }
                }
            }
        }
        r
    }

    /// Submits an update at the instant the clock reads.
    pub fn process_update(
        &mut self,
        update_type: UpdateType,
        data: UpdateData,
        config: &RateLimitConfig,
    ) -> (r: RateLimitResult<UpdateData>)
        ensures
            exists|now: u64| {
                &&& *final(self) == #[trigger] old(self).after_submit(update_type, data, *config, now)
                &&& r == old(self).submit_result(update_type, data, *config, now)
            },
            final(self).item_id == old(self).item_id,
            r == RateLimitResult::Allowed(data) || r == RateLimitResult::<UpdateData>::RateLimited,
            (interval_ms(*config, update_type) == 0 || old(self).update_tracker.last_update(update_type).is_none())
                ==> r == RateLimitResult::Allowed(data),
    {
        self.process_update_at(update_type, data, config, now_millis())
    }

    fn release_kind(
        &mut self,
        kind: UpdateType,
        now: u64,
        force: bool,
        out: &mut Vec<(UpdateType, UpdateData)>,
    )
        ensures
            final(out)@ == old(out)@ + old(self).released_part(kind, now, force),
            *final(self) == old(self).after_release_of(kind, now, force),
            old(self).due(kind, now, force) ==> {
                &&& final(self).pending(kind).is_none()
                &&& final(self).update_tracker.last_update(kind) == Some(now)
            },
            !old(self).due(kind, now, force) ==> {
                &&& final(self).pending(kind) == old(self).pending(kind)
                &&& final(self).update_tracker.last_update(kind) == old(self).update_tracker.last_update(kind)
            },
            forall|k: UpdateType| k != kind ==> {
                &&& final(self).pending(k) == old(self).pending(k)
                &&& final(self).update_tracker.last_update(k) == old(self).update_tracker.last_update(k)
            },
            final(self).item_id == old(self).item_id,
            final(self).last_seen == old(self).last_seen,
    {
        let taken = self.take_pending(kind);
        match taken {
            Some(p) => {
                if force || p.is_ready_at(now) {
                    self.update_tracker.record_update_at(kind, now);
                    out.push((kind, p.data));
                } else {
                    self.put_pending(kind, p);
                }
            },
            None => {},
        }
    }

    pub(crate) fn release_pending_at(&mut self, now: u64, force: bool) -> (r: Vec<(UpdateType, UpdateData)>)
        ensures
            r@ == old(self).released(now, force),
            *final(self) == old(self).after_release(now, force),
            forall|k: UpdateType| #[trigger] old(self).due(k, now, force) ==> {
                &&& final(self).pending(k).is_none()
                &&& final(self).update_tracker.last_update(k) == Some(now)
            },
            forall|k: UpdateType| !#[trigger] old(self).due(k, now, force) ==> {
                &&& final(self).pending(k) == old(self).pending(k)
                &&& final(self).update_tracker.last_update(k) == old(self).update_tracker.last_update(k)
            },
            final(self).item_id == old(self).item_id,
            final(self).last_seen == old(self).last_seen,
    {
        let mut out: Vec<(UpdateType, UpdateData)> = Vec::new();
        self.release_kind(UpdateType::Position, now, force, &mut out);
        self.release_kind(UpdateType::Velocity, now, force, &mut out);
        self.release_kind(UpdateType::Identification, now, force, &mut out);
        self.release_kind(UpdateType::Metadata, now, force, &mut out);
        assert forall|k: UpdateType| #[trigger] old(self).due(k, now, force) implies {
            &&& self.pending(k).is_none()
            &&& self.update_tracker.last_update(k) == Some(now)
        } by {
            match k {
                UpdateType::Position => {},
                UpdateType::Velocity => {},
                UpdateType::Identification => {},
                UpdateType::Metadata => {},
            }
        }
        assert forall|k: UpdateType| !#[trigger] old(self).due(k, now, force) implies {
            &&& self.pending(k) == old(self).pending(k)
            &&& self.update_tracker.last_update(k) == old(self).update_tracker.last_update(k)
        } by {
            match k {
                UpdateType::Position => {},
                UpdateType::Velocity => {},
                UpdateType::Identification => {},
                UpdateType::Metadata => {},
            }
        }
        out
    }

    /// Hands out, at `now`, every waiting update that is due, and records
    /// each as admitted at `now`.
    pub fn process_pending_updates_at(&mut self, now: u64) -> (r: Vec<(UpdateType, UpdateData)>)
        ensures
            r@ == old(self).released(now, false),
            *final(self) == old(self).after_release(now, false),
            forall|c: RateLimitConfig| #[trigger] old(self).wf_for(c) ==> final(self).wf_for(c),
            forall|k: UpdateType| #[trigger] old(self).due(k, now, false) ==> {
                &&& final(self).pending(k).is_none()
                &&& final(self).update_tracker.last_update(k) == Some(now)
            },
            forall|k: UpdateType| !#[trigger] old(self).due(k, now, false) ==> {
                &&& final(self).pending(k) == old(self).pending(k)
                &&& final(self).update_tracker.last_update(k) == old(self).update_tracker.last_update(k)
            },
            final(self).item_id == old(self).item_id,
            final(self).last_seen == old(self).last_seen,
    {
        let r = self.release_pending_at(now, false);
        proof {
            assert forall|c: RateLimitConfig| #[trigger] old(self).wf_for(c) implies self.wf_for(c) by {
                assert forall|k: UpdateType| #[trigger] self.pending(k) is Some implies self.slot_wf(k, c) by {
                    assert(old(self).pending(k) is Some);
                    assert(old(self).slot_wf(k, c));
                }
            }
        }
        r
    }

    /// Hands out the waiting updates that are due at the instant the clock
    /// reads.
    pub fn process_pending_updates(&mut self) -> (r: Vec<(UpdateType, UpdateData)>)
        ensures
            exists|now: u64| {
                &&& r@ == #[trigger] old(self).released(now, false)
                &&& *final(self) == old(self).after_release(now, false)
            },
            r@.len() <= old(self).pending_total(),
            final(self).item_id == old(self).item_id,
    {
        let now = now_millis();
        let r = self.process_pending_updates_at(now);
        r
    }

    /// Hands out every waiting update at `now`, due or not, and records each
    /// as admitted at `now`.
    pub fn flush_pending_at(&mut self, now: u64) -> (r: Vec<(UpdateType, UpdateData)>)
        ensures
            r@ == old(self).released(now, true),
            *final(self) == old(self).after_release(now, true),
            forall|k: UpdateType| final(self).pending(k).is_none(),
            forall|k: UpdateType| #[trigger] old(self).pending(k) is Some
                ==> final(self).update_tracker.last_update(k) == Some(now),
            forall|k: UpdateType| #[trigger] old(self).pending(k) is None
                ==> final(self).update_tracker.last_update(k) == old(self).update_tracker.last_update(k),
            final(self).item_id == old(self).item_id,
            final(self).last_seen == old(self).last_seen,
    {
        self.release_pending_at(now, true)
    }

    /// Whether nothing was submitted for longer than `timeout` before `now`.
    pub fn should_evict_at(&self, timeout: Duration, now: u64) -> (r: bool)
        ensures
            r == (elapsed(self.last_seen, now) > timeout.millis),
    {
        elapsed_between(self.last_seen, now) > timeout.millis
    }

    pub fn should_evict(&self, timeout: Duration) -> (r: bool) {
        self.should_evict_at(timeout, now_millis())
    }

    pub fn pending_count(&self) -> (r: usize)
        ensures
            r == self.pending_total(),
    {
        let mut n: usize = 0;
        if self.pending_position.is_some() {
            n = n + 1;
        }
        if self.pending_velocity.is_some() {
            n = n + 1;
        }
        if self.pending_identification.is_some() {
            n = n + 1;
        }
        if self.pending_metadata.is_some() {
            n = n + 1;
        }
        n
    }
}

/// Counters of what the rate limiter decided.
#[derive(Clone, Copy, Debug, PartialEq, Eq, Structural)]
pub struct RateLimitStats {
    pub total_updates_received: u64,
    pub updates_allowed_immediately: u64,
    pub updates_rate_limited: u64,
    pub updates_dropped_obsolete: u64,
    pub active_items: u64,
    pub total_pending_updates: u64,
}

impl RateLimitStats {
    /// All counters at zero.
    pub open spec fn default_value() -> RateLimitStats {
        RateLimitStats {
            total_updates_received: 0,
            updates_allowed_immediately: 0,
            updates_rate_limited: 0,
            updates_dropped_obsolete: 0,
            active_items: 0,
            total_pending_updates: 0,
        }
    }
}

impl Default for RateLimitStats {
    fn default() -> (r: RateLimitStats)
        ensures
            r == RateLimitStats::default_value(),
    {
        RateLimitStats {
            total_updates_received: 0,
            updates_allowed_immediately: 0,
            updates_rate_limited: 0,
            updates_dropped_obsolete: 0,
            active_items: 0,
            total_pending_updates: 0,
        }
    }
}

/// `part` as a share of `whole` in hundredths of a percent, rounded down;
/// zero when `whole` is zero.
pub open spec fn share_hundredths(part: u64, whole: u64) -> int {
    if whole == 0 {
        0
    } else {
        (part as int * 10000) / (whole as int)
    }
}

fn share_of(part: u64, whole: u64) -> (r: u128)
    ensures
        r == share_hundredths(part, whole),
{
    if whole == 0 {
        0
    } else {
        let p = part as u128 * 10000;
        p / (whole as u128)
    }
}

impl RateLimitStats {
    /// The share of submissions that were held back, in hundredths of a
    /// percent (4000 is 40 %).
    pub fn rate_limit_efficiency(&self) -> (r: u128)
        ensures
            r == share_hundredths(self.updates_rate_limited, self.total_updates_received),
    {
        share_of(self.updates_rate_limited, self.total_updates_received)
    }

    /// The share of submissions admitted at once, in hundredths of a
    /// percent.
    pub fn immediate_processing_rate(&self) -> (r: u128)
        ensures
            r == share_hundredths(self.updates_allowed_immediately, self.total_updates_received),
    {
        share_of(self.updates_allowed_immediately, self.total_updates_received)
    }
}

/// With rate limiting on, two admitted updates of one kind for one item lie
/// at least that kind's interval apart: an update that follows one admitted
/// at `t1` goes out at `now` (admitted on submission, or released from its
/// pending slot) only when `now - t1` reaches the interval.
pub proof fn lemma_admissions_spaced<ItemId, UpdateData>(
    limiter: ItemRateLimiter<ItemId, UpdateData>,
    kind: UpdateType,
    config: RateLimitConfig,
    t1: u64,
    now: u64,
)
    requires
        limiter.wf_for(config),
        limiter.update_tracker.last_update(kind) == Some(t1),
        interval_ms(config, kind) > 0,
        t1 + interval_ms(config, kind) <= u64::MAX,
        limiter.update_tracker.allows(kind, config, now) || limiter.due(kind, now, false),
    ensures
        now >= t1 + interval_ms(config, kind),
{
    if !limiter.update_tracker.allows(kind, config, now) {
        assert(limiter.slot_wf(kind, config));
    }
}

/// A kind whose interval is zero is never held back.
pub proof fn lemma_zero_interval_never_deferred(
    tracker: UpdateTracker,
    kind: UpdateType,
    config: RateLimitConfig,
    now: u64,
)
    requires
        interval_ms(config, kind) == 0,
    ensures
        tracker.allows(kind, config, now),
{
}

} // verus!

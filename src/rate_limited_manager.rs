//! Rate limiting across many items: one `ItemRateLimiter` per item, kept in
//! order of first submission, with counters and eviction of idle items.
use vstd::prelude::*;

use crate::rate_limiter::{
    ItemRateLimiter, RateLimitConfig, RateLimitResult, RateLimitStats, UpdateType,
};
use crate::time::{elapsed, elapsed_between, now_millis, Duration};

verus! {

/// The identity of a rate-limited item.
pub trait ItemKey: Sized {
    /// What tells two items apart.
    type Key;

    spec fn key(&self) -> Self::Key;

    fn same_key(&self, other: &Self) -> (r: bool)
        ensures
            r == (self.key() == other.key()),
    ;

    fn clone_key(&self) -> (r: Self)
        ensures
            r.key() == self.key(),
    ;
}

impl ItemKey for String {
    type Key = Seq<char>;

    open spec fn key(&self) -> Seq<char> {
        self@
    }

    fn same_key(&self, other: &Self) -> (r: bool) {
        self.eq(other)
    }

    fn clone_key(&self) -> (r: Self) {
        self.clone()
    }
}

/// `n + 1`, held at `u64::MAX`.
pub open spec fn bump(n: u64) -> u64 {
    if n < u64::MAX {
        (n + 1) as u64
    } else {
        n
    }
}

/// Number of waiting updates over all of `s`.
pub open spec fn pending_sum<I, T>(s: Seq<ItemRateLimiter<I, T>>) -> nat
    decreases s.len(),
{
    if s.len() == 0 {
        0
    } else {
        pending_sum(s.drop_last()) + s.last().pending_total()
    }
}

/// What goes out of each limiter of `s` at `now`, tagged with its item's
/// key, items in order.
pub open spec fn released_all<I: ItemKey, T>(
    s: Seq<ItemRateLimiter<I, T>>,
    now: u64,
    force: bool,
) -> Seq<(I::Key, UpdateType, T)>
    decreases s.len(),
{
    if s.len() == 0 {
        seq![]
    } else {
        released_all(s.drop_last(), now, force) + s.last().released(now, force).map_values(
            |x: (UpdateType, T)| (s.last().item_id.key(), x.0, x.1),
        )
    }
}

/// `s` with each item given by its key.
pub open spec fn keyed<I: ItemKey, T>(s: Seq<(I, UpdateType, T)>) -> Seq<(I::Key, UpdateType, T)> {
    s.map_values(|x: (I, UpdateType, T)| (x.0.key(), x.1, x.2))
}

/// The limiters of `s` that are kept at `now`: those with a submission
/// within `timeout`.
pub open spec fn kept<I, T>(s: Seq<ItemRateLimiter<I, T>>, timeout: Duration, now: u64) -> Seq<ItemRateLimiter<I, T>>
    decreases s.len(),
{
    if s.len() == 0 {
        seq![]
    } else {
        let rest = kept(s.drop_last(), timeout, now);
        if elapsed(s.last().last_seen, now) > timeout.millis {
            rest
        } else {
            rest.push(s.last())
        }
    }
}

/// A rate limiter over many items.
pub struct RateLimitedStateManager<ItemId, UpdateData> {
    config: RateLimitConfig,
    item_limiters: Vec<ItemRateLimiter<ItemId, UpdateData>>,
    eviction_timeout: Duration,
    cleanup_interval: Duration,
    last_cleanup: u64,
    stats: RateLimitStats,
}

impl<ItemId: ItemKey, UpdateData> RateLimitedStateManager<ItemId, UpdateData> {
    /// The limiters, in order of first submission.
    pub closed spec fn limiters(&self) -> Seq<ItemRateLimiter<ItemId, UpdateData>> {
        self.item_limiters@
    }

    pub closed spec fn config(&self) -> RateLimitConfig {
        self.config
    }

    pub closed spec fn eviction_timeout(&self) -> Duration {
        self.eviction_timeout
    }

    pub closed spec fn cleanup_interval(&self) -> Duration {
        self.cleanup_interval
    }

    pub closed spec fn last_cleanup(&self) -> u64 {
        self.last_cleanup
    }

    /// The counters as kept between calls; `get_stats` adds the live ones.
    pub closed spec fn counters(&self) -> RateLimitStats {
        self.stats
    }

    /// No two limiters belong to one item.
    pub open spec fn wf(&self) -> bool {
        forall|i: int, j: int|
            0 <= i < j < self.limiters().len() ==> #[trigger] self.limiters()[i].item_id.key()
                != #[trigger] self.limiters()[j].item_id.key()
    }

    /// Whether an item with key `k` is tracked.
    pub open spec fn tracks(&self, k: ItemId::Key) -> bool {
        exists|i: int| 0 <= i < self.limiters().len() && #[trigger] self.limiters()[i].item_id.key() == k
    }

    /// Whether an update of `kind` for the item with key `k` is admitted at
    /// `now`: always for an item not yet tracked.
    pub open spec fn admits(&self, k: ItemId::Key, kind: UpdateType, now: u64) -> bool {
        forall|i: int| #[trigger] self.at(i, k) ==> self.limiters()[i].update_tracker.allows(kind, self.config(), now)
    }

    /// `i` is the position of the limiter of the item with key `k`.
    pub open spec fn at(&self, i: int, k: ItemId::Key) -> bool {
        0 <= i < self.limiters().len() && self.limiters()[i].item_id.key() == k
    }

    /// A manager with `config`, no items and zeroed counters, whose cleanup
    /// clock starts at `now`.
    pub fn with_config_at(config: RateLimitConfig, now: u64) -> (r: RateLimitedStateManager<ItemId, UpdateData>)
        ensures
            r.wf(),
            r.limiters().len() == 0,
            r.config() == config,
            r.eviction_timeout().millis == 300_000,
            r.cleanup_interval().millis == 30_000,
            r.last_cleanup() == now,
            r.counters() == RateLimitStats::default_value(),
    {
        RateLimitedStateManager {
            config,
            item_limiters: Vec::new(),
            eviction_timeout: Duration::from_secs(300),
            cleanup_interval: Duration::from_secs(30),
            last_cleanup: now,
            stats: RateLimitStats::default(),
        }
    }

    /// As `with_config_at`, the cleanup clock starting at the instant the
    /// clock reads.
    pub fn with_config(config: RateLimitConfig) -> (r: RateLimitedStateManager<ItemId, UpdateData>)
        ensures
            r.wf(),
            r.limiters().len() == 0,
            r.config() == config,
            r.eviction_timeout().millis == 300_000,
            r.cleanup_interval().millis == 30_000,
            r.counters() == RateLimitStats::default_value(),
    {
        RateLimitedStateManager::with_config_at(config, now_millis())
    }

    /// A manager with the default intervals.
    pub fn new() -> (r: RateLimitedStateManager<ItemId, UpdateData>)
        ensures
            r.wf(),
            r.limiters().len() == 0,
            r.config().position_interval.millis == 500,
            r.config().velocity_interval.millis == 1000,
            r.config().identification_interval.millis == 0,
            r.config().metadata_interval.millis == 5000,
            r.counters() == RateLimitStats::default_value(),
    {
        RateLimitedStateManager::with_config(RateLimitConfig::default())
    }

    pub fn with_eviction_timeout(self, timeout: Duration) -> (r: RateLimitedStateManager<ItemId, UpdateData>)
        ensures
            r.eviction_timeout() == timeout,
            r.limiters() == self.limiters(),
            r.config() == self.config(),
            r.cleanup_interval() == self.cleanup_interval(),
            r.last_cleanup() == self.last_cleanup(),
            r.counters() == self.counters(),
    {
        let mut m = self;
        m.eviction_timeout = timeout;
        m
    }

    pub fn with_cleanup_interval(self, interval: Duration) -> (r: RateLimitedStateManager<ItemId, UpdateData>)
        ensures
            r.cleanup_interval() == interval,
            r.limiters() == self.limiters(),
            r.config() == self.config(),
            r.eviction_timeout() == self.eviction_timeout(),
            r.last_cleanup() == self.last_cleanup(),
            r.counters() == self.counters(),
    {
        let mut m = self;
        m.cleanup_interval = interval;
        m
    }

    fn find(&self, item_id: &ItemId) -> (r: Option<usize>)
        requires
            self.wf(),
        ensures
            match r {
                Some(i) => self.at(i as int, item_id.key()),
                None => !self.tracks(item_id.key()),
            },
    {
        let mut i: usize = 0;
        while i < self.item_limiters.len()
            invariant
                i <= self.item_limiters@.len(),
                forall|j: int| 0 <= j < i ==> #[trigger] self.limiters()[j].item_id.key() != item_id.key(),
            decreases self.item_limiters@.len() - i,
        {
            if self.item_limiters[i].item_id.same_key(item_id) {
                return Some(i);
            }
            i = i + 1;
        }
        None
    }

    /// Submits an update for `item_id` at `now`, creating the item's limiter
    /// on its first update. The item's limiter decides, as
    /// `ItemRateLimiter::process_update_at` does; no item is evicted.
    pub fn process_update_at(
        &mut self,
        item_id: ItemId,
        update_type: UpdateType,
        data: UpdateData,
        now: u64,
    ) -> (r: RateLimitResult<UpdateData>)
        requires
            old(self).wf(),
        ensures
            final(self).wf(),
            final(self).config() == old(self).config(),
            final(self).eviction_timeout() == old(self).eviction_timeout(),
            final(self).cleanup_interval() == old(self).cleanup_interval(),
            final(self).last_cleanup() == old(self).last_cleanup(),
            (r is Allowed) == old(self).admits(item_id.key(), update_type, now),
            old(self).tracks(item_id.key()) ==> exists|i: int| #[trigger] old(self).at(i, item_id.key()) && {
                &&& r == old(self).limiters()[i].submit_result(update_type, data, old(self).config(), now)
                &&& final(self).limiters() == old(self).limiters().update(
                    i,
                    old(self).limiters()[i].after_submit(update_type, data, old(self).config(), now),
                )
            },
            !old(self).tracks(item_id.key()) ==> {
                &&& r == RateLimitResult::Allowed(data)
                &&& final(self).limiters().len() == old(self).limiters().len() + 1
                &&& final(self).limiters().drop_last() == old(self).limiters()
                &&& final(self).limiters().last().item_id.key() == item_id.key()
                &&& final(self).limiters().last() == ItemRateLimiter::fresh(
                    final(self).limiters().last().item_id,
                    now,
                ).after_submit(update_type, data, old(self).config(), now)
            },
            final(self).counters().total_updates_received == bump(old(self).counters().total_updates_received),
            final(self).counters().updates_allowed_immediately == if r is Allowed {
                bump(old(self).counters().updates_allowed_immediately)
            } else {
                old(self).counters().updates_allowed_immediately
            },
            final(self).counters().updates_rate_limited == if r is RateLimited {
                bump(old(self).counters().updates_rate_limited)
            } else {
                old(self).counters().updates_rate_limited
            },
            final(self).counters().updates_dropped_obsolete == old(self).counters().updates_dropped_obsolete,
            final(self).counters().active_items == old(self).counters().active_items,
            final(self).counters().total_pending_updates == old(self).counters().total_pending_updates,
    {
        self.stats.total_updates_received = self.stats.total_updates_received.saturating_add(1);
        let found = self.find(&item_id);
        let result = match found {
            Some(i) => {
                let ghost before = self.item_limiters@;
                let r = self.item_limiters[i].process_update_at(update_type, data, &self.config, now);
                proof {
                    assert(self.limiters() == before.update(i as int, before[i as int].after_submit(update_type, data, self.config, now)));
                    assert(self.limiters()[i as int].item_id == before[i as int].item_id);
                    assert(old(self).at(i as int, item_id.key()));
                    assert forall|j: int| #[trigger] old(self).at(j, item_id.key()) implies j == i by {
                        if j < i {
                            assert(before[j].item_id.key() != before[i as int].item_id.key());
                        } else if j > i {
                            assert(before[i as int].item_id.key() != before[j].item_id.key());
                        }
                    }
                }
                r
            },
            None => {
                let key = item_id.clone_key();
                let mut limiter = ItemRateLimiter::new_at(key, now);
                let r = limiter.process_update_at(update_type, data, &self.config, now);
                self.item_limiters.push(limiter);
                proof {
                    assert(self.limiters().drop_last() =~= old(self).limiters());
                }
                r
            },
        };
        match result {
            RateLimitResult::Allowed(_) => {
                self.stats.updates_allowed_immediately = self.stats.updates_allowed_immediately.saturating_add(1);
            },
            RateLimitResult::RateLimited => {
                self.stats.updates_rate_limited = self.stats.updates_rate_limited.saturating_add(1);
            },
        }
        result
    }

    fn tag_all(item_id: &ItemId, batch: Vec<(UpdateType, UpdateData)>, out: &mut Vec<(ItemId, UpdateType, UpdateData)>)
        ensures
            keyed(final(out)@)
                == keyed(old(out)@)
                + batch@.map_values(|x: (UpdateType, UpdateData)| (item_id.key(), x.0, x.1)),
    {
        let mut batch = batch;
        let ghost b0 = batch@;
        let ghost o0 = out@;
        let ghost n: int = 0;
        while batch.len() > 0
            invariant
                0 <= n <= b0.len(),
                batch@ == b0.skip(n),
                keyed(out@)
                    == keyed(o0)
                    + b0.take(n).map_values(|x: (UpdateType, UpdateData)| (item_id.key(), x.0, x.1)),
            decreases batch@.len(),
        {
            let ghost before = out@;
            let (kind, data) = batch.remove(0);
            let key = item_id.clone_key();
            out.push((key, kind, data));
            proof {
                assert(b0.take(n + 1) =~= b0.take(n).push(b0[n]));
                assert(out@ =~= before.push((key, kind, data)));
                assert(keyed(out@)
                    =~= keyed(before).push((item_id.key(), kind, data)));
                assert(b0.take(n + 1).map_values(|x: (UpdateType, UpdateData)| (item_id.key(), x.0, x.1))
                    =~= b0.take(n).map_values(|x: (UpdateType, UpdateData)| (item_id.key(), x.0, x.1)).push((item_id.key(), kind, data)));
                n = n + 1;
                assert(batch@ =~= b0.skip(n));
            }
        }
        proof {
            assert(b0.take(n) =~= b0);
        }
    }

    pub(crate) fn release_all(&mut self, now: u64, force: bool) -> (r: Vec<(ItemId, UpdateType, UpdateData)>)
        requires
            old(self).wf(),
        ensures
            final(self).wf(),
            keyed(r@)
                == released_all(old(self).limiters(), now, force),
            final(self).limiters().len() == old(self).limiters().len(),
            forall|i: int| 0 <= i < old(self).limiters().len() ==>
                #[trigger] final(self).limiters()[i] == old(self).limiters()[i].after_release(now, force),
            final(self).config() == old(self).config(),
            final(self).eviction_timeout() == old(self).eviction_timeout(),
            final(self).cleanup_interval() == old(self).cleanup_interval(),
            final(self).last_cleanup() == old(self).last_cleanup(),
            final(self).counters() == old(self).counters(),
    {
        let mut out: Vec<(ItemId, UpdateType, UpdateData)> = Vec::new();
        let ghost s0 = self.item_limiters@;
        let mut i: usize = 0;
        while i < self.item_limiters.len()
            invariant
                self.item_limiters@.len() == s0.len(),
                i <= s0.len(),
                forall|j: int| 0 <= j < i ==> #[trigger] self.item_limiters@[j] == s0[j].after_release(now, force),
                forall|j: int| i <= j < s0.len() ==> #[trigger] self.item_limiters@[j] == s0[j],
                keyed(out@)
                    == released_all(s0.take(i as int), now, force),
                self.config == old(self).config,
                self.eviction_timeout == old(self).eviction_timeout,
                self.cleanup_interval == old(self).cleanup_interval,
                self.last_cleanup == old(self).last_cleanup,
                self.stats == old(self).stats,
                s0 == old(self).item_limiters@,
            decreases s0.len() - i,
        {
            let batch = self.item_limiters[i].release_pending_at(now, force);
            Self::tag_all(&self.item_limiters[i].item_id, batch, &mut out);
            proof {
                assert(s0.take(i as int + 1).drop_last() =~= s0.take(i as int));
            }
            i = i + 1;
        }
        proof {
            assert(s0.take(s0.len() as int) =~= s0);
            assert forall|a: int, b: int| 0 <= a < b < self.limiters().len() implies
                #[trigger] self.limiters()[a].item_id.key() != #[trigger] self.limiters()[b].item_id.key() by {
                assert(self.limiters()[a] == s0[a].after_release(now, force));
                assert(self.limiters()[b] == s0[b].after_release(now, force));
            }
        }
        out
    }

    /// Hands out, at `now`, every waiting update that is due, items in order
    /// of first submission and kinds in declaration order; each item's
    /// limiter moves as `ItemRateLimiter::process_pending_updates_at` says.
    pub fn process_pending_updates_at(&mut self, now: u64) -> (r: Vec<(ItemId, UpdateType, UpdateData)>)
        requires
            old(self).wf(),
        ensures
            final(self).wf(),
            keyed(r@)
                == released_all(old(self).limiters(), now, false),
            final(self).limiters().len() == old(self).limiters().len(),
            forall|i: int| 0 <= i < old(self).limiters().len() ==>
                #[trigger] final(self).limiters()[i] == old(self).limiters()[i].after_release(now, false),
            final(self).config() == old(self).config(),
            final(self).eviction_timeout() == old(self).eviction_timeout(),
            final(self).cleanup_interval() == old(self).cleanup_interval(),
            final(self).last_cleanup() == old(self).last_cleanup(),
            final(self).counters() == old(self).counters(),
    {
        self.release_all(now, false)
    }

    /// Hands out every waiting update at `now`, due or not (for shutdown).
    pub fn flush_pending_updates_at(&mut self, now: u64) -> (r: Vec<(ItemId, UpdateType, UpdateData)>)
        requires
            old(self).wf(),
        ensures
            final(self).wf(),
            keyed(r@)
                == released_all(old(self).limiters(), now, true),
            final(self).limiters().len() == old(self).limiters().len(),
            forall|i: int| 0 <= i < old(self).limiters().len() ==>
                #[trigger] final(self).limiters()[i] == old(self).limiters()[i].after_release(now, true),
            final(self).config() == old(self).config(),
            final(self).counters() == old(self).counters(),
    {
        self.release_all(now, true)
    }

    /// As `process_pending_updates_at`, at the instant the clock reads.
    pub fn process_pending_updates(&mut self) -> (r: Vec<(ItemId, UpdateType, UpdateData)>)
        requires
            old(self).wf(),
        ensures
            exists|now: u64| {
                &&& keyed(r@) == #[trigger] released_all(old(self).limiters(), now, false)
                &&& forall|i: int| 0 <= i < old(self).limiters().len() ==>
                    #[trigger] final(self).limiters()[i] == old(self).limiters()[i].after_release(now, false)
            },
            final(self).wf(),
            final(self).limiters().len() == old(self).limiters().len(),
            final(self).config() == old(self).config(),
    {
        self.process_pending_updates_at(now_millis())
    }

    /// As `flush_pending_updates_at`, at the instant the clock reads.
    pub fn flush_pending_updates(&mut self) -> (r: Vec<(ItemId, UpdateType, UpdateData)>)
        requires
            old(self).wf(),
        ensures
            exists|now: u64| {
                &&& keyed(r@) == #[trigger] released_all(old(self).limiters(), now, true)
                &&& forall|i: int| 0 <= i < old(self).limiters().len() ==>
                    #[trigger] final(self).limiters()[i] == old(self).limiters()[i].after_release(now, true)
            },
            final(self).wf(),
            final(self).limiters().len() == old(self).limiters().len(),
            forall|i: int, k: UpdateType| 0 <= i < final(self).limiters().len()
                ==> #[trigger] final(self).limiters()[i].pending(k) is None,
    {
        let now = now_millis();
        let r = self.flush_pending_updates_at(now);
        proof {
            assert forall|i: int, k: UpdateType| 0 <= i < self.limiters().len()
                implies #[trigger] self.limiters()[i].pending(k) is None by {
                assert(self.limiters()[i] == old(self).limiters()[i].after_release(now, true));
            }
        }
        r
    }

    /// Number of waiting updates over all items, held at `usize::MAX`.
    pub fn total_pending_count(&self) -> (r: usize)
        ensures
            r == if pending_sum(self.limiters()) <= usize::MAX { pending_sum(self.limiters()) } else { usize::MAX as nat },
    {
        let mut acc: usize = 0;
        let mut i: usize = 0;
        while i < self.item_limiters.len()
            invariant
                i <= self.limiters().len(),
                acc == if pending_sum(self.limiters().take(i as int)) <= usize::MAX {
                    pending_sum(self.limiters().take(i as int))
                } else {
                    usize::MAX as nat
                },
            decreases self.limiters().len() - i,
        {
            let n = self.item_limiters[i].pending_count();
            proof {
                assert(self.limiters().take(i as int + 1).drop_last() =~= self.limiters().take(i as int));
            }
            acc = acc.saturating_add(n);
            i = i + 1;
        }
        proof {
            assert(self.limiters().take(i as int) =~= self.limiters());
        }
        acc
    }

    /// The counters, with the number of items and of waiting updates filled
    /// in.
    pub fn get_stats(&self) -> (r: RateLimitStats)
        ensures
            r.total_updates_received == self.counters().total_updates_received,
            r.updates_allowed_immediately == self.counters().updates_allowed_immediately,
            r.updates_rate_limited == self.counters().updates_rate_limited,
            r.updates_dropped_obsolete == self.counters().updates_dropped_obsolete,
            r.active_items == self.limiters().len(),
            r.total_pending_updates == if pending_sum(self.limiters()) <= usize::MAX {
                pending_sum(self.limiters())
            } else {
                usize::MAX as nat
            },
    {
        let mut stats = self.stats;
        stats.active_items = self.item_limiters.len() as u64;
        stats.total_pending_updates = self.total_pending_count() as u64;
        stats
    }

    pub fn get_config(&self) -> (r: &RateLimitConfig)
        ensures
            *r == self.config(),
    {
        &self.config
    }

    pub fn update_config(&mut self, config: RateLimitConfig)
        ensures
            final(self).config() == config,
            final(self).limiters() == old(self).limiters(),
            final(self).eviction_timeout() == old(self).eviction_timeout(),
            final(self).cleanup_interval() == old(self).cleanup_interval(),
            final(self).last_cleanup() == old(self).last_cleanup(),
            final(self).counters() == old(self).counters(),
    {
        self.config = config;
    }

    pub fn item_count(&self) -> (r: usize)
        ensures
            r == self.limiters().len(),
    {
        self.item_limiters.len()
    }

    pub fn is_tracking(&self, item_id: &ItemId) -> (r: bool)
        requires
            self.wf(),
        ensures
            r == self.tracks(item_id.key()),
    {
        self.find(item_id).is_some()
    }

    /// Number of waiting updates of `item_id`; zero for an item not tracked.
    pub fn pending_count_for_item(&self, item_id: &ItemId) -> (r: usize)
        requires
            self.wf(),
        ensures
            !self.tracks(item_id.key()) ==> r == 0,
            forall|i: int| #[trigger] self.at(i, item_id.key()) ==> r == self.limiters()[i].pending_total(),
    {
        match self.find(item_id) {
            Some(i) => {
                let r = self.item_limiters[i].pending_count();
                proof {
                    assert forall|j: int| #[trigger] self.at(j, item_id.key()) implies j == i by {
                        if j < i {
                            assert(self.limiters()[j].item_id.key() != self.limiters()[i as int].item_id.key());
                        } else if j > i {
                            assert(self.limiters()[i as int].item_id.key() != self.limiters()[j].item_id.key());
                        }
                    }
                }
                r
            },
            None => 0,
        }
    }

    /// Stops tracking `item_id`; says whether it was tracked.
    pub fn evict_item(&mut self, item_id: &ItemId) -> (r: bool)
        requires
            old(self).wf(),
        ensures
            final(self).wf(),
            r == old(self).tracks(item_id.key()),
            !final(self).tracks(item_id.key()),
            r ==> exists|i: int| #[trigger] old(self).at(i, item_id.key())
                && final(self).limiters() == old(self).limiters().remove(i),
            !r ==> final(self).limiters() == old(self).limiters(),
            final(self).config() == old(self).config(),
            final(self).counters() == old(self).counters(),
    {
        match self.find(item_id) {
            Some(i) => {
                let _gone = self.item_limiters.remove(i);
                proof {
                    let s0 = old(self).limiters();
                    assert(self.limiters() =~= s0.remove(i as int));
                    assert(old(self).at(i as int, item_id.key()));
                    assert forall|a: int, b: int| 0 <= a < b < self.limiters().len() implies
                        #[trigger] self.limiters()[a].item_id.key() != #[trigger] self.limiters()[b].item_id.key() by {
                        let a0 = if a < i { a } else { a + 1 };
                        let b0 = if b < i { b } else { b + 1 };
                        assert(self.limiters()[a] == s0[a0]);
                        assert(self.limiters()[b] == s0[b0]);
                    }
                    assert forall|j: int| 0 <= j < self.limiters().len() implies
                        #[trigger] self.limiters()[j].item_id.key() != item_id.key() by {
                        let j0 = if j < i { j } else { j + 1 };
                        assert(self.limiters()[j] == s0[j0]);
                        if j0 < i {
                            assert(s0[j0].item_id.key() != s0[i as int].item_id.key());
                        } else {
                            assert(s0[i as int].item_id.key() != s0[j0].item_id.key());
                        }
                    }
                }
                true
            },
            None => false,
        }
    }

    /// Evicts, at `now`, every item with no submission for longer than the
    /// eviction timeout, and restarts the cleanup clock.
    pub fn cleanup_at(&mut self, now: u64)
        requires
            old(self).wf(),
        ensures
            final(self).wf(),
            final(self).limiters() == kept(old(self).limiters(), old(self).eviction_timeout(), now),
            final(self).last_cleanup() == now,
            final(self).config() == old(self).config(),
            final(self).eviction_timeout() == old(self).eviction_timeout(),
            final(self).cleanup_interval() == old(self).cleanup_interval(),
            final(self).counters() == old(self).counters(),
    {
        let timeout = self.eviction_timeout;
        let mut rest: Vec<ItemRateLimiter<ItemId, UpdateData>> = Vec::new();
        std::mem::swap(&mut rest, &mut self.item_limiters);
        let ghost s0 = rest@;
        let ghost n: int = 0;
        while rest.len() > 0
            invariant
                0 <= n <= s0.len(),
                rest@ == s0.skip(n),
                self.item_limiters@ == kept(s0.take(n), timeout, now),
                forall|a: int| 0 <= a < self.item_limiters@.len() ==>
                    exists|j: int| 0 <= j < n && #[trigger] self.item_limiters@[a] == s0[j],
                forall|a: int, b: int| 0 <= a < b < self.item_limiters@.len() ==>
                    #[trigger] self.item_limiters@[a].item_id.key() != #[trigger] self.item_limiters@[b].item_id.key(),
                forall|i: int, j: int| 0 <= i < j < s0.len() ==>
                    #[trigger] s0[i].item_id.key() != #[trigger] s0[j].item_id.key(),
                self.config == old(self).config,
                self.eviction_timeout == timeout,
                self.cleanup_interval == old(self).cleanup_interval,
                self.stats == old(self).stats,
                timeout == old(self).eviction_timeout,
                s0 == old(self).item_limiters@,
            decreases rest@.len(),
        {
            let limiter = rest.remove(0);
            proof {
                assert(limiter == s0[n]);
                assert(s0.take(n + 1).drop_last() =~= s0.take(n));
                assert(s0.take(n + 1).last() == s0[n]);
            }
            if !limiter.should_evict_at(timeout, now) {
                let ghost before = self.item_limiters@;
                proof {
                    assert forall|a: int| 0 <= a < before.len() implies
                        #[trigger] before[a].item_id.key() != s0[n].item_id.key() by {
                        let j = choose|j: int| 0 <= j < n && before[a] == s0[j];
                        assert(s0[j].item_id.key() != s0[n].item_id.key());
                    }
                }
                self.item_limiters.push(limiter);
                proof {
                    assert forall|a: int| 0 <= a < self.item_limiters@.len() implies
                        exists|j: int| 0 <= j < n + 1 && #[trigger] self.item_limiters@[a] == s0[j] by {
                        if a < before.len() {
                            let j = choose|j: int| 0 <= j < n && before[a] == s0[j];
                            assert(self.item_limiters@[a] == s0[j]);
                        } else {
                            assert(self.item_limiters@[a] == s0[n]);
                        }
                    }
                }
            }
            proof {
                n = n + 1;
                assert(rest@ =~= s0.skip(n));
            }
        }
        proof {
            assert(s0.take(n) =~= s0);
        }
        self.last_cleanup = now;
    }

    /// Runs `cleanup_at` when the cleanup interval has passed since the last
    /// cleanup.
    pub fn maybe_cleanup_at(&mut self, now: u64)
        requires
            old(self).wf(),
        ensures
            final(self).wf(),
            elapsed(old(self).last_cleanup(), now) >= old(self).cleanup_interval().millis ==> {
                &&& final(self).limiters() == kept(old(self).limiters(), old(self).eviction_timeout(), now)
                &&& final(self).last_cleanup() == now
            },
            elapsed(old(self).last_cleanup(), now) < old(self).cleanup_interval().millis ==> {
                &&& final(self).limiters() == old(self).limiters()
                &&& final(self).last_cleanup() == old(self).last_cleanup()
            },
            final(self).config() == old(self).config(),
            final(self).eviction_timeout() == old(self).eviction_timeout(),
            final(self).cleanup_interval() == old(self).cleanup_interval(),
            final(self).counters() == old(self).counters(),
    {
        if elapsed_between(self.last_cleanup, now) >= self.cleanup_interval.millis {
            self.cleanup_at(now);
        }
    }

    /// As `cleanup_at`, at the instant the clock reads.
    pub fn cleanup(&mut self)
        requires
            old(self).wf(),
        ensures
            exists|now: u64| final(self).limiters() == #[trigger] kept(old(self).limiters(), old(self).eviction_timeout(), now),
            final(self).wf(),
            final(self).limiters().len() <= old(self).limiters().len(),
            final(self).config() == old(self).config(),
    {
        let now = now_millis();
        self.cleanup_at(now);
        proof {
            lemma_kept_len(old(self).limiters(), old(self).eviction_timeout(), now);
        }
    }

    /// Submits an update at the instant the clock reads, as
    /// `process_update_at` does, then runs a cleanup when one is due.
    pub fn process_update(
        &mut self,
        item_id: ItemId,
        update_type: UpdateType,
        data: UpdateData,
    ) -> (r: RateLimitResult<UpdateData>)
        requires
            old(self).wf(),
        ensures
            final(self).wf(),
            exists|now: u64| (r is Allowed) == #[trigger] old(self).admits(item_id.key(), update_type, now),
            r == RateLimitResult::Allowed(data) || r == RateLimitResult::<UpdateData>::RateLimited,
            !old(self).tracks(item_id.key()) ==> r == RateLimitResult::Allowed(data),
            final(self).config() == old(self).config(),
            final(self).counters().total_updates_received == bump(old(self).counters().total_updates_received),
    {
        let now = now_millis();
        let ghost k = item_id.key();
        let r = self.process_update_at(item_id, update_type, data, now);
        proof {
            if old(self).tracks(k) {
                let i = choose|i: int| #[trigger] old(self).at(i, k) && {
                    &&& r == old(self).limiters()[i].submit_result(update_type, data, old(self).config(), now)
                    &&& self.limiters() == old(self).limiters().update(
                        i,
                        old(self).limiters()[i].after_submit(update_type, data, old(self).config(), now),
                    )
                };
                assert(r == RateLimitResult::Allowed(data) || r == RateLimitResult::<UpdateData>::RateLimited);
            }
        }
        self.maybe_cleanup_at(now);
        r
    }

    /// Forgets every item and zeroes the counters.
    pub fn clear_all(&mut self)
        ensures
            final(self).wf(),
            final(self).limiters().len() == 0,
            final(self).counters() == RateLimitStats::default_value(),
            final(self).config() == old(self).config(),
            final(self).eviction_timeout() == old(self).eviction_timeout(),
            final(self).cleanup_interval() == old(self).cleanup_interval(),
    {
        self.item_limiters.clear();
        self.stats = RateLimitStats::default();
    }
}

/// Cleanup never adds limiters.
pub proof fn lemma_kept_len<I, T>(s: Seq<ItemRateLimiter<I, T>>, timeout: Duration, now: u64)
    ensures
        kept(s, timeout, now).len() <= s.len(),
    decreases s.len(),
{
    if s.len() > 0 {
        lemma_kept_len(s.drop_last(), timeout, now);
    }
}


impl<ItemId: ItemKey, UpdateData> Default for RateLimitedStateManager<ItemId, UpdateData> {
    fn default() -> (r: RateLimitedStateManager<ItemId, UpdateData>)
        ensures
            r.wf(),
            r.limiters().len() == 0,
            r.counters() == RateLimitStats::default_value(),
    {
        RateLimitedStateManager::new()
    }
}

/// Collects the settings of a `RateLimitedStateManager` one at a time.
pub struct RateLimitedStateManagerBuilder<ItemId, UpdateData> {
    config: RateLimitConfig,
    eviction_timeout: Duration,
    cleanup_interval: Duration,
    _items: std::marker::PhantomData<(ItemId, UpdateData)>,
}

impl<ItemId: ItemKey, UpdateData> RateLimitedStateManagerBuilder<ItemId, UpdateData> {
    pub closed spec fn config(&self) -> RateLimitConfig {
        self.config
    }

    pub closed spec fn eviction_timeout(&self) -> Duration {
        self.eviction_timeout
    }

    pub closed spec fn cleanup_interval(&self) -> Duration {
        self.cleanup_interval
    }

    /// Default intervals, eviction after 300 s, cleanup every 30 s.
    pub fn new() -> (r: RateLimitedStateManagerBuilder<ItemId, UpdateData>)
        ensures
            r.config().position_interval.millis == 500,
            r.config().velocity_interval.millis == 1000,
            r.config().identification_interval.millis == 0,
            r.config().metadata_interval.millis == 5000,
            r.eviction_timeout().millis == 300_000,
            r.cleanup_interval().millis == 30_000,
    {
        RateLimitedStateManagerBuilder {
            config: RateLimitConfig::default(),
            eviction_timeout: Duration::from_secs(300),
            cleanup_interval: Duration::from_secs(30),
            _items: std::marker::PhantomData,
        }
    }

    pub fn with_rate_config(self, config: RateLimitConfig) -> (r: RateLimitedStateManagerBuilder<ItemId, UpdateData>)
        ensures
            r.config() == config,
            r.eviction_timeout() == self.eviction_timeout(),
            r.cleanup_interval() == self.cleanup_interval(),
    {
        let mut b = self;
        b.config = config;
        b
    }

    pub fn with_position_interval(self, interval: Duration) -> (r: RateLimitedStateManagerBuilder<ItemId, UpdateData>)
        ensures
            r.config() == (RateLimitConfig { position_interval: interval, ..self.config() }),
            r.eviction_timeout() == self.eviction_timeout(),
            r.cleanup_interval() == self.cleanup_interval(),
    {
        let mut b = self;
        b.config.position_interval = interval;
        b
    }

    pub fn with_velocity_interval(self, interval: Duration) -> (r: RateLimitedStateManagerBuilder<ItemId, UpdateData>)
        ensures
            r.config() == (RateLimitConfig { velocity_interval: interval, ..self.config() }),
            r.eviction_timeout() == self.eviction_timeout(),
            r.cleanup_interval() == self.cleanup_interval(),
    {
        let mut b = self;
        b.config.velocity_interval = interval;
        b
    }

    pub fn with_identification_interval(self, interval: Duration) -> (r: RateLimitedStateManagerBuilder<ItemId, UpdateData>)
        ensures
            r.config() == (RateLimitConfig { identification_interval: interval, ..self.config() }),
            r.eviction_timeout() == self.eviction_timeout(),
            r.cleanup_interval() == self.cleanup_interval(),
    {
        let mut b = self;
        b.config.identification_interval = interval;
        b
    }

    pub fn with_metadata_interval(self, interval: Duration) -> (r: RateLimitedStateManagerBuilder<ItemId, UpdateData>)
        ensures
            r.config() == (RateLimitConfig { metadata_interval: interval, ..self.config() }),
            r.eviction_timeout() == self.eviction_timeout(),
            r.cleanup_interval() == self.cleanup_interval(),
    {
        let mut b = self;
        b.config.metadata_interval = interval;
        b
    }

    pub fn with_eviction_timeout(self, timeout: Duration) -> (r: RateLimitedStateManagerBuilder<ItemId, UpdateData>)
        ensures
            r.config() == self.config(),
            r.eviction_timeout() == timeout,
            r.cleanup_interval() == self.cleanup_interval(),
    {
        let mut b = self;
        b.eviction_timeout = timeout;
        b
    }

    pub fn with_cleanup_interval(self, interval: Duration) -> (r: RateLimitedStateManagerBuilder<ItemId, UpdateData>)
        ensures
            r.config() == self.config(),
            r.eviction_timeout() == self.eviction_timeout(),
            r.cleanup_interval() == interval,
    {
        let mut b = self;
        b.cleanup_interval = interval;
        b
    }

    /// A manager with these settings and no items.
    pub fn build(self) -> (r: RateLimitedStateManager<ItemId, UpdateData>)
        ensures
            r.wf(),
            r.limiters().len() == 0,
            r.config() == self.config(),
            r.eviction_timeout() == self.eviction_timeout(),
            r.cleanup_interval() == self.cleanup_interval(),
            r.counters() == RateLimitStats::default_value(),
    {
        RateLimitedStateManager::with_config(self.config)
            .with_eviction_timeout(self.eviction_timeout)
            .with_cleanup_interval(self.cleanup_interval)
    }
}

impl<ItemId: ItemKey, UpdateData> Default for RateLimitedStateManagerBuilder<ItemId, UpdateData> {
    fn default() -> (r: RateLimitedStateManagerBuilder<ItemId, UpdateData>)
        ensures
            r.config().position_interval.millis == 500,
            r.eviction_timeout().millis == 300_000,
            r.cleanup_interval().millis == 30_000,
    {
        RateLimitedStateManagerBuilder::new()
    }
}

} // verus!

//! The two pending-notification queues: one for externally detected
//! follower changes, one for synthetically injected test events. Both are
//! append-only at the tail, evict expired items from the head, and are
//! merged — test queue first, then real queue, then residual live records —
//! for read access, de-duplicating by identity hash.
use vstd::prelude::*;

use crate::follower::views_of_followers;
use crate::follower::FollowerItem;
use crate::follower::FollowerItemView;

verus! {

/// How long a detected-change item stays queued, in milliseconds.
pub const REAL_QUEUE_EXPIRY_MS: u64 = 30000;

/// How long an injected test item stays queued, in milliseconds. The two
/// queues deliberately use different expiries: test notifications are only
/// inspected right after they are triggered, so they leave much sooner.
pub const TEST_QUEUE_EXPIRY_MS: u64 = 5000;

/// One queued pending notification: the follower record plus the instant
/// (milliseconds since the epoch) it was enqueued.
#[derive(Debug)]
pub struct RealFollowerQueueItem {
    pub follower: FollowerItem,
    pub created_at: u64,
}

/// Whether a queued item has outlived `expiry_ms` at instant `now_ms`.
pub open spec fn item_expired(item: RealFollowerQueueItem, expiry_ms: u64, now_ms: u64) -> bool {
    now_ms > item.created_at + expiry_ms
}

/// What head eviction leaves of a queue: items are popped from the front
/// while the front item is expired. Insertion is always at `now`, so a
/// queue is time-ordered and this removes exactly the expired items.
pub open spec fn drop_expired(
    q: Seq<RealFollowerQueueItem>,
    expiry_ms: u64,
    now_ms: u64,
) -> Seq<RealFollowerQueueItem>
    decreases q.len(),
{
    if q.len() > 0 && item_expired(q[0], expiry_ms, now_ms) {
        drop_expired(q.drop_first(), expiry_ms, now_ms)
    } else {
        q
    }
}

/// Whether a queue's items are in nondecreasing insertion-time order.
/// This holds of both pending queues, since items are always appended
/// stamped with the current instant.
pub open spec fn time_ordered(q: Seq<RealFollowerQueueItem>) -> bool {
    forall|i: int, j: int|
        0 <= i <= j < q.len() ==> #[trigger] q[i].created_at <= #[trigger] q[j].created_at
}

/// Expiry law: on a time-ordered queue, head eviction removes exactly the
/// expired items — what stays is the unexpired suffix, every dropped item
/// was expired, and every kept item is not.
pub proof fn lemma_eviction_exact(q: Seq<RealFollowerQueueItem>, expiry_ms: u64, now_ms: u64)
    requires
        time_ordered(q),
    ensures
        drop_expired(q, expiry_ms, now_ms).len() <= q.len(),
        drop_expired(q, expiry_ms, now_ms) == q.skip(
            q.len() - drop_expired(q, expiry_ms, now_ms).len(),
        ),
        forall|i: int|
            0 <= i < q.len() - drop_expired(q, expiry_ms, now_ms).len() ==> item_expired(
                #[trigger] q[i],
                expiry_ms,
                now_ms,
            ),
        forall|i: int|
            0 <= i < drop_expired(q, expiry_ms, now_ms).len() ==> !item_expired(
                #[trigger] drop_expired(q, expiry_ms, now_ms)[i],
                expiry_ms,
                now_ms,
            ),
    decreases q.len(),
{
    let kept = drop_expired(q, expiry_ms, now_ms);
    if q.len() > 0 && item_expired(q[0], expiry_ms, now_ms) {
        let rest = q.drop_first();
        assert(time_ordered(rest)) by {
            assert(forall|i: int| 0 <= i < rest.len() ==> #[trigger] rest[i] == q[i + 1]);
        }
        lemma_eviction_exact(rest, expiry_ms, now_ms);
        assert(kept == drop_expired(rest, expiry_ms, now_ms));
        assert(rest.skip(rest.len() - kept.len()) =~= q.skip(q.len() - kept.len()));
        assert forall|i: int|
            0 <= i < q.len() - kept.len() implies item_expired(q[i], expiry_ms, now_ms) by {
            if i > 0 {
                assert(q[i] == rest[i - 1]);
            }
        }
    } else {
        assert(kept == q);
        assert(q.skip(0) =~= q);
        if q.len() > 0 {
            assert forall|i: int|
                0 <= i < kept.len() implies !item_expired(kept[i], expiry_ms, now_ms) by {
                assert(q[0].created_at <= q[i].created_at);
            }
        }
    }
}

/// The follower views held by a queue, in queue order.
pub open spec fn followers_of(q: Seq<RealFollowerQueueItem>) -> Seq<FollowerItemView> {
    q.map_values(|it: RealFollowerQueueItem| it.follower@)
}

/// Whether some record in `s` carries the identity hash `id`.
pub open spec fn contains_id(s: Seq<FollowerItemView>, id: Seq<char>) -> bool {
    exists|i: int| 0 <= i < s.len() && s[i].user.user_id_hash == id
}

/// The first `n` records of `s` with every repeated identity hash dropped:
/// the first occurrence wins, in order.
pub open spec fn dedup_prefix(s: Seq<FollowerItemView>, n: int) -> Seq<FollowerItemView>
    decreases n,
{
    if n <= 0 {
        Seq::empty()
    } else {
        let pre = dedup_prefix(s, n - 1);
        if contains_id(pre, s[n - 1].user.user_id_hash) {
            pre
        } else {
            pre.push(s[n - 1])
        }
    }
}

/// `s` with every repeated identity hash dropped, first occurrence winning.
pub open spec fn dedup_by_id(s: Seq<FollowerItemView>) -> Seq<FollowerItemView> {
    dedup_prefix(s, s.len() as int)
}

/// The two independent pending-notification queues.
#[derive(Debug)]
pub struct PendingQueues {
    real: Vec<RealFollowerQueueItem>,
    test: Vec<RealFollowerQueueItem>,
}

impl PendingQueues {
    /// The detected-change queue, oldest first.
    pub closed spec fn real_items(&self) -> Seq<RealFollowerQueueItem> {
        self.real@
    }

    /// The injected-test queue, oldest first.
    pub closed spec fn test_items(&self) -> Seq<RealFollowerQueueItem> {
        self.test@
    }

    /// Two empty queues.
    pub fn new() -> (r: Self)
        ensures
            r.real_items() == Seq::<RealFollowerQueueItem>::empty(),
            r.test_items() == Seq::<RealFollowerQueueItem>::empty(),
    {
        PendingQueues { real: Vec::new(), test: Vec::new() }
    }

    /// Appends a detected follower change at instant `now_ms`.
    pub fn push_real(&mut self, follower: FollowerItem, now_ms: u64)
        ensures
            final(self).real_items() == old(self).real_items().push(
                RealFollowerQueueItem { follower, created_at: now_ms },
            ),
            final(self).test_items() == old(self).test_items(),
    {
        self.real.push(RealFollowerQueueItem { follower, created_at: now_ms });
    }

    /// Appends an injected test notification at instant `now_ms`.
    pub fn push_test(&mut self, follower: FollowerItem, now_ms: u64)
        ensures
            final(self).test_items() == old(self).test_items().push(
                RealFollowerQueueItem { follower, created_at: now_ms },
            ),
            final(self).real_items() == old(self).real_items(),
    {
        self.test.push(RealFollowerQueueItem { follower, created_at: now_ms });
    }

    /// Pops expired items from the front of both queues: detected changes
    /// after [`REAL_QUEUE_EXPIRY_MS`], test items after
    /// [`TEST_QUEUE_EXPIRY_MS`].
    pub fn evict_expired(&mut self, now_ms: u64)
        ensures
            final(self).real_items() == drop_expired(
                old(self).real_items(),
                REAL_QUEUE_EXPIRY_MS,
                now_ms,
            ),
            final(self).test_items() == drop_expired(
                old(self).test_items(),
                TEST_QUEUE_EXPIRY_MS,
                now_ms,
            ),
    {
        while self.real.len() > 0 && now_ms > REAL_QUEUE_EXPIRY_MS && self.real[0].created_at
            < now_ms - REAL_QUEUE_EXPIRY_MS
            invariant
                drop_expired(self.real@, REAL_QUEUE_EXPIRY_MS, now_ms) == drop_expired(
                    old(self).real_items(),
                    REAL_QUEUE_EXPIRY_MS,
                    now_ms,
                ),
                self.test@ == old(self).test_items(),
            decreases self.real.len(),
        {
            assert(item_expired(self.real@[0], REAL_QUEUE_EXPIRY_MS, now_ms));
            let ghost before = self.real@;
            self.real.remove(0);
            proof {
                assert(self.real@ =~= before.drop_first());
            }
        }
        assert(drop_expired(self.real@, REAL_QUEUE_EXPIRY_MS, now_ms) == self.real@);
        while self.test.len() > 0 && now_ms > TEST_QUEUE_EXPIRY_MS && self.test[0].created_at
            < now_ms - TEST_QUEUE_EXPIRY_MS
            invariant
                drop_expired(self.test@, TEST_QUEUE_EXPIRY_MS, now_ms) == drop_expired(
                    old(self).test_items(),
                    TEST_QUEUE_EXPIRY_MS,
                    now_ms,
                ),
                self.real@ == drop_expired(old(self).real_items(), REAL_QUEUE_EXPIRY_MS, now_ms),
            decreases self.test.len(),
        {
            assert(item_expired(self.test@[0], TEST_QUEUE_EXPIRY_MS, now_ms));
            let ghost before = self.test@;
            self.test.remove(0);
            proof {
                assert(self.test@ =~= before.drop_first());
            }
        }
        assert(drop_expired(self.test@, TEST_QUEUE_EXPIRY_MS, now_ms) == self.test@);
    }

    /// Merges both queues and the residual live records for read access:
    /// test queue first, then real queue, then any live-fetch record not
    /// already represented, de-duplicated by identity hash with the first
    /// occurrence winning.
    pub fn snapshot_combined(&self, live: &Vec<FollowerItem>) -> (r: Vec<FollowerItem>)
        ensures
            views_of_followers(r@) == dedup_by_id(
                followers_of(self.test_items()) + followers_of(self.real_items())
                    + views_of_followers(live@),
            ),
    {
        let ghost all = followers_of(self.test@) + followers_of(self.real@)
            + views_of_followers(live@);
        let mut out: Vec<FollowerItem> = Vec::new();
        let mut i: usize = 0;
        while i < self.test.len()
            invariant
                0 <= i <= self.test@.len(),
                all == followers_of(self.test@) + followers_of(self.real@)
                    + views_of_followers(live@),
                views_of_followers(out@) == dedup_prefix(all, i as int),
            decreases self.test.len() - i,
        {
            proof {
                assert(all[i as int] == self.test@[i as int].follower@);
            }
            if !vec_contains_id(&out, &self.test[i].follower.user.user_id_hash) {
                out.push(self.test[i].follower.clone());
                proof {
                    assert(views_of_followers(out@) =~= dedup_prefix(all, i as int).push(
                        all[i as int],
                    ));
                }
            }
            i = i + 1;
        }
        let ghost offset1: int = self.test@.len() as int;
        let mut j: usize = 0;
        while j < self.real.len()
            invariant
                0 <= j <= self.real@.len(),
                offset1 == self.test@.len(),
                all == followers_of(self.test@) + followers_of(self.real@)
                    + views_of_followers(live@),
                views_of_followers(out@) == dedup_prefix(all, offset1 + j as int),
            decreases self.real.len() - j,
        {
            proof {
                assert(all[offset1 + j as int] == self.real@[j as int].follower@);
            }
            if !vec_contains_id(&out, &self.real[j].follower.user.user_id_hash) {
                out.push(self.real[j].follower.clone());
                proof {
                    assert(views_of_followers(out@) =~= dedup_prefix(all, offset1 + j as int).push(
                        all[offset1 + j as int],
                    ));
                }
            }
            j = j + 1;
        }
        let ghost offset2: int = self.test@.len() as int + self.real@.len() as int;
        let mut k: usize = 0;
        while k < live.len()
            invariant
                0 <= k <= live@.len(),
                offset2 == self.test@.len() + self.real@.len(),
                all == followers_of(self.test@) + followers_of(self.real@)
                    + views_of_followers(live@),
                views_of_followers(out@) == dedup_prefix(all, offset2 + k as int),
            decreases live.len() - k,
        {
            proof {
                assert(all[offset2 + k as int] == live@[k as int]@);
            }
            if !vec_contains_id(&out, &live[k].user.user_id_hash) {
                out.push(live[k].clone());
                proof {
                    assert(views_of_followers(out@) =~= dedup_prefix(all, offset2 + k as int).push(
                        all[offset2 + k as int],
                    ));
                }
            }
            k = k + 1;
        }
        proof {
            assert(all.len() == offset2 + live@.len());
        }
        out
    }
}

/// Hands one poll cycle's detected events to the detected-change queue:
/// every event is appended in detection order, stamped `now_ms`. The
/// events themselves stay with the caller, which publishes them on the
/// bus after every lock is released.
pub fn queue_new_followers(queues: &mut PendingQueues, events: &Vec<FollowerItem>, now_ms: u64)
    ensures
        final(queues).test_items() == old(queues).test_items(),
        final(queues).real_items().len() == old(queues).real_items().len() + events@.len(),
        forall|i: int|
            0 <= i < old(queues).real_items().len() ==> final(queues).real_items()[i] == old(
                queues,
            ).real_items()[i],
        forall|i: int|
            0 <= i < events@.len() ==> {
                let it = final(queues).real_items()[old(queues).real_items().len() + i];
                it.follower@ == (#[trigger] events@[i])@ && it.created_at == now_ms
            },
{
    let mut i: usize = 0;
    while i < events.len()
        invariant
            0 <= i <= events@.len(),
            queues.test_items() == old(queues).test_items(),
            queues.real_items().len() == old(queues).real_items().len() + i,
            forall|k: int|
                0 <= k < old(queues).real_items().len() ==> queues.real_items()[k] == old(
                    queues,
                ).real_items()[k],
            forall|k: int|
                0 <= k < i ==> {
                    let it = queues.real_items()[old(queues).real_items().len() + k];
                    it.follower@ == (#[trigger] events@[k])@ && it.created_at == now_ms
                },
        decreases events.len() - i,
    {
        queues.push_real(events[i].clone(), now_ms);
        i = i + 1;
    }
}

/// Whether some record already collected in `v` carries the identity hash
/// `id`.
fn vec_contains_id(v: &Vec<FollowerItem>, id: &String) -> (r: bool)
    ensures
        r == contains_id(views_of_followers(v@), id@),
{
    let mut i: usize = 0;
    while i < v.len()
        invariant
            0 <= i <= v@.len(),
            forall|k: int| 0 <= k < i ==> views_of_followers(v@)[k].user.user_id_hash != id@,
        decreases v.len() - i,
    {
        if v[i].user.user_id_hash == *id {
            proof {
                assert(views_of_followers(v@)[i as int].user.user_id_hash == id@);
            }
            return true;
        }
        i = i + 1;
    }
    false
}

} // verus!

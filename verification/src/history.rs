//! Fixed-capacity history of compressed fingerprints for the followers seen
//! so far: membership testing by fingerprint hash, append with strict FIFO
//! eviction once the capacity is exceeded, and wholesale rebuilding from a
//! fresh snapshot.
use vstd::prelude::*;

use crate::fingerprint::fingerprint_of;
use crate::fingerprint::hash_identity;
use crate::fingerprint::id_hash_of;
use crate::fingerprint::CompressedFollower;
use crate::follower::str_eq;
use crate::follower::views_of_followers;
use crate::follower::FollowerItem;
use crate::follower::FollowerItemView;

verus! {

/// How many fingerprints the history store holds at most.
pub const HISTORY_CAPACITY: usize = 100;

/// Whether some fingerprint in `s` carries the identity digest `h`.
pub open spec fn has_hash(s: Seq<CompressedFollower>, h: u64) -> bool {
    exists|i: int| 0 <= i < s.len() && s[i].hash == h
}

/// What one append does to the store contents: the fingerprint goes to the
/// tail, and when the store is already full the oldest entry leaves first.
pub open spec fn store_insert(
    s: Seq<CompressedFollower>,
    fp: CompressedFollower,
) -> Seq<CompressedFollower> {
    if s.len() < HISTORY_CAPACITY {
        s.push(fp)
    } else {
        s.subrange(1, s.len() as int).push(fp)
    }
}

/// The store contents after rebuilding from the snapshot `s`: the
/// fingerprint of every record except the highlighted entity's, appended in
/// snapshot order through [`store_insert`].
pub open spec fn rebuilt_store(
    s: Seq<FollowerItemView>,
    highlight: Seq<char>,
    fallback_secs: u32,
) -> Seq<CompressedFollower>
    decreases s.len(),
{
    if s.len() == 0 {
        Seq::empty()
    } else {
        let pre = rebuilt_store(s.drop_last(), highlight, fallback_secs);
        if s.last().user.nickname == highlight {
            pre
        } else {
            store_insert(pre, fingerprint_of(s.last(), fallback_secs))
        }
    }
}

/// Bounded FIFO store of the fingerprints of previously-seen followers. The
/// distinguished highlighted entity is never stored here; it is tracked
/// separately by the change detector.
#[derive(Debug)]
pub struct HistoryStore {
    entries: Vec<CompressedFollower>,
}

impl View for HistoryStore {
    type V = Seq<CompressedFollower>;

    closed spec fn view(&self) -> Seq<CompressedFollower> {
        self.entries@
    }
}

impl HistoryStore {
    /// The store never holds more fingerprints than its capacity.
    pub open spec fn wf(&self) -> bool {
        self@.len() <= HISTORY_CAPACITY
    }

    /// An empty store.
    pub fn new() -> (r: Self)
        ensures
            r@ == Seq::<CompressedFollower>::empty(),
            r.wf(),
    {
        HistoryStore { entries: Vec::new() }
    }

    /// How many fingerprints the store currently holds.
    pub fn len(&self) -> (r: usize)
        ensures
            r == self@.len(),
    {
        self.entries.len()
    }

    /// Whether some stored fingerprint carries the digest `h`.
    pub fn contains_hash(&self, h: u64) -> (r: bool)
        ensures
            r == has_hash(self@, h),
    {
        let mut i: usize = 0;
        while i < self.entries.len()
            invariant
                0 <= i <= self.entries.len(),
                forall|k: int| 0 <= k < i ==> self.entries@[k].hash != h,
            decreases self.entries.len() - i,
        {
            if self.entries[i].hash == h {
                return true;
            }
            i = i + 1;
        }
        false
    }

    /// Membership test for a full record, by the digest of its identity
    /// hash.
    pub fn contains(&self, follower: &FollowerItem) -> (r: bool)
        ensures
            r == has_hash(self@, id_hash_of(follower@.user.user_id_hash)),
    {
        self.contains_hash(hash_identity(follower.user.user_id_hash.as_str()))
    }

    /// Appends a fingerprint; when the store is already at capacity, the
    /// oldest fingerprint is evicted first (strict FIFO: insertion order
    /// governs eviction).
    pub fn insert(&mut self, fp: CompressedFollower)
        requires
            old(self).wf(),
        ensures
            final(self)@ == store_insert(old(self)@, fp),
            final(self).wf(),
    {
        if self.entries.len() >= HISTORY_CAPACITY {
            self.entries.remove(0);
            assert(self.entries@ == old(self)@.subrange(1, old(self)@.len() as int));
        }
        self.entries.push(fp);
    }

    /// Clears the store and re-populates it from a full snapshot, skipping
    /// every record of the highlighted entity. Used when the observed
    /// follower count decreases, so the store stays consistent with reality
    /// without diffing departures one by one.
    pub fn rebuild(&mut self, records: &Vec<FollowerItem>, highlight: &str, now_secs: u32)
        ensures
            final(self)@ == rebuilt_store(views_of_followers(records@), highlight@, now_secs),
            final(self).wf(),
    {
        self.entries.clear();
        let ghost all = views_of_followers(records@);
        let mut i: usize = 0;
        while i < records.len()
            invariant
                0 <= i <= records.len(),
                all == views_of_followers(records@),
                self.entries@ == rebuilt_store(all.take(i as int), highlight@, now_secs),
                self.wf(),
            decreases records.len() - i,
        {
            let ghost pre = all.take(i as int);
            let ghost cur = all.take(i + 1 as int);
            proof {
                assert(cur.drop_last() =~= pre);
                assert(cur.last() == records@[i as int]@);
            }
            if !str_eq(records[i].user.nickname.as_str(), highlight) {
                let fp = CompressedFollower::from_follower(&records[i], now_secs);
                self.insert(fp);
            }
            i = i + 1;
        }
        proof {
            assert(all.take(records@.len() as int) =~= all);
        }
    }
}

/// The contents of a store that was filled, starting empty, by inserting
/// the fingerprints `fps` in order.
pub open spec fn inserted_all(fps: Seq<CompressedFollower>) -> Seq<CompressedFollower>
    decreases fps.len(),
{
    if fps.len() == 0 {
        Seq::empty()
    } else {
        store_insert(inserted_all(fps.drop_last()), fps.last())
    }
}

/// FIFO eviction law: after inserting any sequence of fingerprints into an
/// empty store, the store holds exactly the last `HISTORY_CAPACITY` of them
/// (all of them while they fit), oldest first — so it never exceeds the
/// capacity, and the earliest-inserted fingerprints are the ones that left.
pub proof fn lemma_store_keeps_newest(fps: Seq<CompressedFollower>)
    ensures
        fps.len() <= HISTORY_CAPACITY ==> inserted_all(fps) == fps,
        fps.len() > HISTORY_CAPACITY ==> inserted_all(fps) == fps.subrange(
            fps.len() - HISTORY_CAPACITY,
            fps.len() as int,
        ),
        inserted_all(fps).len() <= HISTORY_CAPACITY,
    decreases fps.len(),
{
    if fps.len() == 0 {
        assert(inserted_all(fps) =~= fps);
    } else {
        let pre = fps.drop_last();
        lemma_store_keeps_newest(pre);
        if fps.len() <= HISTORY_CAPACITY {
            assert(inserted_all(fps) =~= fps);
        } else if fps.len() == HISTORY_CAPACITY + 1 {
            assert(inserted_all(fps) =~= fps.subrange(
                fps.len() - HISTORY_CAPACITY,
                fps.len() as int,
            ));
        } else {
            assert(inserted_all(fps) =~= fps.subrange(
                fps.len() - HISTORY_CAPACITY,
                fps.len() as int,
            ));
        }
    }
}

/// Capacity law for distinct fingerprints: inserting `HISTORY_CAPACITY + 1`
/// fingerprints with pairwise-distinct digests into an empty store leaves
/// the earliest-inserted digest no longer a member, while every later one
/// still is.
pub proof fn lemma_oldest_evicted(fps: Seq<CompressedFollower>)
    requires
        fps.len() == HISTORY_CAPACITY + 1,
        forall|i: int, j: int|
            0 <= i < j < fps.len() ==> fps[i].hash != fps[j].hash,
    ensures
        !has_hash(inserted_all(fps), fps[0].hash),
        forall|i: int| 1 <= i < fps.len() ==> has_hash(inserted_all(fps), fps[i].hash),
{
    lemma_store_keeps_newest(fps);
    let out = inserted_all(fps);
    assert(out == fps.subrange(1, fps.len() as int));
    assert forall|i: int| 1 <= i < fps.len() implies has_hash(out, fps[i].hash) by {
        assert(out[i - 1] == fps[i]);
    }
}

} // verus!

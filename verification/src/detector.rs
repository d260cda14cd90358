//! The change detector: compares a freshly fetched snapshot against the
//! history store, classifies every record as new or still-known, tracks one
//! distinguished highlighted entity with time-windowed re-trigger dedup,
//! and rebuilds the history wholesale when the observed follower count
//! decreases.
use vstd::prelude::*;

use crate::fingerprint::fingerprint_of;
use crate::fingerprint::id_hash_of;
use crate::fingerprint::CompressedFollower;
use crate::follower::str_eq;
use crate::follower::views_of_followers;
use crate::follower::FollowerItem;
use crate::follower::FollowerItemView;
use crate::history::has_hash;
use crate::history::rebuilt_store;
use crate::history::store_insert;
use crate::history::HistoryStore;
use crate::history::HISTORY_CAPACITY;

verus! {

/// How long a confirmed sighting of the highlighted entity suppresses a
/// repeated "newly followed" event, in milliseconds.
pub const HIGHLIGHT_DEDUP_WINDOW_MS: u64 = 30000;

/// Whether a record belongs to the distinguished highlighted entity.
pub open spec fn is_highlight(f: FollowerItemView, highlight: Seq<char>) -> bool {
    f.user.nickname == highlight
}

/// Whether the highlighted entity appears anywhere in the snapshot.
pub open spec fn has_highlight(s: Seq<FollowerItemView>, highlight: Seq<char>) -> bool {
    exists|i: int| 0 <= i < s.len() && is_highlight(s[i], highlight)
}

/// Whether a sighting of the highlighted entity at `now_ms` fires a
/// "newly followed" event: it fires when the entity was not tracked at all,
/// or when the last confirmation lies at least the dedup window in the
/// past.
pub open spec fn highlight_fires(last_confirmed: Option<u64>, present: bool, now_ms: u64) -> bool {
    present && match last_confirmed {
        Option::Some(t) => now_ms >= t + HIGHLIGHT_DEDUP_WINDOW_MS,
        Option::None => true,
    }
}

/// The tracking timestamp after one poll cycle: cleared on absence, moved
/// to `now_ms` when the sighting fired, and left alone while a repeat
/// sighting is being suppressed.
pub open spec fn next_highlight_state(
    last_confirmed: Option<u64>,
    present: bool,
    now_ms: u64,
) -> Option<u64> {
    if !present {
        Option::None
    } else if highlight_fires(last_confirmed, present, now_ms) {
        Option::Some(now_ms)
    } else {
        last_confirmed
    }
}

/// The history contents after classifying the first `n` snapshot records:
/// every non-highlighted record whose identity digest was absent is
/// appended (with FIFO eviction at capacity), in snapshot order.
pub open spec fn detect_hist(
    h0: Seq<CompressedFollower>,
    s: Seq<FollowerItemView>,
    highlight: Seq<char>,
    fallback_secs: u32,
    n: int,
) -> Seq<CompressedFollower>
    decreases n,
{
    if n <= 0 {
        h0
    } else {
        let h = detect_hist(h0, s, highlight, fallback_secs, n - 1);
        let f = s[n - 1];
        if is_highlight(f, highlight) {
            h
        } else if has_hash(h, id_hash_of(f.user.user_id_hash)) {
            h
        } else {
            store_insert(h, fingerprint_of(f, fallback_secs))
        }
    }
}

/// The ordinary (non-highlighted) "newly followed" events of the first `n`
/// snapshot records, in detection order: exactly the records whose identity
/// digest was absent from the evolving history.
pub open spec fn detect_events(
    h0: Seq<CompressedFollower>,
    s: Seq<FollowerItemView>,
    highlight: Seq<char>,
    fallback_secs: u32,
    n: int,
) -> Seq<FollowerItemView>
    decreases n,
{
    if n <= 0 {
        Seq::empty()
    } else {
        let h = detect_hist(h0, s, highlight, fallback_secs, n - 1);
        let e = detect_events(h0, s, highlight, fallback_secs, n - 1);
        let f = s[n - 1];
        if is_highlight(f, highlight) {
            e
        } else if has_hash(h, id_hash_of(f.user.user_id_hash)) {
            e
        } else {
            e.push(f)
        }
    }
}

/// How many of the events carry the identity digest `h`.
pub open spec fn count_hash_events(evs: Seq<FollowerItemView>, h: u64) -> int
    decreases evs.len(),
{
    if evs.len() == 0 {
        0
    } else {
        count_hash_events(evs.drop_last(), h) + if id_hash_of(
            evs.last().user.user_id_hash,
        ) == h {
            1int
        } else {
            0int
        }
    }
}

/// Whether some non-highlighted record among the first `n` of the snapshot
/// carries the identity digest `h`.
pub open spec fn snapshot_offers(
    s: Seq<FollowerItemView>,
    highlight: Seq<char>,
    h: u64,
    n: int,
) -> bool {
    exists|i: int|
        0 <= i < n && !is_highlight(s[i], highlight) && id_hash_of(s[i].user.user_id_hash) == h
}

proof fn lemma_detect_exactly_once_upto(
    h0: Seq<CompressedFollower>,
    s: Seq<FollowerItemView>,
    highlight: Seq<char>,
    fallback_secs: u32,
    h: u64,
    n: int,
)
    requires
        0 <= n <= s.len(),
        h0.len() + n <= HISTORY_CAPACITY,
    ensures
        detect_hist(h0, s, highlight, fallback_secs, n).len() <= h0.len() + n,
        has_hash(detect_hist(h0, s, highlight, fallback_secs, n), h) == (has_hash(h0, h)
            || snapshot_offers(s, highlight, h, n)),
        count_hash_events(detect_events(h0, s, highlight, fallback_secs, n), h) == if !has_hash(
            h0,
            h,
        ) && snapshot_offers(s, highlight, h, n) {
            1int
        } else {
            0int
        },
    decreases n,
{
    if n <= 0 {
        assert(!snapshot_offers(s, highlight, h, 0));
    } else {
        lemma_detect_exactly_once_upto(h0, s, highlight, fallback_secs, h, n - 1);
        let hprev = detect_hist(h0, s, highlight, fallback_secs, n - 1);
        let eprev = detect_events(h0, s, highlight, fallback_secs, n - 1);
        let f = s[n - 1];
        let fh = id_hash_of(f.user.user_id_hash);
        assert(snapshot_offers(s, highlight, h, n) == (snapshot_offers(s, highlight, h, n - 1)
            || (!is_highlight(f, highlight) && fh == h))) by {
            if snapshot_offers(s, highlight, h, n) {
                let i = choose|i: int|
                    0 <= i < n && !is_highlight(s[i], highlight) && id_hash_of(
                        s[i].user.user_id_hash,
                    ) == h;
                if i < n - 1 {
                    assert(snapshot_offers(s, highlight, h, n - 1));
                }
            }
            if snapshot_offers(s, highlight, h, n - 1) {
                assert(snapshot_offers(s, highlight, h, n));
            }
        }
        if is_highlight(f, highlight) {
        } else if has_hash(hprev, fh) {
            lemma_detect_exactly_once_upto(h0, s, highlight, fallback_secs, fh, n - 1);
        } else {
            let fp = fingerprint_of(f, fallback_secs);
            assert(store_insert(hprev, fp) == hprev.push(fp));
            assert(has_hash(hprev.push(fp), h) == (has_hash(hprev, h) || fp.hash == h)) by {
                if has_hash(hprev, h) {
                    let i = choose|i: int| 0 <= i < hprev.len() && hprev[i].hash == h;
                    assert(hprev.push(fp)[i].hash == h);
                }
                if fp.hash == h {
                    assert(hprev.push(fp)[hprev.len() as int].hash == h);
                }
                if has_hash(hprev.push(fp), h) {
                    let i = choose|i: int|
                        0 <= i < hprev.push(fp).len() && hprev.push(fp)[i].hash == h;
                    if i < hprev.len() {
                        assert(has_hash(hprev, h));
                    }
                }
            }
            assert(eprev.push(f).drop_last() =~= eprev);
        }
    }
}

/// Exactly-once law for ordinary followers: over one poll cycle, an
/// identity digest that some non-highlighted snapshot record carries and
/// that was absent from the history store at the start of the cycle is
/// reported as newly followed exactly once, and a digest already in the
/// store (or offered by no record) is reported not at all. The bound on
/// `h0` keeps the store below capacity for the whole cycle, so no
/// fingerprint is evicted while the snapshot is still being classified.
pub proof fn lemma_new_follower_reported_once(
    h0: Seq<CompressedFollower>,
    s: Seq<FollowerItemView>,
    highlight: Seq<char>,
    fallback_secs: u32,
    h: u64,
)
    requires
        h0.len() + s.len() <= HISTORY_CAPACITY,
    ensures
        count_hash_events(
            detect_events(h0, s, highlight, fallback_secs, s.len() as int),
            h,
        ) == if !has_hash(h0, h) && snapshot_offers(s, highlight, h, s.len() as int) {
            1int
        } else {
            0int
        },
{
    lemma_detect_exactly_once_upto(h0, s, highlight, fallback_secs, h, s.len() as int);
}

/// One-newcomer law: when exactly one non-highlighted snapshot record
/// carries a digest absent from the history store — every other ordinary
/// record is already known — the cycle's ordinary events are exactly that
/// one record.
pub proof fn lemma_single_newcomer(
    h0: Seq<CompressedFollower>,
    s: Seq<FollowerItemView>,
    highlight: Seq<char>,
    fallback_secs: u32,
    j: int,
)
    requires
        h0.len() + s.len() <= HISTORY_CAPACITY,
        0 <= j < s.len(),
        !is_highlight(s[j], highlight),
        !has_hash(h0, id_hash_of(s[j].user.user_id_hash)),
        forall|i: int|
            0 <= i < s.len() && i != j && !is_highlight(s[i], highlight) ==> has_hash(
                h0,
                id_hash_of(#[trigger] s[i].user.user_id_hash),
            ),
    ensures
        detect_events(h0, s, highlight, fallback_secs, s.len() as int) == seq![s[j]],
{
    lemma_single_newcomer_upto(h0, s, highlight, fallback_secs, j, s.len() as int);
}

proof fn lemma_single_newcomer_upto(
    h0: Seq<CompressedFollower>,
    s: Seq<FollowerItemView>,
    highlight: Seq<char>,
    fallback_secs: u32,
    j: int,
    n: int,
)
    requires
        h0.len() + s.len() <= HISTORY_CAPACITY,
        0 <= j < s.len(),
        0 <= n <= s.len(),
        !is_highlight(s[j], highlight),
        !has_hash(h0, id_hash_of(s[j].user.user_id_hash)),
        forall|i: int|
            0 <= i < s.len() && i != j && !is_highlight(s[i], highlight) ==> has_hash(
                h0,
                id_hash_of(#[trigger] s[i].user.user_id_hash),
            ),
    ensures
        detect_events(h0, s, highlight, fallback_secs, n) == (if n <= j {
            Seq::<FollowerItemView>::empty()
        } else {
            seq![s[j]]
        }),
    decreases n,
{
    if n > 0 {
        lemma_single_newcomer_upto(h0, s, highlight, fallback_secs, j, n - 1);
        let hprev = detect_hist(h0, s, highlight, fallback_secs, n - 1);
        let f = s[n - 1];
        let fh = id_hash_of(f.user.user_id_hash);
        lemma_detect_exactly_once_upto(h0, s, highlight, fallback_secs, fh, n - 1);
        if n - 1 == j {
            assert(!has_hash(hprev, fh)) by {
                if snapshot_offers(s, highlight, fh, n - 1) {
                    let i = choose|i: int|
                        0 <= i < n - 1 && !is_highlight(s[i], highlight) && id_hash_of(
                            s[i].user.user_id_hash,
                        ) == fh;
                    assert(has_hash(h0, fh));
                }
            }
            assert(detect_events(h0, s, highlight, fallback_secs, n) =~= seq![s[j]]);
        } else if !is_highlight(f, highlight) {
            assert(has_hash(h0, fh));
            assert(has_hash(hprev, fh));
        }
    } else {
        assert(detect_events(h0, s, highlight, fallback_secs, 0) =~= Seq::<
            FollowerItemView,
        >::empty());
    }
}

/// Re-trigger dedup law for the highlighted entity: while it stays
/// tracked, a fresh sighting fires a "newly followed" event again exactly
/// when the gap since the last confirmation reaches the dedup window.
pub proof fn lemma_highlight_retrigger_window(last_confirmed: u64, now_ms: u64)
    ensures
        highlight_fires(Option::Some(last_confirmed), true, now_ms) <==> now_ms
            >= last_confirmed + HIGHLIGHT_DEDUP_WINDOW_MS,
{
}

/// Clearing law for the highlighted entity: one cycle of absence clears
/// the tracking timestamp, and a sighting while untracked always fires.
pub proof fn lemma_highlight_absence_resets(
    last_confirmed: Option<u64>,
    now_ms: u64,
    later_ms: u64,
)
    ensures
        next_highlight_state(last_confirmed, false, now_ms) is None,
        highlight_fires(Option::None, true, later_ms),
{
}

/// State of the change detector across poll cycles.
#[derive(Debug)]
pub struct ChangeDetector {
    /// Fingerprints of the previously-seen ordinary followers.
    pub history: HistoryStore,
    /// Display name of the distinguished highlighted entity.
    pub highlight: String,
    /// Last instant the highlighted entity was confirmed following, if it
    /// is currently tracked.
    pub highlight_last_seen: Option<u64>,
    /// Follower count observed by the previous cycle.
    pub last_count: usize,
    /// Whether a first successful snapshot has initialized the state.
    pub initialized: bool,
}

impl ChangeDetector {
    pub open spec fn wf(&self) -> bool {
        self.history.wf()
    }

    /// A detector that has seen no snapshot yet, for the entity named
    /// `highlight`.
    pub fn new(highlight: String) -> (r: Self)
        ensures
            r.wf(),
            !r.initialized,
            r.history@ == Seq::<CompressedFollower>::empty(),
            r.highlight@ == highlight@,
            r.highlight_last_seen is None,
            r.last_count == 0,
    {
        ChangeDetector {
            history: HistoryStore::new(),
            highlight,
            highlight_last_seen: Option::None,
            last_count: 0,
            initialized: false,
        }
    }

    /// One poll cycle against the snapshot fetched at `now_ms`
    /// (milliseconds since the epoch). The first successful snapshot only
    /// initializes the state and emits nothing. Afterwards, the
    /// highlighted entity fires by the dedup-window rule and every other
    /// absent record fires exactly once; a drop in the observed count
    /// rebuilds the history from the snapshot. Returned events are in
    /// detection order: the highlighted entity first, then ordinary
    /// records in snapshot order.
    pub fn process_snapshot(&mut self, snapshot: &Vec<FollowerItem>, now_ms: u64) -> (events: Vec<
        FollowerItem,
    >)
        requires
            old(self).wf(),
        ensures
            final(self).wf(),
            final(self).highlight@ == old(self).highlight@,
            final(self).initialized,
            final(self).last_count == snapshot@.len(),
            ({
                let s = views_of_followers(snapshot@);
                let hl = old(self).highlight@;
                let fb = (now_ms / 1000) as u32;
                if !old(self).initialized {
                    &&& final(self).history@ == rebuilt_store(s, hl, fb)
                    &&& final(self).highlight_last_seen == (if has_highlight(s, hl) {
                        Option::Some(now_ms)
                    } else {
                        Option::<u64>::None
                    })
                    &&& events@.len() == 0
                } else {
                    let fires = highlight_fires(
                        old(self).highlight_last_seen,
                        has_highlight(s, hl),
                        now_ms,
                    );
                    let h2 = detect_hist(old(self).history@, s, hl, fb, s.len() as int);
                    let evs = detect_events(old(self).history@, s, hl, fb, s.len() as int);
                    &&& final(self).highlight_last_seen == next_highlight_state(
                        old(self).highlight_last_seen,
                        has_highlight(s, hl),
                        now_ms,
                    )
                    &&& final(self).history@ == (if snapshot@.len() < old(self).last_count {
                        rebuilt_store(s, hl, fb)
                    } else {
                        h2
                    })
                    &&& (fires ==> exists|i: int|
                        0 <= i < s.len() && is_highlight(s[i], hl) && (forall|k: int|
                            0 <= k < i ==> !is_highlight(s[k], hl)) && views_of_followers(events@)
                            == seq![s[i]] + evs)
                    &&& (!fires ==> views_of_followers(events@) == evs)
                }
            }),
    {
        let fallback_secs: u32 = (now_ms / 1000) as u32;
        let ghost s = views_of_followers(snapshot@);
        let ghost hl = self.highlight@;
        if !self.initialized {
            self.history.rebuild(snapshot, self.highlight.as_str(), fallback_secs);
            let present = self.find_highlight(snapshot).is_some();
            self.highlight_last_seen = if present {
                Option::Some(now_ms)
            } else {
                Option::None
            };
            self.last_count = snapshot.len();
            self.initialized = true;
            return Vec::new();
        }
        let mut events: Vec<FollowerItem> = Vec::new();
        // Highlighted entity: time-windowed re-trigger dedup, tracked
        // outside the history store.
        let highlight_idx = self.find_highlight(snapshot);
        let ghost fires = highlight_fires(self.highlight_last_seen, has_highlight(s, hl), now_ms);
        let ghost mut witness_idx: int = 0;
        match highlight_idx {
            Option::Some(idx) => {
                proof {
                    assert(is_highlight(s[idx as int], hl));
                    witness_idx = idx as int;
                }
                let do_fire = match self.highlight_last_seen {
                    Option::Some(t) => now_ms >= HIGHLIGHT_DEDUP_WINDOW_MS && now_ms
                        - HIGHLIGHT_DEDUP_WINDOW_MS >= t,
                    Option::None => true,
                };
                assert(do_fire == fires);
                if do_fire {
                    events.push(snapshot[idx].clone());
                    self.highlight_last_seen = Option::Some(now_ms);
                }
            },
            Option::None => {
                proof {
                    assert(!has_highlight(s, hl));
                }
                self.highlight_last_seen = Option::None;
            },
        }
        let ghost head = views_of_followers(events@);
        proof {
            if fires {
                assert(head =~= seq![s[witness_idx]]);
            } else {
                assert(head =~= Seq::<FollowerItemView>::empty());
            }
        }
        let ghost h0 = self.history@;
        let ghost hls = self.highlight_last_seen;
        // Ordinary records: report and remember every identity absent from
        // the history store.
        let mut i: usize = 0;
        while i < snapshot.len()
            invariant
                0 <= i <= snapshot@.len(),
                s == views_of_followers(snapshot@),
                self.highlight@ == hl,
                self.initialized == old(self).initialized,
                self.last_count == old(self).last_count,
                self.highlight_last_seen == hls,
                self.history.wf(),
                self.history@ == detect_hist(h0, s, hl, fallback_secs, i as int),
                views_of_followers(events@) == head + detect_events(h0, s, hl, fallback_secs, i as int),
            decreases snapshot.len() - i,
        {
            proof {
                assert(s[i as int] == snapshot@[i as int]@);
            }
            if !str_eq(snapshot[i].user.nickname.as_str(), self.highlight.as_str()) {
                if !self.history.contains(&snapshot[i]) {
                    let fp = CompressedFollower::from_follower(&snapshot[i], fallback_secs);
                    self.history.insert(fp);
                    events.push(snapshot[i].clone());
                    proof {
                        assert(views_of_followers(events@) =~= (head + detect_events(
                            h0,
                            s,
                            hl,
                            fallback_secs,
                            i as int,
                        )).push(s[i as int]));
                        assert(head + detect_events(h0, s, hl, fallback_secs, i + 1 as int) =~= (
                        head + detect_events(h0, s, hl, fallback_secs, i as int)).push(
                            s[i as int],
                        ));
                    }
                }
            }
            i = i + 1;
        }
        proof {
            let n = snapshot@.len() as int;
            let evs = detect_events(h0, s, hl, fallback_secs, n);
            if fires {
                assert(highlight_idx is Some);
                assert(views_of_followers(events@) == seq![s[witness_idx]] + evs);
            } else {
                assert(head + evs =~= evs);
            }
        }
        // A lower observed count means departures: take the snapshot as
        // authoritative and rebuild the history wholesale.
        if snapshot.len() < self.last_count {
            self.history.rebuild(snapshot, self.highlight.as_str(), fallback_secs);
        }
        self.last_count = snapshot.len();
        events
    }

    /// The index of the first snapshot record belonging to the highlighted
    /// entity, if any.
    fn find_highlight(&self, snapshot: &Vec<FollowerItem>) -> (r: Option<usize>)
        ensures
            match r {
                Option::Some(i) => 0 <= i < snapshot@.len() && is_highlight(
                    views_of_followers(snapshot@)[i as int],
                    self.highlight@,
                ) && (forall|k: int|
                    0 <= k < i ==> !is_highlight(views_of_followers(snapshot@)[k], self.highlight@)),
                Option::None => !has_highlight(views_of_followers(snapshot@), self.highlight@),
            },
    {
        let mut i: usize = 0;
        while i < snapshot.len()
            invariant
                0 <= i <= snapshot@.len(),
                forall|k: int|
                    0 <= k < i ==> !is_highlight(
                        views_of_followers(snapshot@)[k],
                        self.highlight@,
                    ),
            decreases snapshot.len() - i,
        {
            proof {
                assert(views_of_followers(snapshot@)[i as int] == snapshot@[i as int]@);
            }
            if str_eq(snapshot[i].user.nickname.as_str(), self.highlight.as_str()) {
                return Option::Some(i);
            }
            i = i + 1;
        }
        Option::None
    }
}

} // verus!

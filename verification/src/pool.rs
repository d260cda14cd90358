//! The connection pool: tracks live subscriber connections, enforces a
//! maximum concurrent-connection count with eviction of the stalest
//! connection, tracks per-connection liveness, and sweeps stale
//! connections on a fixed interval. Change events are fanned out to every
//! pooled connection through the broadcast bus.
use vstd::prelude::*;

use crate::bus::bus_send;
use crate::bus::bus_subscribe;
use crate::bus::new_event_bus;
use crate::bus::WSMessage;
use crate::follower::str_eq;
use crate::follower::FollowerItem;

verus! {

/// How many connections the pool admits at most.
pub const CONNECTION_LIMIT: usize = 100;

/// How often the background sweep runs, in milliseconds.
pub const CLEANUP_INTERVAL_MS: u64 = 300000;

/// How long a connection may stay inactive before it counts as stale, in
/// milliseconds.
pub const CLIENT_TIMEOUT_MS: u64 = 600000;

/// One live subscriber connection: its identifier, subscribed topics, and
/// creation and last-activity instants (milliseconds since the epoch).
#[derive(Debug)]
pub struct WSClient {
    pub id: String,
    pub subscriptions: Vec<String>,
    pub connected_at: u64,
    pub last_activity: u64,
}

/// Whether a connection has been inactive for longer than `timeout_ms` at
/// instant `now_ms`.
pub open spec fn client_stale(c: WSClient, timeout_ms: u64, now_ms: u64) -> bool {
    now_ms > c.last_activity + timeout_ms
}

/// `c` with its last-activity instant moved to `now_ms`.
pub open spec fn touched(c: WSClient, now_ms: u64) -> WSClient {
    WSClient {
        id: c.id,
        subscriptions: c.subscriptions,
        connected_at: c.connected_at,
        last_activity: now_ms,
    }
}

impl WSClient {
    /// A fresh connection, subscribed to the one implicit topic and active
    /// now.
    pub fn new(id: String, now_ms: u64) -> (r: Self)
        ensures
            r.id == id,
            r.subscriptions@.len() == 1,
            r.subscriptions@[0]@ == "followers"@,
            r.connected_at == now_ms,
            r.last_activity == now_ms,
    {
        let mut subscriptions: Vec<String> = Vec::new();
        subscriptions.push(String::from_str("followers"));
        WSClient { id, subscriptions, connected_at: now_ms, last_activity: now_ms }
    }

    /// Records inbound or outbound traffic on this connection.
    pub fn update_activity(&mut self, now_ms: u64)
        ensures
            *final(self) == touched(*old(self), now_ms),
    {
        self.last_activity = now_ms;
    }

    /// Whether this connection counts as stale at `now_ms`.
    pub fn is_stale(&self, timeout_ms: u64, now_ms: u64) -> (r: bool)
        ensures
            r == client_stale(*self, timeout_ms, now_ms),
    {
        now_ms > timeout_ms && self.last_activity < now_ms - timeout_ms
    }
}

/// Whether any connection in `s` carries the identifier `id`.
pub open spec fn pool_has_id(s: Seq<WSClient>, id: Seq<char>) -> bool {
    exists|i: int| 0 <= i < s.len() && s[i].id@ == id
}

/// Pairwise-distinct connection identifiers.
pub open spec fn ids_unique(s: Seq<WSClient>) -> bool {
    forall|i: int, j: int| 0 <= i < j < s.len() ==> s[i].id@ != s[j].id@
}

/// The first index of a connection with the minimal last-activity instant:
/// the stalest connection of the pool.
pub open spec fn oldest_idx(s: Seq<WSClient>) -> int
    decreases s.len(),
{
    if s.len() <= 1 {
        0
    } else {
        let r = oldest_idx(s.drop_last());
        if s.last().last_activity < s[r].last_activity {
            s.len() - 1
        } else {
            r
        }
    }
}

/// What the sweep leaves of the pool: every connection that is not stale,
/// in order.
pub open spec fn retained(s: Seq<WSClient>, timeout_ms: u64, now_ms: u64) -> Seq<WSClient>
    decreases s.len(),
{
    if s.len() == 0 {
        s
    } else {
        let pre = retained(s.drop_last(), timeout_ms, now_ms);
        if client_stale(s.last(), timeout_ms, now_ms) {
            pre
        } else {
            pre.push(s.last())
        }
    }
}

/// Every identifier of the sweep's result already appears in the input, so
/// the sweep keeps identifiers pairwise distinct and never grows the pool.
proof fn lemma_retained_ids(s: Seq<WSClient>, timeout_ms: u64, now_ms: u64)
    ensures
        retained(s, timeout_ms, now_ms).len() <= s.len(),
        forall|k: int|
            0 <= k < retained(s, timeout_ms, now_ms).len() ==> s.contains(
                #[trigger] retained(s, timeout_ms, now_ms)[k],
            ),
        ids_unique(s) ==> ids_unique(retained(s, timeout_ms, now_ms)),
    decreases s.len(),
{
    if s.len() == 0 {
    } else {
        let pre = s.drop_last();
        lemma_retained_ids(pre, timeout_ms, now_ms);
        let rp = retained(pre, timeout_ms, now_ms);
        let r = retained(s, timeout_ms, now_ms);
        assert(forall|m: int| 0 <= m < pre.len() ==> pre[m] == #[trigger] s[m]);
        assert forall|k: int| 0 <= k < rp.len() implies s.contains(rp[k]) by {
            assert(pre.contains(rp[k]));
            let m = choose|m: int| 0 <= m < pre.len() && pre[m] == rp[k];
            assert(s[m] == rp[k]);
        }
        if !client_stale(s.last(), timeout_ms, now_ms) {
            assert(forall|k: int| 0 <= k < rp.len() ==> #[trigger] r[k] == rp[k]);
            assert(r[r.len() - 1] == s[s.len() - 1]);
            assert(s.contains(s[s.len() - 1]));
            if ids_unique(s) {
                assert(ids_unique(pre));
                assert forall|i: int, j: int| 0 <= i < j < r.len() implies r[i].id@ != r[j].id@ by {
                    if j < r.len() - 1 {
                        assert(rp[i].id@ != rp[j].id@);
                    } else {
                        let m = choose|m: int| 0 <= m < pre.len() && pre[m] == rp[i];
                        assert(s[m].id@ != s[s.len() - 1].id@);
                    }
                }
            }
        } else {
            if ids_unique(s) {
                assert(ids_unique(pre));
            }
        }
    }
}

/// The stalest connection is no more recently active than any other.
proof fn lemma_oldest_idx(s: Seq<WSClient>)
    requires
        s.len() > 0,
    ensures
        0 <= oldest_idx(s) < s.len(),
        forall|k: int|
            0 <= k < s.len() ==> s[oldest_idx(s)].last_activity <= #[trigger] s[k].last_activity,
    decreases s.len(),
{
    if s.len() == 1 {
    } else {
        let pre = s.drop_last();
        lemma_oldest_idx(pre);
        assert(forall|m: int| 0 <= m < pre.len() ==> pre[m] == s[m]);
    }
}

/// The pool of live subscriber connections, plus the broadcast bus every
/// change event is published on.
pub struct WSConnectionPool {
    clients: Vec<WSClient>,
    connection_limit: usize,
    cleanup_interval_ms: u64,
    client_timeout_ms: u64,
    broadcast_tx: tokio::sync::broadcast::Sender<WSMessage>,
}

impl View for WSConnectionPool {
    type V = Seq<WSClient>;

    closed spec fn view(&self) -> Seq<WSClient> {
        self.clients@
    }
}

impl WSConnectionPool {
    /// Connection identifiers stay pairwise distinct, the pool stays within
    /// its limit, and the configuration keeps the designed constants.
    pub open spec fn wf(&self) -> bool {
        &&& ids_unique(self@)
        &&& self@.len() <= CONNECTION_LIMIT
        &&& self.limit() == CONNECTION_LIMIT
        &&& self.timeout_ms() == CLIENT_TIMEOUT_MS
    }

    /// The configured connection limit.
    pub closed spec fn limit(&self) -> usize {
        self.connection_limit
    }

    /// The configured staleness timeout.
    pub closed spec fn timeout_ms(&self) -> u64 {
        self.client_timeout_ms
    }

    /// An empty pool with the designed limits, and a fresh bus.
    pub fn new() -> (r: Self)
        ensures
            r.wf(),
            r@ == Seq::<WSClient>::empty(),
    {
        WSConnectionPool {
            clients: Vec::new(),
            connection_limit: CONNECTION_LIMIT,
            cleanup_interval_ms: CLEANUP_INTERVAL_MS,
            client_timeout_ms: CLIENT_TIMEOUT_MS,
            broadcast_tx: new_event_bus(),
        }
    }

    /// The first position of the connection with identifier `client_id`,
    /// if it is pooled.
    fn find_index(&self, client_id: &str) -> (r: Option<usize>)
        ensures
            match r {
                Option::Some(i) => 0 <= i < self@.len() && self@[i as int].id@ == client_id@,
                Option::None => !pool_has_id(self@, client_id@),
            },
    {
        let mut i: usize = 0;
        while i < self.clients.len()
            invariant
                0 <= i <= self@.len(),
                forall|k: int| 0 <= k < i ==> self@[k].id@ != client_id@,
            decreases self.clients.len() - i,
        {
            if str_eq(self.clients[i].id.as_str(), client_id) {
                return Option::Some(i);
            }
            i = i + 1;
        }
        Option::None
    }

    /// Whether a connection with identifier `client_id` is pooled.
    pub fn has_client(&self, client_id: &str) -> (r: bool)
        ensures
            r == pool_has_id(self@, client_id@),
    {
        match self.find_index(client_id) {
            Option::Some(i) => {
                proof {
                    assert(pool_has_id(self@, client_id@));
                }
                true
            },
            Option::None => false,
        }
    }

    /// Admits a connection. Under the limit it is simply added; at the
    /// limit the stalest connection is evicted first when one has exceeded
    /// the staleness timeout; with the pool full of live connections the
    /// admission is refused.
    pub fn add_client(&mut self, client: WSClient, now_ms: u64) -> (r: Result<(), String>)
        requires
            old(self).wf(),
            !pool_has_id(old(self)@, client.id@),
        ensures
            final(self).wf(),
            ({
                let s = old(self)@;
                if s.len() < CONNECTION_LIMIT {
                    r is Ok && final(self)@ == s.push(client)
                } else if client_stale(s[oldest_idx(s)], CLIENT_TIMEOUT_MS, now_ms) {
                    r is Ok && final(self)@ == s.remove(oldest_idx(s)).push(client)
                } else {
                    r is Err && final(self)@ == s
                }
            }),
    {
        let ghost s = self@;
        if self.clients.len() < CONNECTION_LIMIT {
            self.clients.push(client);
            proof {
                assert forall|i: int, j: int|
                    0 <= i < j < self@.len() implies self@[i].id@ != self@[j].id@ by {
                    if j < self@.len() - 1 {
                        assert(s[i].id@ != s[j].id@);
                    } else {
                        assert(self@[j] == client);
                        assert(!pool_has_id(s, client.id@));
                        assert(s[i].id@ != client.id@);
                    }
                }
            }
            return Ok(());
        }
        let oldest = self.find_oldest_client();
        proof {
            lemma_oldest_idx(s);
        }
        if self.clients[oldest].is_stale(self.client_timeout_ms, now_ms) {
            self.clients.remove(oldest);
            self.clients.push(client);
            proof {
                let removed = s.remove(oldest_idx(s));
                assert(self@ == removed.push(client));
                assert(forall|k: int|
                    0 <= k < removed.len() ==> removed[k] == (if k < oldest_idx(s) {
                        s[k]
                    } else {
                        s[k + 1]
                    }));
                assert forall|i: int, j: int|
                    0 <= i < j < self@.len() implies self@[i].id@ != self@[j].id@ by {
                    if j < self@.len() - 1 {
                        assert(removed[i].id@ != removed[j].id@);
                    } else {
                        assert(removed[i].id@ != client.id@);
                    }
                }
            }
            Ok(())
        } else {
            proof {
                assert forall|k: int|
                    0 <= k < s.len() implies !client_stale(s[k], CLIENT_TIMEOUT_MS, now_ms) by {
                    assert(s[oldest_idx(s)].last_activity <= s[k].last_activity);
                }
            }
            Err(String::from_str("connection limit reached and no stale connection to evict"))
        }
    }

    /// The position of the stalest pooled connection: minimal last
    /// activity, earliest position on a tie.
    fn find_oldest_client(&self) -> (r: usize)
        requires
            self@.len() > 0,
        ensures
            r == oldest_idx(self@),
    {
        let mut best: usize = 0;
        let mut i: usize = 1;
        while i < self.clients.len()
            invariant
                self@.len() > 0,
                0 <= best < i <= self@.len(),
                best == oldest_idx(self@.take(i as int)),
            decreases self.clients.len() - i,
        {
            let ghost pre = self@.take(i as int);
            let ghost cur = self@.take(i + 1 as int);
            proof {
                assert(cur.drop_last() =~= pre);
                assert(cur.last() == self@[i as int]);
            }
            if self.clients[i].last_activity < self.clients[best].last_activity {
                best = i;
            }
            i = i + 1;
        }
        proof {
            assert(self@.take(self@.len() as int) =~= self@);
        }
        best
    }

    /// Forgets the connection with identifier `client_id`; nothing happens
    /// when it is not pooled, so removal is idempotent.
    pub fn remove_client(&mut self, client_id: &str)
        requires
            old(self).wf(),
        ensures
            final(self).wf(),
            pool_has_id(old(self)@, client_id@) ==> exists|j: int|
                0 <= j < old(self)@.len() && old(self)@[j].id@ == client_id@ && final(self)@
                    == old(self)@.remove(j),
            !pool_has_id(old(self)@, client_id@) ==> final(self)@ == old(self)@,
    {
        let ghost s = self@;
        match self.find_index(client_id) {
            Option::Some(j) => {
                self.clients.remove(j);
                proof {
                    let removed = s.remove(j as int);
                    assert(forall|k: int|
                        0 <= k < removed.len() ==> removed[k] == (if k < j {
                            s[k]
                        } else {
                            s[k + 1]
                        }));
                    assert(ids_unique(removed));
                    assert(pool_has_id(s, client_id@));
                }
            },
            Option::None => {},
        }
    }

    /// Moves the last-activity instant of the connection with identifier
    /// `client_id` to `now_ms`; nothing happens when it is not pooled.
    pub fn update_client_activity(&mut self, client_id: &str, now_ms: u64)
        requires
            old(self).wf(),
        ensures
            final(self).wf(),
            pool_has_id(old(self)@, client_id@) ==> exists|j: int|
                0 <= j < old(self)@.len() && old(self)@[j].id@ == client_id@ && final(self)@
                    == old(self)@.update(j, touched(old(self)@[j], now_ms)),
            !pool_has_id(old(self)@, client_id@) ==> final(self)@ == old(self)@,
    {
        let ghost s = self@;
        match self.find_index(client_id) {
            Option::Some(j) => {
                let mut c = self.clients.remove(j);
                c.update_activity(now_ms);
                self.clients.insert(j, c);
                proof {
                    assert(self@ =~= s.update(j as int, touched(s[j as int], now_ms)));
                    assert(ids_unique(self@)) by {
                        assert(forall|k: int|
                            0 <= k < self@.len() ==> self@[k].id@ == s[k].id@);
                    }
                    assert(pool_has_id(s, client_id@));
                }
            },
            Option::None => {},
        }
    }

    /// Removes every connection that has been inactive for longer than the
    /// staleness timeout at `now_ms`.
    pub fn cleanup_stale_clients(&mut self, now_ms: u64)
        requires
            old(self).wf(),
        ensures
            final(self).wf(),
            final(self)@ == retained(old(self)@, CLIENT_TIMEOUT_MS, now_ms),
    {
        let ghost s = self@;
        let mut i: usize = 0;
        let ghost mut processed: int = 0;
        while i < self.clients.len()
            invariant
                0 <= i <= self.clients@.len(),
                0 <= processed <= s.len(),
                self.clients@ =~= retained(s.take(processed), CLIENT_TIMEOUT_MS, now_ms) + s.skip(
                    processed,
                ),
                i as int == retained(s.take(processed), CLIENT_TIMEOUT_MS, now_ms).len(),
                self.connection_limit == CONNECTION_LIMIT,
                self.client_timeout_ms == CLIENT_TIMEOUT_MS,
            decreases self.clients.len() - i,
        {
            let ghost pre = s.take(processed);
            let ghost cur = s.take(processed + 1);
            let ghost a = retained(pre, CLIENT_TIMEOUT_MS, now_ms);
            let ghost b = s.skip(processed);
            proof {
                assert(cur.drop_last() =~= pre);
                assert(cur.last() == s[processed]);
                assert(b.len() > 0);
                assert(b[0] == s[processed]);
                assert(s.skip(processed + 1) =~= b.drop_first());
                assert(self.clients@[i as int] == s[processed]);
            }
            if self.clients[i].is_stale(self.client_timeout_ms, now_ms) {
                self.clients.remove(i);
                proof {
                    assert(retained(cur, CLIENT_TIMEOUT_MS, now_ms) == a);
                    assert(self.clients@ =~= a + b.drop_first());
                }
            } else {
                i = i + 1;
                proof {
                    assert(retained(cur, CLIENT_TIMEOUT_MS, now_ms) == a.push(s[processed]));
                    assert(self.clients@ =~= a.push(s[processed]) + b.drop_first());
                }
            }
            proof {
                processed = processed + 1;
            }
        }
        proof {
            assert(s.take(processed) =~= s);
            assert(s.skip(processed) =~= Seq::<WSClient>::empty());
            assert(self.clients@ =~= retained(s, CLIENT_TIMEOUT_MS, now_ms));
            lemma_retained_ids(s, CLIENT_TIMEOUT_MS, now_ms);
        }
    }

    /// How many connections are pooled.
    pub fn client_count(&self) -> (r: usize)
        ensures
            r == self@.len(),
    {
        self.clients.len()
    }

    /// Publishes a detected new-follower event on the bus for every
    /// current subscriber; delivery is best-effort and the pool itself is
    /// untouched.
    pub fn broadcast_new_follower(&self, follower: FollowerItem) {
        let msg = WSMessage::NewFollower { follower };
        let _ = bus_send(&self.broadcast_tx, msg);
    }

    /// Publishes an injected test notification on the bus.
    pub fn broadcast_test_notification(&self, follower: FollowerItem) {
        let msg = WSMessage::TestNotification { follower };
        let _ = bus_send(&self.broadcast_tx, msg);
    }

    /// Publishes a settings-changed payload on the bus, after the settings
    /// collaborator has persisted it.
    pub fn broadcast_settings_update(&self, settings: String) {
        let msg = WSMessage::SettingsUpdated { settings };
        let _ = bus_send(&self.broadcast_tx, msg);
    }

    /// A fresh bus subscription that sees every event published after this
    /// call.
    pub fn subscribe(&self) -> tokio::sync::broadcast::Receiver<WSMessage> {
        bus_subscribe(&self.broadcast_tx)
    }
}

} // verus!

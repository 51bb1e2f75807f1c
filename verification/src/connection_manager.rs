//! The WAL-receiver connection manager's state and decision rules: which
//! safekeeper to stream from, when a connection has gone stale, and how
//! reconnect attempts back off.
//!
//! All time values are plain milliseconds: timestamps are `i64` milliseconds
//! of wall-clock time, timeouts are `u64` milliseconds. The clock itself,
//! the broker stream and the streaming sub-task live outside this crate;
//! every decision between their events is taken here.

use vstd::prelude::*;

use crate::lsn::{Lsn, NodeId};

verus! {

/// Smallest reconnect backoff, in milliseconds.
pub const WALCONNECTION_RETRY_MIN_BACKOFF_MILLIS: u64 = 100;

/// Largest reconnect backoff, in milliseconds.
pub const WALCONNECTION_RETRY_MAX_BACKOFF_MILLIS: u64 = 15000;

/// A safekeeper's view of the timeline, as published through the broker.
#[derive(Clone, Debug, PartialEq, Eq)]
pub struct SafekeeperTimelineInfo {
    pub safekeeper_id: u64,
    pub last_log_term: u64,
    pub flush_lsn: u64,
    pub commit_lsn: u64,
    pub backup_lsn: u64,
    pub remote_consistent_lsn: u64,
    pub peer_horizon_lsn: u64,
    pub local_start_lsn: u64,
    pub safekeeper_connstr: String,
}

/// A broker record about one safekeeper, with the time it arrived.
#[derive(Clone, Debug, PartialEq, Eq)]
pub struct BrokerSkTimeline {
    pub timeline: SafekeeperTimelineInfo,
    /// When the broker last reported this safekeeper; stale entries are
    /// purged.
    pub latest_update: i64,
}

/// Reconnect bookkeeping for one safekeeper.
#[derive(Clone, Copy, Debug, PartialEq, Eq)]
pub struct RetryInfo {
    /// No new connection to this safekeeper before this time.
    pub next_retry_at: Option<i64>,
    /// The backoff that the next failure will schedule, in milliseconds.
    pub retry_duration_millis: u64,
}

/// What the streaming sub-task last reported about its connection.
#[derive(Clone, Copy, Debug, PartialEq, Eq)]
pub struct WalConnectionStatus {
    /// The TCP connection is up.
    pub is_connected: bool,
    /// Some WAL from this connection has been processed; the peer has
    /// proved itself healthy.
    pub has_processed_wal: bool,
    /// When the task last heard anything from the safekeeper.
    pub latest_connection_update: i64,
    /// When the task last received WAL.
    pub latest_wal_update: i64,
    /// How far the stream has come.
    pub streaming_lsn: Option<Lsn>,
    /// The safekeeper's commit position, as it reported it.
    pub commit_lsn: Option<Lsn>,
}

/// Newer WAL seen on another safekeeper while connected to this one.
#[derive(Clone, Copy, Debug, PartialEq, Eq)]
pub struct NewCommittedWAL {
    pub lsn: Lsn,
    pub discovered_at: i64,
}

/// The current streaming connection.
#[derive(Clone, Copy, Debug, PartialEq, Eq)]
pub struct WalConnection {
    /// When the connection was initiated.
    pub started_at: i64,
    /// The safekeeper it streams from.
    pub sk_id: NodeId,
    /// The sub-task's last status report.
    pub status: WalConnectionStatus,
    /// Newer WAL known to exist elsewhere, if any.
    pub discovered_new_wal: Option<NewCommittedWAL>,
}

/// Why the manager decided to connect elsewhere.
#[derive(Clone, Copy, Debug, PartialEq, Eq)]
pub enum ReconnectReason {
    NoExistingConnection,
    LaggingWal { current_commit_lsn: Lsn, new_commit_lsn: Lsn, threshold: u64 },
    NoWalTimeout {
        current_lsn: Lsn,
        current_commit_lsn: Lsn,
        candidate_commit_lsn: Lsn,
        last_wal_interaction: Option<i64>,
        check_time: i64,
        threshold_millis: u64,
    },
    NoKeepAlives { last_keep_alive: Option<i64>, check_time: i64, threshold_millis: u64 },
}

/// The safekeeper the manager decided to connect to, and why.
#[derive(Clone, Debug, PartialEq, Eq)]
pub struct NewWalConnectionCandidate {
    pub safekeeper_id: NodeId,
    pub wal_source_connstr: String,
    pub reason: ReconnectReason,
}

/// The timeline states the manager reacts to: it runs only while the
/// timeline is active and re-enters its wait whenever the timeline leaves
/// that state.
#[derive(Clone, Copy, Debug, PartialEq, Eq, Structural)]
pub enum TimelineState {
    Active,
    Broken,
    Stopping,
    Suspended,
}

/// Whether the manager may hold a streaming connection in this state.
pub fn timeline_allows_streaming(state: TimelineState) -> (r: bool)
    ensures
        r == (state is Active),
{
    matches!(state, TimelineState::Active)
}

/// The settings for a streaming connection to one safekeeper: its address,
/// the options naming the tenant and timeline, and the authentication token
/// as the password.
#[derive(Clone, Debug, PartialEq, Eq)]
pub struct PgConnectionConfig {
    pub host: String,
    pub port: u16,
    pub options: Vec<String>,
    pub password: Option<String>,
}

/// Assemble the streaming connection settings. The safekeeper's address has
/// already been split into host and optional port; a missing port falls back
/// to the Postgres default.
pub fn wal_stream_connection_config(
    tenant_id: String,
    timeline_id: String,
    host: String,
    port: Option<u16>,
    auth_token: Option<String>,
) -> (r: PgConnectionConfig)
    ensures
        r.host == host,
        r.port == match port {
            Some(p) => p,
            None => 5432u16,
        },
        r.options@.len() == 3,
        r.options@[0]@ == "-c"@,
        r.options@[1]@ == "timeline_id="@ + timeline_id@,
        r.options@[2]@ == "tenant_id="@ + tenant_id@,
        r.password == auth_token,
{
    let mut options: Vec<String> = Vec::new();
    options.push(String::from_str("-c"));
    let mut tl = String::from_str("timeline_id=");
    tl.append(timeline_id.as_str());
    options.push(tl);
    let mut tn = String::from_str("tenant_id=");
    tn.append(tenant_id.as_str());
    options.push(tn);
    PgConnectionConfig {
        host,
        port: match port {
            Some(p) => p,
            None => 5432,
        },
        options,
        password: auth_token,
    }
}

// ---------------------------------------------------------------------------
// Association lists keyed by node id
// ---------------------------------------------------------------------------
/// No node id occurs twice.
pub open spec fn unique_keys<T>(s: Seq<(NodeId, T)>) -> bool {
    forall|i: int, j: int| 0 <= i < j < s.len() ==> (#[trigger] s[i]).0 != (#[trigger] s[j]).0
}

/// Some entry carries this node id.
pub open spec fn has_key<T>(s: Seq<(NodeId, T)>, id: NodeId) -> bool {
    exists|i: int| 0 <= i < s.len() && (#[trigger] s[i]).0 == id
}

/// The index of this node id's entry (meaningful only when `has_key`).
pub open spec fn key_idx<T>(s: Seq<(NodeId, T)>, id: NodeId) -> int {
    choose|i: int| 0 <= i < s.len() && (#[trigger] s[i]).0 == id
}

/// The value stored for this node id (meaningful only when `has_key`).
pub open spec fn lookup<T>(s: Seq<(NodeId, T)>, id: NodeId) -> T {
    s[key_idx(s, id)].1
}

// ---------------------------------------------------------------------------
// The manager's state
// ---------------------------------------------------------------------------
/// All data the connection manager keeps between events.
pub struct WalreceiverState {
    /// Drop the connection when nothing is heard from the safekeeper for
    /// this long (milliseconds).
    pub wal_connect_timeout: u64,
    /// Broker entries older than this are purged; also the patience for a
    /// connection that stops yielding new WAL (milliseconds).
    pub lagging_wal_timeout: u64,
    /// Switch when another safekeeper's commit position is at least this far
    /// ahead (bytes; always at least one).
    pub max_lsn_wal_lag: u64,
    /// The current connection, if one is up.
    pub wal_connection: Option<WalConnection>,
    /// Reconnect bookkeeping per safekeeper.
    pub wal_connection_retries: Vec<(NodeId, RetryInfo)>,
    /// The broker's latest word on each safekeeper.
    pub wal_stream_candidates: Vec<(NodeId, BrokerSkTimeline)>,
    /// The timeline's last record position, used when the stream has not
    /// reported its own position yet.
    pub last_record_lsn: Lsn,
}

impl WalreceiverState {
    /// Internal consistency: both maps have unique keys, backoffs are within
    /// range, and the lag threshold is positive.
    pub open spec fn wf(&self) -> bool {
        &&& unique_keys(self.wal_connection_retries@)
        &&& unique_keys(self.wal_stream_candidates@)
        &&& self.max_lsn_wal_lag >= 1
        &&& forall|i: int|
            0 <= i < self.wal_connection_retries@.len() ==> (
            #[trigger] self.wal_connection_retries@[i]).1.retry_duration_millis
                <= WALCONNECTION_RETRY_MAX_BACKOFF_MILLIS
    }

    /// A fresh manager state: no connection, no candidates, no retries.
    pub fn new(
        wal_connect_timeout: u64,
        lagging_wal_timeout: u64,
        max_lsn_wal_lag: u64,
        last_record_lsn: Lsn,
    ) -> (r: WalreceiverState)
        requires
            max_lsn_wal_lag >= 1,
        ensures
            r.wal_connect_timeout == wal_connect_timeout,
            r.lagging_wal_timeout == lagging_wal_timeout,
            r.max_lsn_wal_lag == max_lsn_wal_lag,
            r.wal_connection is None,
            r.last_record_lsn == last_record_lsn,
            r.wal_connection_retries@.len() == 0,
            r.wal_stream_candidates@.len() == 0,
            r.wf(),
    {
        WalreceiverState {
            wal_connect_timeout,
            lagging_wal_timeout,
            max_lsn_wal_lag,
            wal_connection: None,
            wal_connection_retries: Vec::new(),
            wal_stream_candidates: Vec::new(),
            last_record_lsn,
        }
    }

    /// Record a broker update: the safekeeper's entry is replaced (or
    /// created), stamped with the time of receipt. Nothing else changes.
    #[verifier::loop_isolation(false)]
    pub fn register_timeline_update(&mut self, timeline_update: SafekeeperTimelineInfo, now: i64)
        requires
            old(self).wf(),
        ensures
            final(self).wf(),
            *final(self) == (WalreceiverState {
                wal_stream_candidates: final(self).wal_stream_candidates,
                ..*old(self)
            }),
            ({
                let id = NodeId(timeline_update.safekeeper_id);
                let entry = (id, BrokerSkTimeline { timeline: timeline_update, latest_update: now });
                if has_key(old(self).wal_stream_candidates@, id) {
                    final(self).wal_stream_candidates@ == old(self).wal_stream_candidates@.update(
                        key_idx(old(self).wal_stream_candidates@, id),
                        entry,
                    )
                } else {
                    final(self).wal_stream_candidates@ == old(self).wal_stream_candidates@.push(
                        entry,
                    )
                }
            }),
    {
        let id = NodeId(timeline_update.safekeeper_id);
        let entry = BrokerSkTimeline { timeline: timeline_update, latest_update: now };
        let n = self.wal_stream_candidates.len();
        let mut i: usize = 0;
        while i < n
            invariant
                old(self).wf(),
                *self == *old(self),
                n == self.wal_stream_candidates@.len(),
                i <= n,
                forall|j: int|
                    0 <= j < i ==> (#[trigger] self.wal_stream_candidates@[j]).0 != id,
            decreases n - i,
        {
            if self.wal_stream_candidates[i].0.0 == id.0 {
                proof {
                    let cands = self.wal_stream_candidates@;
                    assert(cands[i as int].0 == id);
                    assert(has_key(cands, id));
                    let k = key_idx(cands, id);
                    assert(0 <= k < cands.len() && cands[k].0 == id);
                    assert(k == i as int);
                }
                self.wal_stream_candidates[i] = (id, entry);
                proof {
                    lemma_update_preserves_unique(
                        old(self).wal_stream_candidates@,
                        i as int,
                        (id, entry),
                    );
                }
                return ;
            }
            i = i + 1;
        }
        proof {
            assert(!has_key(self.wal_stream_candidates@, id));
            lemma_push_fresh_preserves_unique(self.wal_stream_candidates@, (id, entry));
        }
        self.wal_stream_candidates.push((id, entry));
    }

    /// Take in a status report from the streaming sub-task. When the report
    /// says WAL from this safekeeper has been processed, its reconnect
    /// history is cleared: forward progress proves the peer healthy, and
    /// later failures start from a fresh backoff.
    pub fn observe_connection_status(&mut self, status: WalConnectionStatus)
        requires
            old(self).wf(),
            old(self).wal_connection is Some,
        ensures
            final(self).wf(),
            *final(self) == (WalreceiverState {
                wal_connection: final(self).wal_connection,
                wal_connection_retries: final(self).wal_connection_retries,
                ..*old(self)
            }),
            final(self).wal_connection == Some(
                (WalConnection { status, ..old(self).wal_connection->Some_0 }),
            ),
            ({
                let sk = old(self).wal_connection->Some_0.sk_id;
                if status.has_processed_wal {
                    &&& !has_key(final(self).wal_connection_retries@, sk)
                    &&& (if has_key(old(self).wal_connection_retries@, sk) {
                        final(self).wal_connection_retries@ == old(
                            self,
                        ).wal_connection_retries@.remove(
                            key_idx(old(self).wal_connection_retries@, sk),
                        )
                    } else {
                        final(self).wal_connection_retries@ == old(self).wal_connection_retries@
                    })
                } else {
                    final(self).wal_connection_retries@ == old(self).wal_connection_retries@
                }
            }),
    {
        let sk_id = match &self.wal_connection {
            Some(conn) => conn.sk_id,
            None => {
                proof {
                    assert(false);
                }
                NodeId(0)
            },
        };
        if status.has_processed_wal {
            remove_retry_entry(&mut self.wal_connection_retries, sk_id);
        }
        match &mut self.wal_connection {
            Some(conn) => {
                conn.status = status;
            },
            None => {
                proof {
                    assert(false);
                }
            },
        }
    }

    /// Drop the current connection and schedule the earliest next attempt to
    /// the same safekeeper: the attempt may not start before
    /// `started_at + backoff`, and the backoff itself grows by half, clamped
    /// to `[100ms, 15s]`. A connection that lived long puts its next retry
    /// in the past, which blocks nothing.
    pub fn drop_old_connection(&mut self)
        requires
            old(self).wf(),
        ensures
            final(self).wf(),
            *final(self) == (WalreceiverState {
                wal_connection: None,
                wal_connection_retries: final(self).wal_connection_retries,
                ..*old(self)
            }),
            match old(self).wal_connection {
                None => final(self).wal_connection_retries@ == old(self).wal_connection_retries@,
                Some(conn) => {
                    let prev = if has_key(old(self).wal_connection_retries@, conn.sk_id) {
                        lookup(old(self).wal_connection_retries@, conn.sk_id)
                    } else {
                        (RetryInfo {
                            next_retry_at: None,
                            retry_duration_millis: WALCONNECTION_RETRY_MIN_BACKOFF_MILLIS,
                        })
                    };
                    let upd = next_retry_info(conn.started_at, prev);
                    if has_key(old(self).wal_connection_retries@, conn.sk_id) {
                        final(self).wal_connection_retries@ == old(
                            self,
                        ).wal_connection_retries@.update(
                            key_idx(old(self).wal_connection_retries@, conn.sk_id),
                            (conn.sk_id, upd),
                        )
                    } else {
                        final(self).wal_connection_retries@ == old(
                            self,
                        ).wal_connection_retries@.push((conn.sk_id, upd))
                    }
                },
            },
    {
        let conn = match self.wal_connection.take() {
            Some(conn) => conn,
            None => {
                return ;
            },
        };
        let prev = match retries_position(&self.wal_connection_retries, conn.sk_id) {
            Some(i) => self.wal_connection_retries[i].1,
            None => RetryInfo {
                next_retry_at: None,
                retry_duration_millis: WALCONNECTION_RETRY_MIN_BACKOFF_MILLIS,
            },
        };
        // The next attempt may not start before the failed one's start plus
        // the current backoff.
        let next_retry_at = if conn.started_at <= i64::MAX - prev.retry_duration_millis as i64 {
            Some(conn.started_at + prev.retry_duration_millis as i64)
        } else {
            None
        };
        // Grow the backoff by half and clamp it.
        let grown = grow_backoff(prev.retry_duration_millis);
        let upd = RetryInfo { next_retry_at, retry_duration_millis: grown };
        proof {
            assert(upd == next_retry_info(conn.started_at, prev));
        }
        match retries_position(&self.wal_connection_retries, conn.sk_id) {
            Some(i) => {
                proof {
                    let rs = self.wal_connection_retries@;
                    assert(key_idx(rs, conn.sk_id) == i as int) by {
                        let k = key_idx(rs, conn.sk_id);
                        assert(0 <= k < rs.len() && rs[k].0 == conn.sk_id);
                    }
                    lemma_update_preserves_unique(rs, i as int, (conn.sk_id, upd));
                }
                self.wal_connection_retries[i] = (conn.sk_id, upd);
            },
            None => {
                proof {
                    lemma_push_fresh_preserves_unique(
                        self.wal_connection_retries@,
                        (conn.sk_id, upd),
                    );
                }
                self.wal_connection_retries.push((conn.sk_id, upd));
            },
        }
    }

    /// Purge safekeepers the broker has not mentioned within the lagging-WAL
    /// timeout, and the retry records that go with them: a safekeeper that
    /// disappears does not keep a cooldown for its return.
    #[verifier::loop_isolation(false)]
    pub fn cleanup_old_candidates(&mut self, now: i64)
        requires
            old(self).wf(),
        ensures
            final(self).wf(),
            *final(self) == (WalreceiverState {
                wal_connection_retries: final(self).wal_connection_retries,
                wal_stream_candidates: final(self).wal_stream_candidates,
                ..*old(self)
            }),
            final(self).wal_stream_candidates@ == keep_fresh(
                old(self).wal_stream_candidates@,
                now,
                old(self).lagging_wal_timeout,
            ),
            final(self).wal_connection_retries@ == keep_unstale_retries(
                old(self).wal_connection_retries@,
                old(self).wal_stream_candidates@,
                now,
                old(self).lagging_wal_timeout,
            ),
            forall|j: int|
                0 <= j < final(self).wal_stream_candidates@.len() ==> fresh_entry(
                    (#[trigger] final(self).wal_stream_candidates@[j]).1,
                    now,
                    old(self).lagging_wal_timeout,
                ),
            forall|j: int|
                0 <= j < final(self).wal_connection_retries@.len() ==> !stale_in(
                    old(self).wal_stream_candidates@,
                    (#[trigger] final(self).wal_connection_retries@[j]).0,
                    now,
                    old(self).lagging_wal_timeout,
                ),
    {
        let lag = self.lagging_wal_timeout;
        let ghost cands0 = self.wal_stream_candidates@;
        let ghost retries0 = self.wal_connection_retries@;
        // First drop the retry records whose candidate entry has gone stale;
        // the candidate map is still untouched here.
        let mut i: usize = self.wal_connection_retries.len();
        proof {
            assert(retries0.skip(i as int) =~= Seq::<(NodeId, RetryInfo)>::empty());
            assert(self.wal_connection_retries@ =~= retries0.take(i as int)
                + keep_unstale_retries(retries0.skip(i as int), cands0, now, lag));
        }
        while i > 0
            invariant
                i <= retries0.len(),
                self.wal_stream_candidates@ == cands0,
                self.wal_connection_retries@ == retries0.take(i as int) + keep_unstale_retries(
                    retries0.skip(i as int),
                    cands0,
                    now,
                    lag,
                ),
                self.wal_connection == old(self).wal_connection,
                self.wal_connect_timeout == old(self).wal_connect_timeout,
                self.lagging_wal_timeout == old(self).lagging_wal_timeout,
                self.max_lsn_wal_lag == old(self).max_lsn_wal_lag,
                self.last_record_lsn == old(self).last_record_lsn,
            decreases i,
        {
            let idx = i - 1;
            proof {
                assert(self.wal_connection_retries@[idx as int] == retries0[idx as int]);
                assert(retries0.skip(idx as int).drop_first() =~= retries0.skip(idx as int + 1));
                assert(retries0.skip(idx as int)[0] == retries0[idx as int]);
            }
            let id = self.wal_connection_retries[idx].0;
            if candidates_hold_stale(&self.wal_stream_candidates, id, now, lag) {
                self.wal_connection_retries.remove(idx);
                proof {
                    assert(self.wal_connection_retries@ =~= retries0.take(idx as int)
                        + keep_unstale_retries(retries0.skip(idx as int), cands0, now, lag));
                }
            } else {
                proof {
                    assert(self.wal_connection_retries@ =~= retries0.take(idx as int)
                        + keep_unstale_retries(retries0.skip(idx as int), cands0, now, lag));
                }
            }
            i = idx;
        }
        proof {
            assert(retries0.skip(0) =~= retries0);
            assert(self.wal_connection_retries@ =~= keep_unstale_retries(
                retries0,
                cands0,
                now,
                lag,
            ));
        }
        // Then drop the stale candidate entries themselves.
        let mut i: usize = self.wal_stream_candidates.len();
        proof {
            assert(cands0.skip(i as int) =~= Seq::<(NodeId, BrokerSkTimeline)>::empty());
            assert(self.wal_stream_candidates@ =~= cands0.take(i as int) + keep_fresh(
                cands0.skip(i as int),
                now,
                lag,
            ));
        }
        while i > 0
            invariant
                i <= cands0.len(),
                self.wal_stream_candidates@ == cands0.take(i as int) + keep_fresh(
                    cands0.skip(i as int),
                    now,
                    lag,
                ),
                self.wal_connection_retries@ == keep_unstale_retries(retries0, cands0, now, lag),
                self.wal_connection == old(self).wal_connection,
                self.wal_connect_timeout == old(self).wal_connect_timeout,
                self.lagging_wal_timeout == old(self).lagging_wal_timeout,
                self.max_lsn_wal_lag == old(self).max_lsn_wal_lag,
                self.last_record_lsn == old(self).last_record_lsn,
            decreases i,
        {
            let idx = i - 1;
            proof {
                assert(self.wal_stream_candidates@[idx as int] == cands0[idx as int]);
                assert(cands0.skip(idx as int).drop_first() =~= cands0.skip(idx as int + 1));
                assert(cands0.skip(idx as int)[0] == cands0[idx as int]);
            }
            let keep = entry_is_fresh(self.wal_stream_candidates[idx].1.latest_update, now, lag);
            if !keep {
                self.wal_stream_candidates.remove(idx);
                proof {
                    assert(self.wal_stream_candidates@ =~= cands0.take(idx as int) + keep_fresh(
                        cands0.skip(idx as int),
                        now,
                        lag,
                    ));
                }
            } else {
                proof {
                    assert(self.wal_stream_candidates@ =~= cands0.take(idx as int) + keep_fresh(
                        cands0.skip(idx as int),
                        now,
                        lag,
                    ));
                }
            }
            i = idx;
        }
        proof {
            assert(cands0.skip(0) =~= cands0);
            assert(self.wal_stream_candidates@ =~= keep_fresh(cands0, now, lag));
            lemma_keep_fresh_props(cands0, now, lag);
            lemma_keep_unstale_props(retries0, cands0, now, lag);
        }
    }

    /// How long to sleep until the earliest pending retry becomes due;
    /// nothing to wait for when no retry lies in the future.
    pub fn time_until_next_retry(&self, now: i64) -> (r: Option<u64>)
        requires
            self.wf(),
        ensures
            match r {
                Some(d) => exists|i: int|
                    0 <= i < self.wal_connection_retries@.len() && ((
                    #[trigger] self.wal_connection_retries@[i]).1.next_retry_at matches Some(t)
                        && t > now && d == t - now) && is_min_future_wait(
                        self.wal_connection_retries@,
                        now,
                        d as int,
                    ),
                None => forall|i: int|
                    0 <= i < self.wal_connection_retries@.len() ==> ((
                    #[trigger] self.wal_connection_retries@[i]).1.next_retry_at matches Some(t)
                        ==> t <= now),
            },
    {
        let n = self.wal_connection_retries.len();
        let mut best: Option<u64> = None;
        let mut i: usize = 0;
        while i < n
            invariant
                self.wf(),
                n == self.wal_connection_retries@.len(),
                i <= n,
                match best {
                    Some(d) => (exists|j: int|
                        0 <= j < i && ((#[trigger] self.wal_connection_retries@[j]).1.next_retry_at
                            matches Some(t) && t > now && d == t - now)) && (forall|k: int|
                        0 <= k < i ==> ((
                        #[trigger] self.wal_connection_retries@[k]).1.next_retry_at matches Some(t2)
                            ==> (t2 > now ==> t2 - now >= d))),
                    None => forall|k: int|
                        0 <= k < i ==> ((
                        #[trigger] self.wal_connection_retries@[k]).1.next_retry_at matches Some(t)
                            ==> t <= now),
                },
            decreases n - i,
        {
            if let Some(t) = self.wal_connection_retries[i].1.next_retry_at {
                if t > now {
                    let wait = ((t as i128) - (now as i128)) as u64;
                    proof {
                        assert(wait == t - now);
                    }
                    best = match best {
                        Some(d) => if wait < d {
                            Some(wait)
                        } else {
                            Some(d)
                        },
                        None => Some(wait),
                    };
                }
            }
            i = i + 1;
        }
        best
    }
}

// ---------------------------------------------------------------------------
// Purging stale broker records
// ---------------------------------------------------------------------------
/// A broker record is fresh while it is younger than the lagging-WAL
/// timeout (a record from the future counts as fresh).
pub open spec fn fresh_entry(e: BrokerSkTimeline, now: i64, lag: u64) -> bool {
    e.latest_update > now || now - e.latest_update < lag
}

/// The candidate entries that survive a purge, in order.
pub open spec fn keep_fresh(s: Seq<(NodeId, BrokerSkTimeline)>, now: i64, lag: u64) -> Seq<
    (NodeId, BrokerSkTimeline),
>
    decreases s.len(),
{
    if s.len() == 0 {
        s
    } else {
        let rest = keep_fresh(s.drop_first(), now, lag);
        if fresh_entry(s[0].1, now, lag) {
            seq![s[0]] + rest
        } else {
            rest
        }
    }
}

/// Whether the candidate map holds a stale entry for this node.
pub open spec fn stale_in(
    cands: Seq<(NodeId, BrokerSkTimeline)>,
    id: NodeId,
    now: i64,
    lag: u64,
) -> bool {
    exists|i: int|
        0 <= i < cands.len() && (#[trigger] cands[i]).0 == id && !fresh_entry(cands[i].1, now, lag)
}

/// The retry entries that survive a purge: one goes with its candidate.
pub open spec fn keep_unstale_retries(
    r: Seq<(NodeId, RetryInfo)>,
    cands: Seq<(NodeId, BrokerSkTimeline)>,
    now: i64,
    lag: u64,
) -> Seq<(NodeId, RetryInfo)>
    decreases r.len(),
{
    if r.len() == 0 {
        r
    } else {
        let rest = keep_unstale_retries(r.drop_first(), cands, now, lag);
        if stale_in(cands, r[0].0, now, lag) {
            rest
        } else {
            seq![r[0]] + rest
        }
    }
}

proof fn lemma_keep_fresh_props(s: Seq<(NodeId, BrokerSkTimeline)>, now: i64, lag: u64)
    requires
        unique_keys(s),
    ensures
        unique_keys(keep_fresh(s, now, lag)),
        forall|j: int|
            0 <= j < keep_fresh(s, now, lag).len() ==> fresh_entry(
                (#[trigger] keep_fresh(s, now, lag)[j]).1,
                now,
                lag,
            ),
        forall|id: NodeId| has_key(keep_fresh(s, now, lag), id) ==> has_key(s, id),
    decreases s.len(),
{
    if s.len() > 0 {
        let rest = s.drop_first();
        assert(unique_keys(rest)) by {
            assert(forall|i: int|
                0 <= i < rest.len() ==> (#[trigger] rest[i]) == s[i + 1]);
        }
        lemma_keep_fresh_props(rest, now, lag);
        let kr = keep_fresh(rest, now, lag);
        assert forall|id: NodeId| has_key(keep_fresh(s, now, lag), id) implies has_key(s, id) by {
            let kf = keep_fresh(s, now, lag);
            let w = choose|i: int| 0 <= i < kf.len() && (#[trigger] kf[i]).0 == id;
            if fresh_entry(s[0].1, now, lag) {
                if w == 0 {
                    assert(s[0].0 == id);
                } else {
                    assert(kf[w] == kr[w - 1]);
                    assert(has_key(kr, id));
                    assert(has_key(rest, id));
                    let v = choose|i: int| 0 <= i < rest.len() && (#[trigger] rest[i]).0 == id;
                    assert(rest[v] == s[v + 1]);
                    assert(s[v + 1].0 == id);
                }
            } else {
                assert(kf[w] == kr[w]);
                assert(has_key(kr, id));
                assert(has_key(rest, id));
                let v = choose|i: int| 0 <= i < rest.len() && (#[trigger] rest[i]).0 == id;
                assert(rest[v] == s[v + 1]);
                assert(s[v + 1].0 == id);
            }
        }
        if fresh_entry(s[0].1, now, lag) {
            let kf = keep_fresh(s, now, lag);
            assert(!has_key(rest, s[0].0)) by {
                assert(forall|i: int|
                    0 <= i < rest.len() ==> (#[trigger] rest[i]) == s[i + 1]);
            }
            assert(!has_key(kr, s[0].0));
            assert forall|i: int, j: int| 0 <= i < j < kf.len() implies (#[trigger] kf[i]).0 != (
            #[trigger] kf[j]).0 by {
                if i == 0 {
                    assert(kf[j] == kr[j - 1]);
                    assert(kf[0] == s[0]);
                    if kf[j].0 == s[0].0 {
                        assert(has_key(kr, s[0].0));
                    }
                } else {
                    assert(kf[i] == kr[i - 1] && kf[j] == kr[j - 1]);
                }
            }
        }
    }
}

proof fn lemma_keep_unstale_props(
    r: Seq<(NodeId, RetryInfo)>,
    cands: Seq<(NodeId, BrokerSkTimeline)>,
    now: i64,
    lag: u64,
)
    requires
        unique_keys(r),
    ensures
        unique_keys(keep_unstale_retries(r, cands, now, lag)),
        forall|j: int|
            0 <= j < keep_unstale_retries(r, cands, now, lag).len() ==> !stale_in(
                cands,
                (#[trigger] keep_unstale_retries(r, cands, now, lag)[j]).0,
                now,
                lag,
            ),
        forall|id: NodeId| has_key(keep_unstale_retries(r, cands, now, lag), id) ==> has_key(r, id),
        (forall|i: int|
            0 <= i < r.len() ==> (#[trigger] r[i]).1.retry_duration_millis
                <= WALCONNECTION_RETRY_MAX_BACKOFF_MILLIS) ==> (forall|j: int|
            0 <= j < keep_unstale_retries(r, cands, now, lag).len() ==> (
            #[trigger] keep_unstale_retries(r, cands, now, lag)[j]).1.retry_duration_millis
                <= WALCONNECTION_RETRY_MAX_BACKOFF_MILLIS),
    decreases r.len(),
{
    if r.len() > 0 {
        let rest = r.drop_first();
        assert(unique_keys(rest)) by {
            assert(forall|i: int| 0 <= i < rest.len() ==> (#[trigger] rest[i]) == r[i + 1]);
        }
        lemma_keep_unstale_props(rest, cands, now, lag);
        let kr = keep_unstale_retries(rest, cands, now, lag);
        let kf = keep_unstale_retries(r, cands, now, lag);
        assert forall|id: NodeId| has_key(kf, id) implies has_key(r, id) by {
            let w = choose|i: int| 0 <= i < kf.len() && (#[trigger] kf[i]).0 == id;
            if !stale_in(cands, r[0].0, now, lag) {
                if w == 0 {
                    assert(r[0].0 == id);
                } else {
                    assert(kf[w] == kr[w - 1]);
                    assert(has_key(kr, id));
                    assert(has_key(rest, id));
                    let v = choose|i: int| 0 <= i < rest.len() && (#[trigger] rest[i]).0 == id;
                    assert(rest[v] == r[v + 1]);
                    assert(r[v + 1].0 == id);
                }
            } else {
                assert(kf[w] == kr[w]);
                assert(has_key(kr, id));
                assert(has_key(rest, id));
                let v = choose|i: int| 0 <= i < rest.len() && (#[trigger] rest[i]).0 == id;
                assert(rest[v] == r[v + 1]);
                assert(r[v + 1].0 == id);
            }
        }
        if !stale_in(cands, r[0].0, now, lag) {
            assert(!has_key(rest, r[0].0)) by {
                assert(forall|i: int| 0 <= i < rest.len() ==> (#[trigger] rest[i]) == r[i + 1]);
            }
            assert(!has_key(kr, r[0].0));
            assert forall|i: int, j: int| 0 <= i < j < kf.len() implies (#[trigger] kf[i]).0 != (
            #[trigger] kf[j]).0 by {
                if i == 0 {
                    assert(kf[j] == kr[j - 1]);
                    assert(kf[0] == r[0]);
                    if kf[j].0 == r[0].0 {
                        assert(has_key(kr, r[0].0));
                    }
                } else {
                    assert(kf[i] == kr[i - 1] && kf[j] == kr[j - 1]);
                }
            }
        }
    }
}

// ---------------------------------------------------------------------------
// Candidate selection
// ---------------------------------------------------------------------------
/// A pending retry cooldown forbids connecting to this node now.
pub open spec fn retry_blocked(retries: Seq<(NodeId, RetryInfo)>, id: NodeId, now: i64) -> bool {
    exists|j: int|
        0 <= j < retries.len() && ((#[trigger] retries[j]).0 == id && (retries[j].1.next_retry_at
            matches Some(t) && t > now))
}

/// A candidate entry the manager may connect to: a real commit position, a
/// connection string, and no pending retry cooldown.
pub open spec fn is_applicable(
    cands: Seq<(NodeId, BrokerSkTimeline)>,
    retries: Seq<(NodeId, RetryInfo)>,
    now: i64,
    i: int,
) -> bool {
    &&& cands[i].1.timeline.commit_lsn != 0
    &&& cands[i].1.timeline.safekeeper_connstr@.len() > 0
    &&& !retry_blocked(retries, cands[i].0, now)
}

/// Whether the entry at `j` may be selected: applicable and not the node the
/// caller asked to pass over.
pub open spec fn selectable(
    cands: Seq<(NodeId, BrokerSkTimeline)>,
    retries: Seq<(NodeId, RetryInfo)>,
    now: i64,
    omit: Option<NodeId>,
    j: int,
) -> bool {
    &&& 0 <= j < cands.len()
    &&& is_applicable(cands, retries, now, j)
    &&& match omit {
        Some(x) => cands[j].0 != x,
        None => true,
    }
}

/// The entry at `i` is the selection: selectable, with the greatest commit
/// position, the earliest entry among equals.
pub open spec fn selected_at(
    cands: Seq<(NodeId, BrokerSkTimeline)>,
    retries: Seq<(NodeId, RetryInfo)>,
    now: i64,
    omit: Option<NodeId>,
    i: int,
) -> bool {
    &&& selectable(cands, retries, now, omit, i)
    &&& forall|j: int|
        selectable(cands, retries, now, omit, j) ==> (#[trigger] cands[j]).1.timeline.commit_lsn
            <= cands[i].1.timeline.commit_lsn
    &&& forall|j: int|
        0 <= j < i && selectable(cands, retries, now, omit, j) ==> (
        #[trigger] cands[j]).1.timeline.commit_lsn < cands[i].1.timeline.commit_lsn
}

/// Nothing may be selected.
pub open spec fn no_selectable(
    cands: Seq<(NodeId, BrokerSkTimeline)>,
    retries: Seq<(NodeId, RetryInfo)>,
    now: i64,
    omit: Option<NodeId>,
) -> bool {
    forall|j: int| !selectable(cands, retries, now, omit, j)
}

/// Among selectable candidates with pairwise distinct commit positions, the
/// selection is the strict maximum: every other selectable entry's commit
/// position lies strictly below it.
pub proof fn lemma_selection_strict_max(
    cands: Seq<(NodeId, BrokerSkTimeline)>,
    retries: Seq<(NodeId, RetryInfo)>,
    now: i64,
    omit: Option<NodeId>,
    i: int,
)
    requires
        selected_at(cands, retries, now, omit, i),
        forall|a: int, b: int|
            selectable(cands, retries, now, omit, a) && selectable(cands, retries, now, omit, b)
                && a != b ==> (#[trigger] cands[a]).1.timeline.commit_lsn != (
            #[trigger] cands[b]).1.timeline.commit_lsn,
    ensures
        forall|j: int|
            selectable(cands, retries, now, omit, j) && j != i ==> (
            #[trigger] cands[j]).1.timeline.commit_lsn < cands[i].1.timeline.commit_lsn,
{
}

/// Is `d` at most every future retry's wait?
pub open spec fn is_min_future_wait(s: Seq<(NodeId, RetryInfo)>, now: i64, d: int) -> bool {
    forall|k: int|
        0 <= k < s.len() ==> ((#[trigger] s[k]).1.next_retry_at matches Some(t) ==> (t > now ==> t
            - now >= d))
}

/// The retry record written when a connection to a safekeeper ends: the next
/// attempt waits out the previous backoff from the connection's start, and
/// the backoff grows by half, clamped to `[100ms, 15s]`. An overflowing
/// deadline is left unset.
pub open spec fn next_retry_info(started_at: i64, prev: RetryInfo) -> RetryInfo {
    RetryInfo {
        next_retry_at: if started_at + prev.retry_duration_millis <= i64::MAX {
            Some((started_at + prev.retry_duration_millis) as i64)
        } else {
            None
        },
        retry_duration_millis: clamped_backoff(prev.retry_duration_millis),
    }
}

/// The next backoff: one-and-a-half times the previous one, kept within
/// `[100ms, 15s]`.
pub open spec fn clamped_backoff(prev: u64) -> u64 {
    let grown = (prev * 3) / 2;
    if grown > WALCONNECTION_RETRY_MAX_BACKOFF_MILLIS {
        WALCONNECTION_RETRY_MAX_BACKOFF_MILLIS
    } else if grown < WALCONNECTION_RETRY_MIN_BACKOFF_MILLIS {
        WALCONNECTION_RETRY_MIN_BACKOFF_MILLIS
    } else {
        grown as u64
    }
}

/// Backoff growth law: each failed attempt multiplies the backoff by one and
/// a half (integer milliseconds), and the result always lies within
/// `[100ms, 15s]`.
pub proof fn lemma_backoff_clamped(prev: u64)
    ensures
        WALCONNECTION_RETRY_MIN_BACKOFF_MILLIS <= clamped_backoff(prev)
            <= WALCONNECTION_RETRY_MAX_BACKOFF_MILLIS,
        clamped_backoff(prev) == if (prev * 3) / 2 > WALCONNECTION_RETRY_MAX_BACKOFF_MILLIS {
            WALCONNECTION_RETRY_MAX_BACKOFF_MILLIS as int
        } else if (prev * 3) / 2 < WALCONNECTION_RETRY_MIN_BACKOFF_MILLIS {
            WALCONNECTION_RETRY_MIN_BACKOFF_MILLIS as int
        } else {
            (prev * 3) / 2
        },
{
}

/// Compute `clamped_backoff` without overflowing.
fn grow_backoff(prev: u64) -> (r: u64)
    ensures
        r == clamped_backoff(prev),
{
    if prev > WALCONNECTION_RETRY_MAX_BACKOFF_MILLIS {
        // Growing can only push it further over the cap.
        proof {
            assert((prev * 3) / 2 >= prev) by (nonlinear_arith);
        }
        WALCONNECTION_RETRY_MAX_BACKOFF_MILLIS
    } else {
        let grown = (prev * 3) / 2;
        if grown > WALCONNECTION_RETRY_MAX_BACKOFF_MILLIS {
            WALCONNECTION_RETRY_MAX_BACKOFF_MILLIS
        } else if grown < WALCONNECTION_RETRY_MIN_BACKOFF_MILLIS {
            WALCONNECTION_RETRY_MIN_BACKOFF_MILLIS
        } else {
            grown
        }
    }
}

// ---------------------------------------------------------------------------
// The connected branch's quantities
// ---------------------------------------------------------------------------
/// Nothing has been heard from the safekeeper for longer than the connect
/// timeout.
pub open spec fn keepalive_expired(conn: WalConnection, now: i64, timeout_ms: u64) -> bool {
    now >= conn.status.latest_connection_update && now - conn.status.latest_connection_update
        > timeout_ms
}

/// The position the stream has reached; the timeline's last record when the
/// stream has not reported one.
pub open spec fn current_lsn_of(last_record_lsn: Lsn, conn: WalConnection) -> u64 {
    match conn.status.streaming_lsn {
        Some(l) => l.0,
        None => last_record_lsn.0,
    }
}

/// The connected safekeeper's commit position, falling back to the current
/// stream position.
pub open spec fn current_commit_of(last_record_lsn: Lsn, conn: WalConnection) -> u64 {
    match conn.status.commit_lsn {
        Some(l) => l.0,
        None => current_lsn_of(last_record_lsn, conn),
    }
}

/// The best candidate's commit position runs ahead of the connected
/// safekeeper's by at least the lag threshold.
pub open spec fn lagging_wal(conn: WalConnection, best_commit: u64, max_lag: u64) -> bool {
    conn.status.commit_lsn matches Some(c) && best_commit >= c.0 && best_commit - c.0 >= max_lag
}

/// The note about newer WAL elsewhere, refreshed: kept only while the
/// connected safekeeper has not caught up with it, set when the best
/// candidate is ahead and no note is held.
pub open spec fn updated_discovered_new_wal(
    conn: WalConnection,
    cand_commit: u64,
    cur_commit: u64,
    now: i64,
) -> Option<NewCommittedWAL> {
    let kept = match conn.discovered_new_wal {
        Some(w) => if w.lsn.0 > cur_commit {
            Some(w)
        } else {
            None
        },
        None => None,
    };
    if kept is None && cand_commit > cur_commit {
        Some((NewCommittedWAL { lsn: Lsn(cand_commit), discovered_at: now }))
    } else {
        kept
    }
}

pub open spec fn max_i64(a: i64, b: i64) -> i64 {
    if a >= b {
        a
    } else {
        b
    }
}

/// Since when the manager has been waiting for WAL it knows exists: since
/// the last WAL arrived, when the connected safekeeper holds more than was
/// streamed; else since newer WAL elsewhere was discovered.
pub open spec fn waiting_since(
    conn: WalConnection,
    cur_lsn: u64,
    cur_commit: u64,
    dn: Option<NewCommittedWAL>,
) -> Option<i64> {
    if cur_lsn < cur_commit {
        Some(conn.status.latest_wal_update)
    } else {
        match dn {
            Some(w) => Some(max_i64(w.discovered_at, conn.status.latest_wal_update)),
            None => None,
        }
    }
}

/// The wait for new WAL has outlasted the lagging-WAL timeout while the best
/// candidate holds more.
pub open spec fn no_wal_timeout(
    now: i64,
    ws: Option<i64>,
    cand_commit: u64,
    cur_commit: u64,
    lag_ms: u64,
) -> bool {
    ws matches Some(t) && now >= t && cand_commit > cur_commit && now - t > lag_ms
}

/// What the manager does once connected, given the best other candidate:
/// relates its result and the connection it leaves behind to the state it
/// read. Decision order: missing keepalives force a switch; an unfinished
/// connect is awaited; a candidate far enough ahead forces a switch; a long
/// wait for WAL known to exist forces a switch; otherwise the refreshed
/// discovery note is stored and the connection stands.
pub open spec fn connected_outcome(
    st: WalreceiverState,
    conn: WalConnection,
    best: (NodeId, BrokerSkTimeline),
    now: i64,
    r: Option<NewWalConnectionCandidate>,
    new_conn: Option<WalConnection>,
) -> bool {
    let best_commit = best.1.timeline.commit_lsn;
    if keepalive_expired(conn, now, st.wal_connect_timeout) {
        r == Some(
            (NewWalConnectionCandidate {
                safekeeper_id: best.0,
                wal_source_connstr: best.1.timeline.safekeeper_connstr,
                reason: (ReconnectReason::NoKeepAlives {
                    last_keep_alive: Some(conn.status.latest_connection_update),
                    check_time: now,
                    threshold_millis: st.wal_connect_timeout,
                }),
            }),
        ) && new_conn == Some(conn)
    } else if !conn.status.is_connected {
        r is None && new_conn == Some(conn)
    } else if lagging_wal(conn, best_commit, st.max_lsn_wal_lag) {
        r == Some(
            (NewWalConnectionCandidate {
                safekeeper_id: best.0,
                wal_source_connstr: best.1.timeline.safekeeper_connstr,
                reason: (ReconnectReason::LaggingWal {
                    current_commit_lsn: conn.status.commit_lsn->Some_0,
                    new_commit_lsn: Lsn(best_commit),
                    threshold: st.max_lsn_wal_lag,
                }),
            }),
        ) && new_conn == Some(conn)
    } else {
        let cur = current_lsn_of(st.last_record_lsn, conn);
        let curc = current_commit_of(st.last_record_lsn, conn);
        let dn = updated_discovered_new_wal(conn, best_commit, curc, now);
        let ws = waiting_since(conn, cur, curc, dn);
        if no_wal_timeout(now, ws, best_commit, curc, st.lagging_wal_timeout) {
            r == Some(
                (NewWalConnectionCandidate {
                    safekeeper_id: best.0,
                    wal_source_connstr: best.1.timeline.safekeeper_connstr,
                    reason: (ReconnectReason::NoWalTimeout {
                        current_lsn: Lsn(cur),
                        current_commit_lsn: Lsn(curc),
                        candidate_commit_lsn: Lsn(best_commit),
                        last_wal_interaction: Some(conn.status.latest_wal_update),
                        check_time: now,
                        threshold_millis: st.lagging_wal_timeout,
                    }),
                }),
            ) && new_conn == Some(conn)
        } else {
            r is None && new_conn == Some((WalConnection { discovered_new_wal: dn, ..conn }))
        }
    }
}

/// A candidate whose commit position does not exceed the connected
/// safekeeper's never causes a switch while the connection is live: with
/// keepalives arriving and the connect finished, equal positions leave the
/// connection in place.
pub proof fn lemma_equal_commit_keeps_connection(
    st: WalreceiverState,
    conn: WalConnection,
    best: (NodeId, BrokerSkTimeline),
    now: i64,
    r: Option<NewWalConnectionCandidate>,
    new_conn: Option<WalConnection>,
)
    requires
        st.max_lsn_wal_lag >= 1,
        !keepalive_expired(conn, now, st.wal_connect_timeout),
        conn.status.is_connected,
        conn.status.commit_lsn matches Some(c) && best.1.timeline.commit_lsn <= c.0,
        connected_outcome(st, conn, best, now, r, new_conn),
    ensures
        r is None,
{
}

/// Freshness test over plain milliseconds.
fn entry_is_fresh(latest_update: i64, now: i64, lag: u64) -> (r: bool)
    ensures
        r == (latest_update > now || now - latest_update < lag),
{
    if latest_update > now {
        true
    } else {
        ((now as i128) - (latest_update as i128)) < (lag as i128)
    }
}

/// Whether the candidate map holds a stale entry for this node.
fn candidates_hold_stale(
    cands: &Vec<(NodeId, BrokerSkTimeline)>,
    id: NodeId,
    now: i64,
    lag: u64,
) -> (r: bool)
    ensures
        r == stale_in(cands@, id, now, lag),
{
    let n = cands.len();
    let mut i: usize = 0;
    while i < n
        invariant
            n == cands@.len(),
            i <= n,
            forall|j: int|
                0 <= j < i ==> !((#[trigger] cands@[j]).0 == id && !fresh_entry(
                    cands@[j].1,
                    now,
                    lag,
                )),
        decreases n - i,
    {
        if cands[i].0.0 == id.0 {
            if !entry_is_fresh(cands[i].1.latest_update, now, lag) {
                proof {
                    assert(cands@[i as int].0 == id && !fresh_entry(cands@[i as int].1, now, lag));
                }
                return true;
            }
        }
        i = i + 1;
    }
    false
}

/// The index of `id` in the retry map, if present.
fn retries_position(s: &Vec<(NodeId, RetryInfo)>, id: NodeId) -> (r: Option<usize>)
    requires
        unique_keys(s@),
    ensures
        match r {
            Some(i) => i < s@.len() && s@[i as int].0 == id && has_key(s@, id) && key_idx(s@, id)
                == i,
            None => !has_key(s@, id),
        },
{
    let n = s.len();
    let mut i: usize = 0;
    while i < n
        invariant
            unique_keys(s@),
            n == s@.len(),
            i <= n,
            forall|j: int| 0 <= j < i ==> (#[trigger] s@[j]).0 != id,
        decreases n - i,
    {
        if s[i].0.0 == id.0 {
            proof {
                assert(s@[i as int].0 == id);
                assert(has_key(s@, id));
                let k = key_idx(s@, id);
                assert(0 <= k < s@.len() && s@[k].0 == id);
                assert(k == i as int);
            }
            return Some(i);
        }
        i = i + 1;
    }
    None
}

/// Remove `id`'s entry from the retry map, if present.
fn remove_retry_entry(s: &mut Vec<(NodeId, RetryInfo)>, id: NodeId)
    requires
        unique_keys(old(s)@),
    ensures
        unique_keys(final(s)@),
        !has_key(final(s)@, id),
        if has_key(old(s)@, id) {
            final(s)@ == old(s)@.remove(key_idx(old(s)@, id))
        } else {
            final(s)@ == old(s)@
        },
        (forall|i: int|
            0 <= i < old(s)@.len() ==> (#[trigger] old(s)@[i]).1.retry_duration_millis
                <= WALCONNECTION_RETRY_MAX_BACKOFF_MILLIS) ==> (forall|i: int|
            0 <= i < final(s)@.len() ==> (#[trigger] final(s)@[i]).1.retry_duration_millis
                <= WALCONNECTION_RETRY_MAX_BACKOFF_MILLIS),
{
    match retries_position(s, id) {
        Some(i) => {
            proof {
                lemma_remove_unique(s@, i as int, id);
            }
            s.remove(i);
        },
        None => {},
    }
}

/// Whether a pending retry cooldown blocks this node now.
fn retry_blocked_exec(retries: &Vec<(NodeId, RetryInfo)>, id: NodeId, now: i64) -> (r: bool)
    ensures
        r == retry_blocked(retries@, id, now),
{
    let n = retries.len();
    let mut i: usize = 0;
    while i < n
        invariant
            n == retries@.len(),
            i <= n,
            !retry_blocked(retries@.take(i as int), id, now),
        decreases n - i,
    {
        if retries[i].0.0 == id.0 {
            if let Some(t) = retries[i].1.next_retry_at {
                if t > now {
                    proof {
                        assert(retries@[i as int].0 == id);
                    }
                    return true;
                }
            }
        }
        proof {
            let pre = retries@.take(i as int + 1);
            assert forall|j: int|
                0 <= j < pre.len() implies !((#[trigger] pre[j]).0 == id && (pre[j].1.next_retry_at
                matches Some(t) && t > now)) by {
                assert(pre[j] == retries@[j]);
                if j < i {
                    assert(!retry_blocked(retries@.take(i as int), id, now));
                    assert(retries@.take(i as int)[j] == retries@[j]);
                }
            }
        }
        i = i + 1;
    }
    proof {
        assert(retries@.take(n as int) =~= retries@);
    }
    false
}

impl WalreceiverState {
    /// The entry to connect to, passing over `node_to_omit`: among the
    /// applicable candidates, the one with the greatest commit position
    /// (the earliest entry among equals). Applicable means: a real commit
    /// position, a connection string, no pending retry cooldown.
    pub fn select_connection_candidate(&self, node_to_omit: Option<NodeId>, now: i64) -> (r: Option<
        usize,
    >)
        requires
            self.wf(),
        ensures
            match r {
                Some(i) => selected_at(
                    self.wal_stream_candidates@,
                    self.wal_connection_retries@,
                    now,
                    node_to_omit,
                    i as int,
                ),
                None => no_selectable(
                    self.wal_stream_candidates@,
                    self.wal_connection_retries@,
                    now,
                    node_to_omit,
                ),
            },
    {
        let ghost cands = self.wal_stream_candidates@;
        let ghost retries = self.wal_connection_retries@;
        let n = self.wal_stream_candidates.len();
        let mut best: Option<usize> = None;
        let mut j: usize = 0;
        while j < n
            invariant
                self.wf(),
                cands == self.wal_stream_candidates@,
                retries == self.wal_connection_retries@,
                n == cands.len(),
                j <= n,
                match best {
                    Some(b) => b < j && selectable(cands, retries, now, node_to_omit, b as int) && (
                    forall|k: int|
                        0 <= k < j && selectable(cands, retries, now, node_to_omit, k) ==> (
                        #[trigger] cands[k]).1.timeline.commit_lsn
                            <= cands[b as int].1.timeline.commit_lsn) && (forall|k: int|
                        0 <= k < b && selectable(cands, retries, now, node_to_omit, k) ==> (
                        #[trigger] cands[k]).1.timeline.commit_lsn
                            < cands[b as int].1.timeline.commit_lsn),
                    None => forall|k: int|
                        0 <= k < j ==> !selectable(cands, retries, now, node_to_omit, k),
                },
            decreases n - j,
        {
            let omitted = match node_to_omit {
                Some(x) => self.wal_stream_candidates[j].0.0 == x.0,
                None => false,
            };
            let has_commit = self.wal_stream_candidates[j].1.timeline.commit_lsn != 0;
            let has_connstr = !self.wal_stream_candidates[
                j
            ].1.timeline.safekeeper_connstr.as_str().is_empty();
            let blocked = retry_blocked_exec(
                &self.wal_connection_retries,
                self.wal_stream_candidates[j].0,
                now,
            );
            if has_commit && has_connstr && !blocked && !omitted {
                proof {
                    assert(selectable(cands, retries, now, node_to_omit, j as int));
                }
                best = match best {
                    Some(b) => {
                        if self.wal_stream_candidates[j].1.timeline.commit_lsn
                            > self.wal_stream_candidates[b].1.timeline.commit_lsn {
                            Some(j)
                        } else {
                            Some(b)
                        }
                    },
                    None => Some(j),
                };
            } else {
                proof {
                    assert(!selectable(cands, retries, now, node_to_omit, j as int));
                }
            }
            j = j + 1;
        }
        proof {
            if best is Some {
                let b = best->Some_0 as int;
                assert forall|k: int|
                    selectable(cands, retries, now, node_to_omit, k) implies (
                #[trigger] cands[k]).1.timeline.commit_lsn
                    <= cands[b].1.timeline.commit_lsn by {
                    assert(0 <= k < n);
                }
            }
        }
        best
    }

    /// Evaluate the state after an event: purge stale candidates, then
    /// decide whether to switch the connection, and to which safekeeper.
    /// Without a connection, the best applicable candidate is taken; with
    /// one, only a candidate that beats it under the configured thresholds
    /// (`connected_outcome` spells them out) causes a switch.
    pub fn next_connection_candidate(&mut self, now: i64) -> (r: Option<NewWalConnectionCandidate>)
        requires
            old(self).wf(),
        ensures
            final(self).wf(),
            *final(self) == (WalreceiverState {
                wal_connection: final(self).wal_connection,
                wal_connection_retries: final(self).wal_connection_retries,
                wal_stream_candidates: final(self).wal_stream_candidates,
                ..*old(self)
            }),
            final(self).wal_stream_candidates@ == keep_fresh(
                old(self).wal_stream_candidates@,
                now,
                old(self).lagging_wal_timeout,
            ),
            final(self).wal_connection_retries@ == keep_unstale_retries(
                old(self).wal_connection_retries@,
                old(self).wal_stream_candidates@,
                now,
                old(self).lagging_wal_timeout,
            ),
            ({
                let cc = keep_fresh(
                    old(self).wal_stream_candidates@,
                    now,
                    old(self).lagging_wal_timeout,
                );
                let cr = keep_unstale_retries(
                    old(self).wal_connection_retries@,
                    old(self).wal_stream_candidates@,
                    now,
                    old(self).lagging_wal_timeout,
                );
                match old(self).wal_connection {
                    None => {
                        &&& final(self).wal_connection is None
                        &&& match r {
                            Some(cand) => exists|i: int|
                                selected_at(cc, cr, now, None, i) && cand == (
                                NewWalConnectionCandidate {
                                    safekeeper_id: (#[trigger] cc[i]).0,
                                    wal_source_connstr: cc[i].1.timeline.safekeeper_connstr,
                                    reason: ReconnectReason::NoExistingConnection,
                                }),
                            None => no_selectable(cc, cr, now, None),
                        }
                    },
                    Some(conn) => {
                        if no_selectable(cc, cr, now, Some(conn.sk_id)) {
                            r is None && final(self).wal_connection == old(self).wal_connection
                        } else {
                            exists|i: int|
                                selected_at(cc, cr, now, Some(conn.sk_id), i) && connected_outcome(
                                    *old(self),
                                    conn,
                                    #[trigger] cc[i],
                                    now,
                                    r,
                                    final(self).wal_connection,
                                )
                        }
                    },
                }
            }),
    {
        self.cleanup_old_candidates(now);
        let conn = match &self.wal_connection {
            Some(c) => Some(*c),
            None => None,
        };
        match conn {
            None => {
                match self.select_connection_candidate(None, now) {
                    Some(i) => {
                        let id = self.wal_stream_candidates[i].0;
                        let connstr = self.wal_stream_candidates[
                            i
                        ].1.timeline.safekeeper_connstr.clone();
                        Some(
                            NewWalConnectionCandidate {
                                safekeeper_id: id,
                                wal_source_connstr: connstr,
                                reason: ReconnectReason::NoExistingConnection,
                            },
                        )
                    },
                    None => None,
                }
            },
            Some(conn) => {
                let best_i = match self.select_connection_candidate(Some(conn.sk_id), now) {
                    Some(i) => i,
                    None => {
                        return None;
                    },
                };
                let ghost best = self.wal_stream_candidates@[best_i as int];
                let best_id = self.wal_stream_candidates[best_i].0;
                let best_commit = self.wal_stream_candidates[best_i].1.timeline.commit_lsn;
                // Missing keepalives force a switch.
                if now >= conn.status.latest_connection_update && ((now as i128) - (
                conn.status.latest_connection_update as i128)) > (self.wal_connect_timeout as i128) {
                    let connstr = self.wal_stream_candidates[
                        best_i
                    ].1.timeline.safekeeper_connstr.clone();
                    return Some(
                        NewWalConnectionCandidate {
                            safekeeper_id: best_id,
                            wal_source_connstr: connstr,
                            reason: ReconnectReason::NoKeepAlives {
                                last_keep_alive: Some(conn.status.latest_connection_update),
                                check_time: now,
                                threshold_millis: self.wal_connect_timeout,
                            },
                        },
                    );
                }
                // An unfinished connect is awaited, not abandoned.
                if !conn.status.is_connected {
                    return None;
                }
                // A candidate far enough ahead forces a switch.
                if let Some(c) = conn.status.commit_lsn {
                    if best_commit >= c.0 && best_commit - c.0 >= self.max_lsn_wal_lag {
                        let connstr = self.wal_stream_candidates[
                            best_i
                        ].1.timeline.safekeeper_connstr.clone();
                        return Some(
                            NewWalConnectionCandidate {
                                safekeeper_id: best_id,
                                wal_source_connstr: connstr,
                                reason: ReconnectReason::LaggingWal {
                                    current_commit_lsn: c,
                                    new_commit_lsn: Lsn(best_commit),
                                    threshold: self.max_lsn_wal_lag,
                                },
                            },
                        );
                    }
                }
                let cur: u64 = match conn.status.streaming_lsn {
                    Some(l) => l.0,
                    None => self.last_record_lsn.0,
                };
                let curc: u64 = match conn.status.commit_lsn {
                    Some(l) => l.0,
                    None => cur,
                };
                // Keep the note about newer WAL elsewhere only while it is
                // still ahead; set it when the candidate is ahead.
                let kept: Option<NewCommittedWAL> = match conn.discovered_new_wal {
                    Some(w) => {
                        if w.lsn.0 > curc {
                            Some(w)
                        } else {
                            None
                        }
                    },
                    None => None,
                };
                let dn = if kept.is_none() && best_commit > curc {
                    Some(NewCommittedWAL { lsn: Lsn(best_commit), discovered_at: now })
                } else {
                    kept
                };
                let ws: Option<i64> = if cur < curc {
                    Some(conn.status.latest_wal_update)
                } else {
                    match dn {
                        Some(w) => Some(
                            if w.discovered_at >= conn.status.latest_wal_update {
                                w.discovered_at
                            } else {
                                conn.status.latest_wal_update
                            },
                        ),
                        None => None,
                    }
                };
                // A long wait for WAL known to exist forces a switch.
                let fire = match ws {
                    Some(t) => now >= t && best_commit > curc && ((now as i128) - (t as i128)) > (
                    self.lagging_wal_timeout as i128),
                    None => false,
                };
                if fire {
                    let connstr = self.wal_stream_candidates[
                        best_i
                    ].1.timeline.safekeeper_connstr.clone();
                    return Some(
                        NewWalConnectionCandidate {
                            safekeeper_id: best_id,
                            wal_source_connstr: connstr,
                            reason: ReconnectReason::NoWalTimeout {
                                current_lsn: Lsn(cur),
                                current_commit_lsn: Lsn(curc),
                                candidate_commit_lsn: Lsn(best_commit),
                                last_wal_interaction: Some(conn.status.latest_wal_update),
                                check_time: now,
                                threshold_millis: self.lagging_wal_timeout,
                            },
                        },
                    );
                }
                // Nothing forces a switch: store the refreshed note and stay.
                match &mut self.wal_connection {
                    Some(c) => {
                        c.discovered_new_wal = dn;
                    },
                    None => {
                        proof {
                            assert(false);
                        }
                    },
                }
                None
            },
        }
    }

    /// Switch to another safekeeper: the old connection is dropped (its
    /// retry record updated as on any drop) and a fresh connection record is
    /// installed, unconnected, with both update times set to now.
    pub fn change_connection(&mut self, new_sk_id: NodeId, now: i64)
        requires
            old(self).wf(),
        ensures
            final(self).wf(),
            *final(self) == (WalreceiverState {
                wal_connection: final(self).wal_connection,
                wal_connection_retries: final(self).wal_connection_retries,
                ..*old(self)
            }),
            final(self).wal_connection == Some(
                (WalConnection {
                    started_at: now,
                    sk_id: new_sk_id,
                    status: (WalConnectionStatus {
                        is_connected: false,
                        has_processed_wal: false,
                        latest_connection_update: now,
                        latest_wal_update: now,
                        streaming_lsn: None,
                        commit_lsn: None,
                    }),
                    discovered_new_wal: None,
                }),
            ),
            match old(self).wal_connection {
                None => final(self).wal_connection_retries@ == old(self).wal_connection_retries@,
                Some(conn) => {
                    let prev = if has_key(old(self).wal_connection_retries@, conn.sk_id) {
                        lookup(old(self).wal_connection_retries@, conn.sk_id)
                    } else {
                        (RetryInfo {
                            next_retry_at: None,
                            retry_duration_millis: WALCONNECTION_RETRY_MIN_BACKOFF_MILLIS,
                        })
                    };
                    let upd = next_retry_info(conn.started_at, prev);
                    if has_key(old(self).wal_connection_retries@, conn.sk_id) {
                        final(self).wal_connection_retries@ == old(
                            self,
                        ).wal_connection_retries@.update(
                            key_idx(old(self).wal_connection_retries@, conn.sk_id),
                            (conn.sk_id, upd),
                        )
                    } else {
                        final(self).wal_connection_retries@ == old(
                            self,
                        ).wal_connection_retries@.push((conn.sk_id, upd))
                    }
                },
            },
    {
        self.drop_old_connection();
        self.wal_connection = Some(
            WalConnection {
                started_at: now,
                sk_id: new_sk_id,
                status: WalConnectionStatus {
                    is_connected: false,
                    has_processed_wal: false,
                    latest_connection_update: now,
                    latest_wal_update: now,
                    streaming_lsn: None,
                    commit_lsn: None,
                },
                discovered_new_wal: None,
            },
        );
    }

    /// Forget the connection without touching the retry records; the caller
    /// has already stopped the streaming task.
    pub fn shutdown(&mut self)
        requires
            old(self).wf(),
        ensures
            final(self).wf(),
            *final(self) == (WalreceiverState { wal_connection: None, ..*old(self) }),
    {
        self.wal_connection = None;
    }
}

proof fn lemma_update_preserves_unique<T>(s: Seq<(NodeId, T)>, i: int, entry: (NodeId, T))
    requires
        unique_keys(s),
        0 <= i < s.len(),
        s[i].0 == entry.0,
    ensures
        unique_keys(s.update(i, entry)),
{
}

proof fn lemma_push_fresh_preserves_unique<T>(s: Seq<(NodeId, T)>, entry: (NodeId, T))
    requires
        unique_keys(s),
        !has_key(s, entry.0),
    ensures
        unique_keys(s.push(entry)),
{
    let s2 = s.push(entry);
    assert forall|i: int, j: int| 0 <= i < j < s2.len() implies (#[trigger] s2[i]).0 != (
    #[trigger] s2[j]).0 by {
        if j == s.len() {
            assert(s2[i] == s[i]);
        }
    }
}

proof fn lemma_remove_unique<T>(s: Seq<(NodeId, T)>, i: int, id: NodeId)
    requires
        unique_keys(s),
        0 <= i < s.len(),
        s[i].0 == id,
    ensures
        unique_keys(s.remove(i)),
        !has_key(s.remove(i), id),
{
    let r = s.remove(i);
    assert forall|j: int| 0 <= j < r.len() implies (#[trigger] r[j]).0 != id by {
        if j < i {
            assert(r[j] == s[j]);
        } else {
            assert(r[j] == s[j + 1]);
        }
    }
    assert forall|a: int, b: int| 0 <= a < b < r.len() implies (#[trigger] r[a]).0 != (
    #[trigger] r[b]).0 by {
        let sa = if a < i {
            a
        } else {
            a + 1
        };
        let sb = if b < i {
            b
        } else {
            b + 1
        };
        assert(r[a] == s[sa] && r[b] == s[sb]);
    }
}

} // verus!

use walcore::connection_manager::{
    timeline_allows_streaming, wal_stream_connection_config, BrokerSkTimeline, NewCommittedWAL,
    ReconnectReason, RetryInfo, SafekeeperTimelineInfo, TimelineState, WalConnection,
    WalConnectionStatus, WalreceiverState, WALCONNECTION_RETRY_MAX_BACKOFF_MILLIS,
    WALCONNECTION_RETRY_MIN_BACKOFF_MILLIS,
};
use walcore::lsn::{Lsn, NodeId};

const DUMMY_SAFEKEEPER_HOST: &str = "safekeeper_connstr";

fn dummy_broker_sk_timeline(
    commit_lsn: u64,
    safekeeper_connstr: &str,
    latest_update: i64,
) -> BrokerSkTimeline {
    BrokerSkTimeline {
        timeline: SafekeeperTimelineInfo {
            safekeeper_id: 0,
            last_log_term: 0,
            flush_lsn: 0,
            commit_lsn,
            backup_lsn: 0,
            remote_consistent_lsn: 0,
            peer_horizon_lsn: 0,
            local_start_lsn: 0,
            safekeeper_connstr: safekeeper_connstr.to_owned(),
        },
        latest_update,
    }
}

fn dummy_state() -> WalreceiverState {
    WalreceiverState::new(1000, 1000, 1024 * 1024, Lsn(0))
}

fn dummy_connection_status(now: i64, lsn: Lsn) -> WalConnectionStatus {
    WalConnectionStatus {
        is_connected: true,
        has_processed_wal: true,
        latest_connection_update: now,
        latest_wal_update: now,
        commit_lsn: Some(lsn),
        streaming_lsn: Some(lsn),
    }
}

#[test]
fn no_connection_no_candidate() {
    let mut state = dummy_state();
    let now: i64 = 10_000_000;

    let lagging_wal_timeout = state.lagging_wal_timeout as i64;
    let delay_over_threshold = now - lagging_wal_timeout - lagging_wal_timeout;

    state.wal_connection = None;
    state.wal_stream_candidates = vec![
        (NodeId(0), dummy_broker_sk_timeline(1, "", now)),
        (NodeId(1), dummy_broker_sk_timeline(0, "no_commit_lsn", now)),
        (NodeId(2), dummy_broker_sk_timeline(0, "no_commit_lsn", now)),
        (
            NodeId(3),
            dummy_broker_sk_timeline(
                1 + state.max_lsn_wal_lag,
                "delay_over_threshold",
                delay_over_threshold,
            ),
        ),
    ];

    let no_candidate = state.next_connection_candidate(now);
    assert!(
        no_candidate.is_none(),
        "Expected no candidate selected out of non full data options, but got {no_candidate:?}"
    );
}

#[test]
fn connection_no_candidate() {
    let mut state = dummy_state();
    let now: i64 = 10_000_000;

    let connected_sk_id = NodeId(0);
    let current_lsn = 100_000u64;

    let connection_status = dummy_connection_status(now, Lsn(current_lsn));

    state.max_lsn_wal_lag = 100;
    state.wal_connection = Some(WalConnection {
        started_at: now,
        sk_id: connected_sk_id,
        status: connection_status,
        discovered_new_wal: None,
    });
    state.wal_stream_candidates = vec![
        (
            connected_sk_id,
            dummy_broker_sk_timeline(
                current_lsn + state.max_lsn_wal_lag * 2,
                DUMMY_SAFEKEEPER_HOST,
                now,
            ),
        ),
        (
            NodeId(1),
            dummy_broker_sk_timeline(current_lsn, "not_advanced_lsn", now),
        ),
        (
            NodeId(2),
            dummy_broker_sk_timeline(
                current_lsn + state.max_lsn_wal_lag / 2,
                "not_enough_advanced_lsn",
                now,
            ),
        ),
    ];

    let no_candidate = state.next_connection_candidate(now);
    assert!(
        no_candidate.is_none(),
        "Expected no candidate selected out of valid options since candidate Lsn data is ignored and others' was not advanced enough, but got {no_candidate:?}"
    );
}

#[test]
fn no_connection_candidate() {
    let mut state = dummy_state();
    let now: i64 = 10_000_000;

    state.wal_connection = None;
    state.wal_stream_candidates = vec![(
        NodeId(0),
        dummy_broker_sk_timeline(1 + state.max_lsn_wal_lag, DUMMY_SAFEKEEPER_HOST, now),
    )];

    let only_candidate = state
        .next_connection_candidate(now)
        .expect("Expected one candidate selected out of the only data option, but got none");
    assert_eq!(only_candidate.safekeeper_id, NodeId(0));
    assert_eq!(
        only_candidate.reason,
        ReconnectReason::NoExistingConnection,
        "Should select new safekeeper due to missing connection, even if there's also a lag in the wal over the threshold"
    );
    assert_eq!(only_candidate.wal_source_connstr, DUMMY_SAFEKEEPER_HOST);

    let selected_lsn = 100_000u64;
    state.wal_stream_candidates = vec![
        (
            NodeId(0),
            dummy_broker_sk_timeline(selected_lsn - 100, "smaller_commit_lsn", now),
        ),
        (
            NodeId(1),
            dummy_broker_sk_timeline(selected_lsn, DUMMY_SAFEKEEPER_HOST, now),
        ),
        (NodeId(2), dummy_broker_sk_timeline(selected_lsn + 100, "", now)),
    ];
    let biggest_wal_candidate = state
        .next_connection_candidate(now)
        .expect("Expected one candidate selected out of multiple valid data options, but got none");

    assert_eq!(biggest_wal_candidate.safekeeper_id, NodeId(1));
    assert_eq!(
        biggest_wal_candidate.reason,
        ReconnectReason::NoExistingConnection,
        "Should select new safekeeper due to missing connection, even if there's also a lag in the wal over the threshold"
    );
    assert_eq!(biggest_wal_candidate.wal_source_connstr, DUMMY_SAFEKEEPER_HOST);
}

#[test]
fn candidate_with_many_connection_failures() {
    let mut state = dummy_state();
    let now: i64 = 10_000_000;

    let current_lsn = Lsn(100_000).align();
    let bigger_lsn = Lsn(current_lsn.0 + 100).align();

    state.wal_connection = None;
    state.wal_stream_candidates = vec![
        (
            NodeId(0),
            dummy_broker_sk_timeline(bigger_lsn.0, DUMMY_SAFEKEEPER_HOST, now),
        ),
        (
            NodeId(1),
            dummy_broker_sk_timeline(current_lsn.0, DUMMY_SAFEKEEPER_HOST, now),
        ),
    ];
    state.wal_connection_retries = vec![(
        NodeId(0),
        RetryInfo {
            next_retry_at: Some(now + 3_600_000),
            retry_duration_millis: WALCONNECTION_RETRY_MAX_BACKOFF_MILLIS,
        },
    )];

    let candidate_with_less_errors = state
        .next_connection_candidate(now)
        .expect("Expected one candidate selected, but got none");
    assert_eq!(
        candidate_with_less_errors.safekeeper_id,
        NodeId(1),
        "Should select the node with no pending retry cooldown"
    );
}

#[test]
fn lsn_wal_over_threshhold_current_candidate() {
    let mut state = dummy_state();
    let current_lsn = Lsn(100_000).align();
    let now: i64 = 10_000_000;

    let connected_sk_id = NodeId(0);
    let new_lsn = Lsn(current_lsn.0 + state.max_lsn_wal_lag + 1);

    let connection_status = dummy_connection_status(now, current_lsn);

    state.wal_connection = Some(WalConnection {
        started_at: now,
        sk_id: connected_sk_id,
        status: connection_status,
        discovered_new_wal: None,
    });
    state.wal_stream_candidates = vec![
        (
            connected_sk_id,
            dummy_broker_sk_timeline(current_lsn.0, DUMMY_SAFEKEEPER_HOST, now),
        ),
        (
            NodeId(1),
            dummy_broker_sk_timeline(new_lsn.0, "advanced_by_lsn_safekeeper", now),
        ),
    ];

    let over_threshcurrent_candidate = state
        .next_connection_candidate(now)
        .expect("Expected one candidate selected out of multiple valid data options, but got none");

    assert_eq!(over_threshcurrent_candidate.safekeeper_id, NodeId(1));
    assert_eq!(
        over_threshcurrent_candidate.reason,
        ReconnectReason::LaggingWal {
            current_commit_lsn: current_lsn,
            new_commit_lsn: new_lsn,
            threshold: state.max_lsn_wal_lag
        },
        "Should select bigger WAL safekeeper if it starts to lag enough"
    );
    assert_eq!(
        over_threshcurrent_candidate.wal_source_connstr,
        "advanced_by_lsn_safekeeper"
    );
}

#[test]
fn timeout_connection_threshhold_current_candidate() {
    let mut state = dummy_state();
    let current_lsn = Lsn(100_000).align();
    let now: i64 = 10_000_000;

    let wal_connect_timeout = state.wal_connect_timeout as i64;
    let time_over_threshold = now - wal_connect_timeout - wal_connect_timeout;

    let connection_status = WalConnectionStatus {
        is_connected: true,
        has_processed_wal: true,
        latest_connection_update: time_over_threshold,
        latest_wal_update: time_over_threshold,
        commit_lsn: Some(current_lsn),
        streaming_lsn: Some(current_lsn),
    };

    state.wal_connection = Some(WalConnection {
        started_at: now,
        sk_id: NodeId(1),
        status: connection_status,
        discovered_new_wal: None,
    });
    state.wal_stream_candidates = vec![(
        NodeId(0),
        dummy_broker_sk_timeline(current_lsn.0, DUMMY_SAFEKEEPER_HOST, now),
    )];

    let over_threshcurrent_candidate = state
        .next_connection_candidate(now)
        .expect("Expected one candidate selected out of multiple valid data options, but got none");

    assert_eq!(over_threshcurrent_candidate.safekeeper_id, NodeId(0));
    match over_threshcurrent_candidate.reason {
        ReconnectReason::NoKeepAlives {
            last_keep_alive,
            threshold_millis,
            ..
        } => {
            assert_eq!(last_keep_alive, Some(time_over_threshold));
            assert_eq!(threshold_millis, state.lagging_wal_timeout);
        }
        unexpected => panic!("Unexpected reason: {unexpected:?}"),
    }
    assert_eq!(
        over_threshcurrent_candidate.wal_source_connstr,
        DUMMY_SAFEKEEPER_HOST
    );
}

#[test]
fn timeout_wal_over_threshhold_current_candidate() {
    let mut state = dummy_state();
    let current_lsn = Lsn(100_000).align();
    let new_lsn = Lsn(100_100).align();
    let now: i64 = 10_000_000;

    let lagging_wal_timeout = state.lagging_wal_timeout as i64;
    let time_over_threshold = now - lagging_wal_timeout - lagging_wal_timeout;

    let connection_status = WalConnectionStatus {
        is_connected: true,
        has_processed_wal: true,
        latest_connection_update: now,
        latest_wal_update: time_over_threshold,
        commit_lsn: Some(current_lsn),
        streaming_lsn: Some(current_lsn),
    };

    state.wal_connection = Some(WalConnection {
        started_at: now,
        sk_id: NodeId(1),
        status: connection_status,
        discovered_new_wal: Some(NewCommittedWAL {
            discovered_at: time_over_threshold,
            lsn: new_lsn,
        }),
    });
    state.wal_stream_candidates = vec![(
        NodeId(0),
        dummy_broker_sk_timeline(new_lsn.0, DUMMY_SAFEKEEPER_HOST, now),
    )];

    let over_threshcurrent_candidate = state
        .next_connection_candidate(now)
        .expect("Expected one candidate selected out of multiple valid data options, but got none");

    assert_eq!(over_threshcurrent_candidate.safekeeper_id, NodeId(0));
    match over_threshcurrent_candidate.reason {
        ReconnectReason::NoWalTimeout {
            current_lsn: reported_current,
            current_commit_lsn,
            candidate_commit_lsn,
            last_wal_interaction,
            threshold_millis,
            ..
        } => {
            assert_eq!(reported_current, current_lsn);
            assert_eq!(current_commit_lsn, current_lsn);
            assert_eq!(candidate_commit_lsn, new_lsn);
            assert_eq!(last_wal_interaction, Some(time_over_threshold));
            assert_eq!(threshold_millis, state.lagging_wal_timeout);
        }
        unexpected => panic!("Unexpected reason: {unexpected:?}"),
    }
    assert_eq!(
        over_threshcurrent_candidate.wal_source_connstr,
        DUMMY_SAFEKEEPER_HOST
    );
}

#[test]
fn backoff_grows_by_half_and_stays_clamped() {
    let mut state = dummy_state();
    let now: i64 = 5_000_000;

    // First failure: the next attempt waits out the initial backoff from the
    // connection's start, and the stored backoff grows to 150ms.
    state.wal_connection = Some(WalConnection {
        started_at: now,
        sk_id: NodeId(7),
        status: dummy_connection_status(now, Lsn(8)),
        discovered_new_wal: None,
    });
    state.drop_old_connection();
    assert_eq!(state.wal_connection_retries.len(), 1);
    let (id, retry) = state.wal_connection_retries[0];
    assert_eq!(id, NodeId(7));
    assert_eq!(
        retry.next_retry_at,
        Some(now + WALCONNECTION_RETRY_MIN_BACKOFF_MILLIS as i64)
    );
    assert_eq!(retry.retry_duration_millis, 150);

    // Second failure: deadline uses the stored 150ms, backoff grows to 225ms.
    state.wal_connection = Some(WalConnection {
        started_at: now + 1000,
        sk_id: NodeId(7),
        status: dummy_connection_status(now, Lsn(8)),
        discovered_new_wal: None,
    });
    state.drop_old_connection();
    let (_, retry) = state.wal_connection_retries[0];
    assert_eq!(retry.next_retry_at, Some(now + 1000 + 150));
    assert_eq!(retry.retry_duration_millis, 225);

    // At the cap the backoff stays put.
    state.wal_connection_retries[0].1.retry_duration_millis =
        WALCONNECTION_RETRY_MAX_BACKOFF_MILLIS;
    state.wal_connection = Some(WalConnection {
        started_at: now,
        sk_id: NodeId(7),
        status: dummy_connection_status(now, Lsn(8)),
        discovered_new_wal: None,
    });
    state.drop_old_connection();
    let (_, retry) = state.wal_connection_retries[0];
    assert_eq!(
        retry.retry_duration_millis,
        WALCONNECTION_RETRY_MAX_BACKOFF_MILLIS
    );
}

#[test]
fn processed_wal_clears_retry_history() {
    let mut state = dummy_state();
    let now: i64 = 5_000_000;

    state.wal_connection_retries = vec![
        (
            NodeId(3),
            RetryInfo {
                next_retry_at: Some(now + 500),
                retry_duration_millis: 225,
            },
        ),
        (
            NodeId(4),
            RetryInfo {
                next_retry_at: Some(now + 900),
                retry_duration_millis: 150,
            },
        ),
    ];
    state.wal_connection = Some(WalConnection {
        started_at: now,
        sk_id: NodeId(3),
        status: dummy_connection_status(now, Lsn(8)),
        discovered_new_wal: None,
    });

    // A report without processed WAL keeps the history.
    let mut status = dummy_connection_status(now, Lsn(8));
    status.has_processed_wal = false;
    state.observe_connection_status(status);
    assert_eq!(state.wal_connection_retries.len(), 2);

    // A report with processed WAL clears the connected node's record only.
    status.has_processed_wal = true;
    state.observe_connection_status(status);
    assert_eq!(state.wal_connection_retries.len(), 1);
    assert_eq!(state.wal_connection_retries[0].0, NodeId(4));
    assert_eq!(state.wal_connection.as_ref().unwrap().status, status);
}

#[test]
fn stale_candidate_purged_with_its_retry_record() {
    let mut state = dummy_state();
    let now: i64 = 5_000_000;
    let stale = now - 2 * state.lagging_wal_timeout as i64;

    state.wal_stream_candidates = vec![
        (NodeId(0), dummy_broker_sk_timeline(10, DUMMY_SAFEKEEPER_HOST, now)),
        (NodeId(1), dummy_broker_sk_timeline(20, DUMMY_SAFEKEEPER_HOST, stale)),
    ];
    state.wal_connection_retries = vec![
        (
            NodeId(1),
            RetryInfo {
                next_retry_at: None,
                retry_duration_millis: 150,
            },
        ),
        (
            NodeId(2),
            RetryInfo {
                next_retry_at: None,
                retry_duration_millis: 225,
            },
        ),
    ];

    state.cleanup_old_candidates(now);

    assert_eq!(state.wal_stream_candidates.len(), 1);
    assert_eq!(state.wal_stream_candidates[0].0, NodeId(0));
    // The stale candidate's retry record went with it; the unrelated record
    // (no candidate entry at all) stays.
    assert_eq!(state.wal_connection_retries.len(), 1);
    assert_eq!(state.wal_connection_retries[0].0, NodeId(2));
}

#[test]
fn equal_commit_lsn_keeps_current_connection() {
    let mut state = dummy_state();
    let now: i64 = 10_000_000;
    let current_lsn = Lsn(100_000);

    state.wal_connection = Some(WalConnection {
        started_at: now,
        sk_id: NodeId(0),
        status: dummy_connection_status(now, current_lsn),
        discovered_new_wal: None,
    });
    state.wal_stream_candidates = vec![
        (
            NodeId(0),
            dummy_broker_sk_timeline(current_lsn.0, DUMMY_SAFEKEEPER_HOST, now),
        ),
        (
            NodeId(1),
            dummy_broker_sk_timeline(current_lsn.0, DUMMY_SAFEKEEPER_HOST, now),
        ),
    ];

    let no_candidate = state.next_connection_candidate(now);
    assert!(
        no_candidate.is_none(),
        "A candidate with an equal commit position must not displace the connection, but got {no_candidate:?}"
    );
}

#[test]
fn broker_update_replaces_entry_in_place() {
    let mut state = dummy_state();
    let now: i64 = 5_000_000;

    let mut info = dummy_broker_sk_timeline(10, DUMMY_SAFEKEEPER_HOST, now).timeline;
    info.safekeeper_id = 5;
    state.register_timeline_update(info.clone(), now);
    assert_eq!(state.wal_stream_candidates.len(), 1);
    assert_eq!(state.wal_stream_candidates[0].0, NodeId(5));
    assert_eq!(state.wal_stream_candidates[0].1.latest_update, now);

    info.commit_lsn = 42;
    state.register_timeline_update(info.clone(), now + 7);
    assert_eq!(state.wal_stream_candidates.len(), 1);
    assert_eq!(state.wal_stream_candidates[0].1.timeline.commit_lsn, 42);
    assert_eq!(state.wal_stream_candidates[0].1.latest_update, now + 7);

    info.safekeeper_id = 6;
    state.register_timeline_update(info, now + 9);
    assert_eq!(state.wal_stream_candidates.len(), 2);
    assert_eq!(state.wal_stream_candidates[1].0, NodeId(6));
}

#[test]
fn wait_until_earliest_pending_retry() {
    let mut state = dummy_state();
    let now: i64 = 5_000_000;

    assert_eq!(state.time_until_next_retry(now), None);

    state.wal_connection_retries = vec![
        (
            NodeId(0),
            RetryInfo {
                next_retry_at: Some(now - 10),
                retry_duration_millis: 150,
            },
        ),
        (
            NodeId(1),
            RetryInfo {
                next_retry_at: Some(now + 700),
                retry_duration_millis: 150,
            },
        ),
        (
            NodeId(2),
            RetryInfo {
                next_retry_at: Some(now + 300),
                retry_duration_millis: 150,
            },
        ),
        (
            NodeId(3),
            RetryInfo {
                next_retry_at: None,
                retry_duration_millis: 150,
            },
        ),
    ];
    assert_eq!(state.time_until_next_retry(now), Some(300));
}

#[test]
fn streaming_runs_only_on_active_timelines() {
    assert!(timeline_allows_streaming(TimelineState::Active));
    assert!(!timeline_allows_streaming(TimelineState::Broken));
    assert!(!timeline_allows_streaming(TimelineState::Stopping));
    assert!(!timeline_allows_streaming(TimelineState::Suspended));
}

#[test]
fn connection_config_names_tenant_and_timeline() {
    let conf = wal_stream_connection_config(
        "tenant-a".to_owned(),
        "timeline-b".to_owned(),
        "sk.example".to_owned(),
        None,
        Some("token".to_owned()),
    );
    assert_eq!(conf.host, "sk.example");
    assert_eq!(conf.port, 5432);
    assert_eq!(
        conf.options,
        vec![
            "-c".to_owned(),
            "timeline_id=timeline-b".to_owned(),
            "tenant_id=tenant-a".to_owned(),
        ]
    );
    assert_eq!(conf.password, Some("token".to_owned()));

    let conf = wal_stream_connection_config(
        "t".to_owned(),
        "l".to_owned(),
        "sk.example".to_owned(),
        Some(7777),
        None,
    );
    assert_eq!(conf.port, 7777);
    assert_eq!(conf.password, None);
}

#[test]
fn change_connection_installs_fresh_status() {
    let mut state = dummy_state();
    let now: i64 = 5_000_000;

    state.wal_connection = Some(WalConnection {
        started_at: now - 50,
        sk_id: NodeId(1),
        status: dummy_connection_status(now - 50, Lsn(8)),
        discovered_new_wal: None,
    });
    state.change_connection(NodeId(2), now);

    let conn = state.wal_connection.as_ref().unwrap();
    assert_eq!(conn.sk_id, NodeId(2));
    assert_eq!(conn.started_at, now);
    assert!(!conn.status.is_connected);
    assert!(!conn.status.has_processed_wal);
    assert_eq!(conn.status.latest_connection_update, now);
    assert_eq!(conn.status.latest_wal_update, now);
    assert_eq!(conn.status.streaming_lsn, None);
    assert_eq!(conn.status.commit_lsn, None);
    assert_eq!(conn.discovered_new_wal, None);
    // Dropping the old connection scheduled a retry for node 1.
    assert_eq!(state.wal_connection_retries.len(), 1);
    assert_eq!(state.wal_connection_retries[0].0, NodeId(1));
}

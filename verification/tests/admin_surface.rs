use pgcat::{
    handle_admin, AdminOutcome, ConfigSnapshot, ConnectionPool, Error, PoolMode, Role,
    ServerConfig, ShardConfig, StatsSnapshot,
};

fn query_frame(text: &[u8]) -> Vec<u8> {
    let len = (4 + text.len() + 1) as u32;
    let mut f = vec![b'Q'];
    f.extend_from_slice(&len.to_be_bytes());
    f.extend_from_slice(text);
    f.push(0);
    f
}

fn server(role: Role, host: &str, port: u16) -> ServerConfig {
    ServerConfig {
        role,
        host: host.to_string(),
        port,
    }
}

fn sample_config() -> ConfigSnapshot {
    ConfigSnapshot {
        version: 0,
        host: "0.0.0.0".to_string(),
        port: 6432,
        connect_timeout: 5000,
        pool_size: 15,
        pool_mode: PoolMode::Transaction,
        user: "sharding_user".to_string(),
        shards: vec![
            ShardConfig {
                database: "shard0".to_string(),
                servers: vec![
                    server(Role::Primary, "10.0.0.1", 5432),
                    server(Role::Replica, "10.0.0.2", 5432),
                    server(Role::Replica, "10.0.0.3", 5433),
                ],
            },
            ShardConfig {
                database: "shard1".to_string(),
                servers: vec![server(Role::Primary, "10.0.1.1", 5432)],
            },
        ],
    }
}

fn setup() -> (ConnectionPool, ConfigSnapshot, StatsSnapshot) {
    let config = sample_config();
    assert!(pgcat::validate(&config).is_ok());
    let pool = ConnectionPool::from_snapshot(&config);
    (pool, config, StatsSnapshot::new())
}

fn response_of(frame: &[u8]) -> Vec<u8> {
    let (pool, config, stats) = setup();
    match handle_admin(&frame.to_vec(), &pool, &config, &stats) {
        Ok(AdminOutcome::Response(v)) => v,
        _ => panic!("expected a response"),
    }
}

fn find(haystack: &[u8], needle: &[u8]) -> Option<usize> {
    if needle.is_empty() || haystack.len() < needle.len() {
        return None;
    }
    (0..=haystack.len() - needle.len()).find(|&i| &haystack[i..i + needle.len()] == needle)
}

fn count_occurrences(haystack: &[u8], needle: &[u8]) -> usize {
    let mut n = 0;
    let mut i = 0;
    while i + needle.len() <= haystack.len() {
        if &haystack[i..i + needle.len()] == needle {
            n += 1;
            i += needle.len();
        } else {
            i += 1;
        }
    }
    n
}

/// A length-prefixed DataRow cell holding the given text.
fn cell(text: &[u8]) -> Vec<u8> {
    let mut c = (text.len() as u32).to_be_bytes().to_vec();
    c.extend_from_slice(text);
    c
}

#[test]
fn unexpected_leading_byte_is_fatal() {
    let (pool, config, stats) = setup();
    let mut frame = query_frame(b"SHOW STATS");
    frame[0] = b'P';
    assert!(matches!(
        handle_admin(&frame, &pool, &config, &stats),
        Err(Error::ProtocolSyncError)
    ));
}

#[test]
fn malformed_frame_is_decode_error() {
    let (pool, config, stats) = setup();
    let frame = vec![b'Q', 0, 0, 0, 2];
    assert!(matches!(
        handle_admin(&frame, &pool, &config, &stats),
        Err(Error::QueryDecodeError)
    ));
}

#[test]
fn reload_is_handed_to_the_caller() {
    let (pool, config, stats) = setup();
    let frame = query_frame(b"RELOAD");
    assert!(matches!(
        handle_admin(&frame, &pool, &config, &stats),
        Ok(AdminOutcome::ReloadRequested)
    ));
}

#[test]
fn matching_is_case_insensitive() {
    let upper = response_of(&query_frame(b"SHOW DATABASES"));
    let lower = response_of(&query_frame(b"show databases"));
    assert_eq!(upper, lower);
}

#[test]
fn matching_is_by_prefix() {
    let exact = response_of(&query_frame(b"SHOW STATS"));
    let longer = response_of(&query_frame(b"SHOW STATS;"));
    assert_eq!(exact, longer);
}

#[test]
fn show_databases_names_follow_list_order() {
    let body = response_of(&query_frame(b"SHOW DATABASES"));
    let primary = find(&body, &cell(b"shard_0_primary")).expect("primary row");
    let replica0 = find(&body, &cell(b"shard_0_replica_0")).expect("first replica row");
    let replica1 = find(&body, &cell(b"shard_0_replica_1")).expect("second replica row");
    let primary1 = find(&body, &cell(b"shard_1_primary")).expect("second shard primary");
    assert!(primary < replica0);
    assert!(replica0 < replica1);
    assert!(replica1 < primary1);
}

#[test]
fn show_databases_is_idempotent() {
    let first = response_of(&query_frame(b"SHOW DATABASES"));
    let second = response_of(&query_frame(b"SHOW DATABASES"));
    assert_eq!(first, second);
}

#[test]
fn show_databases_row_content() {
    let body = response_of(&query_frame(b"SHOW DATABASES"));
    assert!(find(&body, &cell(b"10.0.0.2")).is_some());
    assert!(find(&body, &cell(b"5433")).is_some());
    assert!(find(&body, &cell(b"shard0")).is_some());
    assert!(find(&body, &cell(b"sharding_user")).is_some());
    assert!(find(&body, &cell(b"transaction")).is_some());
    assert!(find(&body, &cell(b"15")).is_some());
    // Four rows in all, each closed by CommandComplete only once.
    assert_eq!(count_occurrences(&body, &[b'D', 0, 0, 0]), 4);
    assert_eq!(count_occurrences(&body, b"SHOW\0"), 1);
    assert_eq!(count_occurrences(&body, &[b'Z', 0, 0, 0, 5, b'I']), 1);
}

#[test]
fn show_config_marks_immutable_keys() {
    let body = response_of(&query_frame(b"SHOW CONFIG"));
    let dash_no: Vec<u8> = [cell(b"-"), cell(b"no")].concat();
    let dash_yes: Vec<u8> = [cell(b"-"), cell(b"yes")].concat();

    for key in ["host", "port", "connect_timeout"] {
        let at = find(&body, &cell(key.as_bytes())).expect("key row");
        let row = &body[at..];
        let no_at = find(row, &dash_no);
        let yes_at = find(row, &dash_yes);
        assert!(no_at.is_some(), "{key} must be marked unchangeable");
        if let (Some(n), Some(y)) = (no_at, yes_at) {
            assert!(n < y, "{key} row must carry the \"no\" marking");
        }
    }
    for key in ["pool_size", "pool_mode", "user"] {
        let at = find(&body, &cell(key.as_bytes())).expect("key row");
        let row = &body[at..];
        let no_at = find(row, &dash_no);
        let yes_at = find(row, &dash_yes).expect("changeable marking");
        if let Some(n) = no_at {
            assert!(yes_at < n, "{key} row must carry the \"yes\" marking");
        }
    }
}

#[test]
fn show_config_reports_values() {
    let body = response_of(&query_frame(b"SHOW CONFIG"));
    assert!(find(&body, &[cell(b"host"), cell(b"0.0.0.0")].concat()).is_some());
    assert!(find(&body, &[cell(b"port"), cell(b"6432")].concat()).is_some());
    assert!(find(&body, &[cell(b"connect_timeout"), cell(b"5000")].concat()).is_some());
    assert!(find(&body, &[cell(b"pool_size"), cell(b"15")].concat()).is_some());
    assert!(find(&body, &[cell(b"pool_mode"), cell(b"transaction")].concat()).is_some());
    assert!(find(&body, &[cell(b"user"), cell(b"sharding_user")].concat()).is_some());
}

#[test]
fn show_stats_defaults_absent_counters_to_zero() {
    let body = response_of(&query_frame(b"SHOW STATS"));
    assert!(find(&body, &cell(b"all shards")).is_some());
    // All fourteen counters are absent, so fourteen zero cells follow.
    assert_eq!(count_occurrences(&body, &cell(b"0")), 14);
}

#[test]
fn show_stats_reports_live_counters() {
    let (pool, config, mut stats) = setup();
    stats.set("total_xact_count", 7);
    stats.set("avg_sent", 123456);
    let frame = query_frame(b"SHOW STATS");
    let body = match handle_admin(&frame, &pool, &config, &stats) {
        Ok(AdminOutcome::Response(v)) => v,
        _ => panic!("expected a response"),
    };
    assert!(find(&body, &cell(b"7")).is_some());
    assert!(find(&body, &cell(b"123456")).is_some());
    assert_eq!(count_occurrences(&body, &cell(b"0")), 12);
}

#[test]
fn unknown_command_is_one_error_then_ready() {
    let body = response_of(&query_frame(b"SELECT 1"));
    // Exactly one ErrorResponse with the fixed message, followed by
    // exactly one ReadyForQuery in idle status, closing the response.
    assert_eq!(body[0], b'E');
    assert_eq!(
        count_occurrences(&body, b"Unsupported query against the admin database\0"),
        1
    );
    let rfq = [b'Z', 0, 0, 0, 5, b'I'];
    assert_eq!(count_occurrences(&body, &rfq), 1);
    assert_eq!(&body[body.len() - 6..], &rfq);

    // The connection stays usable: a valid query afterwards still works.
    let follow_up = response_of(&query_frame(b"SHOW CONFIG"));
    assert_eq!(follow_up[0], b'T');
}

#[test]
fn set_is_absorbed_without_state_change() {
    let (pool, config, stats) = setup();
    let before = match handle_admin(&query_frame(b"SHOW CONFIG"), &pool, &config, &stats) {
        Ok(AdminOutcome::Response(v)) => v,
        _ => panic!("expected a response"),
    };
    let set_body = match handle_admin(
        &query_frame(b"SET application_name = 'x'"),
        &pool,
        &config,
        &stats,
    ) {
        Ok(AdminOutcome::Response(v)) => v,
        _ => panic!("expected a response"),
    };
    let expected = vec![
        b'C', 0, 0, 0, 8, b'S', b'E', b'T', 0, // CommandComplete("SET")
        b'Z', 0, 0, 0, 5, b'I', // ReadyForQuery(idle)
    ];
    assert_eq!(set_body, expected);
    let after = match handle_admin(&query_frame(b"SHOW CONFIG"), &pool, &config, &stats) {
        Ok(AdminOutcome::Response(v)) => v,
        _ => panic!("expected a response"),
    };
    assert_eq!(before, after);
}

#[test]
fn bare_set_without_space_is_unsupported() {
    let body = response_of(&query_frame(b"SET"));
    assert_eq!(body[0], b'E');
}

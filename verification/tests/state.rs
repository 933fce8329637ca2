use pgcat::{
    validate, ConfigError, ConfigSnapshot, ConfigStore, ConnectionPool, PoolMode, Role,
    ServerConfig, ShardConfig, StatsSnapshot, TopologyError,
};

fn server(role: Role, host: &str, port: u16) -> ServerConfig {
    ServerConfig {
        role,
        host: host.to_string(),
        port,
    }
}

fn base_config() -> ConfigSnapshot {
    ConfigSnapshot {
        version: 0,
        host: "127.0.0.1".to_string(),
        port: 6432,
        connect_timeout: 5000,
        pool_size: 15,
        pool_mode: PoolMode::Transaction,
        user: "sharding_user".to_string(),
        shards: vec![ShardConfig {
            database: "shard0".to_string(),
            servers: vec![
                server(Role::Primary, "10.0.0.1", 5432),
                server(Role::Replica, "10.0.0.2", 5432),
            ],
        }],
    }
}

fn other_config() -> ConfigSnapshot {
    ConfigSnapshot {
        version: 0,
        host: "10.1.1.1".to_string(),
        port: 7000,
        connect_timeout: 900,
        pool_size: 40,
        pool_mode: PoolMode::Session,
        user: "other_user".to_string(),
        shards: vec![ShardConfig {
            database: "main".to_string(),
            servers: vec![server(Role::Primary, "10.1.1.2", 5432)],
        }],
    }
}

#[test]
fn validation_accepts_well_formed_config() {
    assert_eq!(validate(&base_config()), Ok(()));
}

#[test]
fn validation_rejects_empty_shard_list() {
    let mut c = base_config();
    c.shards = vec![];
    assert_eq!(validate(&c), Err(ConfigError::NoShards));
}

#[test]
fn validation_rejects_shard_without_servers() {
    let mut c = base_config();
    c.shards[0].servers = vec![];
    assert_eq!(validate(&c), Err(ConfigError::NoServers));
}

#[test]
fn validation_rejects_shard_without_primary() {
    let mut c = base_config();
    c.shards[0].servers = vec![server(Role::Replica, "10.0.0.2", 5432)];
    assert_eq!(validate(&c), Err(ConfigError::BadPrimaryCount));
}

#[test]
fn validation_rejects_two_primaries() {
    let mut c = base_config();
    c.shards[0].servers = vec![
        server(Role::Primary, "10.0.0.1", 5432),
        server(Role::Primary, "10.0.0.2", 5432),
    ];
    assert_eq!(validate(&c), Err(ConfigError::BadPrimaryCount));
}

#[test]
fn validation_rejects_oversize_host() {
    let mut c = base_config();
    c.host = "h".repeat(4097);
    assert_eq!(validate(&c), Err(ConfigError::OversizeField));
}

#[test]
fn bootstrap_rejects_invalid_config() {
    let mut c = base_config();
    c.shards = vec![];
    assert!(ConfigStore::bootstrap(c).is_err());
}

#[test]
fn current_returns_the_bootstrapped_snapshot() {
    let store = ConfigStore::bootstrap(base_config()).unwrap();
    let snap = store.current();
    assert_eq!(snap.host, "127.0.0.1");
    assert_eq!(snap.port, 6432);
    assert_eq!(snap.shards.len(), 1);
    assert_eq!(snap.shards[0].database, "shard0");
}

#[test]
fn reload_replaces_the_whole_snapshot() {
    let mut store = ConfigStore::bootstrap(base_config()).unwrap();

    // A reader takes its snapshot before the reload.
    let held = store.current();

    assert_eq!(store.reload(other_config()), Ok(()));

    // The reader's snapshot is untouched by the concurrent-style reload.
    assert_eq!(held.host, "127.0.0.1");
    assert_eq!(held.port, 6432);
    assert_eq!(held.user, "sharding_user");
    assert_eq!(held.shards[0].database, "shard0");

    // Every later read sees the new snapshot whole: no field of the old
    // one survives alongside the new ones.
    let now = store.current();
    assert_eq!(now.host, "10.1.1.1");
    assert_eq!(now.port, 7000);
    assert_eq!(now.connect_timeout, 900);
    assert_eq!(now.pool_size, 40);
    assert!(matches!(now.pool_mode, PoolMode::Session));
    assert_eq!(now.user, "other_user");
    assert_eq!(now.shards.len(), 1);
    assert_eq!(now.shards[0].database, "main");
    assert_eq!(now.version, 1);
}

#[test]
fn failed_reload_leaves_the_store_untouched() {
    let mut store = ConfigStore::bootstrap(base_config()).unwrap();
    let mut bad = other_config();
    bad.shards = vec![];
    assert_eq!(store.reload(bad), Err(ConfigError::NoShards));
    let now = store.current();
    assert_eq!(now.host, "127.0.0.1");
    assert_eq!(now.port, 6432);
    assert_eq!(now.version, 0);
}

#[test]
fn topology_mirrors_the_snapshot() {
    let config = base_config();
    let pool = ConnectionPool::from_snapshot(&config);
    assert_eq!(pool.shard_count(), 1);
    assert_eq!(pool.server_count(0), Ok(2));
    assert_eq!(pool.server_count(1), Err(TopologyError::InvalidShard));

    let a = pool.server_address(0, 0).unwrap();
    assert!(matches!(a.role, Role::Primary));
    assert_eq!(a.host, "10.0.0.1");
    assert_eq!(a.port, 5432);

    let b = pool.server_address(0, 1).unwrap();
    assert!(matches!(b.role, Role::Replica));

    assert!(matches!(
        pool.server_address(0, 2),
        Err(TopologyError::InvalidServer)
    ));
    assert!(matches!(
        pool.server_address(9, 0),
        Err(TopologyError::InvalidShard)
    ));
}

#[test]
fn pool_counters_track_open_and_close() {
    let config = base_config();
    let mut pool = ConnectionPool::from_snapshot(&config);
    assert_eq!(pool.pool_state(0, 0).unwrap().connections, 0);

    assert_eq!(pool.connection_opened(0, 0), Ok(()));
    assert_eq!(pool.connection_opened(0, 0), Ok(()));
    assert_eq!(pool.pool_state(0, 0).unwrap().connections, 2);
    // The neighbouring server is untouched.
    assert_eq!(pool.pool_state(0, 1).unwrap().connections, 0);

    assert_eq!(pool.connection_closed(0, 0), Ok(()));
    assert_eq!(pool.pool_state(0, 0).unwrap().connections, 1);

    // Closing below zero saturates.
    assert_eq!(pool.connection_closed(0, 1), Ok(()));
    assert_eq!(pool.pool_state(0, 1).unwrap().connections, 0);

    assert_eq!(
        pool.connection_opened(3, 0),
        Err(TopologyError::InvalidShard)
    );
}

#[test]
fn stats_default_to_zero_and_remember_writes() {
    let mut stats = StatsSnapshot::new();
    assert_eq!(stats.get("total_query_count"), 0);
    stats.set("total_query_count", 9);
    assert_eq!(stats.get("total_query_count"), 9);
    stats.set("total_query_count", 11);
    assert_eq!(stats.get("total_query_count"), 11);
    stats.set("total_sent", 3);
    assert_eq!(stats.get("total_sent"), 3);
    assert_eq!(stats.get("total_query_count"), 11);
    assert_eq!(stats.get("never_written"), 0);
}

#[test]
fn reload_version_saturates_at_the_maximum() {
    let mut first = base_config();
    first.version = u64::MAX;
    let mut store = ConfigStore::bootstrap(first).unwrap();
    assert_eq!(store.reload(other_config()), Ok(()));
    assert_eq!(store.current().version, u64::MAX);
}

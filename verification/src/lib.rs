//! A verified model of a PostgreSQL connection pooler's administrative
//! control plane: the wire-protocol codec for the simple-query message
//! subset, the shard/server topology registry, the versioned configuration
//! store with atomic reload, the stats read path, and the admin command
//! dispatcher built on top of them.

pub mod admin;
pub mod config;
pub mod errors;
pub mod messages;
pub mod pool;
pub mod stats;
pub mod text;

pub use admin::{
    classify_command, handle_admin, reload_complete_response, set_response, show_config_response,
    show_databases_response, show_stats_response, unsupported_response, AdminCommand, AdminOutcome,
};
pub use config::{
    is_immutable_key, pool_mode_str, validate, ConfigError, ConfigSnapshot, ConfigStore, PoolMode,
    Role, ServerConfig, ShardConfig,
};
pub use errors::Error;
pub use messages::{
    command_complete, data_row, error_response, parse_query, ready_for_query, row_description,
    simple_query, DataType, TransactionStatus,
};
pub use pool::{
    display_name, ConnectionPool, PoolServer, PoolShard, PoolState, ServerAddress, TopologyError,
};
pub use stats::{StatEntry, StatsSnapshot};
pub use text::{ascii_uppercase, decimal_bytes, is_valid_utf8, starts_with_str, str_eq};

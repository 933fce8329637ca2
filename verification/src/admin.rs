use vstd::prelude::*;
use vstd::string::{StrSliceExecFns, StringSliceAdditionalSpecFns};
use vstd::utf8::encode_utf8;

use crate::config::{
    is_immutable_key, spec_changeable_text, spec_pool_mode_text, ConfigModel, ConfigSnapshot,
    Role, MAX_FIELD_CHARS,
};
use crate::errors::Error;
use crate::messages::{
    command_complete, data_row, error_response, parse_query, ready_for_query, row_description,
    spec_cell_views, spec_columns, spec_command_complete, spec_data_row, spec_error_response,
    spec_parse_query, spec_ready_for_query, spec_row_description, DataType, TransactionStatus,
};
use crate::pool::{
    display_name, replica_count_before, spec_server_name, ConnectionPool, PoolModel,
    PoolShardModel,
};
use crate::stats::{spec_stat_value, StatModel, StatsSnapshot};
use crate::text::{
    ascii_uppercase, decimal_bytes, push_bytes, spec_decimal, spec_starts_with, spec_upper,
    starts_with_str,
};

verus! {

/// The closed set of admin commands, produced by prefix-matching the
/// uppercased query text against the recognized keywords in a fixed
/// order, first match winning.
#[derive(Clone, Copy, Debug, PartialEq, Eq, Structural)]
pub enum AdminCommand {
    ShowStats,
    Reload,
    ShowConfig,
    ShowDatabases,
    AbsorbSet,
    Unsupported,
}

/// The classification of a query: the matching order is SHOW STATS,
/// RELOAD, SHOW CONFIG, SHOW DATABASES, SET (with a trailing space),
/// and anything else is unsupported.
pub open spec fn spec_classify(q: Seq<u8>) -> AdminCommand {
    let u = spec_upper(q);
    if spec_starts_with(u, "SHOW STATS".spec_bytes()) {
        AdminCommand::ShowStats
    } else if spec_starts_with(u, "RELOAD".spec_bytes()) {
        AdminCommand::Reload
    } else if spec_starts_with(u, "SHOW CONFIG".spec_bytes()) {
        AdminCommand::ShowConfig
    } else if spec_starts_with(u, "SHOW DATABASES".spec_bytes()) {
        AdminCommand::ShowDatabases
    } else if spec_starts_with(u, "SET ".spec_bytes()) {
        AdminCommand::AbsorbSet
    } else {
        AdminCommand::Unsupported
    }
}

/// Classifies a query by case-insensitive prefix match.
pub fn classify_command(query: &Vec<u8>) -> (r: AdminCommand)
    ensures
        r == spec_classify(query@),
{
    let upper = ascii_uppercase(query);
    if starts_with_str(&upper, "SHOW STATS") {
        AdminCommand::ShowStats
    } else if starts_with_str(&upper, "RELOAD") {
        AdminCommand::Reload
    } else if starts_with_str(&upper, "SHOW CONFIG") {
        AdminCommand::ShowConfig
    } else if starts_with_str(&upper, "SHOW DATABASES") {
        AdminCommand::ShowDatabases
    } else if starts_with_str(&upper, "SET ") {
        AdminCommand::AbsorbSet
    } else {
        AdminCommand::Unsupported
    }
}

// ---------------------------------------------------------------------------
// Fixed responses
// ---------------------------------------------------------------------------
/// The response absorbing a SET statement: CommandComplete("SET") and
/// ReadyForQuery in idle status, with no state touched.
pub open spec fn spec_set_response() -> Seq<u8> {
    spec_command_complete("SET".spec_bytes()) + spec_ready_for_query(TransactionStatus::Idle)
}

/// Builds the response that absorbs a SET statement.
pub fn set_response() -> (r: Vec<u8>)
    ensures
        r@ == spec_set_response(),
{
    proof {
        reveal_strlit("SET");
    }
    let mut out = command_complete("SET");
    let rfq = ready_for_query(TransactionStatus::Idle);
    push_bytes(&mut out, &rfq);
    out
}

/// The response after a successful reload: CommandComplete("RELOAD")
/// and ReadyForQuery in idle status.
pub open spec fn spec_reload_complete_response() -> Seq<u8> {
    spec_command_complete("RELOAD".spec_bytes()) + spec_ready_for_query(TransactionStatus::Idle)
}

/// Builds the response confirming a completed reload.
pub fn reload_complete_response() -> (r: Vec<u8>)
    ensures
        r@ == spec_reload_complete_response(),
{
    proof {
        reveal_strlit("RELOAD");
    }
    let mut out = command_complete("RELOAD");
    let rfq = ready_for_query(TransactionStatus::Idle);
    push_bytes(&mut out, &rfq);
    out
}

/// The response to an unrecognized query: exactly one ErrorResponse with
/// a fixed message, followed by exactly one ReadyForQuery in idle status.
/// The connection stays usable.
pub open spec fn spec_unsupported_response() -> Seq<u8> {
    spec_error_response("Unsupported query against the admin database".spec_bytes())
        + spec_ready_for_query(TransactionStatus::Idle)
}

/// Builds the response to an unrecognized query.
pub fn unsupported_response() -> (r: Vec<u8>)
    ensures
        r@ == spec_unsupported_response(),
{
    proof {
        reveal_strlit("Unsupported query against the admin database");
    }
    let mut out = error_response("Unsupported query against the admin database");
    let rfq = ready_for_query(TransactionStatus::Idle);
    push_bytes(&mut out, &rfq);
    out
}

// ---------------------------------------------------------------------------
// SHOW STATS
// ---------------------------------------------------------------------------
/// The fifteen columns of SHOW STATS.
pub open spec fn spec_stats_columns() -> Seq<(Seq<u8>, DataType)> {
    seq![
        ("database".spec_bytes(), DataType::Text),
        ("total_xact_count".spec_bytes(), DataType::Numeric),
        ("total_query_count".spec_bytes(), DataType::Numeric),
        ("total_received".spec_bytes(), DataType::Numeric),
        ("total_sent".spec_bytes(), DataType::Numeric),
        ("total_xact_time".spec_bytes(), DataType::Numeric),
        ("total_query_time".spec_bytes(), DataType::Numeric),
        ("total_wait_time".spec_bytes(), DataType::Numeric),
        ("avg_xact_count".spec_bytes(), DataType::Numeric),
        ("avg_query_count".spec_bytes(), DataType::Numeric),
        ("avg_recv".spec_bytes(), DataType::Numeric),
        ("avg_sent".spec_bytes(), DataType::Numeric),
        ("avg_xact_time".spec_bytes(), DataType::Numeric),
        ("avg_query_time".spec_bytes(), DataType::Numeric),
        ("avg_wait_time".spec_bytes(), DataType::Numeric),
    ]
}

/// The fourteen counter names reported by SHOW STATS, in column order.
pub open spec fn spec_stat_names() -> Seq<Seq<char>> {
    seq![
        "total_xact_count"@,
        "total_query_count"@,
        "total_received"@,
        "total_sent"@,
        "total_xact_time"@,
        "total_query_time"@,
        "total_wait_time"@,
        "avg_xact_count"@,
        "avg_query_count"@,
        "avg_recv"@,
        "avg_sent"@,
        "avg_xact_time"@,
        "avg_query_time"@,
        "avg_wait_time"@,
    ]
}

/// The single row of SHOW STATS: the fixed "all shards" label, followed
/// by each counter's value (zero when the aggregator has no entry for
/// it), rendered in decimal.
pub open spec fn spec_stats_cells(stats: Seq<StatModel>) -> Seq<Seq<u8>> {
    seq!["all shards".spec_bytes()] + Seq::new(
        14,
        |i: int| spec_decimal(spec_stat_value(stats, spec_stat_names()[i]) as int),
    )
}

/// The whole SHOW STATS exchange: the column descriptors, one row for
/// all shards, CommandComplete("SHOW"), ReadyForQuery(idle).
pub open spec fn spec_show_stats_response(stats: Seq<StatModel>) -> Seq<u8> {
    spec_row_description(spec_stats_columns()) + spec_data_row(spec_stats_cells(stats))
        + spec_command_complete("SHOW".spec_bytes()) + spec_ready_for_query(TransactionStatus::Idle)
}

proof fn proof_stats_literals()
    ensures
        "database"@.len() <= 64,
        "total_xact_count"@.len() <= 64,
        "total_query_count"@.len() <= 64,
        "total_received"@.len() <= 64,
        "total_sent"@.len() <= 64,
        "total_xact_time"@.len() <= 64,
        "total_query_time"@.len() <= 64,
        "total_wait_time"@.len() <= 64,
        "avg_xact_count"@.len() <= 64,
        "avg_query_count"@.len() <= 64,
        "avg_recv"@.len() <= 64,
        "avg_sent"@.len() <= 64,
        "avg_xact_time"@.len() <= 64,
        "avg_query_time"@.len() <= 64,
        "avg_wait_time"@.len() <= 64,
        "all shards"@.len() <= 64,
        "SHOW"@.len() <= 64,
{
    reveal_strlit("database");
    reveal_strlit("total_xact_count");
    reveal_strlit("total_query_count");
    reveal_strlit("total_received");
    reveal_strlit("total_sent");
    reveal_strlit("total_xact_time");
    reveal_strlit("total_query_time");
    reveal_strlit("total_wait_time");
    reveal_strlit("avg_xact_count");
    reveal_strlit("avg_query_count");
    reveal_strlit("avg_recv");
    reveal_strlit("avg_sent");
    reveal_strlit("avg_xact_time");
    reveal_strlit("avg_query_time");
    reveal_strlit("avg_wait_time");
    reveal_strlit("all shards");
    reveal_strlit("SHOW");
}

/// Builds the SHOW STATS response from the current counters.
pub fn show_stats_response(stats: &StatsSnapshot) -> (r: Vec<u8>)
    ensures
        r@ == spec_show_stats_response(stats@),
{
    proof {
        proof_stats_literals();
    }
    let mut cols: Vec<(&str, DataType)> = Vec::new();
    cols.push(("database", DataType::Text));
    cols.push(("total_xact_count", DataType::Numeric));
    cols.push(("total_query_count", DataType::Numeric));
    cols.push(("total_received", DataType::Numeric));
    cols.push(("total_sent", DataType::Numeric));
    cols.push(("total_xact_time", DataType::Numeric));
    cols.push(("total_query_time", DataType::Numeric));
    cols.push(("total_wait_time", DataType::Numeric));
    cols.push(("avg_xact_count", DataType::Numeric));
    cols.push(("avg_query_count", DataType::Numeric));
    cols.push(("avg_recv", DataType::Numeric));
    cols.push(("avg_sent", DataType::Numeric));
    cols.push(("avg_xact_time", DataType::Numeric));
    cols.push(("avg_query_time", DataType::Numeric));
    cols.push(("avg_wait_time", DataType::Numeric));
    proof {
        assert(spec_columns(cols@) =~= spec_stats_columns());
    }
    let mut out = row_description(&cols);

    let mut names: Vec<&str> = Vec::new();
    names.push("total_xact_count");
    names.push("total_query_count");
    names.push("total_received");
    names.push("total_sent");
    names.push("total_xact_time");
    names.push("total_query_time");
    names.push("total_wait_time");
    names.push("avg_xact_count");
    names.push("avg_query_count");
    names.push("avg_recv");
    names.push("avg_sent");
    names.push("avg_xact_time");
    names.push("avg_query_time");
    names.push("avg_wait_time");
    proof {
        assert(Seq::new(names@.len(), |i: int| names@[i]@) =~= spec_stat_names());
    }

    let mut cells: Vec<Vec<u8>> = Vec::new();
    let label = "all shards".as_bytes_vec();
    proof {
        crate::text::lemma_encode_utf8_len("all shards"@);
    }
    cells.push(label);
    let mut i: usize = 0;
    while i < 14
        invariant
            i <= 14,
            names@.len() == 14,
            Seq::new(names@.len(), |k: int| names@[k]@) == spec_stat_names(),
            cells@.len() == i + 1,
            spec_cell_views(cells@) =~= spec_stats_cells(stats@).subrange(0, i + 1),
            forall|k: int| 0 <= k < cells@.len() ==> (#[trigger] cells@[k])@.len() <= 0x80000,
        decreases 14 - i,
    {
        let ghost before = spec_cell_views(cells@);
        let v = stats.get(names[i]);
        proof {
            crate::text::lemma_decimal_len_u64(v as int);
            assert(names@[i as int]@ == spec_stat_names()[i as int]);
        }
        let d = decimal_bytes(v);
        cells.push(d);
        proof {
            assert(spec_cell_views(cells@) =~= before + seq![
                spec_decimal(spec_stat_value(stats@, spec_stat_names()[i as int]) as int),
            ]);
            assert(spec_cell_views(cells@) =~= spec_stats_cells(stats@).subrange(0, i + 2));
        }
        i = i + 1;
    }
    proof {
        assert(spec_stats_cells(stats@).subrange(0, 15) =~= spec_stats_cells(stats@));
    }
    let row = data_row(&cells);
    push_bytes(&mut out, &row);
    let cc = command_complete("SHOW");
    push_bytes(&mut out, &cc);
    let rfq = ready_for_query(TransactionStatus::Idle);
    push_bytes(&mut out, &rfq);
    proof {
        assert(out@ =~= spec_show_stats_response(stats@));
    }
    out
}

// ---------------------------------------------------------------------------
// SHOW CONFIG
// ---------------------------------------------------------------------------
/// The four columns of SHOW CONFIG.
pub open spec fn spec_config_columns() -> Seq<(Seq<u8>, DataType)> {
    seq![
        ("key".spec_bytes(), DataType::Text),
        ("value".spec_bytes(), DataType::Text),
        ("default".spec_bytes(), DataType::Text),
        ("changeable".spec_bytes(), DataType::Text),
    ]
}

/// One SHOW CONFIG row: key, value, the fixed "-" default, and the
/// changeable marking determined by the key alone.
pub open spec fn spec_config_row(key: Seq<char>, value: Seq<u8>) -> Seq<u8> {
    spec_data_row(
        seq![
            encode_utf8(key),
            value,
            "-".spec_bytes(),
            encode_utf8(spec_changeable_text(key)),
        ],
    )
}

/// The whole SHOW CONFIG exchange: the flattened snapshot, one row per
/// key in display order, CommandComplete("SHOW"), ReadyForQuery(idle).
pub open spec fn spec_show_config_response(c: ConfigModel) -> Seq<u8> {
    spec_row_description(spec_config_columns()) + spec_config_row(
        "host"@,
        encode_utf8(c.host),
    ) + spec_config_row("port"@, spec_decimal(c.port as int)) + spec_config_row(
        "connect_timeout"@,
        spec_decimal(c.connect_timeout as int),
    ) + spec_config_row("pool_size"@, spec_decimal(c.pool_size as int)) + spec_config_row(
        "pool_mode"@,
        encode_utf8(spec_pool_mode_text(c.pool_mode)),
    ) + spec_config_row("user"@, encode_utf8(c.user)) + spec_command_complete("SHOW".spec_bytes())
        + spec_ready_for_query(TransactionStatus::Idle)
}

/// The changeable marking of a key, as display text.
fn changeable_str(key: &str) -> (r: &'static str)
    ensures
        r@ == spec_changeable_text(key@),
{
    if is_immutable_key(key) {
        "no"
    } else {
        "yes"
    }
}

/// Builds one SHOW CONFIG row.
fn config_row(key: &str, value: Vec<u8>) -> (r: Vec<u8>)
    requires
        key@.len() <= 64,
        value@.len() <= 0x80000,
    ensures
        r@ == spec_config_row(key@, value@),
{
    proof {
        crate::text::lemma_encode_utf8_len(key@);
        crate::text::lemma_encode_utf8_len("-"@);
        crate::text::lemma_encode_utf8_len(spec_changeable_text(key@));
        reveal_strlit("-");
        reveal_strlit("no");
        reveal_strlit("yes");
    }
    let mut cells: Vec<Vec<u8>> = Vec::new();
    cells.push(key.as_bytes_vec());
    cells.push(value);
    cells.push("-".as_bytes_vec());
    cells.push(changeable_str(key).as_bytes_vec());
    proof {
        assert(spec_cell_views(cells@) =~= seq![
            key.spec_bytes(),
            cells@[1]@,
            "-".spec_bytes(),
            encode_utf8(spec_changeable_text(key@)),
        ]);
    }
    data_row(&cells)
}

proof fn proof_config_literals()
    ensures
        "key"@.len() <= 64,
        "value"@.len() <= 64,
        "default"@.len() <= 64,
        "changeable"@.len() <= 64,
        "host"@.len() <= 64,
        "port"@.len() <= 64,
        "connect_timeout"@.len() <= 64,
        "pool_size"@.len() <= 64,
        "pool_mode"@.len() <= 64,
        "user"@.len() <= 64,
        "session"@.len() <= 64,
        "transaction"@.len() <= 64,
        "SHOW"@.len() <= 64,
{
    reveal_strlit("key");
    reveal_strlit("value");
    reveal_strlit("default");
    reveal_strlit("changeable");
    reveal_strlit("host");
    reveal_strlit("port");
    reveal_strlit("connect_timeout");
    reveal_strlit("pool_size");
    reveal_strlit("pool_mode");
    reveal_strlit("user");
    reveal_strlit("session");
    reveal_strlit("transaction");
    reveal_strlit("SHOW");
}

/// Builds the SHOW CONFIG response from a snapshot.
pub fn show_config_response(config: &ConfigSnapshot) -> (r: Vec<u8>)
    requires
        config@.wf(),
    ensures
        r@ == spec_show_config_response(config@),
{
    proof {
        proof_config_literals();
        crate::text::lemma_encode_utf8_len(config@.host);
        crate::text::lemma_encode_utf8_len(config@.user);
        crate::text::lemma_encode_utf8_len(spec_pool_mode_text(config@.pool_mode));
        crate::text::lemma_decimal_len_u64(config@.port as int);
        crate::text::lemma_decimal_len_u64(config@.connect_timeout as int);
        crate::text::lemma_decimal_len_u64(config@.pool_size as int);
    }
    let mut cols: Vec<(&str, DataType)> = Vec::new();
    cols.push(("key", DataType::Text));
    cols.push(("value", DataType::Text));
    cols.push(("default", DataType::Text));
    cols.push(("changeable", DataType::Text));
    proof {
        assert(spec_columns(cols@) =~= spec_config_columns());
    }
    let mut out = row_description(&cols);

    let row = config_row("host", config.host.as_str().as_bytes_vec());
    push_bytes(&mut out, &row);
    let row = config_row("port", decimal_bytes(config.port as u64));
    push_bytes(&mut out, &row);
    let row = config_row("connect_timeout", decimal_bytes(config.connect_timeout));
    push_bytes(&mut out, &row);
    let row = config_row("pool_size", decimal_bytes(config.pool_size as u64));
    push_bytes(&mut out, &row);
    let row = config_row(
        "pool_mode",
        crate::config::pool_mode_str(config.pool_mode).as_bytes_vec(),
    );
    push_bytes(&mut out, &row);
    let row = config_row("user", config.user.as_str().as_bytes_vec());
    push_bytes(&mut out, &row);

    let cc = command_complete("SHOW");
    push_bytes(&mut out, &cc);
    let rfq = ready_for_query(TransactionStatus::Idle);
    push_bytes(&mut out, &rfq);
    proof {
        assert(out@ =~= spec_show_config_response(config@));
    }
    out
}

// ---------------------------------------------------------------------------
// SHOW DATABASES
// ---------------------------------------------------------------------------
/// The thirteen columns of SHOW DATABASES.
pub open spec fn spec_databases_columns() -> Seq<(Seq<u8>, DataType)> {
    seq![
        ("name".spec_bytes(), DataType::Text),
        ("host".spec_bytes(), DataType::Text),
        ("port".spec_bytes(), DataType::Text),
        ("database".spec_bytes(), DataType::Text),
        ("force_user".spec_bytes(), DataType::Text),
        ("pool_size".spec_bytes(), DataType::Int4),
        ("min_pool_size".spec_bytes(), DataType::Int4),
        ("reserve_pool".spec_bytes(), DataType::Int4),
        ("pool_mode".spec_bytes(), DataType::Text),
        ("max_connections".spec_bytes(), DataType::Int4),
        ("current_connections".spec_bytes(), DataType::Int4),
        ("paused".spec_bytes(), DataType::Int4),
        ("disabled".spec_bytes(), DataType::Int4),
    ]
}

/// The cells of one SHOW DATABASES row, for server `j` of shard `shard`.
/// The name follows the primary/replica naming rule; database and
/// sizing come from the snapshot; current_connections from the live
/// pool state; min_pool_size, reserve_pool, paused and disabled are the
/// fixed placeholder zero.
pub open spec fn spec_db_cells(shard: int, sh: PoolShardModel, j: int, c: ConfigModel) -> Seq<
    Seq<u8>,
> {
    let sv = sh.servers[j];
    seq![
        spec_server_name(sh.servers, shard, j),
        encode_utf8(sv.host),
        spec_decimal(sv.port as int),
        encode_utf8(sh.database),
        encode_utf8(c.user),
        spec_decimal(c.pool_size as int),
        spec_decimal(0),
        spec_decimal(0),
        encode_utf8(spec_pool_mode_text(c.pool_mode)),
        spec_decimal(c.pool_size as int),
        spec_decimal(sv.connections as int),
        spec_decimal(0),
        spec_decimal(0),
    ]
}

/// The first `upto` rows of one shard, concatenated in server order.
pub open spec fn spec_db_shard_rows(shard: int, sh: PoolShardModel, upto: int, c: ConfigModel) -> Seq<
    u8,
>
    decreases upto,
{
    if upto <= 0 {
        Seq::empty()
    } else {
        spec_db_shard_rows(shard, sh, upto - 1, c) + spec_data_row(
            spec_db_cells(shard, sh, upto - 1, c),
        )
    }
}

/// The rows of the first `upto` shards, concatenated in shard order.
pub open spec fn spec_db_rows(pool: PoolModel, upto: int, c: ConfigModel) -> Seq<u8>
    decreases upto,
{
    if upto <= 0 {
        Seq::empty()
    } else {
        spec_db_rows(pool, upto - 1, c) + spec_db_shard_rows(
            upto - 1,
            pool.shards[upto - 1],
            pool.shards[upto - 1].servers.len() as int,
            c,
        )
    }
}

/// The whole SHOW DATABASES exchange: the column descriptors, one row
/// per (shard, server) pair in list order, CommandComplete("SHOW"),
/// ReadyForQuery(idle).
pub open spec fn spec_show_databases_response(pool: PoolModel, c: ConfigModel) -> Seq<u8> {
    spec_row_description(spec_databases_columns()) + spec_db_rows(
        pool,
        pool.shards.len() as int,
        c,
    ) + spec_command_complete("SHOW".spec_bytes()) + spec_ready_for_query(TransactionStatus::Idle)
}

proof fn proof_databases_literals()
    ensures
        "name"@.len() <= 64,
        "host"@.len() <= 64,
        "port"@.len() <= 64,
        "database"@.len() <= 64,
        "force_user"@.len() <= 64,
        "pool_size"@.len() <= 64,
        "min_pool_size"@.len() <= 64,
        "reserve_pool"@.len() <= 64,
        "pool_mode"@.len() <= 64,
        "max_connections"@.len() <= 64,
        "current_connections"@.len() <= 64,
        "paused"@.len() <= 64,
        "disabled"@.len() <= 64,
        "SHOW"@.len() <= 64,
        "shard_"@.len() <= 16,
        "_primary"@.len() <= 16,
        "_replica_"@.len() <= 16,
{
    reveal_strlit("name");
    reveal_strlit("host");
    reveal_strlit("port");
    reveal_strlit("database");
    reveal_strlit("force_user");
    reveal_strlit("pool_size");
    reveal_strlit("min_pool_size");
    reveal_strlit("reserve_pool");
    reveal_strlit("pool_mode");
    reveal_strlit("max_connections");
    reveal_strlit("current_connections");
    reveal_strlit("paused");
    reveal_strlit("disabled");
    reveal_strlit("SHOW");
    reveal_strlit("shard_");
    reveal_strlit("_primary");
    reveal_strlit("_replica_");
}

/// The display name of any server within bounded indices stays short.
proof fn lemma_display_name_len(shard: int, role: Role, ridx: int)
    requires
        0 <= shard <= u64::MAX,
        0 <= ridx <= u64::MAX,
    ensures
        crate::pool::spec_display_name(shard, role, ridx).len() <= 200,
{
    proof_databases_literals();
    crate::text::lemma_encode_utf8_len("shard_"@);
    crate::text::lemma_encode_utf8_len("_primary"@);
    crate::text::lemma_encode_utf8_len("_replica_"@);
    crate::text::lemma_decimal_len_u64(shard);
    crate::text::lemma_decimal_len_u64(ridx);
}

/// Builds one SHOW DATABASES row.
fn databases_row(
    name: Vec<u8>,
    host: &String,
    port: u16,
    database: &String,
    connections: u32,
    config: &ConfigSnapshot,
) -> (r: Vec<u8>)
    requires
        name@.len() <= 200,
        host@.len() <= MAX_FIELD_CHARS,
        database@.len() <= MAX_FIELD_CHARS,
        config@.wf(),
    ensures
        r@ == spec_data_row(
            seq![
                name@,
                encode_utf8(host@),
                spec_decimal(port as int),
                encode_utf8(database@),
                encode_utf8(config@.user),
                spec_decimal(config@.pool_size as int),
                spec_decimal(0),
                spec_decimal(0),
                encode_utf8(spec_pool_mode_text(config@.pool_mode)),
                spec_decimal(config@.pool_size as int),
                spec_decimal(connections as int),
                spec_decimal(0),
                spec_decimal(0),
            ],
        ),
{
    proof {
        crate::text::lemma_encode_utf8_len(host@);
        crate::text::lemma_encode_utf8_len(database@);
        crate::text::lemma_encode_utf8_len(config@.user);
        crate::text::lemma_encode_utf8_len(spec_pool_mode_text(config@.pool_mode));
        crate::text::lemma_decimal_len_u64(port as int);
        crate::text::lemma_decimal_len_u64(config@.pool_size as int);
        crate::text::lemma_decimal_len_u64(connections as int);
        crate::text::lemma_decimal_len_u64(0);
        proof_config_literals();
    }
    let mut cells: Vec<Vec<u8>> = Vec::new();
    cells.push(name);
    cells.push(host.as_str().as_bytes_vec());
    cells.push(decimal_bytes(port as u64));
    cells.push(database.as_str().as_bytes_vec());
    cells.push(config.user.as_str().as_bytes_vec());
    cells.push(decimal_bytes(config.pool_size as u64));
    cells.push(decimal_bytes(0));
    cells.push(decimal_bytes(0));
    cells.push(crate::config::pool_mode_str(config.pool_mode).as_bytes_vec());
    cells.push(decimal_bytes(config.pool_size as u64));
    cells.push(decimal_bytes(connections as u64));
    cells.push(decimal_bytes(0));
    cells.push(decimal_bytes(0));
    proof {
        assert(spec_cell_views(cells@) =~= seq![
            cells@[0]@,
            encode_utf8(host@),
            spec_decimal(port as int),
            encode_utf8(database@),
            encode_utf8(config@.user),
            spec_decimal(config@.pool_size as int),
            spec_decimal(0),
            spec_decimal(0),
            encode_utf8(spec_pool_mode_text(config@.pool_mode)),
            spec_decimal(config@.pool_size as int),
            spec_decimal(connections as int),
            spec_decimal(0),
            spec_decimal(0),
        ]);
    }
    data_row(&cells)
}

/// Builds the SHOW DATABASES response: one row per (shard, server)
/// pair of the registry, in list order.
pub fn show_databases_response(pool: &ConnectionPool, config: &ConfigSnapshot) -> (r: Vec<u8>)
    requires
        pool@.wf(),
        config@.wf(),
    ensures
        r@ == spec_show_databases_response(pool@, config@),
{
    proof {
        proof_databases_literals();
    }
    let mut cols: Vec<(&str, DataType)> = Vec::new();
    cols.push(("name", DataType::Text));
    cols.push(("host", DataType::Text));
    cols.push(("port", DataType::Text));
    cols.push(("database", DataType::Text));
    cols.push(("force_user", DataType::Text));
    cols.push(("pool_size", DataType::Int4));
    cols.push(("min_pool_size", DataType::Int4));
    cols.push(("reserve_pool", DataType::Int4));
    cols.push(("pool_mode", DataType::Text));
    cols.push(("max_connections", DataType::Int4));
    cols.push(("current_connections", DataType::Int4));
    cols.push(("paused", DataType::Int4));
    cols.push(("disabled", DataType::Int4));
    proof {
        assert(spec_columns(cols@) =~= spec_databases_columns());
    }
    let mut out = row_description(&cols);
    let ghost header = out@;

    let shard_total = pool.shard_count();
    let mut shard: usize = 0;
    while shard < shard_total
        invariant
            shard <= shard_total,
            shard_total == pool@.shards.len(),
            pool@.wf(),
            config@.wf(),
            out@ == header + spec_db_rows(pool@, shard as int, config@),
        decreases shard_total - shard,
    {
        let server_total = match pool.server_count(shard) {
            Ok(n) => n,
            Err(_) => {
                proof {
                    assert(false);
                }
                0
            },
        };
        let ghost sh = pool@.shards[shard as int];
        let ghost shard_base = out@;
        let mut server: usize = 0;
        let mut replica_idx: u64 = 0;
        while server < server_total
            invariant
                server <= server_total,
                shard < shard_total,
                shard_total == pool@.shards.len(),
                pool@.wf(),
                config@.wf(),
                sh == pool@.shards[shard as int],
                server_total == sh.servers.len(),
                replica_idx == replica_count_before(sh.servers, server as int),
                replica_idx <= server,
                out@ == shard_base + spec_db_shard_rows(shard as int, sh, server as int, config@),
            decreases server_total - server,
        {
            let address = match pool.server_address(shard, server) {
                Ok(a) => a,
                Err(_) => {
                    proof {
                        assert(false);
                    }
                    return out;
                },
            };
            let state = match pool.pool_state(shard, server) {
                Ok(s) => s,
                Err(_) => {
                    proof {
                        assert(false);
                    }
                    return out;
                },
            };
            let name = display_name(shard as u64, address.role, replica_idx);
            proof {
                lemma_display_name_len(shard as int, address.role, replica_idx as int);
                assert(name@ == spec_server_name(sh.servers, shard as int, server as int));
            }
            let database = pool.shard_database(shard);
            let row = databases_row(
                name,
                &address.host,
                address.port,
                database,
                state.connections,
                config,
            );
            push_bytes(&mut out, &row);
            proof {
                assert(row@ == spec_data_row(
                    spec_db_cells(shard as int, sh, server as int, config@),
                ));
                assert(out@ =~= shard_base + spec_db_shard_rows(
                    shard as int,
                    sh,
                    server as int + 1,
                    config@,
                ));
            }
            match address.role {
                Role::Primary => {},
                Role::Replica => {
                    replica_idx = replica_idx + 1;
                },
            }
            server = server + 1;
        }
        proof {
            assert(out@ =~= header + spec_db_rows(pool@, shard as int + 1, config@));
        }
        shard = shard + 1;
    }
    let cc = command_complete("SHOW");
    push_bytes(&mut out, &cc);
    let rfq = ready_for_query(TransactionStatus::Idle);
    push_bytes(&mut out, &rfq);
    proof {
        assert(out@ =~= spec_show_databases_response(pool@, config@));
    }
    out
}

/// The trailing bytes of a concatenation are its right-hand part.
proof fn lemma_concat_suffix(a: Seq<u8>, b: Seq<u8>)
    ensures
        (a + b).len() == a.len() + b.len(),
        (a + b).subrange(a.len() as int, (a.len() + b.len()) as int) == b,
{
    assert((a + b).subrange(a.len() as int, (a.len() + b.len()) as int) =~= b);
}

/// Every response of the admin surface — the tabular reads, the SET
/// absorption, the reload confirmation, and the error path for an
/// unsupported query alike — closes its exchange with a ReadyForQuery
/// in idle status as its final message, so the client always receives a
/// well-formed turn and may issue another query.
pub proof fn lemma_every_exchange_ends_ready(
    stats: Seq<StatModel>,
    pool: PoolModel,
    c: ConfigModel,
)
    ensures
        ({
            let rfq = spec_ready_for_query(TransactionStatus::Idle);
            &&& spec_show_stats_response(stats).subrange(
                spec_show_stats_response(stats).len() - 6,
                spec_show_stats_response(stats).len() as int,
            ) == rfq
            &&& spec_show_config_response(c).subrange(
                spec_show_config_response(c).len() - 6,
                spec_show_config_response(c).len() as int,
            ) == rfq
            &&& spec_show_databases_response(pool, c).subrange(
                spec_show_databases_response(pool, c).len() - 6,
                spec_show_databases_response(pool, c).len() as int,
            ) == rfq
            &&& spec_set_response().subrange(
                spec_set_response().len() - 6,
                spec_set_response().len() as int,
            ) == rfq
            &&& spec_reload_complete_response().subrange(
                spec_reload_complete_response().len() - 6,
                spec_reload_complete_response().len() as int,
            ) == rfq
            &&& spec_unsupported_response().subrange(
                spec_unsupported_response().len() - 6,
                spec_unsupported_response().len() as int,
            ) == rfq
        }),
{
    let rfq = spec_ready_for_query(TransactionStatus::Idle);
    assert(rfq.len() == 6);
    lemma_concat_suffix(
        spec_row_description(spec_stats_columns()) + spec_data_row(spec_stats_cells(stats))
            + spec_command_complete("SHOW".spec_bytes()),
        rfq,
    );
    assert(spec_show_stats_response(stats) == (spec_row_description(spec_stats_columns())
        + spec_data_row(spec_stats_cells(stats)) + spec_command_complete("SHOW".spec_bytes()))
        + rfq) by {
        assert(spec_show_stats_response(stats) =~= (spec_row_description(spec_stats_columns())
            + spec_data_row(spec_stats_cells(stats)) + spec_command_complete(
            "SHOW".spec_bytes(),
        )) + rfq);
    }
    let config_body = spec_row_description(spec_config_columns()) + spec_config_row(
        "host"@,
        encode_utf8(c.host),
    ) + spec_config_row("port"@, spec_decimal(c.port as int)) + spec_config_row(
        "connect_timeout"@,
        spec_decimal(c.connect_timeout as int),
    ) + spec_config_row("pool_size"@, spec_decimal(c.pool_size as int)) + spec_config_row(
        "pool_mode"@,
        encode_utf8(spec_pool_mode_text(c.pool_mode)),
    ) + spec_config_row("user"@, encode_utf8(c.user)) + spec_command_complete(
        "SHOW".spec_bytes(),
    );
    lemma_concat_suffix(config_body, rfq);
    assert(spec_show_config_response(c) == config_body + rfq) by {
        assert(spec_show_config_response(c) =~= config_body + rfq);
    }
    let db_body = spec_row_description(spec_databases_columns()) + spec_db_rows(
        pool,
        pool.shards.len() as int,
        c,
    ) + spec_command_complete("SHOW".spec_bytes());
    lemma_concat_suffix(db_body, rfq);
    assert(spec_show_databases_response(pool, c) == db_body + rfq) by {
        assert(spec_show_databases_response(pool, c) =~= db_body + rfq);
    }
    lemma_concat_suffix(spec_command_complete("SET".spec_bytes()), rfq);
    lemma_concat_suffix(spec_command_complete("RELOAD".spec_bytes()), rfq);
    lemma_concat_suffix(
        spec_error_response("Unsupported query against the admin database".spec_bytes()),
        rfq,
    );
}

// ---------------------------------------------------------------------------
// The dispatcher
// ---------------------------------------------------------------------------
/// What one admin exchange asks of the caller: either a complete
/// response to write back, or a configuration reload to perform (the
/// one command whose work — re-reading the on-disk file — lies outside
/// this library).
pub enum AdminOutcome {
    Response(Vec<u8>),
    ReloadRequested,
}

/// Handles one admin exchange: decodes the Simple Query frame, matches
/// the query against the recognized commands, and produces the complete
/// response for every command except RELOAD, which is handed back to
/// the caller as a request. Framing failures are returned as the
/// decode's error and end the exchange without a response.
pub fn handle_admin(
    frame: &Vec<u8>,
    pool: &ConnectionPool,
    config: &ConfigSnapshot,
    stats: &StatsSnapshot,
) -> (r: Result<AdminOutcome, Error>)
    requires
        pool@.wf(),
        config@.wf(),
    ensures
        (match r {
            Ok(outcome) => spec_parse_query(frame@) is Ok && (match spec_classify(
                spec_parse_query(frame@)->Ok_0,
            ) {
                AdminCommand::ShowStats => outcome matches AdminOutcome::Response(v) && v@
                    == spec_show_stats_response(stats@),
                AdminCommand::Reload => outcome is ReloadRequested,
                AdminCommand::ShowConfig => outcome matches AdminOutcome::Response(v) && v@
                    == spec_show_config_response(config@),
                AdminCommand::ShowDatabases => outcome matches AdminOutcome::Response(v) && v@
                    == spec_show_databases_response(pool@, config@),
                AdminCommand::AbsorbSet => outcome matches AdminOutcome::Response(v) && v@
                    == spec_set_response(),
                AdminCommand::Unsupported => outcome matches AdminOutcome::Response(v) && v@
                    == spec_unsupported_response(),
            }),
            Err(e) => spec_parse_query(frame@) == Err::<Seq<u8>, Error>(e),
        }),
{
    let query = match parse_query(frame) {
        Ok(q) => q,
        Err(e) => {
            return Err(e);
        },
    };
    match classify_command(&query) {
        AdminCommand::ShowStats => Ok(AdminOutcome::Response(show_stats_response(stats))),
        AdminCommand::Reload => Ok(AdminOutcome::ReloadRequested),
        AdminCommand::ShowConfig => Ok(AdminOutcome::Response(show_config_response(config))),
        AdminCommand::ShowDatabases => Ok(
            AdminOutcome::Response(show_databases_response(pool, config)),
        ),
        AdminCommand::AbsorbSet => Ok(AdminOutcome::Response(set_response())),
        AdminCommand::Unsupported => Ok(AdminOutcome::Response(unsupported_response())),
    }
}

} // verus!

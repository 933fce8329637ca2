use vstd::prelude::*;
use vstd::string::StrSliceExecFns;

use crate::text::str_eq;

verus! {

/// Longest accepted text field (host, database, user), in characters.
pub const MAX_FIELD_CHARS: usize = 4096;

/// Most shards a configuration may declare.
pub const MAX_SHARDS: usize = 65535;

/// Most servers a shard may declare.
pub const MAX_SERVERS: usize = 65535;

/// The role a backend server plays within its shard.
#[derive(Clone, Copy, Debug, PartialEq, Eq, Structural)]
pub enum Role {
    Primary,
    Replica,
}

/// The connection-reuse policy surfaced by the pooler.
#[derive(Clone, Copy, Debug, PartialEq, Eq, Structural)]
pub enum PoolMode {
    Session,
    Transaction,
}

/// The display text of a pool mode.
pub open spec fn spec_pool_mode_text(m: PoolMode) -> Seq<char> {
    match m {
        PoolMode::Session => "session"@,
        PoolMode::Transaction => "transaction"@,
    }
}

/// The display text of a pool mode.
pub fn pool_mode_str(m: PoolMode) -> (r: &'static str)
    ensures
        r@ == spec_pool_mode_text(m),
{
    match m {
        PoolMode::Session => "session",
        PoolMode::Transaction => "transaction",
    }
}

/// One backend server entry of a shard.
pub struct ServerConfig {
    pub role: Role,
    pub host: String,
    pub port: u16,
}

/// The mathematical value of a server entry.
pub ghost struct ServerModel {
    pub role: Role,
    pub host: Seq<char>,
    pub port: u16,
}

impl View for ServerConfig {
    type V = ServerModel;

    open spec fn view(&self) -> ServerModel {
        ServerModel { role: self.role, host: self.host@, port: self.port }
    }
}

impl ServerModel {
    /// Machine bounds on a server entry.
    pub open spec fn wf(self) -> bool {
        self.host.len() <= MAX_FIELD_CHARS
    }
}

/// One shard: its logical database name and its ordered server list.
pub struct ShardConfig {
    pub database: String,
    pub servers: Vec<ServerConfig>,
}

/// The mathematical value of a shard entry.
pub ghost struct ShardModel {
    pub database: Seq<char>,
    pub servers: Seq<ServerModel>,
}

/// The views of a server vector, in order.
pub open spec fn spec_servers(servers: Seq<ServerConfig>) -> Seq<ServerModel> {
    Seq::new(servers.len(), |i: int| servers[i]@)
}

impl View for ShardConfig {
    type V = ShardModel;

    open spec fn view(&self) -> ShardModel {
        ShardModel { database: self.database@, servers: spec_servers(self.servers@) }
    }
}

/// How many of the given servers are primaries.
pub open spec fn count_primaries(s: Seq<ServerModel>) -> int
    decreases s.len(),
{
    if s.len() == 0 {
        0
    } else {
        count_primaries(s.drop_last()) + if s.last().role == Role::Primary {
            1int
        } else {
            0int
        }
    }
}

impl ShardModel {
    /// A well-formed shard has a bounded database name, between one and
    /// `MAX_SERVERS` servers, each well formed, and exactly one primary.
    pub open spec fn wf(self) -> bool {
        &&& self.database.len() <= MAX_FIELD_CHARS
        &&& 1 <= self.servers.len() <= MAX_SERVERS
        &&& (forall|i: int| 0 <= i < self.servers.len() ==> (#[trigger] self.servers[i]).wf())
        &&& count_primaries(self.servers) == 1
    }
}

/// An immutable configuration snapshot: global identity and sizing,
/// plus the shard topology, stamped with a version.
pub struct ConfigSnapshot {
    pub version: u64,
    pub host: String,
    pub port: u16,
    pub connect_timeout: u64,
    pub pool_size: u32,
    pub pool_mode: PoolMode,
    pub user: String,
    pub shards: Vec<ShardConfig>,
}

/// The mathematical value of a configuration snapshot.
pub ghost struct ConfigModel {
    pub version: u64,
    pub host: Seq<char>,
    pub port: u16,
    pub connect_timeout: u64,
    pub pool_size: u32,
    pub pool_mode: PoolMode,
    pub user: Seq<char>,
    pub shards: Seq<ShardModel>,
}

/// The views of a shard vector, in order.
pub open spec fn spec_shards(shards: Seq<ShardConfig>) -> Seq<ShardModel> {
    Seq::new(shards.len(), |i: int| shards[i]@)
}

impl View for ConfigSnapshot {
    type V = ConfigModel;

    open spec fn view(&self) -> ConfigModel {
        ConfigModel {
            version: self.version,
            host: self.host@,
            port: self.port,
            connect_timeout: self.connect_timeout,
            pool_size: self.pool_size,
            pool_mode: self.pool_mode,
            user: self.user@,
            shards: spec_shards(self.shards@),
        }
    }
}

impl ConfigModel {
    /// A well-formed snapshot has bounded text fields and a non-empty,
    /// bounded shard list of well-formed shards.
    pub open spec fn wf(self) -> bool {
        &&& self.host.len() <= MAX_FIELD_CHARS
        &&& self.user.len() <= MAX_FIELD_CHARS
        &&& 1 <= self.shards.len() <= MAX_SHARDS
        &&& (forall|i: int| 0 <= i < self.shards.len() ==> (#[trigger] self.shards[i]).wf())
    }

    /// The same snapshot under a different version stamp.
    pub open spec fn with_version(self, v: u64) -> ConfigModel {
        ConfigModel {
            version: v,
            host: self.host,
            port: self.port,
            connect_timeout: self.connect_timeout,
            pool_size: self.pool_size,
            pool_mode: self.pool_mode,
            user: self.user,
            shards: self.shards,
        }
    }
}

/// Why a candidate configuration was rejected.
#[derive(Clone, Copy, Debug, PartialEq, Eq, Structural)]
pub enum ConfigError {
    /// A text field exceeds `MAX_FIELD_CHARS` characters.
    OversizeField,
    /// The shard list is empty.
    NoShards,
    /// The shard list exceeds `MAX_SHARDS` entries.
    TooManyShards,
    /// A shard has no servers.
    NoServers,
    /// A shard has more than `MAX_SERVERS` servers.
    TooManyServers,
    /// A shard does not have exactly one primary.
    BadPrimaryCount,
}

/// Scans a server list for the first oversize host, front to back.
pub open spec fn spec_validate_servers(servers: Seq<ServerModel>) -> Result<(), ConfigError>
    decreases servers.len(),
{
    if servers.len() == 0 {
        Ok(())
    } else if servers[0].host.len() > MAX_FIELD_CHARS {
        Err(ConfigError::OversizeField)
    } else {
        spec_validate_servers(servers.drop_first())
    }
}

/// Validates one shard: database name bound, server count bounds, every
/// host bound, and exactly one primary, in that order.
pub open spec fn spec_validate_shard(s: ShardModel) -> Result<(), ConfigError> {
    if s.database.len() > MAX_FIELD_CHARS {
        Err(ConfigError::OversizeField)
    } else if s.servers.len() == 0 {
        Err(ConfigError::NoServers)
    } else if s.servers.len() > MAX_SERVERS {
        Err(ConfigError::TooManyServers)
    } else if spec_validate_servers(s.servers) is Err {
        spec_validate_servers(s.servers)
    } else if count_primaries(s.servers) != 1 {
        Err(ConfigError::BadPrimaryCount)
    } else {
        Ok(())
    }
}

/// Scans the shard list for the first invalid shard, front to back.
pub open spec fn spec_validate_shards(shards: Seq<ShardModel>) -> Result<(), ConfigError>
    decreases shards.len(),
{
    if shards.len() == 0 {
        Ok(())
    } else if spec_validate_shard(shards[0]) is Err {
        spec_validate_shard(shards[0])
    } else {
        spec_validate_shards(shards.drop_first())
    }
}

/// Full validation of a candidate snapshot: global fields first, the
/// shard list afterwards. `Ok` exactly when the snapshot is well formed.
pub open spec fn spec_validate(c: ConfigModel) -> Result<(), ConfigError> {
    if c.host.len() > MAX_FIELD_CHARS {
        Err(ConfigError::OversizeField)
    } else if c.user.len() > MAX_FIELD_CHARS {
        Err(ConfigError::OversizeField)
    } else if c.shards.len() == 0 {
        Err(ConfigError::NoShards)
    } else if c.shards.len() > MAX_SHARDS {
        Err(ConfigError::TooManyShards)
    } else {
        spec_validate_shards(c.shards)
    }
}

proof fn lemma_validate_servers_ok(servers: Seq<ServerModel>)
    ensures
        spec_validate_servers(servers) is Ok <==> (forall|i: int|
            0 <= i < servers.len() ==> (#[trigger] servers[i]).host.len() <= MAX_FIELD_CHARS),
    decreases servers.len(),
{
    if servers.len() == 0 {
    } else {
        lemma_validate_servers_ok(servers.drop_first());
        assert(forall|i: int|
            1 <= i < servers.len() ==> servers.drop_first()[i - 1] == #[trigger] servers[i]);
        if servers[0].host.len() <= MAX_FIELD_CHARS && spec_validate_servers(servers.drop_first())
            is Ok {
            assert(forall|i: int|
                0 <= i < servers.len() ==> (#[trigger] servers[i]).host.len()
                    <= MAX_FIELD_CHARS) by {
                assert(forall|i: int|
                    1 <= i < servers.len() ==> (#[trigger] servers[i]).host.len()
                        == servers.drop_first()[i - 1].host.len());
            }
        }
    }
}

proof fn lemma_validate_shards_ok(shards: Seq<ShardModel>)
    ensures
        spec_validate_shards(shards) is Ok <==> (forall|i: int|
            0 <= i < shards.len() ==> (#[trigger] shards[i]).wf()),
    decreases shards.len(),
{
    if shards.len() == 0 {
    } else {
        lemma_validate_shards_ok(shards.drop_first());
        lemma_validate_servers_ok(shards[0].servers);
        assert(forall|i: int|
            1 <= i < shards.len() ==> shards.drop_first()[i - 1] == #[trigger] shards[i]);
        if spec_validate_shard(shards[0]) is Ok && spec_validate_shards(shards.drop_first())
            is Ok {
            assert(shards[0].wf());
            assert(forall|i: int| 0 <= i < shards.len() ==> (#[trigger] shards[i]).wf()) by {
                assert(forall|i: int|
                    1 <= i < shards.len() ==> #[trigger] shards[i] == shards.drop_first()[i - 1]);
            }
        }
    }
}

/// Validation accepts a snapshot exactly when it is well formed.
pub proof fn lemma_validate_iff_wf(c: ConfigModel)
    ensures
        spec_validate(c) is Ok <==> c.wf(),
{
    lemma_validate_shards_ok(c.shards);
}

fn validate_servers(servers: &Vec<ServerConfig>) -> (r: Result<(), ConfigError>)
    ensures
        r == spec_validate_servers(spec_servers(servers@)),
{
    let ghost model = spec_servers(servers@);
    proof {
        assert(model.skip(0) =~= model);
    }
    let n = servers.len();
    let mut i: usize = 0;
    while i < n
        invariant
            i <= n,
            n == servers@.len(),
            model == spec_servers(servers@),
            spec_validate_servers(model.skip(i as int)) == spec_validate_servers(model),
        decreases n - i,
    {
        if servers[i].host.as_str().unicode_len() > MAX_FIELD_CHARS {
            proof {
                assert(model.skip(i as int)[0] == model[i as int]);
            }
            return Err(ConfigError::OversizeField);
        }
        proof {
            assert(model.skip(i as int)[0] == model[i as int]);
            assert(model.skip(i as int).drop_first() =~= model.skip(i + 1));
        }
        i = i + 1;
    }
    proof {
        assert(model.skip(n as int) =~= Seq::<ServerModel>::empty());
    }
    Ok(())
}

fn count_primaries_exec(servers: &Vec<ServerConfig>) -> (r: usize)
    requires
        servers@.len() <= MAX_SERVERS,
    ensures
        r == count_primaries(spec_servers(servers@)),
{
    let ghost model = spec_servers(servers@);
    let n = servers.len();
    let mut cnt: usize = 0;
    let mut i: usize = 0;
    while i < n
        invariant
            i <= n,
            n == servers@.len() <= MAX_SERVERS,
            model == spec_servers(servers@),
            cnt <= i,
            cnt == count_primaries(model.subrange(0, i as int)),
        decreases n - i,
    {
        let is_primary = match servers[i].role {
            Role::Primary => true,
            Role::Replica => false,
        };
        if is_primary {
            cnt = cnt + 1;
        }
        proof {
            assert(model.subrange(0, i + 1).drop_last() =~= model.subrange(0, i as int));
            assert(model.subrange(0, i + 1).last() == model[i as int]);
        }
        i = i + 1;
    }
    proof {
        assert(model.subrange(0, n as int) =~= model);
    }
    cnt
}

fn validate_shard(shard: &ShardConfig) -> (r: Result<(), ConfigError>)
    ensures
        r == spec_validate_shard(shard@),
{
    if shard.database.as_str().unicode_len() > MAX_FIELD_CHARS {
        return Err(ConfigError::OversizeField);
    }
    if shard.servers.len() == 0 {
        return Err(ConfigError::NoServers);
    }
    if shard.servers.len() > MAX_SERVERS {
        return Err(ConfigError::TooManyServers);
    }
    match validate_servers(&shard.servers) {
        Err(e) => {
            return Err(e);
        },
        Ok(()) => {},
    }
    if count_primaries_exec(&shard.servers) != 1 {
        return Err(ConfigError::BadPrimaryCount);
    }
    Ok(())
}

/// Checks a candidate snapshot against the machine bounds and the
/// topology invariant (every shard has exactly one primary). Returns
/// the first violation in scan order, or `Ok` exactly when the snapshot
/// is well formed.
pub fn validate(c: &ConfigSnapshot) -> (r: Result<(), ConfigError>)
    ensures
        r == spec_validate(c@),
        r is Ok <==> c@.wf(),
{
    proof {
        lemma_validate_iff_wf(c@);
    }
    if c.host.as_str().unicode_len() > MAX_FIELD_CHARS {
        return Err(ConfigError::OversizeField);
    }
    if c.user.as_str().unicode_len() > MAX_FIELD_CHARS {
        return Err(ConfigError::OversizeField);
    }
    if c.shards.len() == 0 {
        return Err(ConfigError::NoShards);
    }
    if c.shards.len() > MAX_SHARDS {
        return Err(ConfigError::TooManyShards);
    }
    let ghost model = spec_shards(c.shards@);
    proof {
        assert(model.skip(0) =~= model);
    }
    let n = c.shards.len();
    let mut i: usize = 0;
    while i < n
        invariant
            i <= n,
            n == c.shards@.len(),
            model == spec_shards(c.shards@),
            c@.shards == model,
            c@.host.len() <= MAX_FIELD_CHARS,
            c@.user.len() <= MAX_FIELD_CHARS,
            1 <= n <= MAX_SHARDS,
            spec_validate_shards(model.skip(i as int)) == spec_validate_shards(model),
        decreases n - i,
    {
        proof {
            assert(model.skip(i as int)[0] == model[i as int]);
            assert(model.skip(i as int).drop_first() =~= model.skip(i + 1));
        }
        match validate_shard(&c.shards[i]) {
            Err(e) => {
                proof {
                    assert(model[i as int] == c.shards@[i as int]@);
                    assert(spec_validate_shards(model.skip(i as int)) == Err::<(), ConfigError>(e));
                    lemma_validate_iff_wf(c@);
                }
                return Err(e);
            },
            Ok(()) => {},
        }
        i = i + 1;
    }
    proof {
        assert(model.skip(n as int) =~= Seq::<ShardModel>::empty());
    }
    Ok(())
}

// ---------------------------------------------------------------------------
// Cloning (clone-on-read snapshots)
// ---------------------------------------------------------------------------
fn clone_server(s: &ServerConfig) -> (r: ServerConfig)
    ensures
        r@ == s@,
{
    ServerConfig { role: s.role, host: s.host.clone(), port: s.port }
}

fn clone_shard(s: &ShardConfig) -> (r: ShardConfig)
    ensures
        r@ == s@,
{
    let mut servers: Vec<ServerConfig> = Vec::new();
    let n = s.servers.len();
    let mut i: usize = 0;
    while i < n
        invariant
            i <= n,
            n == s.servers@.len(),
            servers@.len() == i,
            forall|j: int| 0 <= j < i ==> (#[trigger] servers@[j])@ == s.servers@[j]@,
        decreases n - i,
    {
        servers.push(clone_server(&s.servers[i]));
        i = i + 1;
    }
    let r = ShardConfig { database: s.database.clone(), servers };
    proof {
        assert(r@.servers =~= s@.servers);
    }
    r
}

impl ConfigSnapshot {
    /// An owned copy whose value equals this snapshot's.
    pub fn duplicate(&self) -> (r: ConfigSnapshot)
        ensures
            r@ == self@,
    {
        let mut shards: Vec<ShardConfig> = Vec::new();
        let n = self.shards.len();
        let mut i: usize = 0;
        while i < n
            invariant
                i <= n,
                n == self.shards@.len(),
                shards@.len() == i,
                forall|j: int| 0 <= j < i ==> (#[trigger] shards@[j])@ == self.shards@[j]@,
            decreases n - i,
        {
            shards.push(clone_shard(&self.shards[i]));
            i = i + 1;
        }
        let r = ConfigSnapshot {
            version: self.version,
            host: self.host.clone(),
            port: self.port,
            connect_timeout: self.connect_timeout,
            pool_size: self.pool_size,
            pool_mode: self.pool_mode,
            user: self.user.clone(),
            shards,
        };
        proof {
            assert(r@.shards =~= self@.shards);
        }
        r
    }
}

// ---------------------------------------------------------------------------
// The store: one current snapshot, replaced atomically as a whole
// ---------------------------------------------------------------------------
/// The version stamp after a successful reload.
pub open spec fn spec_next_version(v: u64) -> u64 {
    if v < u64::MAX {
        (v + 1) as u64
    } else {
        v
    }
}

/// The store state after a reload attempt with the given draft: the
/// draft as a whole (restamped) when it validates, the old state
/// untouched when it does not. There is no third outcome and no mixing
/// of fields from the two snapshots.
pub open spec fn spec_reload(pre: ConfigModel, draft: ConfigModel) -> ConfigModel {
    if spec_validate(draft) is Ok {
        draft.with_version(spec_next_version(pre.version))
    } else {
        pre
    }
}

/// A reload attempt leaves the store either exactly as it was or holding
/// exactly the draft's fields: a reader never sees a mixture of the two.
pub proof fn lemma_reload_never_tears(pre: ConfigModel, draft: ConfigModel)
    ensures
        ({
            let post = spec_reload(pre, draft);
            post == pre || (post.host == draft.host && post.port == draft.port
                && post.connect_timeout == draft.connect_timeout && post.pool_size
                == draft.pool_size && post.pool_mode == draft.pool_mode && post.user == draft.user
                && post.shards == draft.shards)
        }),
{
}

/// Holds the current configuration snapshot. Readers take whole-value
/// copies; a reload publishes a complete new snapshot or nothing.
pub struct ConfigStore {
    current: ConfigSnapshot,
}

impl View for ConfigStore {
    type V = ConfigModel;

    closed spec fn view(&self) -> ConfigModel {
        self.current@
    }
}

impl ConfigStore {
    /// Creates the store from a validated initial snapshot; a snapshot
    /// that fails validation is rejected and no store is created.
    pub fn bootstrap(initial: ConfigSnapshot) -> (r: Result<ConfigStore, ConfigError>)
        ensures
            (match r {
                Ok(s) => spec_validate(initial@) is Ok && s@ == initial@ && s@.wf(),
                Err(e) => spec_validate(initial@) == Err::<(), ConfigError>(e),
            }),
    {
        match validate(&initial) {
            Ok(()) => Ok(ConfigStore { current: initial }),
            Err(e) => Err(e),
        }
    }

    /// Clone-on-read access to the current snapshot. The returned value
    /// is owned by the caller: it stays stable however many reloads
    /// follow.
    pub fn current(&self) -> (r: ConfigSnapshot)
        ensures
            r@ == self@,
    {
        self.current.duplicate()
    }

    /// Validates `draft` and, on success, atomically replaces the whole
    /// current snapshot with it, stamped with the next version. On
    /// failure the store is untouched and the first validation error is
    /// returned.
    pub fn reload(&mut self, draft: ConfigSnapshot) -> (r: Result<(), ConfigError>)
        ensures
            final(self)@ == spec_reload(old(self)@, draft@),
            (match r {
                Ok(()) => spec_validate(draft@) is Ok,
                Err(e) => spec_validate(draft@) == Err::<(), ConfigError>(e),
            }),
    {
        match validate(&draft) {
            Ok(()) => {
                let next = if self.current.version < u64::MAX {
                    self.current.version + 1
                } else {
                    self.current.version
                };
                let mut fresh = draft;
                fresh.version = next;
                self.current = fresh;
                Ok(())
            },
            Err(e) => Err(e),
        }
    }
}

// ---------------------------------------------------------------------------
// Runtime-immutable keys (SHOW CONFIG marking)
// ---------------------------------------------------------------------------
/// True for the fixed set of keys that cannot change at runtime.
pub open spec fn spec_immutable_key(key: Seq<char>) -> bool {
    key == "host"@ || key == "port"@ || key == "connect_timeout"@
}

/// The `changeable` column text for a key.
pub open spec fn spec_changeable_text(key: Seq<char>) -> Seq<char> {
    if spec_immutable_key(key) {
        "no"@
    } else {
        "yes"@
    }
}

/// A key is marked "no" exactly when it is one of the runtime-immutable
/// keys (host, port, connect_timeout); every other key is marked "yes".
pub proof fn lemma_immutable_marking(key: Seq<char>)
    ensures
        spec_changeable_text(key) == "no"@ <==> spec_immutable_key(key),
        spec_changeable_text(key) == "yes"@ <==> !spec_immutable_key(key),
{
    reveal_strlit("no");
    reveal_strlit("yes");
    assert("no"@.len() == 2);
    assert("yes"@.len() == 3);
}

/// Decides whether a configuration key is immutable at runtime.
pub fn is_immutable_key(key: &str) -> (r: bool)
    ensures
        r == spec_immutable_key(key@),
{
    str_eq(key, "host") || str_eq(key, "port") || str_eq(key, "connect_timeout")
}

} // verus!

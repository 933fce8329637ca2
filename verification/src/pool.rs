use vstd::prelude::*;
use vstd::string::{StrSliceExecFns, StringSliceAdditionalSpecFns};

use crate::config::{
    ConfigModel, ConfigSnapshot, Role, MAX_FIELD_CHARS, MAX_SERVERS, MAX_SHARDS,
};
use crate::text::{decimal_bytes, push_bytes, spec_decimal};

verus! {

/// Live counters of one backend server's pool, owned and mutated by the
/// proxy core and merely observed by the admin surface.
#[derive(Clone, Copy, Debug, PartialEq, Eq, Structural)]
pub struct PoolState {
    pub connections: u32,
}

/// Why a topology read failed.
#[derive(Clone, Copy, Debug, PartialEq, Eq, Structural)]
pub enum TopologyError {
    InvalidShard,
    InvalidServer,
}

/// One backend server inside the registry.
pub struct PoolServer {
    pub role: Role,
    pub host: String,
    pub port: u16,
    pub state: PoolState,
}

/// The mathematical value of a registry server entry.
pub ghost struct PoolServerModel {
    pub role: Role,
    pub host: Seq<char>,
    pub port: u16,
    pub connections: u32,
}

impl View for PoolServer {
    type V = PoolServerModel;

    open spec fn view(&self) -> PoolServerModel {
        PoolServerModel {
            role: self.role,
            host: self.host@,
            port: self.port,
            connections: self.state.connections,
        }
    }
}

/// One shard inside the registry.
pub struct PoolShard {
    pub database: String,
    pub servers: Vec<PoolServer>,
}

/// The mathematical value of a registry shard.
pub ghost struct PoolShardModel {
    pub database: Seq<char>,
    pub servers: Seq<PoolServerModel>,
}

/// The views of a registry server vector, in order.
pub open spec fn spec_pool_servers(servers: Seq<PoolServer>) -> Seq<PoolServerModel> {
    Seq::new(servers.len(), |i: int| servers[i]@)
}

impl View for PoolShard {
    type V = PoolShardModel;

    open spec fn view(&self) -> PoolShardModel {
        PoolShardModel { database: self.database@, servers: spec_pool_servers(self.servers@) }
    }
}

/// The mathematical value of the whole registry.
pub ghost struct PoolModel {
    pub shards: Seq<PoolShardModel>,
}

impl PoolModel {
    /// Machine bounds carried over from the snapshot the registry was
    /// built from.
    pub open spec fn wf(self) -> bool {
        &&& self.shards.len() <= MAX_SHARDS
        &&& (forall|i: int|
            0 <= i < self.shards.len() ==> {
                let s = #[trigger] self.shards[i];
                &&& s.database.len() <= MAX_FIELD_CHARS
                &&& 1 <= s.servers.len() <= MAX_SERVERS
                &&& (forall|j: int|
                    0 <= j < s.servers.len() ==> (#[trigger] s.servers[j]).host.len()
                        <= MAX_FIELD_CHARS)
            })
    }
}

/// The registry a snapshot induces: the same shards, servers, roles and
/// addresses, with every connection counter at zero.
pub open spec fn spec_pool_of(c: ConfigModel) -> PoolModel {
    PoolModel {
        shards: Seq::new(
            c.shards.len(),
            |i: int|
                PoolShardModel {
                    database: c.shards[i].database,
                    servers: Seq::new(
                        c.shards[i].servers.len(),
                        |j: int|
                            PoolServerModel {
                                role: c.shards[i].servers[j].role,
                                host: c.shards[i].servers[j].host,
                                port: c.shards[i].servers[j].port,
                                connections: 0,
                            },
                    ),
                },
        ),
    }
}

/// The address triple reported for one server.
pub struct ServerAddress {
    pub role: Role,
    pub host: String,
    pub port: u16,
}

/// The shard/server topology registry: read by every admin exchange,
/// written only when the proxy core opens or closes backend connections.
pub struct ConnectionPool {
    shards: Vec<PoolShard>,
}

impl View for ConnectionPool {
    type V = PoolModel;

    closed spec fn view(&self) -> PoolModel {
        PoolModel { shards: Seq::new(self.shards@.len(), |i: int| self.shards@[i]@) }
    }
}

impl ConnectionPool {
    /// Builds the registry for a (validated) configuration snapshot:
    /// one entry per shard and server, in list order, with no open
    /// connections yet.
    pub fn from_snapshot(c: &ConfigSnapshot) -> (r: ConnectionPool)
        requires
            c@.wf(),
        ensures
            r@ == spec_pool_of(c@),
            r@.wf(),
    {
        let ghost target = spec_pool_of(c@);
        let mut shards: Vec<PoolShard> = Vec::new();
        let n = c.shards.len();
        let mut i: usize = 0;
        while i < n
            invariant
                i <= n,
                n == c.shards@.len(),
                target == spec_pool_of(c@),
                c@.wf(),
                shards@.len() == i,
                forall|k: int| 0 <= k < i ==> (#[trigger] shards@[k])@ == target.shards[k],
            decreases n - i,
        {
            let shard = &c.shards[i];
            let mut servers: Vec<PoolServer> = Vec::new();
            let m = shard.servers.len();
            let mut j: usize = 0;
            while j < m
                invariant
                    j <= m,
                    i < n,
                    n == c.shards@.len(),
                    target == spec_pool_of(c@),
                    m == shard.servers@.len(),
                    shard@ == c.shards@[i as int]@,
                    c@.shards[i as int] == shard@,
                    servers@.len() == j,
                    forall|k: int|
                        0 <= k < j ==> (#[trigger] servers@[k])@ == target.shards[i as int
                        ].servers[k],
                decreases m - j,
            {
                let sv = &shard.servers[j];
                servers.push(
                    PoolServer {
                        role: sv.role,
                        host: sv.host.clone(),
                        port: sv.port,
                        state: PoolState { connections: 0 },
                    },
                );
                proof {
                    assert(shard@.servers[j as int] == shard.servers@[j as int]@);
                    assert(servers@[j as int]@ == target.shards[i as int].servers[j as int]);
                }
                j = j + 1;
            }
            shards.push(PoolShard { database: shard.database.clone(), servers });
            proof {
                assert(c@.shards[i as int].database == shard.database@);
                assert(shards@[i as int]@.servers =~= target.shards[i as int].servers);
                assert(shards@[i as int]@ == target.shards[i as int]);
            }
            i = i + 1;
        }
        let r = ConnectionPool { shards };
        proof {
            assert(r@.shards =~= target.shards);
        }
        r
    }

    /// How many shards the current topology has.
    pub fn shard_count(&self) -> (r: usize)
        ensures
            r == self@.shards.len(),
    {
        self.shards.len()
    }

    /// How many servers the given shard has; `InvalidShard` exactly when
    /// the shard index is out of range.
    pub fn server_count(&self, shard: usize) -> (r: Result<usize, TopologyError>)
        ensures
            (match r {
                Ok(n) => shard < self@.shards.len() && n == self@.shards[shard as int].servers.len(),
                Err(e) => shard >= self@.shards.len() && e == TopologyError::InvalidShard,
            }),
    {
        if shard >= self.shards.len() {
            return Err(TopologyError::InvalidShard);
        }
        Ok(self.shards[shard].servers.len())
    }

    /// The role, host and port of one server. `InvalidShard` exactly
    /// when the shard index is out of range; `InvalidServer` exactly
    /// when the shard exists but the server index is out of range.
    pub fn server_address(&self, shard: usize, server: usize) -> (r: Result<
        ServerAddress,
        TopologyError,
    >)
        ensures
            (match r {
                Ok(a) => {
                    &&& shard < self@.shards.len()
                    &&& server < self@.shards[shard as int].servers.len()
                    &&& a.role == self@.shards[shard as int].servers[server as int].role
                    &&& a.host@ == self@.shards[shard as int].servers[server as int].host
                    &&& a.port == self@.shards[shard as int].servers[server as int].port
                },
                Err(e) => {
                    ||| (shard >= self@.shards.len() && e == TopologyError::InvalidShard)
                    ||| (shard < self@.shards.len() && server >= self@.shards[
                        shard as int
                    ].servers.len() && e == TopologyError::InvalidServer)
                },
            }),
    {
        if shard >= self.shards.len() {
            return Err(TopologyError::InvalidShard);
        }
        let s = &self.shards[shard];
        if server >= s.servers.len() {
            return Err(TopologyError::InvalidServer);
        }
        let sv = &s.servers[server];
        Ok(ServerAddress { role: sv.role, host: sv.host.clone(), port: sv.port })
    }

    /// The logical database name of one shard.
    pub fn shard_database(&self, shard: usize) -> (r: &String)
        requires
            shard < self@.shards.len(),
        ensures
            r@ == self@.shards[shard as int].database,
    {
        &self.shards[shard].database
    }

    /// The live pool counters of one server, with the same range
    /// contract as `server_address`.
    pub fn pool_state(&self, shard: usize, server: usize) -> (r: Result<PoolState, TopologyError>)
        ensures
            (match r {
                Ok(st) => {
                    &&& shard < self@.shards.len()
                    &&& server < self@.shards[shard as int].servers.len()
                    &&& st.connections == self@.shards[shard as int].servers[
                        server as int
                    ].connections
                },
                Err(e) => {
                    ||| (shard >= self@.shards.len() && e == TopologyError::InvalidShard)
                    ||| (shard < self@.shards.len() && server >= self@.shards[
                        shard as int
                    ].servers.len() && e == TopologyError::InvalidServer)
                },
            }),
    {
        if shard >= self.shards.len() {
            return Err(TopologyError::InvalidShard);
        }
        let s = &self.shards[shard];
        if server >= s.servers.len() {
            return Err(TopologyError::InvalidServer);
        }
        Ok(s.servers[server].state)
    }
}

/// A counter one above `c`, saturating at the largest value.
pub open spec fn spec_inc_saturating(c: u32) -> u32 {
    if c < u32::MAX {
        (c + 1) as u32
    } else {
        c
    }
}

/// A counter one below `c`, saturating at zero.
pub open spec fn spec_dec_saturating(c: u32) -> u32 {
    if c > 0 {
        (c - 1) as u32
    } else {
        0
    }
}

/// The registry after setting one server's connection counter, all else
/// unchanged.
pub open spec fn spec_with_connections(m: PoolModel, shard: int, server: int, n: u32) -> PoolModel {
    let sh = m.shards[shard];
    let sv = sh.servers[server];
    PoolModel {
        shards: m.shards.update(
            shard,
            PoolShardModel {
                database: sh.database,
                servers: sh.servers.update(
                    server,
                    PoolServerModel { role: sv.role, host: sv.host, port: sv.port, connections: n },
                ),
            },
        ),
    }
}

impl ConnectionPool {
    fn set_connections(&mut self, shard: usize, server: usize, n: u32) -> (r: Result<
        (),
        TopologyError,
    >)
        ensures
            (match r {
                Ok(()) => {
                    &&& shard < old(self)@.shards.len()
                    &&& server < old(self)@.shards[shard as int].servers.len()
                    &&& final(self)@ == spec_with_connections(
                        old(self)@,
                        shard as int,
                        server as int,
                        n,
                    )
                },
                Err(e) => final(self)@ == old(self)@ && {
                    ||| (shard >= old(self)@.shards.len() && e == TopologyError::InvalidShard)
                    ||| (shard < old(self)@.shards.len() && server >= old(self)@.shards[
                        shard as int
                    ].servers.len() && e == TopologyError::InvalidServer)
                },
            }),
    {
        if shard >= self.shards.len() {
            return Err(TopologyError::InvalidShard);
        }
        if server >= self.shards[shard].servers.len() {
            return Err(TopologyError::InvalidServer);
        }
        self.shards[shard].servers[server].state.connections = n;
        proof {
            let target = spec_with_connections(old(self)@, shard as int, server as int, n);
            assert(self@.shards[shard as int].servers =~= target.shards[shard as int].servers);
            assert(self@.shards =~= target.shards);
        }
        Ok(())
    }

    /// Records one opened backend connection (the proxy core's write
    /// path); the counter saturates rather than wraps. The range
    /// contract matches `server_address`.
    pub fn connection_opened(&mut self, shard: usize, server: usize) -> (r: Result<
        (),
        TopologyError,
    >)
        ensures
            (match r {
                Ok(()) => {
                    &&& shard < old(self)@.shards.len()
                    &&& server < old(self)@.shards[shard as int].servers.len()
                    &&& final(self)@ == spec_with_connections(
                        old(self)@,
                        shard as int,
                        server as int,
                        spec_inc_saturating(
                            old(self)@.shards[shard as int].servers[server as int].connections,
                        ),
                    )
                },
                Err(e) => final(self)@ == old(self)@ && {
                    ||| (shard >= old(self)@.shards.len() && e == TopologyError::InvalidShard)
                    ||| (shard < old(self)@.shards.len() && server >= old(self)@.shards[
                        shard as int
                    ].servers.len() && e == TopologyError::InvalidServer)
                },
            }),
    {
        let st = match self.pool_state(shard, server) {
            Ok(st) => st,
            Err(e) => {
                return Err(e);
            },
        };
        let n = if st.connections < u32::MAX {
            st.connections + 1
        } else {
            st.connections
        };
        self.set_connections(shard, server, n)
    }

    /// Records one closed backend connection; the counter saturates at
    /// zero. The range contract matches `server_address`.
    pub fn connection_closed(&mut self, shard: usize, server: usize) -> (r: Result<
        (),
        TopologyError,
    >)
        ensures
            (match r {
                Ok(()) => {
                    &&& shard < old(self)@.shards.len()
                    &&& server < old(self)@.shards[shard as int].servers.len()
                    &&& final(self)@ == spec_with_connections(
                        old(self)@,
                        shard as int,
                        server as int,
                        spec_dec_saturating(
                            old(self)@.shards[shard as int].servers[server as int].connections,
                        ),
                    )
                },
                Err(e) => final(self)@ == old(self)@ && {
                    ||| (shard >= old(self)@.shards.len() && e == TopologyError::InvalidShard)
                    ||| (shard < old(self)@.shards.len() && server >= old(self)@.shards[
                        shard as int
                    ].servers.len() && e == TopologyError::InvalidServer)
                },
            }),
    {
        let st = match self.pool_state(shard, server) {
            Ok(st) => st,
            Err(e) => {
                return Err(e);
            },
        };
        let n = if st.connections > 0 {
            st.connections - 1
        } else {
            0
        };
        self.set_connections(shard, server, n)
    }
}

// ---------------------------------------------------------------------------
// Display naming
// ---------------------------------------------------------------------------
/// The display name of a server: `shard_{i}_primary` for the primary,
/// `shard_{i}_replica_{j}` for the `j`-th replica of the shard in list
/// order.
pub open spec fn spec_display_name(shard: int, role: Role, replica_idx: int) -> Seq<u8> {
    if role == Role::Primary {
        "shard_".spec_bytes() + spec_decimal(shard) + "_primary".spec_bytes()
    } else {
        "shard_".spec_bytes() + spec_decimal(shard) + "_replica_".spec_bytes() + spec_decimal(
            replica_idx,
        )
    }
}

/// How many replicas stand before position `k` in the server list.
pub open spec fn replica_count_before(servers: Seq<PoolServerModel>, k: int) -> int
    decreases k,
{
    if k <= 0 {
        0
    } else {
        replica_count_before(servers, k - 1) + if servers[k - 1].role == Role::Replica {
            1int
        } else {
            0int
        }
    }
}

/// The display name of the server at position `k` of a shard's list.
pub open spec fn spec_server_name(servers: Seq<PoolServerModel>, shard: int, k: int) -> Seq<u8> {
    spec_display_name(shard, servers[k].role, replica_count_before(servers, k))
}

/// Renders a display name.
pub fn display_name(shard: u64, role: Role, replica_idx: u64) -> (r: Vec<u8>)
    ensures
        r@ == spec_display_name(shard as int, role, replica_idx as int),
{
    let mut v = "shard_".as_bytes_vec();
    let d = decimal_bytes(shard);
    push_bytes(&mut v, &d);
    match role {
        Role::Primary => {
            let mut t = "_primary".as_bytes_vec();
            v.append(&mut t);
        },
        Role::Replica => {
            let mut t = "_replica_".as_bytes_vec();
            v.append(&mut t);
            let d2 = decimal_bytes(replica_idx);
            push_bytes(&mut v, &d2);
        },
    }
    v
}

proof fn lemma_replica_count_dense(servers: Seq<PoolServerModel>, k: int)
    requires
        servers.len() >= 1,
        servers[0].role == Role::Primary,
        forall|j: int| 1 <= j < servers.len() ==> (#[trigger] servers[j]).role == Role::Replica,
        1 <= k <= servers.len(),
    ensures
        replica_count_before(servers, k) == k - 1,
    decreases k,
{
    if k == 1 {
        assert(replica_count_before(servers, 0) == 0);
    } else {
        lemma_replica_count_dense(servers, k - 1);
    }
}

/// Naming determinism: in a shard whose server list is one primary
/// followed by replicas in list order, the displayed names are
/// `shard_i_primary`, `shard_i_replica_0`, ..., `shard_i_replica_{k-1}`,
/// in that exact order.
pub proof fn lemma_naming_determinism(servers: Seq<PoolServerModel>, shard: int)
    requires
        servers.len() >= 1,
        servers[0].role == Role::Primary,
        forall|j: int| 1 <= j < servers.len() ==> (#[trigger] servers[j]).role == Role::Replica,
    ensures
        spec_server_name(servers, shard, 0) == spec_display_name(shard, Role::Primary, 0),
        forall|j: int|
            1 <= j < servers.len() ==> #[trigger] spec_server_name(servers, shard, j)
                == spec_display_name(shard, Role::Replica, j - 1),
{
    assert forall|j: int| 1 <= j < servers.len() implies #[trigger] spec_server_name(
        servers,
        shard,
        j,
    ) == spec_display_name(shard, Role::Replica, j - 1) by {
        lemma_replica_count_dense(servers, j);
    }
}

} // verus!

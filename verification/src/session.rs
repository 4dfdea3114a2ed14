//! The session registry: one record per live connection.
//!
//! A record carries the connection's classification after the login
//! handshake, its identity entity, presence timestamps, liveness, the
//! peer address, and the outbound packet queue. Session ids are allocated
//! from a process-wide counter and are strictly increasing: an id is
//! never reissued within a registry's lifetime.

use vstd::prelude::*;

use crate::group::AWPacketGroup;
use crate::packet::{AWPacket, PacketV};

verus! {

/// What a connection has been classified as.
#[derive(Clone, Copy, Debug, PartialEq, Eq, Structural)]
pub enum ClientType {
    /// Not yet classified: no successful login.
    Unknown,
    /// A human client before credential validation decides citizen or tourist.
    UnspecifiedHuman,
    /// A registered user with a persistent record.
    Citizen,
    /// An anonymous user; username wrapped in quotes.
    Tourist,
    /// An automated client tied to a citizen's allotment.
    Bot,
    /// A satellite world-server process.
    WorldServer,
}

/// The wire value of the `UserType` login var that names a client type.
pub open spec fn spec_client_type_of(x: i32) -> Option<ClientType> {
    if x == 1 {
        Some(ClientType::UnspecifiedHuman)
    } else if x == 2 {
        Some(ClientType::Bot)
    } else if x == 3 {
        Some(ClientType::WorldServer)
    } else {
        None
    }
}

impl ClientType {
    /// The client type a `UserType` wire value names, if any.
    pub fn from_i32(x: i32) -> (r: Option<ClientType>)
        ensures
            r == spec_client_type_of(x),
    {
        if x == 1 {
            Some(ClientType::UnspecifiedHuman)
        } else if x == 2 {
            Some(ClientType::Bot)
        } else if x == 3 {
            Some(ClientType::WorldServer)
        } else {
            None
        }
    }
}

/// Whether a player is shown online to its peers.
#[derive(Clone, Copy, Debug, PartialEq, Eq, Structural)]
pub enum PlayerState {
    Online,
    Offline,
}

/// The identity a player session carries after login.
pub struct PlayerInfo {
    /// The build number the client reported at login.
    pub build: i32,
    /// The session id allocated at login.
    pub session_id: u32,
    /// The citizen record this player is logged in as; tourists have none.
    pub citizen_id: Option<u32>,
    /// A secondary identity granting elevated capabilities, if presented.
    pub privilege_id: Option<u32>,
    /// The display name, as its bytes.
    pub username: Vec<u8>,
    /// Whether peers see this player online.
    pub state: PlayerState,
}

/// The mathematical value of a player's identity.
pub ghost struct PlayerInfoV {
    pub build: i32,
    pub session_id: u32,
    pub citizen_id: Option<u32>,
    pub privilege_id: Option<u32>,
    pub username: Seq<u8>,
    pub state: PlayerState,
}

impl View for PlayerInfo {
    type V = PlayerInfoV;

    open spec fn view(&self) -> PlayerInfoV {
        PlayerInfoV {
            build: self.build,
            session_id: self.session_id,
            citizen_id: self.citizen_id,
            privilege_id: self.privilege_id,
            username: self.username@,
            state: self.state,
        }
    }
}

/// What a classified session stands for.
pub enum Entity {
    /// A human or bot player.
    Player(PlayerInfo),
    /// A world server and the names of the worlds it hosts.
    WorldServer(Vec<Vec<u8>>),
}

/// The mathematical value of a session's entity.
pub ghost enum EntityV {
    Player(PlayerInfoV),
    WorldServer(Seq<Seq<u8>>),
}

impl View for Entity {
    type V = EntityV;

    open spec fn view(&self) -> EntityV {
        match self {
            Entity::Player(p) => EntityV::Player(p@),
            Entity::WorldServer(ws) => EntityV::WorldServer(
                ws@.map_values(|w: Vec<u8>| w@),
            ),
        }
    }
}

/// An IPv4 peer address as its four octets, first octet first.
#[derive(Clone, Copy, Debug, PartialEq, Eq, Structural)]
pub struct Ipv4Octets {
    pub o0: u8,
    pub o1: u8,
    pub o2: u8,
    pub o3: u8,
}

/// The packing of an IPv4 address into a `u32` that the user list
/// carries: octets taken in reverse and shifted in, so the first octet
/// lands in the low byte (little-endian packing, kept bit-exact for
/// client compatibility).
pub open spec fn spec_ip_num(ip: Ipv4Octets) -> u32 {
    (ip.o0 + ip.o1 * 0x100 + ip.o2 * 0x1_0000 + ip.o3 * 0x100_0000) as u32
}

/// Packs an IPv4 address for the user list, low octet first.
pub fn ip_to_num(ip: Ipv4Octets) -> (r: u32)
    ensures
        r == spec_ip_num(ip),
{
    ip.o0 as u32 + ip.o1 as u32 * 0x100 + ip.o2 as u32 * 0x1_0000 + ip.o3 as u32 * 0x100_0000
}

/// One live connection's record.
pub struct SessionRecord {
    /// The registry key for this connection.
    pub conn_id: u32,
    /// What the connection has been classified as.
    pub client_kind: ClientType,
    /// The identity behind the connection, once classified.
    pub entity: Option<Entity>,
    /// When the server last sent a keepalive, in seconds.
    pub last_heartbeat_sent: u64,
    /// When the server last heard a keepalive, in seconds.
    pub last_heartbeat_recv: u64,
    /// A dead connection produces no more outbound packets and is reaped
    /// by the purge sweep.
    pub dead: bool,
    /// The peer's address.
    pub ip: Ipv4Octets,
    /// The peer's port.
    pub port: u16,
    /// Packets queued for transmission, oldest first.
    pub outbound: Vec<AWPacket>,
}

/// The mathematical value of a session record.
pub ghost struct SessionV {
    pub conn_id: u32,
    pub client_kind: ClientType,
    pub entity: Option<EntityV>,
    pub last_heartbeat_sent: u64,
    pub last_heartbeat_recv: u64,
    pub dead: bool,
    pub ip: Ipv4Octets,
    pub port: u16,
    pub outbound: Seq<PacketV>,
}

impl View for SessionRecord {
    type V = SessionV;

    open spec fn view(&self) -> SessionV {
        SessionV {
            conn_id: self.conn_id,
            client_kind: self.client_kind,
            entity: match self.entity {
                Some(ref e) => Some(e@),
                None => None,
            },
            last_heartbeat_sent: self.last_heartbeat_sent,
            last_heartbeat_recv: self.last_heartbeat_recv,
            dead: self.dead,
            ip: self.ip,
            port: self.port,
            outbound: self.outbound@.map_values(|p: AWPacket| p@),
        }
    }
}

impl SessionV {
    /// A session's classification and entity agree: players are exactly
    /// the citizen, tourist and bot kinds; a citizen id is held exactly
    /// by citizens and bots; world servers hold world lists; an
    /// unclassified session holds nothing.
    pub open spec fn kind_wf(self) -> bool {
        match self.entity {
            Some(EntityV::Player(p)) => {
                &&& (self.client_kind == ClientType::Citizen || self.client_kind
                    == ClientType::Tourist || self.client_kind == ClientType::Bot)
                &&& (p.citizen_id is Some <==> (self.client_kind == ClientType::Citizen
                    || self.client_kind == ClientType::Bot))
            },
            Some(EntityV::WorldServer(_)) => self.client_kind == ClientType::WorldServer,
            None => self.client_kind == ClientType::Unknown || self.client_kind
                == ClientType::UnspecifiedHuman,
        }
    }

    /// The session id this record holds, if it is a player.
    pub open spec fn session_id(self) -> Option<u32> {
        match self.entity {
            Some(EntityV::Player(p)) => Some(p.session_id),
            _ => None,
        }
    }
}

impl SessionRecord {
    /// A fresh, unclassified record for an accepted connection.
    pub fn new(conn_id: u32, ip: Ipv4Octets, port: u16, now: u64) -> (r: Self)
        ensures
            r@ == (SessionV {
                conn_id,
                client_kind: ClientType::Unknown,
                entity: None,
                last_heartbeat_sent: now,
                last_heartbeat_recv: now,
                dead: false,
                ip,
                port,
                outbound: Seq::<PacketV>::empty(),
            }),
    {
        let r = SessionRecord {
            conn_id,
            client_kind: ClientType::Unknown,
            entity: None,
            last_heartbeat_sent: now,
            last_heartbeat_recv: now,
            dead: false,
            ip,
            port,
            outbound: Vec::new(),
        };
        assert(r@.outbound =~= Seq::<PacketV>::empty());
        r
    }

    /// Queues one packet for transmission; a dead connection produces no
    /// more outbound bytes, so the packet is discarded there.
    pub fn send(&mut self, packet: AWPacket)
        ensures
            final(self)@ == (SessionV {
                outbound: if old(self)@.dead {
                    old(self)@.outbound
                } else {
                    old(self)@.outbound.push(packet@)
                },
                ..old(self)@
            }),
    {
        if !self.dead {
            self.outbound.push(packet);
            assert(self@.outbound =~= old(self)@.outbound.push(packet@));
        }
    }

    /// Queues every packet of a group, in order; discarded when dead.
    pub fn send_group(&mut self, group: AWPacketGroup)
        ensures
            final(self)@ == (SessionV {
                outbound: if old(self)@.dead {
                    old(self)@.outbound
                } else {
                    old(self)@.outbound + group@
                },
                ..old(self)@
            }),
    {
        if self.dead {
            assert(old(self)@.outbound =~= old(self)@.outbound);
            return;
        }
        let mut i: usize = 0;
        let n = group.packets.len();
        while i < n
            invariant
                i <= n,
                n == group@.len(),
                self@ == (SessionV {
                    outbound: old(self)@.outbound + group@.take(i as int),
                    ..old(self)@
                }),
                !self.dead,
            decreases n - i,
        {
            let ghost pre = self@.outbound;
            let p = group.packets[i].clone();
            assert(p@ == group@[i as int]);
            self.outbound.push(p);
            assert(self@.outbound =~= pre.push(p@));
            assert(group@.take(i as int).push(group@[i as int]) =~= group@.take(i as int + 1));
            i = i + 1;
            assert(self@.outbound =~= old(self)@.outbound + group@.take(i as int));
        }
        assert(group@.take(n as int) =~= group@);
    }

    /// Whether the connection has been marked dead.
    pub fn is_dead(&self) -> (r: bool)
        ensures
            r == self@.dead,
    {
        self.dead
    }

    /// Marks the connection dead; the purge sweep will reap it.
    pub fn mark_dead(&mut self)
        ensures
            final(self)@ == (SessionV { dead: true, ..old(self)@ }),
    {
        self.dead = true;
    }

    /// Whether this session acts with administrator rights: a player
    /// logged in as, or presenting the privilege of, the first citizen.
    pub fn has_admin_permissions(&self) -> (r: bool)
        ensures
            r == self@.is_admin(),
    {
        match &self.entity {
            Some(Entity::Player(p)) => {
                let by_citizen = match p.citizen_id {
                    Some(c) => c == 1,
                    None => false,
                };
                let by_privilege = match p.privilege_id {
                    Some(c) => c == 1,
                    None => false,
                };
                by_citizen || by_privilege
            }
            _ => false,
        }
    }
}

impl SessionV {
    /// Administrator rights: a player logged in as, or presenting the
    /// privilege of, the first citizen.
    pub open spec fn is_admin(self) -> bool {
        match self.entity {
            Some(EntityV::Player(p)) => p.citizen_id == Some(1u32) || p.privilege_id == Some(
                1u32,
            ),
            _ => false,
        }
    }
}

/// The mathematical value of the registry.
pub ghost struct RegistryV {
    pub sessions: Seq<SessionV>,
    pub next_session_id: u32,
    pub attributes: Seq<(u16, Seq<u8>)>,
}

/// One universe attribute: a var id and its textual value.
pub struct AttributePair {
    pub id: u16,
    pub value: Vec<u8>,
}

/// The registry of live sessions, the session-id allocator, and the
/// universe attributes.
pub struct Registry {
    pub sessions: Vec<SessionRecord>,
    pub next_session_id: u32,
    pub attributes: Vec<AttributePair>,
}

impl View for Registry {
    type V = RegistryV;

    open spec fn view(&self) -> RegistryV {
        RegistryV {
            sessions: self.sessions@.map_values(|s: SessionRecord| s@),
            next_session_id: self.next_session_id,
            attributes: self.attributes@.map_values(|a: AttributePair| (a.id, a.value@)),
        }
    }
}

impl RegistryV {
    /// Registry invariant: connection ids are unique; every session's
    /// classification agrees with its entity; every allocated session id
    /// lies below the allocator, which stays within the positive range of
    /// an `i32` so ids survive the wire.
    pub open spec fn wf(self) -> bool {
        &&& forall|i: int, j: int|
            0 <= i < j < self.sessions.len() ==> (#[trigger] self.sessions[i]).conn_id != (
            #[trigger] self.sessions[j]).conn_id
        &&& forall|i: int| 0 <= i < self.sessions.len() ==> (#[trigger] self.sessions[i]).kind_wf()
        &&& forall|i: int|
            0 <= i < self.sessions.len() ==> match (#[trigger] self.sessions[i]).session_id() {
                Some(sid) => 1 <= sid < self.next_session_id,
                None => true,
            }
        &&& 1 <= self.next_session_id <= 0x8000_0000
    }
}

impl Registry {
    /// An empty registry; session ids start at one.
    pub fn new() -> (r: Self)
        ensures
            r@.sessions == Seq::<SessionV>::empty(),
            r@.attributes == Seq::<(u16, Seq<u8>)>::empty(),
            r@.next_session_id == 1,
            r@.wf(),
    {
        let r = Registry { sessions: Vec::new(), next_session_id: 1, attributes: Vec::new() };
        assert(r@.sessions =~= Seq::<SessionV>::empty());
        assert(r@.attributes =~= Seq::<(u16, Seq<u8>)>::empty());
        r
    }

    /// The position of the session with the given connection id.
    pub fn index_of(&self, conn_id: u32) -> (r: Option<usize>)
        ensures
            match r {
                Some(i) => i < self@.sessions.len() && self@.sessions[i as int].conn_id
                    == conn_id,
                None => forall|i: int|
                    0 <= i < self@.sessions.len() ==> (#[trigger] self@.sessions[i]).conn_id
                        != conn_id,
            },
    {
        let mut i: usize = 0;
        while i < self.sessions.len()
            invariant
                i <= self.sessions.len(),
                forall|j: int|
                    0 <= j < i ==> (#[trigger] self@.sessions[j]).conn_id != conn_id,
            decreases self.sessions.len() - i,
        {
            if self.sessions[i].conn_id == conn_id {
                return Some(i);
            }
            i = i + 1;
        }
        None
    }

    /// Registers an accepted connection; refused when the connection id
    /// is already taken, so ids stay unique.
    pub fn add_session(&mut self, conn_id: u32, ip: Ipv4Octets, port: u16, now: u64) -> (r:
        bool)
        requires
            old(self)@.wf(),
        ensures
            final(self)@.wf(),
            r ==> final(self)@ == (RegistryV {
                sessions: old(self)@.sessions.push(
                    SessionV {
                        conn_id,
                        client_kind: ClientType::Unknown,
                        entity: None,
                        last_heartbeat_sent: now,
                        last_heartbeat_recv: now,
                        dead: false,
                        ip,
                        port,
                        outbound: Seq::<PacketV>::empty(),
                    },
                ),
                ..old(self)@
            }),
            !r ==> final(self)@ == old(self)@ && (exists|i: int|
                0 <= i < old(self)@.sessions.len() && (#[trigger] old(
                    self,
                )@.sessions[i]).conn_id == conn_id),
    {
        match self.index_of(conn_id) {
            Some(_) => false,
            None => {
                let record = SessionRecord::new(conn_id, ip, port, now);
                self.sessions.push(record);
                proof {
                    assert(self@.sessions =~= old(self)@.sessions.push(
                        SessionV {
                            conn_id,
                            client_kind: ClientType::Unknown,
                            entity: None,
                            last_heartbeat_sent: now,
                            last_heartbeat_recv: now,
                            dead: false,
                            ip,
                            port,
                            outbound: Seq::<PacketV>::empty(),
                        },
                    ));
                }
                true
            }
        }
    }

    /// Allocates the next session id; strictly increasing, never
    /// reissued. The allocator must not have exhausted the positive
    /// 32-bit range.
    pub fn create_session_id(&mut self) -> (r: u32)
        requires
            old(self).next_session_id < 0x8000_0000,
    ensures
            r == old(self).next_session_id,
            final(self).next_session_id == old(self).next_session_id + 1,
            final(self).sessions == old(self).sessions,
            final(self).attributes == old(self).attributes,
            final(self)@ == (RegistryV {
                next_session_id: (old(self)@.next_session_id + 1) as u32,
                ..old(self)@
            }),
    {
        let id = self.next_session_id;
        self.next_session_id = self.next_session_id + 1;
        id
    }
}

/// The registry after one packet is queued on the session at `i`: only
/// that session's outbound queue grows, and not at all when it is dead.
pub open spec fn spec_send_to(s: RegistryV, i: int, p: PacketV) -> RegistryV {
    RegistryV {
        sessions: s.sessions.update(
            i,
            SessionV {
                outbound: if s.sessions[i].dead {
                    s.sessions[i].outbound
                } else {
                    s.sessions[i].outbound.push(p)
                },
                ..s.sessions[i]
            },
        ),
        ..s
    }
}

/// Changing only what a session holds in its outbound queue, its entity,
/// its kind or its timestamps keeps the registry invariant, as long as
/// ids stay in range.
pub proof fn lemma_wf_update(s: RegistryV, i: int, r: SessionV)
    requires
        s.wf(),
        0 <= i < s.sessions.len(),
        r.conn_id == s.sessions[i].conn_id,
        r.kind_wf(),
        match r.session_id() {
            Some(sid) => 1 <= sid < s.next_session_id,
            None => true,
        },
    ensures
        (RegistryV { sessions: s.sessions.update(i, r), ..s }).wf(),
{
    let s2 = RegistryV { sessions: s.sessions.update(i, r), ..s };
    assert forall|a: int, b: int| 0 <= a < b < s2.sessions.len() implies (
    #[trigger] s2.sessions[a]).conn_id != (#[trigger] s2.sessions[b]).conn_id by {
        assert(s.sessions[a].conn_id != s.sessions[b].conn_id);
    }
    assert forall|a: int| 0 <= a < s2.sessions.len() implies (
    #[trigger] s2.sessions[a]).kind_wf() by {
        assert(s.sessions[a].kind_wf());
    }
    assert forall|a: int| 0 <= a < s2.sessions.len() implies match (
    #[trigger] s2.sessions[a]).session_id() {
        Some(sid) => 1 <= sid < s2.next_session_id,
        None => true,
    } by {
        assert(match s.sessions[a].session_id() {
            Some(sid) => 1 <= sid < s.next_session_id,
            None => true,
        });
    }
}

/// A registry whose sessions all keep their connection ids,
/// classifications and entities, with the allocator neither moving
/// backwards nor past its bound, keeps the registry invariant — whatever
/// happens to queues and timestamps.
pub proof fn lemma_wf_same_shape(s: RegistryV, t: RegistryV)
    requires
        s.wf(),
        s.next_session_id <= t.next_session_id <= 0x8000_0000,
        t.sessions.len() == s.sessions.len(),
        forall|i: int|
            0 <= i < s.sessions.len() ==> {
                &&& (#[trigger] t.sessions[i]).conn_id == s.sessions[i].conn_id
                &&& t.sessions[i].client_kind == s.sessions[i].client_kind
                &&& t.sessions[i].entity == s.sessions[i].entity
            },
    ensures
        t.wf(),
{
    assert forall|a: int, b: int| 0 <= a < b < t.sessions.len() implies (
    #[trigger] t.sessions[a]).conn_id != (#[trigger] t.sessions[b]).conn_id by {
        assert(s.sessions[a].conn_id != s.sessions[b].conn_id);
    }
    assert forall|a: int| 0 <= a < t.sessions.len() implies (
    #[trigger] t.sessions[a]).kind_wf() by {
        assert(s.sessions[a].kind_wf());
    }
    assert forall|a: int| 0 <= a < t.sessions.len() implies match (
    #[trigger] t.sessions[a]).session_id() {
        Some(sid) => 1 <= sid < t.next_session_id,
        None => true,
    } by {
        assert(match s.sessions[a].session_id() {
            Some(sid) => 1 <= sid < s.next_session_id,
            None => true,
        });
    }
}

impl Registry {
    /// Queues one packet on the session at `idx`; a dead session takes
    /// nothing.
    pub fn send_to(&mut self, idx: usize, packet: AWPacket)
        requires
            idx < old(self).sessions.len(),
        ensures
            final(self)@ == spec_send_to(old(self)@, idx as int, packet@),
            old(self)@.wf() ==> final(self)@.wf(),
    {
        let ghost s0 = self@;
        let mut rec = self.sessions.remove(idx);
        rec.send(packet);
        self.sessions.insert(idx, rec);
        proof {
            assert(self@.sessions =~= spec_send_to(s0, idx as int, packet@).sessions);
            if s0.wf() {
                let r = spec_send_to(s0, idx as int, packet@).sessions[idx as int];
                assert(r.kind_wf()) by {
                    assert(s0.sessions[idx as int].kind_wf());
                }
                lemma_wf_update(s0, idx as int, r);
            }
        }
    }

    /// Queues every packet of a group on the session at `idx`, in order;
    /// a dead session takes nothing.
    pub fn send_group_to(&mut self, idx: usize, group: AWPacketGroup)
        requires
            idx < old(self).sessions.len(),
        ensures
            final(self)@ == (RegistryV {
                sessions: old(self)@.sessions.update(
                    idx as int,
                    SessionV {
                        outbound: if old(self)@.sessions[idx as int].dead {
                            old(self)@.sessions[idx as int].outbound
                        } else {
                            old(self)@.sessions[idx as int].outbound + group@
                        },
                        ..old(self)@.sessions[idx as int]
                    },
                ),
                ..old(self)@
            }),
            old(self)@.wf() ==> final(self)@.wf(),
    {
        let ghost s0 = self@;
        let mut rec = self.sessions.remove(idx);
        rec.send_group(group);
        self.sessions.insert(idx, rec);
        proof {
            let r = SessionV {
                outbound: if s0.sessions[idx as int].dead {
                    s0.sessions[idx as int].outbound
                } else {
                    s0.sessions[idx as int].outbound + group@
                },
                ..s0.sessions[idx as int]
            };
            assert(self@.sessions =~= s0.sessions.update(idx as int, r));
            if s0.wf() {
                assert(r.kind_wf()) by {
                    assert(s0.sessions[idx as int].kind_wf());
                }
                lemma_wf_update(s0, idx as int, r);
            }
        }
    }
}

/// Session ids increase strictly across allocations: whatever happens to
/// a registry between two allocations, if the allocator never moves
/// backwards, the second login's id is strictly greater than the first's.
pub proof fn lemma_session_id_monotonic(r0: RegistryV, r1: RegistryV, id0: u32, id1: u32)
    requires
        id0 == r0.next_session_id,
        r1.next_session_id > r0.next_session_id,
        id1 == r1.next_session_id,
    ensures
        id1 > id0,
{
}

} // verus!

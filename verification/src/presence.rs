//! Presence upkeep: the heartbeat tick, the user-list reply, the
//! attribute broadcast, and the purge sweep that reaps dead connections.

use vstd::prelude::*;

use crate::group::{group_len, AWPacketGroup, MAX_GROUP_LEN};
use crate::opcode::PacketType;
use crate::packet::{enc_packet_len, spec_get_int, AWPacket, PacketV};
use crate::session::{
    lemma_wf_update, spec_ip_num, Entity, EntityV, Ipv4Octets, PlayerInfoV, Registry, RegistryV,
    SessionV,
};
use crate::var::{AWPacketVar, VarV};
use crate::var_id;

verus! {

/// The empty keepalive packet.
pub open spec fn spec_heartbeat_packet() -> PacketV {
    PacketV {
        opcode: PacketType::Heartbeat,
        header_0: 0,
        header_1: 0,
        vars: Seq::<VarV>::empty(),
    }
}

/// Seconds of silence after which a keepalive is owed.
pub const HEARTBEAT_INTERVAL: u64 = 30;

/// What one tick does to one session: when thirty seconds have passed
/// since the last keepalive was sent, exactly one `Heartbeat` packet is
/// queued (dropped on a dead connection) and the send timestamp moves to
/// now; otherwise nothing changes.
pub open spec fn spec_tick_session(s: SessionV, now: u64) -> SessionV {
    if s.last_heartbeat_sent + HEARTBEAT_INTERVAL <= now {
        SessionV {
            last_heartbeat_sent: now,
            outbound: if s.dead {
                s.outbound
            } else {
                s.outbound.push(spec_heartbeat_packet())
            },
            ..s
        }
    } else {
        s
    }
}

/// Runs one heartbeat tick over every session.
pub fn send_heartbeats(registry: &mut Registry, now: u64)
    requires
        old(registry)@.wf(),
    ensures
        final(registry)@.wf(),
        final(registry)@ == (RegistryV {
            sessions: old(registry)@.sessions.map_values(
                |s: SessionV| spec_tick_session(s, now),
            ),
            ..old(registry)@
        }),
{
    let ghost s0 = registry@;
    let mut i: usize = 0;
    let n = registry.sessions.len();
    while i < n
        invariant
            i <= n,
            n == registry.sessions.len(),
            registry@.next_session_id == s0.next_session_id,
            registry@.attributes == s0.attributes,
            s0.sessions.len() == n,
            forall|j: int|
                0 <= j < i ==> registry@.sessions[j] == spec_tick_session(
                    #[trigger] s0.sessions[j],
                    now,
                ),
            forall|j: int| i <= j < n ==> registry@.sessions[j] == #[trigger] s0.sessions[j],
            s0.wf(),
        decreases n - i,
    {
        let due = now >= HEARTBEAT_INTERVAL && registry.sessions[i].last_heartbeat_sent <= now
            - HEARTBEAT_INTERVAL;
        if due {
            let ghost before = registry@;
            let mut rec = registry.sessions.remove(i);
            rec.last_heartbeat_sent = now;
            let packet = AWPacket::new(PacketType::Heartbeat);
            assert(packet@ == spec_heartbeat_packet());
            rec.send(packet);
            registry.sessions.insert(i, rec);
            proof {
                assert(registry@.sessions =~= before.sessions.update(
                    i as int,
                    spec_tick_session(s0.sessions[i as int], now),
                ));
            }
        }
        i = i + 1;
    }
    proof {
        assert(registry@.sessions =~= s0.sessions.map_values(
            |s: SessionV| spec_tick_session(s, now),
        ));
        let s1 = RegistryV {
            sessions: s0.sessions.map_values(|s: SessionV| spec_tick_session(s, now)),
            ..s0
        };
        crate::session::lemma_wf_same_shape(s0, s1);
    }
}

/// The placeholder world name reported until world presence is wired:
/// the bytes of `NO WORLD`.
pub open spec fn spec_no_world() -> Seq<u8> {
    seq![78u8, 79u8, 32u8, 87u8, 79u8, 82u8, 76u8, 68u8]
}

/// The placeholder world name, as bytes.
pub fn no_world_bytes() -> (r: Vec<u8>)
    ensures
        r@ == spec_no_world(),
{
    let mut r: Vec<u8> = Vec::new();
    r.push(78);
    r.push(79);
    r.push(32);
    r.push(87);
    r.push(79);
    r.push(82);
    r.push(76);
    r.push(68);
    assert(r@ =~= spec_no_world());
    r
}

/// One user-list entry: the player's name, its session id as the list
/// key, its citizen and privilege numbers (zero where absent), the
/// packed peer address for an administrator caller, the online state,
/// and the placeholder world name.
pub open spec fn spec_user_list_packet(p: PlayerInfoV, admin: bool, ip: Ipv4Octets) -> PacketV {
    PacketV {
        opcode: PacketType::UserList,
        header_0: 0,
        header_1: 0,
        vars: seq![
            VarV::String(var_id::USER_LIST_NAME, p.username),
            VarV::Int(var_id::USER_LIST_ID, p.session_id as i32),
            VarV::Uint(
                var_id::USER_LIST_CITIZEN_ID,
                match p.citizen_id {
                    Some(c) => c,
                    None => 0,
                },
            ),
            VarV::Uint(
                var_id::USER_LIST_PRIVILEGE_ID,
                match p.privilege_id {
                    Some(c) => c,
                    None => 0,
                },
            ),
        ] + (if admin {
            seq![VarV::Uint(var_id::USER_LIST_ADDRESS, spec_ip_num(ip))]
        } else {
            Seq::<VarV>::empty()
        }) + seq![
            VarV::Byte(var_id::USER_LIST_STATE, 1),
            VarV::String(var_id::USER_LIST_WORLD_NAME, spec_no_world()),
        ],
    }
}

/// The marker packet between and after user-list groups: whether more
/// entries follow, and the timestamp the client must echo next time.
pub open spec fn spec_user_list_result_packet(more: u8, now: i32) -> PacketV {
    PacketV {
        opcode: PacketType::UserListResult,
        header_0: 0,
        header_1: 0,
        vars: seq![
            VarV::Byte(var_id::USER_LIST_MORE, more),
            VarV::Int(var_id::USER_LIST_3DAY_UNKNOWN, now),
        ],
    }
}

/// Walks the sessions, packing one user-list entry per player into
/// groups: an entry that fits the budget joins the open group; one that
/// does not flushes the group, opens a new one led by a continuation
/// marker, and joins it if it fits — an oversized entry is dropped.
/// Returns the flushed packets and the still-open group.
pub open spec fn spec_ul_fold(
    ss: Seq<SessionV>,
    admin: bool,
    now: i32,
    emitted: Seq<PacketV>,
    group: Seq<PacketV>,
) -> (Seq<PacketV>, Seq<PacketV>)
    decreases ss.len(),
{
    if ss.len() == 0 {
        (emitted, group)
    } else {
        let rest = ss.skip(1);
        match ss[0].entity {
            Some(EntityV::Player(p)) => {
                let up = spec_user_list_packet(p, admin, ss[0].ip);
                if group_len(group) + enc_packet_len(up) <= MAX_GROUP_LEN {
                    spec_ul_fold(rest, admin, now, emitted, group.push(up))
                } else {
                    let gm = seq![spec_user_list_result_packet(1, now)];
                    let g2 = if group_len(gm) + enc_packet_len(up) <= MAX_GROUP_LEN {
                        gm.push(up)
                    } else {
                        gm
                    };
                    spec_ul_fold(rest, admin, now, emitted + group, g2)
                }
            },
            _ => spec_ul_fold(rest, admin, now, emitted, group),
        }
    }
}

/// Everything a user-list request emits, in order: the grouped entries
/// with continuation markers at group boundaries, and a final marker
/// carrying `more = 0` and the new timestamp.
pub open spec fn spec_user_list_emission(ss: Seq<SessionV>, admin: bool, now: i32) -> Seq<
    PacketV,
> {
    let folded = spec_ul_fold(ss, admin, now, Seq::<PacketV>::empty(), Seq::<PacketV>::empty());
    folded.0 + folded.1 + seq![spec_user_list_result_packet(0, now)]
}

/// The timestamp a user-list request echoes; zero when absent.
pub open spec fn spec_ul_time_val(vars: Seq<VarV>) -> i32 {
    match spec_get_int(vars, var_id::USER_LIST_3DAY_UNKNOWN) {
        Some(x) => x,
        None => 0,
    }
}

/// The throttle: a request whose echoed timestamp is newer than three
/// seconds ago is ignored, so a client cannot spam the list.
pub open spec fn spec_ul_throttled(vars: Seq<VarV>, now: i32) -> bool {
    (if now - 3 < i32::MIN {
        i32::MIN as int
    } else {
        now - 3
    }) < spec_ul_time_val(vars)
}

/// Handles a `UserList` request on the session at `idx`: a throttled
/// request changes nothing; otherwise the full emission is queued on
/// that session alone.
pub fn user_list(registry: &mut Registry, idx: usize, packet: &AWPacket, now: i32)
    requires
        old(registry)@.wf(),
        idx < old(registry)@.sessions.len(),
    ensures
        final(registry)@.wf(),
        spec_ul_throttled(packet@.vars, now) ==> final(registry)@ == old(registry)@,
        !spec_ul_throttled(packet@.vars, now) ==> final(registry)@ == (RegistryV {
            sessions: old(registry)@.sessions.update(
                idx as int,
                SessionV {
                    outbound: if old(registry)@.sessions[idx as int].dead {
                        old(registry)@.sessions[idx as int].outbound
                    } else {
                        old(registry)@.sessions[idx as int].outbound
                            + spec_user_list_emission(
                            old(registry)@.sessions,
                            old(registry)@.sessions[idx as int].is_admin(),
                            now,
                        )
                    },
                    ..old(registry)@.sessions[idx as int]
                },
            ),
            ..old(registry)@
        }),
{
    let ghost s0 = registry@;
    let time_val = match packet.get_int(var_id::USER_LIST_3DAY_UNKNOWN) {
        Some(x) => x,
        None => 0,
    };
    let threshold = if now >= i32::MIN + 3 {
        now - 3
    } else {
        i32::MIN
    };
    if threshold < time_val {
        return;
    }
    let admin = registry.sessions[idx].has_admin_permissions();
    let ghost s = s0.sessions[idx as int];
    let mut group = AWPacketGroup::new();
    let ghost mut emitted = Seq::<PacketV>::empty();
    let mut i: usize = 0;
    let n = registry.sessions.len();
    proof {
        assert(s0.sessions.skip(0) =~= s0.sessions);
        assert(s.outbound + emitted =~= s.outbound);
        assert(s0.sessions.update(idx as int, SessionV { outbound: s.outbound + emitted, ..s })
            =~= s0.sessions);
    }
    while i < n
        invariant
            i <= n,
            idx < n,
            n == registry.sessions.len(),
            n == s0.sessions.len(),
            s0.wf(),
            s == s0.sessions[idx as int],
            admin == s.is_admin(),
            group.wf(),
            spec_ul_fold(s0.sessions.skip(i as int), admin, now, emitted, group@)
                == spec_ul_fold(
                s0.sessions,
                admin,
                now,
                Seq::<PacketV>::empty(),
                Seq::<PacketV>::empty(),
            ),
            registry@ == (RegistryV {
                sessions: s0.sessions.update(
                    idx as int,
                    SessionV {
                        outbound: if s.dead {
                            s.outbound
                        } else {
                            s.outbound + emitted
                        },
                        ..s
                    },
                ),
                ..s0
            }),
        decreases n - i,
    {
        proof {
            assert(s0.sessions.skip(i as int)[0] == s0.sessions[i as int]);
            assert(s0.sessions.skip(i as int).skip(1) =~= s0.sessions.skip(i as int + 1));
        }
        let ghost old_emitted = emitted;
        let ghost old_group = group@;
        let has_player = match &registry.sessions[i].entity {
            Some(Entity::Player(_)) => true,
            _ => false,
        };
        if has_player {
            assert(registry@.sessions[i as int].entity == s0.sessions[i as int].entity);
            let (username, session_id, citizen_id, privilege_id) = match &registry.sessions[i].entity {
                Some(Entity::Player(p)) => (
                    crate::bytes::clone_bytes(&p.username),
                    p.session_id,
                    p.citizen_id,
                    p.privilege_id,
                ),
                _ => (Vec::new(), 0u32, None, None),
            };
            let ip = registry.sessions[i].ip;
            assert(session_id < 0x8000_0000) by {
                assert(s0.sessions[i as int].session_id() == Some(session_id));
            }
            let ghost p = (match s0.sessions[i as int].entity {
                Some(EntityV::Player(pv)) => pv,
                _ => arbitrary(),
            });
            let mut up = AWPacket::new(PacketType::UserList);
            up.add_var(AWPacketVar::String(var_id::USER_LIST_NAME, username));
            up.add_var(AWPacketVar::Int(var_id::USER_LIST_ID, session_id as i32));
            up.add_var(
                AWPacketVar::Uint(
                    var_id::USER_LIST_CITIZEN_ID,
                    match citizen_id {
                        Some(c) => c,
                        None => 0,
                    },
                ),
            );
            up.add_var(
                AWPacketVar::Uint(
                    var_id::USER_LIST_PRIVILEGE_ID,
                    match privilege_id {
                        Some(c) => c,
                        None => 0,
                    },
                ),
            );
            if admin {
                up.add_var(
                    AWPacketVar::Uint(var_id::USER_LIST_ADDRESS, crate::session::ip_to_num(ip)),
                );
            }
            up.add_var(AWPacketVar::Byte(var_id::USER_LIST_STATE, 1));
            up.add_var(AWPacketVar::String(var_id::USER_LIST_WORLD_NAME, no_world_bytes()));
            assert(up@.vars =~= spec_user_list_packet(p, admin, ip).vars);
            assert(up@ == spec_user_list_packet(p, admin, ip));
            match group.push(up) {
                Ok(()) => {}
                Err(up_back) => {
                    let ghost flushed = group@;
                    registry.send_group_to(idx, group);
                    proof {
                        if !s.dead {
                            assert((s.outbound + old_emitted) + flushed =~= s.outbound + (
                            old_emitted + flushed));
                        }
                        emitted = old_emitted + flushed;
                        assert(registry@.sessions =~= s0.sessions.update(
                            idx as int,
                            SessionV {
                                outbound: if s.dead {
                                    s.outbound
                                } else {
                                    s.outbound + emitted
                                },
                                ..s
                            },
                        ));
                    }
                    group = AWPacketGroup::new();
                    let mut more = AWPacket::new(PacketType::UserListResult);
                    more.add_var(AWPacketVar::Byte(var_id::USER_LIST_MORE, 1));
                    more.add_var(AWPacketVar::Int(var_id::USER_LIST_3DAY_UNKNOWN, now));
                    assert(more@.vars =~= spec_user_list_result_packet(1, now).vars);
                    assert(more@ == spec_user_list_result_packet(1, now));
                    proof {
                        lemma_small_packet_len(more@);
                    }
                    let ghost gm = seq![spec_user_list_result_packet(1, now)];
                    match group.push(more) {
                        Ok(()) => {}
                        Err(_) => {
                            proof {
                                assert(false);
                            }
                        }
                    }
                    assert(group@ =~= gm);
                    match group.push(up_back) {
                        Ok(()) => {}
                        Err(_) => {}
                    }
                    proof {
                        if group_len(gm) + enc_packet_len(spec_user_list_packet(p, admin, ip))
                            <= MAX_GROUP_LEN {
                            assert(group@ =~= gm.push(spec_user_list_packet(p, admin, ip)));
                        } else {
                            assert(group@ =~= gm);
                        }
                    }
                }
            }
            proof {
                assert(spec_ul_fold(s0.sessions.skip(i as int), admin, now, old_emitted,
                    old_group) == spec_ul_fold(
                    s0.sessions.skip(i as int + 1),
                    admin,
                    now,
                    emitted,
                    group@,
                ));
            }
        }
        i = i + 1;
    }
    proof {
        assert(s0.sessions.skip(i as int) =~= Seq::<SessionV>::empty());
    }
    let ghost folded = spec_ul_fold(
        s0.sessions,
        admin,
        now,
        Seq::<PacketV>::empty(),
        Seq::<PacketV>::empty(),
    );
    proof {
        assert(folded == (emitted, group@));
    }
    let mut fin = AWPacket::new(PacketType::UserListResult);
    fin.add_var(AWPacketVar::Byte(var_id::USER_LIST_MORE, 0));
    fin.add_var(AWPacketVar::Int(var_id::USER_LIST_3DAY_UNKNOWN, now));
    assert(fin@.vars =~= spec_user_list_result_packet(0, now).vars);
    assert(fin@ == spec_user_list_result_packet(0, now));
    proof {
        lemma_small_packet_len(fin@);
    }
    let ghost final_group = group@;
    let ghost emission = spec_user_list_emission(s0.sessions, admin, now);
    match group.push(fin) {
        Ok(()) => {
            let ghost sent = group@;
            registry.send_group_to(idx, group);
            proof {
                assert(sent =~= final_group.push(spec_user_list_result_packet(0, now)));
                if !s.dead {
                    assert((s.outbound + emitted) + sent =~= s.outbound + emission);
                }
                assert(registry@.sessions =~= s0.sessions.update(
                    idx as int,
                    SessionV {
                        outbound: if s.dead {
                            s.outbound
                        } else {
                            s.outbound + emission
                        },
                        ..s
                    },
                ));
            }
        }
        Err(f2) => {
            registry.send_group_to(idx, group);
            let mut g2 = AWPacketGroup::new();
            proof {
                lemma_small_packet_len(f2@);
            }
            match g2.push(f2) {
                Ok(()) => {}
                Err(_) => {
                    proof {
                        assert(false);
                    }
                }
            }
            let ghost sent2 = g2@;
            assert(registry@.sessions.len() == s0.sessions.len());
            registry.send_group_to(idx, g2);
            proof {
                assert(sent2 =~= Seq::<PacketV>::empty().push(
                    spec_user_list_result_packet(0, now),
                ));
                if !s.dead {
                    assert(((s.outbound + emitted) + final_group) + sent2 =~= s.outbound
                        + emission);
                }
                assert(registry@.sessions =~= s0.sessions.update(
                    idx as int,
                    SessionV {
                        outbound: if s.dead {
                            s.outbound
                        } else {
                            s.outbound + emission
                        },
                        ..s
                    },
                ));
            }
        }
    }
    proof {
        let r = SessionV {
            outbound: if s.dead {
                s.outbound
            } else {
                s.outbound + emission
            },
            ..s
        };
        assert(r.kind_wf()) by {
            assert(s.kind_wf());
        }
        assert(match r.session_id() {
            Some(sid) => 1 <= sid < s0.next_session_id,
            None => true,
        }) by {
            assert(match s.session_id() {
                Some(sid) => 1 <= sid < s0.next_session_id,
                None => true,
            });
        }
        lemma_wf_update(s0, idx as int, r);
    }
}

/// A user-list marker packet is far smaller than a group's budget.
pub proof fn lemma_small_packet_len(p: PacketV)
    requires
        p.vars.len() == 2,
        p.vars[0] is Byte,
        p.vars[1] is Int,
    ensures
        enc_packet_len(p) == 21,
{
    reveal_with_fuel(crate::packet::enc_vars, 4);
    assert(p.vars.skip(1).len() == 1);
    assert(p.vars.skip(1)[0] == p.vars[1]);
    assert(p.vars.skip(1).skip(1) =~= Seq::<VarV>::empty());
    assert(crate::packet::enc_vars(p.vars.skip(1).skip(1)) == Seq::<u8>::empty());
    assert(crate::var::enc_var(p.vars[0]).len() == 4);
    assert(crate::var::enc_var(p.vars[1]).len() == 7);
    assert(crate::packet::enc_vars(p.vars) == crate::var::enc_var(p.vars[0])
        + crate::packet::enc_vars(p.vars.skip(1)));
    assert(crate::packet::enc_vars(p.vars.skip(1)) == crate::var::enc_var(p.vars.skip(1)[0])
        + crate::packet::enc_vars(p.vars.skip(1).skip(1)));
}

/// A keepalive is owed and sent: a live session whose last keepalive is
/// thirty or more seconds old queues exactly one `Heartbeat` and moves
/// its timestamp to now.
pub proof fn lemma_heartbeat_due(s: SessionV, now: u64)
    requires
        !s.dead,
        s.last_heartbeat_sent + HEARTBEAT_INTERVAL <= now,
    ensures
        spec_tick_session(s, now).outbound == s.outbound.push(spec_heartbeat_packet()),
        spec_tick_session(s, now).last_heartbeat_sent == now,
{
}

/// No keepalive is owed: a tick before thirty seconds have passed leaves
/// the session exactly as it was.
pub proof fn lemma_heartbeat_not_due(s: SessionV, now: u64)
    requires
        now < s.last_heartbeat_sent + HEARTBEAT_INTERVAL,
    ensures
        spec_tick_session(s, now) == s,
{
}

/// A live session whose last keepalive was sent at `t0` emits exactly one
/// `Heartbeat` over the half-open window `[t0 + 30, t0 + 60)`: the first
/// tick inside the window queues one, and every later tick inside the
/// window queues nothing more.
pub proof fn lemma_one_heartbeat_per_window(s: SessionV, t0: u64, t1: u64, t2: u64)
    requires
        !s.dead,
        s.last_heartbeat_sent == t0,
        t0 + HEARTBEAT_INTERVAL <= t1 < t0 + 2 * HEARTBEAT_INTERVAL,
        t1 <= t2 < t0 + 2 * HEARTBEAT_INTERVAL,
    ensures
        spec_tick_session(s, t1).outbound == s.outbound.push(spec_heartbeat_packet()),
        spec_tick_session(spec_tick_session(s, t1), t2) == spec_tick_session(s, t1),
{
    lemma_heartbeat_due(s, t1);
    lemma_heartbeat_not_due(spec_tick_session(s, t1), t2);
}

} // verus!

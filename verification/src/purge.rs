//! The purge sweep: reaping dead connections and fanning out their
//! departure.
//!
//! For each dead session, in registry order: a world server's hosted
//! worlds are announced hidden to every remaining session; a player is
//! announced offline to every remaining session; a citizen's contacts
//! additionally receive a contact-state update; then the dead session is
//! removed. A session marked dead therefore disappears within one sweep,
//! and every survivor has seen the departure.

use vstd::prelude::*;

use crate::bytes::clone_bytes;
use crate::citizen::{spec_contacts_of, CitizenDb};
use crate::opcode::PacketType;
use crate::packet::{AWPacket, PacketV};
use crate::session::{
    Entity, EntityV, Registry, RegistryV, SessionRecord, SessionV,
};
use crate::var::{AWPacketVar, VarV};
use crate::var_id;

verus! {

/// The packet announcing a world as hidden.
pub open spec fn spec_world_hide_packet(w: Seq<u8>) -> PacketV {
    PacketV {
        opcode: PacketType::WorldList,
        header_0: 0,
        header_1: 0,
        vars: seq![
            VarV::String(var_id::WORLD_NAME, w),
            VarV::Byte(var_id::WORLD_STATUS, 0),
        ],
    }
}

/// The packet announcing a player as offline in the user list.
pub open spec fn spec_player_offline_packet(p: crate::session::PlayerInfoV) -> PacketV {
    PacketV {
        opcode: PacketType::UserList,
        header_0: 0,
        header_1: 0,
        vars: seq![
            VarV::String(var_id::USER_LIST_NAME, p.username),
            VarV::Int(var_id::USER_LIST_ID, p.session_id as i32),
            VarV::Uint(
                var_id::USER_LIST_CITIZEN_ID,
                match p.citizen_id {
                    Some(c) => c,
                    None => 0,
                },
            ),
            VarV::Byte(var_id::USER_LIST_STATE, 0),
        ],
    }
}

/// The packet telling a contact that a citizen went offline.
pub open spec fn spec_contact_offline_packet(cid: u32) -> PacketV {
    PacketV {
        opcode: PacketType::ContactChange,
        header_0: 0,
        header_1: 0,
        vars: seq![
            VarV::Uint(var_id::CITIZEN_NUMBER, cid),
            VarV::Byte(var_id::CONTACT_STATUS, 0),
        ],
    }
}

/// What one dead session announces to everyone: one hide per hosted
/// world for a world server, one offline entry for a player, nothing for
/// an unclassified connection.
pub open spec fn spec_dead_updates(d: SessionV) -> Seq<PacketV> {
    match d.entity {
        Some(EntityV::WorldServer(ws)) => Seq::new(ws.len(), |k: int| spec_world_hide_packet(ws[k])),
        Some(EntityV::Player(p)) => seq![spec_player_offline_packet(p)],
        None => Seq::<PacketV>::empty(),
    }
}

/// The extra packet a target receives when the departed session was a
/// citizen and the target is logged in as one of that citizen's
/// contacts.
pub open spec fn spec_contact_extra(d: SessionV, t: SessionV, contacts: Seq<(u32, u32)>) -> Seq<
    PacketV,
> {
    match d.entity {
        Some(EntityV::Player(p)) => match p.citizen_id {
            Some(cid) => match t.entity {
                Some(EntityV::Player(tp)) => match tp.citizen_id {
                    Some(o) => if spec_contacts_of(contacts, cid).contains(o) {
                        seq![spec_contact_offline_packet(cid)]
                    } else {
                        Seq::<PacketV>::empty()
                    },
                    None => Seq::<PacketV>::empty(),
                },
                _ => Seq::<PacketV>::empty(),
            },
            None => Seq::<PacketV>::empty(),
        },
        _ => Seq::<PacketV>::empty(),
    }
}

/// Everything one target receives for one departed session.
pub open spec fn spec_target_updates(d: SessionV, t: SessionV, contacts: Seq<(u32, u32)>) -> Seq<
    PacketV,
> {
    spec_dead_updates(d) + spec_contact_extra(d, t, contacts)
}

/// Everything one target receives over a sweep that reaps `deads`, in
/// order.
pub open spec fn spec_updates_for(t: SessionV, deads: Seq<SessionV>, contacts: Seq<(u32, u32)>)
    -> Seq<PacketV>
    decreases deads.len(),
{
    if deads.len() == 0 {
        Seq::<PacketV>::empty()
    } else {
        spec_target_updates(deads[0], t, contacts) + spec_updates_for(t, deads.skip(1), contacts)
    }
}

/// The sessions that survive a sweep, in order.
pub open spec fn spec_survivors(ss: Seq<SessionV>) -> Seq<SessionV>
    decreases ss.len(),
{
    if ss.len() == 0 {
        Seq::<SessionV>::empty()
    } else if !ss[0].dead {
        seq![ss[0]] + spec_survivors(ss.skip(1))
    } else {
        spec_survivors(ss.skip(1))
    }
}

/// The sessions a sweep reaps, in order.
pub open spec fn spec_deads(ss: Seq<SessionV>) -> Seq<SessionV>
    decreases ss.len(),
{
    if ss.len() == 0 {
        Seq::<SessionV>::empty()
    } else if ss[0].dead {
        seq![ss[0]] + spec_deads(ss.skip(1))
    } else {
        spec_deads(ss.skip(1))
    }
}

/// What a sweep leaves of one surviving session: its queue extended by
/// every departure it must see; a dead queue takes nothing.
pub open spec fn spec_purge_tick(t: SessionV, deads: Seq<SessionV>, contacts: Seq<(u32, u32)>)
    -> SessionV {
    SessionV {
        outbound: if t.dead {
            t.outbound
        } else {
            t.outbound + spec_updates_for(t, deads, contacts)
        },
        ..t
    }
}

/// Extending the prefix of reaped sessions appends that session's
/// updates to what a target receives.
pub proof fn lemma_updates_for_push(
    t: SessionV,
    deads: Seq<SessionV>,
    d: SessionV,
    contacts: Seq<(u32, u32)>,
)
    ensures
        spec_updates_for(t, deads.push(d), contacts) == spec_updates_for(t, deads, contacts)
            + spec_target_updates(d, t, contacts),
    decreases deads.len(),
{
    reveal_with_fuel(spec_updates_for, 3);
    if deads.len() == 0 {
        assert(deads.push(d)[0] == d);
        assert(deads.push(d).skip(1) =~= Seq::<SessionV>::empty());
        assert(spec_updates_for(t, deads.push(d), contacts) =~= spec_updates_for(
            t,
            deads,
            contacts,
        ) + spec_target_updates(d, t, contacts));
    } else {
        assert(deads.push(d)[0] == deads[0]);
        assert(deads.push(d).skip(1) =~= deads.skip(1).push(d));
        lemma_updates_for_push(t, deads.skip(1), d, contacts);
        assert(spec_updates_for(t, deads.push(d), contacts) =~= spec_updates_for(
            t,
            deads,
            contacts,
        ) + spec_target_updates(d, t, contacts));
    }
}

/// A surviving session joins the survivor list exactly when it is alive.
pub proof fn lemma_survivors_push(ss: Seq<SessionV>, x: SessionV)
    ensures
        spec_survivors(ss.push(x)) == if !x.dead {
            spec_survivors(ss).push(x)
        } else {
            spec_survivors(ss)
        },
    decreases ss.len(),
{
    reveal_with_fuel(spec_survivors, 3);
    if ss.len() == 0 {
        assert(ss.push(x)[0] == x);
        assert(ss.push(x).skip(1) =~= Seq::<SessionV>::empty());
        if !x.dead {
            assert(spec_survivors(ss.push(x)) =~= spec_survivors(ss).push(x));
        } else {
            assert(spec_survivors(ss.push(x)) =~= spec_survivors(ss));
        }
    } else {
        assert(ss.push(x)[0] == ss[0]);
        assert(ss.push(x).skip(1) =~= ss.skip(1).push(x));
        lemma_survivors_push(ss.skip(1), x);
        if !x.dead {
            assert(spec_survivors(ss.push(x)) =~= spec_survivors(ss).push(x));
        } else {
            assert(spec_survivors(ss.push(x)) =~= spec_survivors(ss));
        }
    }
}

/// A reaped session joins the reaped list exactly when it is dead.
pub proof fn lemma_deads_push(ss: Seq<SessionV>, x: SessionV)
    ensures
        spec_deads(ss.push(x)) == if x.dead {
            spec_deads(ss).push(x)
        } else {
            spec_deads(ss)
        },
    decreases ss.len(),
{
    reveal_with_fuel(spec_deads, 3);
    if ss.len() == 0 {
        assert(ss.push(x)[0] == x);
        assert(ss.push(x).skip(1) =~= Seq::<SessionV>::empty());
        if x.dead {
            assert(spec_deads(ss.push(x)) =~= spec_deads(ss).push(x));
        } else {
            assert(spec_deads(ss.push(x)) =~= spec_deads(ss));
        }
    } else {
        assert(ss.push(x)[0] == ss[0]);
        assert(ss.push(x).skip(1) =~= ss.skip(1).push(x));
        lemma_deads_push(ss.skip(1), x);
        if x.dead {
            assert(spec_deads(ss.push(x)) =~= spec_deads(ss).push(x));
        } else {
            assert(spec_deads(ss.push(x)) =~= spec_deads(ss));
        }
    }
}

/// Every survivor is one of the swept sessions.
pub proof fn lemma_survivors_membership(ss: Seq<SessionV>)
    ensures
        forall|i: int|
            0 <= i < spec_survivors(ss).len() ==> exists|j: int|
                0 <= j < ss.len() && #[trigger] spec_survivors(ss)[i] == ss[j],
    decreases ss.len(),
{
    if ss.len() > 0 {
        lemma_survivors_membership(ss.skip(1));
        assert forall|i: int| 0 <= i < spec_survivors(ss).len() implies exists|j: int|
            0 <= j < ss.len() && #[trigger] spec_survivors(ss)[i] == ss[j] by {
            if !ss[0].dead && i == 0 {
                assert(spec_survivors(ss)[0] == ss[0]);
            } else {
                let i2 = if !ss[0].dead {
                    i - 1
                } else {
                    i
                };
                assert(spec_survivors(ss)[i] == spec_survivors(ss.skip(1))[i2]);
                let j2 = choose|j: int|
                    0 <= j < ss.skip(1).len() && spec_survivors(ss.skip(1))[i2] == ss.skip(1)[j];
                assert(ss.skip(1)[j2] == ss[j2 + 1]);
            }
        }
    }
}

/// One departed session's data, for the broadcast: the packets everyone
/// receives, the citizen id behind it (if any), and that citizen's
/// contacts.
fn build_dead_updates(d: &SessionRecord) -> (r: Vec<AWPacket>)
    requires
        match d@.entity {
            Some(EntityV::Player(p)) => p.session_id < 0x8000_0000,
            _ => true,
        },
    ensures
        r@.map_values(|p: AWPacket| p@) == spec_dead_updates(d@),
{
    let mut updates: Vec<AWPacket> = Vec::new();
    match &d.entity {
        Some(Entity::WorldServer(ws)) => {
            let ghost wsv = (match d@.entity {
                Some(EntityV::WorldServer(w)) => w,
                _ => arbitrary(),
            });
            let mut k: usize = 0;
            while k < ws.len()
                invariant
                    k <= ws.len(),
                    wsv == ws@.map_values(|w: Vec<u8>| w@),
                    wsv.len() == ws@.len(),
                    updates@.map_values(|p: AWPacket| p@) == spec_dead_updates(d@).take(
                        k as int,
                    ),
                    spec_dead_updates(d@) == Seq::new(
                        wsv.len(),
                        |j: int| spec_world_hide_packet(wsv[j]),
                    ),
                decreases ws.len() - k,
            {
                let mut p = AWPacket::new(PacketType::WorldList);
                p.add_var(AWPacketVar::String(var_id::WORLD_NAME, clone_bytes(&ws[k])));
                p.add_var(AWPacketVar::Byte(var_id::WORLD_STATUS, 0));
                assert(p@.vars =~= spec_world_hide_packet(wsv[k as int]).vars);
                assert(p@ == spec_world_hide_packet(wsv[k as int]));
                let ghost pre = updates@.map_values(|q: AWPacket| q@);
                updates.push(p);
                assert(updates@.map_values(|q: AWPacket| q@) =~= pre.push(p@));
                assert(spec_dead_updates(d@)[k as int] == spec_world_hide_packet(wsv[k as int]));
                k = k + 1;
                assert(updates@.map_values(|q: AWPacket| q@) =~= spec_dead_updates(d@).take(
                    k as int,
                ));
            }
            assert(spec_dead_updates(d@).take(k as int) =~= spec_dead_updates(d@));
        }
        Some(Entity::Player(p)) => {
            let ghost pv = (match d@.entity {
                Some(EntityV::Player(x)) => x,
                _ => arbitrary(),
            });
            let mut up = AWPacket::new(PacketType::UserList);
            up.add_var(AWPacketVar::String(var_id::USER_LIST_NAME, clone_bytes(&p.username)));
            up.add_var(AWPacketVar::Int(var_id::USER_LIST_ID, p.session_id as i32));
            up.add_var(
                AWPacketVar::Uint(
                    var_id::USER_LIST_CITIZEN_ID,
                    match p.citizen_id {
                        Some(c) => c,
                        None => 0,
                    },
                ),
            );
            up.add_var(AWPacketVar::Byte(var_id::USER_LIST_STATE, 0));
            assert(up@.vars =~= spec_player_offline_packet(pv).vars);
            assert(up@ == spec_player_offline_packet(pv));
            updates.push(up);
            assert(updates@.map_values(|q: AWPacket| q@) =~= spec_dead_updates(d@));
        }
        None => {
            assert(updates@.map_values(|q: AWPacket| q@) =~= spec_dead_updates(d@));
        }
    }
    updates
}

/// Whether the list holds the value.
fn vec_contains_u32(v: &Vec<u32>, x: u32) -> (r: bool)
    ensures
        r == v@.contains(x),
{
    let mut i: usize = 0;
    while i < v.len()
        invariant
            i <= v.len(),
            forall|j: int| 0 <= j < i ==> v@[j] != x,
        decreases v.len() - i,
    {
        if v[i] == x {
            return true;
        }
        i = i + 1;
    }
    assert(!v@.contains(x));
    false
}

/// Applies one departed session's updates to one target: every target
/// sees the departure packets; a contact of the departed citizen also
/// sees the contact-state update; a dead target takes nothing.
fn apply_dead_updates(
    t: &mut SessionRecord,
    updates: &Vec<AWPacket>,
    cid: Option<u32>,
    others: &Vec<u32>,
    Ghost(d): Ghost<SessionV>,
    Ghost(contacts): Ghost<Seq<(u32, u32)>>,
)
    requires
        updates@.map_values(|p: AWPacket| p@) == spec_dead_updates(d),
        (match d.entity {
            Some(EntityV::Player(p)) => p.citizen_id,
            _ => None,
        }) == cid,
        match cid {
            Some(c) => others@ == spec_contacts_of(contacts, c),
            None => true,
        },
    ensures
        final(t)@ == (SessionV {
            outbound: if old(t)@.dead {
                old(t)@.outbound
            } else {
                old(t)@.outbound + spec_target_updates(d, old(t)@, contacts)
            },
            ..old(t)@
        }),
{
    if t.is_dead() {
        return;
    }
    let mut k: usize = 0;
    while k < updates.len()
        invariant
            k <= updates.len(),
            !t.dead,
            updates@.map_values(|p: AWPacket| p@) == spec_dead_updates(d),
            t@ == (SessionV {
                outbound: old(t)@.outbound + spec_dead_updates(d).take(k as int),
                ..old(t)@
            }),
        decreases updates.len() - k,
    {
        let p = updates[k].clone();
        assert(p@ == spec_dead_updates(d)[k as int]);
        t.send(p);
        k = k + 1;
        assert(t@.outbound =~= old(t)@.outbound + spec_dead_updates(d).take(k as int));
    }
    assert(spec_dead_updates(d).take(k as int) =~= spec_dead_updates(d));
    let notify = match (cid, &t.entity) {
        (Some(_), Some(Entity::Player(p))) => match p.citizen_id {
            Some(o) => vec_contains_u32(others, o),
            None => false,
        },
        _ => false,
    };
    if notify {
        let c = match cid {
            Some(c) => c,
            None => 0,
        };
        let mut cp = AWPacket::new(PacketType::ContactChange);
        cp.add_var(AWPacketVar::Uint(var_id::CITIZEN_NUMBER, c));
        cp.add_var(AWPacketVar::Byte(var_id::CONTACT_STATUS, 0));
        assert(cp@.vars =~= spec_contact_offline_packet(c).vars);
        assert(cp@ == spec_contact_offline_packet(c));
        t.send(cp);
    }
    proof {
        assert(spec_contact_extra(d, old(t)@, contacts) == if notify {
            seq![
                spec_contact_offline_packet(
                    match cid {
                        Some(c) => c,
                        None => 0,
                    },
                ),
            ]
        } else {
            Seq::<PacketV>::empty()
        });
        assert(t@.outbound =~= old(t)@.outbound + spec_target_updates(d, old(t)@, contacts));
    }
}

/// Sweeps the registry: every dead session is removed, and every
/// remaining session's queue has seen every departure, in order.
pub fn purge_dead_clients(registry: &mut Registry, db: &CitizenDb)
    requires
        old(registry)@.wf(),
    ensures
        final(registry)@.wf(),
        final(registry)@ == (RegistryV {
            sessions: spec_survivors(old(registry)@.sessions).map_values(
                |t: SessionV|
                    spec_purge_tick(t, spec_deads(old(registry)@.sessions), db@.contacts),
            ),
            ..old(registry)@
        }),
{
    let ghost s0 = registry@;
    let ghost contacts = db@.contacts;
    let mut k: usize = 0;
    let ghost mut m: int = 0;
    proof {
        assert(s0.sessions.take(0) =~= Seq::<SessionV>::empty());
        assert(s0.sessions.skip(0) =~= s0.sessions);
        assert forall|j: int| 0 <= j < s0.sessions.len() implies spec_purge_tick(
            #[trigger] s0.sessions[j],
            spec_deads(s0.sessions.take(0int)),
            contacts,
        ) == s0.sessions[j] by {
            assert(s0.sessions[j].outbound + spec_updates_for(
                s0.sessions[j],
                spec_deads(s0.sessions.take(0int)),
                contacts,
            ) =~= s0.sessions[j].outbound);
        }
        assert(registry@.sessions =~= spec_survivors(s0.sessions.take(0)).map_values(
            |t: SessionV| spec_purge_tick(t, spec_deads(s0.sessions.take(0)), contacts),
        ) + s0.sessions.skip(0).map_values(
            |t: SessionV| spec_purge_tick(t, spec_deads(s0.sessions.take(0)), contacts),
        ));
    }
    while k < registry.sessions.len()
        invariant
            0 <= m <= s0.sessions.len(),
            k == spec_survivors(s0.sessions.take(m)).len(),
            s0.wf(),
            contacts == db@.contacts,
            registry@.next_session_id == s0.next_session_id,
            registry@.attributes == s0.attributes,
            registry@.sessions == spec_survivors(s0.sessions.take(m)).map_values(
                |t: SessionV| spec_purge_tick(t, spec_deads(s0.sessions.take(m)), contacts),
            ) + s0.sessions.skip(m).map_values(
                |t: SessionV| spec_purge_tick(t, spec_deads(s0.sessions.take(m)), contacts),
            ),
        decreases s0.sessions.len() - m,
    {
        let ghost deads_before = spec_deads(s0.sessions.take(m));
        let ghost big_a = spec_survivors(s0.sessions.take(m)).map_values(
            |t: SessionV| spec_purge_tick(t, deads_before, contacts),
        );
        let ghost big_b = s0.sessions.skip(m).map_values(
            |t: SessionV| spec_purge_tick(t, deads_before, contacts),
        );
        proof {
            assert(registry@.sessions.len() == k + s0.sessions.skip(m).len());
            assert(s0.sessions.skip(m).len() > 0);
            assert(registry@.sessions[k as int] == big_b[0]);
            assert(s0.sessions.skip(m)[0] == s0.sessions[m]);
            assert(s0.sessions.take(m + 1) =~= s0.sessions.take(m).push(s0.sessions[m]));
            lemma_survivors_push(s0.sessions.take(m), s0.sessions[m]);
            lemma_deads_push(s0.sessions.take(m), s0.sessions[m]);
            assert(s0.sessions.skip(m).skip(1) =~= s0.sessions.skip(m + 1));
        }
        let ghost cur = s0.sessions[m];
        let dead = registry.sessions[k].is_dead();
        if !dead {
            proof {
                assert(spec_deads(s0.sessions.take(m + 1)) == deads_before);
                assert(spec_survivors(s0.sessions.take(m + 1)) == spec_survivors(
                    s0.sessions.take(m),
                ).push(cur));
                assert(registry@.sessions =~= spec_survivors(s0.sessions.take(m + 1)).map_values(
                    |t: SessionV| spec_purge_tick(t, deads_before, contacts),
                ) + s0.sessions.skip(m + 1).map_values(
                    |t: SessionV| spec_purge_tick(t, deads_before, contacts),
                ));
                m = m + 1;
            }
            k = k + 1;
        } else {
            let ghost pre = registry@.sessions;
            let ghost pre_vec = registry.sessions@;
            let d_rec = registry.sessions.remove(k);
            proof {
                assert(d_rec@ == big_b[0]);
                assert(d_rec@ == spec_purge_tick(cur, deads_before, contacts));
                assert(d_rec@.entity == cur.entity);
                assert(match d_rec@.entity {
                    Some(EntityV::Player(p)) => p.session_id < 0x8000_0000,
                    _ => true,
                }) by {
                    assert(cur.kind_wf());
                    match cur.session_id() {
                        Some(sid) => {
                            assert(1 <= sid < s0.next_session_id);
                        }
                        None => {}
                    }
                }
                assert(registry@.sessions =~= big_a + big_b.skip(1)) by {
                    pre_vec.remove_ensures(k as int);
                    assert(registry.sessions@ == pre_vec.remove(k as int));
                    assert forall|x: int|
                        0 <= x < registry@.sessions.len() implies registry@.sessions[x] == (big_a
                        + big_b.skip(1))[x] by {
                        assert(registry@.sessions[x] == registry.sessions@[x]@);
                        if x < k {
                            assert(registry.sessions@[x] == pre_vec[x]);
                            assert(pre[x] == pre_vec[x]@);
                            assert(pre[x] == big_a[x]);
                        } else {
                            assert(registry.sessions@[x] == pre_vec[x + 1]);
                            assert(pre[x + 1] == pre_vec[x + 1]@);
                            assert(pre[x + 1] == big_b[x + 1 - k]);
                            assert((big_a + big_b.skip(1))[x] == big_b.skip(1)[x - k]);
                            assert(big_b.skip(1)[x - k] == big_b[x - k + 1]);
                        }
                    }
                }
            }
            let updates = build_dead_updates(&d_rec);
            let (cid, others): (Option<u32>, Vec<u32>) = match &d_rec.entity {
                Some(Entity::Player(p)) => match p.citizen_id {
                    Some(c) => (Some(c), db.contacts_of(c)),
                    None => (None, Vec::new()),
                },
                _ => (None, Vec::new()),
            };
            proof {
                assert((match d_rec@.entity {
                    Some(EntityV::Player(p)) => p.citizen_id,
                    _ => None,
                }) == cid);
                assert(match cid {
                    Some(c) => others@ == spec_contacts_of(contacts, c),
                    None => true,
                });
            }
            let ghost before_bc = registry@.sessions;
            let mut j: usize = 0;
            while j < registry.sessions.len()
                invariant
                    j <= registry.sessions.len(),
                    registry@.sessions.len() == before_bc.len(),
                    registry@.next_session_id == s0.next_session_id,
                    registry@.attributes == s0.attributes,
                    updates@.map_values(|p: AWPacket| p@) == spec_dead_updates(d_rec@),
                    (match d_rec@.entity {
                        Some(EntityV::Player(p)) => p.citizen_id,
                        _ => None,
                    }) == cid,
                    match cid {
                        Some(c) => others@ == spec_contacts_of(contacts, c),
                        None => true,
                    },
                    forall|a: int|
                        0 <= a < j ==> registry@.sessions[a] == (SessionV {
                            outbound: if before_bc[a].dead {
                                before_bc[a].outbound
                            } else {
                                before_bc[a].outbound + spec_target_updates(
                                    d_rec@,
                                    #[trigger] before_bc[a],
                                    contacts,
                                )
                            },
                            ..before_bc[a]
                        }),
                    forall|a: int|
                        j <= a < before_bc.len() ==> registry@.sessions[a]
                            == #[trigger] before_bc[a],
                decreases registry.sessions.len() - j,
            {
                let ghost pre_j = registry@.sessions;
                let mut t = registry.sessions.remove(j);
                apply_dead_updates(
                    &mut t,
                    &updates,
                    cid,
                    &others,
                    Ghost(d_rec@),
                    Ghost(contacts),
                );
                registry.sessions.insert(j, t);
                proof {
                    pre_j.remove_ensures(j as int);
                    assert(registry@.sessions =~= pre_j.update(
                        j as int,
                        SessionV {
                            outbound: if before_bc[j as int].dead {
                                before_bc[j as int].outbound
                            } else {
                                before_bc[j as int].outbound + spec_target_updates(
                                    d_rec@,
                                    before_bc[j as int],
                                    contacts,
                                )
                            },
                            ..before_bc[j as int]
                        },
                    ));
                }
                j = j + 1;
            }
            proof {
                let deads_after = spec_deads(s0.sessions.take(m + 1));
                assert(deads_after == deads_before.push(cur));
                assert(spec_survivors(s0.sessions.take(m + 1)) == spec_survivors(
                    s0.sessions.take(m),
                ));
                assert(before_bc == big_a + big_b.skip(1));
                let target_a = spec_survivors(s0.sessions.take(m + 1)).map_values(
                    |t: SessionV| spec_purge_tick(t, deads_after, contacts),
                );
                let target_b = s0.sessions.skip(m + 1).map_values(
                    |t: SessionV| spec_purge_tick(t, deads_after, contacts),
                );
                assert forall|a: int| 0 <= a < registry@.sessions.len() implies registry@.sessions[a]
                    == (target_a + target_b)[a] by {
                    let orig = if a < k {
                        spec_survivors(s0.sessions.take(m))[a]
                    } else {
                        s0.sessions.skip(m + 1)[a - k]
                    };
                    if a < k {
                        assert(before_bc[a] == big_a[a]);
                        assert(big_a[a] == spec_purge_tick(orig, deads_before, contacts));
                    } else {
                        assert(before_bc[a] == big_b.skip(1)[a - k]);
                        assert(big_b.skip(1)[a - k] == big_b[a - k + 1]);
                        assert(big_b[a - k + 1] == spec_purge_tick(
                            s0.sessions.skip(m)[a - k + 1],
                            deads_before,
                            contacts,
                        ));
                        assert(s0.sessions.skip(m)[a - k + 1] == s0.sessions.skip(m + 1)[a
                            - k]);
                    }
                    let ticked = spec_purge_tick(orig, deads_before, contacts);
                    assert(before_bc[a] == ticked);
                    assert(registry@.sessions[a] == (SessionV {
                        outbound: if ticked.dead {
                            ticked.outbound
                        } else {
                            ticked.outbound + spec_target_updates(d_rec@, ticked, contacts)
                        },
                        ..ticked
                    }));
                    assert(spec_contact_extra(d_rec@, ticked, contacts) == spec_contact_extra(
                        d_rec@,
                        orig,
                        contacts,
                    ));
                    assert(spec_target_updates(d_rec@, ticked, contacts) == spec_target_updates(
                        d_rec@,
                        orig,
                        contacts,
                    ));
                    assert(spec_dead_updates(d_rec@) == spec_dead_updates(cur));
                    assert(spec_contact_extra(d_rec@, orig, contacts) == spec_contact_extra(
                        cur,
                        orig,
                        contacts,
                    ));
                    lemma_updates_for_push(orig, deads_before, cur, contacts);
                    if !orig.dead {
                        assert((orig.outbound + spec_updates_for(orig, deads_before, contacts))
                            + spec_target_updates(cur, orig, contacts) =~= orig.outbound
                            + spec_updates_for(orig, deads_after, contacts));
                    }
                    assert((target_a + target_b)[a] == spec_purge_tick(orig, deads_after,
                        contacts));
                }
                assert(registry@.sessions =~= target_a + target_b);
                m = m + 1;
            }
        }
    }
    proof {
        assert(s0.sessions.skip(m) =~= Seq::<SessionV>::empty());
        assert(s0.sessions.take(m) =~= s0.sessions);
        assert(registry@.sessions =~= spec_survivors(s0.sessions).map_values(
            |t: SessionV| spec_purge_tick(t, spec_deads(s0.sessions), contacts),
        ));
        lemma_purged_registry_wf(s0, contacts);
    }
}

/// The registry a sweep leaves behind keeps the invariant: every
/// survivor is one of the swept sessions with only its queue changed, so
/// classifications, session ids and the uniqueness of connection ids
/// carry over.
pub proof fn lemma_purged_registry_wf(s0: RegistryV, contacts: Seq<(u32, u32)>)
    requires
        s0.wf(),
    ensures
        (RegistryV {
            sessions: spec_survivors(s0.sessions).map_values(
                |t: SessionV| spec_purge_tick(t, spec_deads(s0.sessions), contacts),
            ),
            ..s0
        }).wf(),
{
    let fin = spec_survivors(s0.sessions).map_values(
        |t: SessionV| spec_purge_tick(t, spec_deads(s0.sessions), contacts),
    );
    let s1 = RegistryV { sessions: fin, ..s0 };
    lemma_survivors_membership(s0.sessions);
    assert forall|a: int, b: int| 0 <= a < b < s1.sessions.len() implies (
    #[trigger] s1.sessions[a]).conn_id != (#[trigger] s1.sessions[b]).conn_id by {
        lemma_survivors_distinct(s0.sessions, a, b);
    }
    assert forall|a: int| 0 <= a < s1.sessions.len() implies (
    #[trigger] s1.sessions[a]).kind_wf() by {
        let sv = spec_survivors(s0.sessions);
        let ja = choose|j: int| 0 <= j < s0.sessions.len() && sv[a] == s0.sessions[j];
        assert(s0.sessions[ja].kind_wf());
    }
    assert forall|a: int| 0 <= a < s1.sessions.len() implies match (
    #[trigger] s1.sessions[a]).session_id() {
        Some(sid) => 1 <= sid < s1.next_session_id,
        None => true,
    } by {
        let sv = spec_survivors(s0.sessions);
        let ja = choose|j: int| 0 <= j < s0.sessions.len() && sv[a] == s0.sessions[j];
        assert(match s0.sessions[ja].session_id() {
            Some(sid) => 1 <= sid < s0.next_session_id,
            None => true,
        });
    }
}

/// Two distinct survivors keep distinct connection ids.
pub proof fn lemma_survivors_distinct(ss: Seq<SessionV>, a: int, b: int)
    requires
        forall|i: int, j: int|
            0 <= i < j < ss.len() ==> (#[trigger] ss[i]).conn_id != (#[trigger] ss[j]).conn_id,
        0 <= a < b < spec_survivors(ss).len(),
    ensures
        spec_survivors(ss)[a].conn_id != spec_survivors(ss)[b].conn_id,
    decreases ss.len(),
{
    if ss.len() > 0 {
        let tail = ss.skip(1);
        assert(forall|j: int| 0 <= j < tail.len() ==> #[trigger] tail[j] == ss[j + 1]);
        if !ss[0].dead {
            if a == 0 {
                lemma_survivors_membership(tail);
                assert(spec_survivors(ss)[b] == spec_survivors(tail)[b - 1]);
                let jb = choose|j: int|
                    0 <= j < tail.len() && spec_survivors(tail)[b - 1] == tail[j];
                assert(ss[0].conn_id != ss[jb + 1].conn_id);
            } else {
                assert(spec_survivors(ss)[a] == spec_survivors(tail)[a - 1]);
                assert(spec_survivors(ss)[b] == spec_survivors(tail)[b - 1]);
                lemma_survivors_distinct(tail, a - 1, b - 1);
            }
        } else {
            assert(spec_survivors(ss)[a] == spec_survivors(tail)[a]);
            assert(spec_survivors(ss)[b] == spec_survivors(tail)[b]);
            lemma_survivors_distinct(tail, a, b);
        }
    }
}

} // verus!

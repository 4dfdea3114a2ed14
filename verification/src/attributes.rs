//! Universe attributes: administrator-set named texts, broadcast to
//! every connected client whenever they change.

use vstd::prelude::*;

use crate::bytes::clone_bytes;
use crate::opcode::PacketType;
use crate::packet::{AWPacket, PacketV};
use crate::session::{AttributePair, Registry, RegistryV, SessionV};
use crate::var::{AWPacketVar, VarV};

verus! {

/// One attribute written: the first pair with the id takes the new
/// value; a fresh id is appended.
pub open spec fn spec_apply_attr(
    attrs: Seq<(u16, Seq<u8>)>,
    id: u16,
    val: Seq<u8>,
) -> Seq<(u16, Seq<u8>)>
    decreases attrs.len(),
{
    if attrs.len() == 0 {
        seq![(id, val)]
    } else if attrs[0].0 == id {
        seq![(id, val)] + attrs.skip(1)
    } else {
        seq![attrs[0]] + spec_apply_attr(attrs.skip(1), id, val)
    }
}

/// Every `String` var of a request written in order.
pub open spec fn spec_apply_attrs(attrs: Seq<(u16, Seq<u8>)>, vars: Seq<VarV>) -> Seq<
    (u16, Seq<u8>),
>
    decreases vars.len(),
{
    if vars.len() == 0 {
        attrs
    } else {
        match vars[0] {
            VarV::String(id, val) => spec_apply_attrs(
                spec_apply_attr(attrs, id, val),
                vars.skip(1),
            ),
            _ => spec_apply_attrs(attrs, vars.skip(1)),
        }
    }
}

/// The packet that carries the whole attribute table to a client.
pub open spec fn spec_attributes_packet(attrs: Seq<(u16, Seq<u8>)>) -> PacketV {
    PacketV {
        opcode: PacketType::Attributes,
        header_0: 0,
        header_1: 0,
        vars: attrs.map_values(|a: (u16, Seq<u8>)| VarV::String(a.0, a.1)),
    }
}

/// Writes one attribute into the table, first match or appended.
fn set_attribute(attrs: &mut Vec<AttributePair>, id: u16, value: &Vec<u8>)
    ensures
        final(attrs)@.map_values(|a: AttributePair| (a.id, a.value@)) == spec_apply_attr(
            old(attrs)@.map_values(|a: AttributePair| (a.id, a.value@)),
            id,
            value@,
        ),
{
    let ghost a0 = attrs@.map_values(|a: AttributePair| (a.id, a.value@));
    let mut out: Vec<AttributePair> = Vec::new();
    let mut done = false;
    let mut i: usize = 0;
    proof {
        assert(a0.skip(0) =~= a0);
        assert(out@.map_values(|a: AttributePair| (a.id, a.value@)) =~= Seq::<
            (u16, Seq<u8>),
        >::empty());
    }
    while i < attrs.len()
        invariant
            i <= attrs.len(),
            a0 == attrs@.map_values(|a: AttributePair| (a.id, a.value@)),
            a0.len() == attrs@.len(),
            spec_apply_attr(a0, id, value@) == out@.map_values(
                |a: AttributePair| (a.id, a.value@),
            ) + (if done {
                a0.skip(i as int)
            } else {
                spec_apply_attr(a0.skip(i as int), id, value@)
            }),
        decreases attrs.len() - i,
    {
        proof {
            assert(a0.skip(i as int)[0] == a0[i as int]);
            assert(a0.skip(i as int).skip(1) =~= a0.skip(i as int + 1));
        }
        let ghost out_pre = out@.map_values(|a: AttributePair| (a.id, a.value@));
        if !done && attrs[i].id == id {
            out.push(AttributePair { id, value: clone_bytes(value) });
            done = true;
            proof {
                assert(out@.map_values(|a: AttributePair| (a.id, a.value@)) =~= out_pre.push(
                    (id, value@),
                ));
                assert(out_pre.push((id, value@)) + a0.skip(i as int + 1) =~= out_pre + (seq![
                    (id, value@),
                ] + a0.skip(i as int + 1)));
            }
        } else {
            let kept = AttributePair { id: attrs[i].id, value: clone_bytes(&attrs[i].value) };
            out.push(kept);
            proof {
                assert(out@.map_values(|a: AttributePair| (a.id, a.value@)) =~= out_pre.push(
                    a0[i as int],
                ));
                if done {
                    assert(out_pre.push(a0[i as int]) + a0.skip(i as int + 1) =~= out_pre + (
                    seq![a0[i as int]] + a0.skip(i as int + 1)));
                    assert(seq![a0[i as int]] + a0.skip(i as int + 1) =~= a0.skip(i as int));
                } else {
                    assert(out_pre.push(a0[i as int]) + spec_apply_attr(
                        a0.skip(i as int + 1),
                        id,
                        value@,
                    ) =~= out_pre + (seq![a0[i as int]] + spec_apply_attr(
                        a0.skip(i as int + 1),
                        id,
                        value@,
                    )));
                }
            }
        }
        i = i + 1;
    }
    proof {
        assert(a0.skip(i as int) =~= Seq::<(u16, Seq<u8>)>::empty());
    }
    if !done {
        let ghost out_pre = out@.map_values(|a: AttributePair| (a.id, a.value@));
        out.push(AttributePair { id, value: clone_bytes(value) });
        proof {
            assert(out@.map_values(|a: AttributePair| (a.id, a.value@)) =~= out_pre.push(
                (id, value@),
            ));
            assert(out_pre + spec_apply_attr(Seq::<(u16, Seq<u8>)>::empty(), id, value@)
                =~= out_pre.push((id, value@)));
        }
    } else {
        proof {
            assert(out@.map_values(|a: AttributePair| (a.id, a.value@)) + Seq::<
                (u16, Seq<u8>),
            >::empty() =~= out@.map_values(|a: AttributePair| (a.id, a.value@)));
        }
    }
    *attrs = out;
}

/// Handles an `AttributeChange` request on the session at `idx`. Only an
/// administrator may write universe attributes: any other caller changes
/// nothing. Every `String` var of the request is written in order, and
/// the whole new table is then broadcast to every live session.
pub fn attribute_change(registry: &mut Registry, idx: usize, packet: &AWPacket)
    requires
        old(registry)@.wf(),
        idx < old(registry)@.sessions.len(),
    ensures
        final(registry)@.wf(),
        !old(registry)@.sessions[idx as int].is_admin() ==> final(registry)@ == old(registry)@,
        old(registry)@.sessions[idx as int].is_admin() ==> ({
            let new_attrs = spec_apply_attrs(old(registry)@.attributes, packet@.vars);
            final(registry)@ == (RegistryV {
                attributes: new_attrs,
                sessions: old(registry)@.sessions.map_values(
                    |s: SessionV| SessionV {
                        outbound: if s.dead {
                            s.outbound
                        } else {
                            s.outbound.push(spec_attributes_packet(new_attrs))
                        },
                        ..s
                    },
                ),
                ..old(registry)@
            })
        }),
{
    let ghost s0 = registry@;
    if !registry.sessions[idx].has_admin_permissions() {
        return;
    }
    let vars = packet.get_vars();
    let mut i: usize = 0;
    proof {
        assert(packet@.vars.skip(0) =~= packet@.vars);
    }
    while i < vars.len()
        invariant
            i <= vars.len(),
            vars@.map_values(|v: AWPacketVar| v@) == packet@.vars,
            vars@.len() == packet@.vars.len(),
            registry@.sessions == s0.sessions,
            registry@.next_session_id == s0.next_session_id,
            spec_apply_attrs(registry@.attributes, packet@.vars.skip(i as int))
                == spec_apply_attrs(s0.attributes, packet@.vars),
        decreases vars.len() - i,
    {
        proof {
            assert(packet@.vars.skip(i as int)[0] == packet@.vars[i as int]);
            assert(packet@.vars.skip(i as int).skip(1) =~= packet@.vars.skip(i as int + 1));
        }
        match &vars[i] {
            AWPacketVar::String(id, val) => {
                set_attribute(&mut registry.attributes, *id, val);
            }
            _ => {}
        }
        i = i + 1;
    }
    proof {
        assert(packet@.vars.skip(i as int) =~= Seq::<VarV>::empty());
    }
    let ghost new_attrs = registry@.attributes;
    let mut attr_vars: Vec<AWPacketVar> = Vec::new();
    let mut a: usize = 0;
    while a < registry.attributes.len()
        invariant
            a <= registry.attributes.len(),
            registry@.attributes == new_attrs,
            new_attrs.len() == registry.attributes@.len(),
            registry@.sessions == s0.sessions,
            registry@.next_session_id == s0.next_session_id,
            attr_vars@.map_values(|v: AWPacketVar| v@) == new_attrs.map_values(
                |x: (u16, Seq<u8>)| VarV::String(x.0, x.1),
            ).take(a as int),
        decreases registry.attributes.len() - a,
    {
        let id = registry.attributes[a].id;
        let value = clone_bytes(&registry.attributes[a].value);
        let ghost pre = attr_vars@.map_values(|v: AWPacketVar| v@);
        let ghost pushed = VarV::String(id, value@);
        attr_vars.push(AWPacketVar::String(id, value));
        proof {
            assert(new_attrs[a as int] == (registry.attributes@[a as int].id,
                registry.attributes@[a as int].value@));
            assert(pushed == new_attrs.map_values(
                |x: (u16, Seq<u8>)| VarV::String(x.0, x.1),
            )[a as int]);
            assert(attr_vars@.map_values(|v: AWPacketVar| v@) =~= pre.push(pushed));
        }
        a = a + 1;
        proof {
            assert(attr_vars@.map_values(|v: AWPacketVar| v@) =~= new_attrs.map_values(
                |x: (u16, Seq<u8>)| VarV::String(x.0, x.1),
            ).take(a as int));
        }
    }
    proof {
        assert(new_attrs.map_values(|x: (u16, Seq<u8>)| VarV::String(x.0, x.1)).take(a as int)
            =~= new_attrs.map_values(|x: (u16, Seq<u8>)| VarV::String(x.0, x.1)));
    }
    let template = AWPacket { vars: attr_vars, opcode: PacketType::Attributes, header_0: 0, header_1: 0 };
    assert(template@ == spec_attributes_packet(new_attrs));
    let mut j: usize = 0;
    let n = registry.sessions.len();
    while j < n
        invariant
            j <= n,
            n == registry.sessions.len(),
            n == s0.sessions.len(),
            template@ == spec_attributes_packet(new_attrs),
            registry@.attributes == new_attrs,
            registry@.next_session_id == s0.next_session_id,
            forall|x: int|
                0 <= x < j ==> registry@.sessions[x] == (SessionV {
                    outbound: if (#[trigger] s0.sessions[x]).dead {
                        s0.sessions[x].outbound
                    } else {
                        s0.sessions[x].outbound.push(spec_attributes_packet(new_attrs))
                    },
                    ..s0.sessions[x]
                }),
            forall|x: int| j <= x < n ==> registry@.sessions[x] == #[trigger] s0.sessions[x],
        decreases n - j,
    {
        let ghost pre_vec = registry.sessions@;
        let mut rec = registry.sessions.remove(j);
        let copy = template.clone();
        rec.send(copy);
        registry.sessions.insert(j, rec);
        proof {
            pre_vec.remove_ensures(j as int);
        }
        j = j + 1;
    }
    proof {
        assert(registry@.sessions =~= s0.sessions.map_values(
            |s: SessionV| SessionV {
                outbound: if s.dead {
                    s.outbound
                } else {
                    s.outbound.push(spec_attributes_packet(new_attrs))
                },
                ..s
            },
        ));
        let fin = RegistryV {
            attributes: new_attrs,
            sessions: s0.sessions.map_values(
                |s: SessionV| SessionV {
                    outbound: if s.dead {
                        s.outbound
                    } else {
                        s.outbound.push(spec_attributes_packet(new_attrs))
                    },
                    ..s
                },
            ),
            ..s0
        };
        crate::session::lemma_wf_same_shape(s0, fin);
    }
}

} // verus!

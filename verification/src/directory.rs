//! Directory queries: citizen lookups, pagination and mutation.
//!
//! Every handler works on the session at a given registry position and
//! answers with exactly one reply packet on that session's outbound
//! queue. Lookups and pagination demand administrator rights; a change
//! is allowed to an administrator or to the citizen it targets. Reply
//! fields are projected by viewpoint: public fields always, private
//! fields for the record's own citizen or an administrator, and the
//! comment and stored address for administrators only.

use vstd::prelude::*;

use crate::bytes::clone_bytes;
use crate::citizen::{
    has_citizen_number, spec_citizen_by_name, spec_citizen_by_number, spec_next_citizen,
    spec_prev_citizen, CitizenDb, CitizenDbV, CitizenQuery, CitizenV,
};
use crate::opcode::PacketType;
use crate::packet::{
    spec_get_string, spec_get_uint, AWPacket, PacketV,
};
use crate::reason::{reason_code_value, ReasonCode};
use crate::session::{spec_send_to, Registry, SessionV, EntityV};
use crate::var::{AWPacketVar, VarV};
use crate::var_id;

verus! {

/// The low byte of a stored flag, as the wire's `Byte` var carries it.
pub open spec fn low_byte(x: u32) -> u8 {
    (x % 256) as u8
}

/// The projected fields of one citizen record, in reply order: public
/// fields first, then the private block for the record's own citizen or
/// an administrator, then the administrator-only fields.
pub open spec fn spec_citizen_info_vars(c: CitizenV, self_vars: bool, admin_vars: bool) -> Seq<
    VarV,
> {
    seq![
        VarV::Uint(var_id::CITIZEN_NUMBER, c.id),
        VarV::String(var_id::CITIZEN_NAME, c.name),
        VarV::String(var_id::CITIZEN_URL, c.url),
        VarV::Byte(var_id::TRIAL_USER, low_byte(c.trial)),
        VarV::Byte(var_id::CAV_ENABLED, low_byte(c.cav_enabled)),
    ] + (if c.cav_enabled != 0 {
        seq![VarV::Uint(var_id::CAV_TEMPLATE, c.cav_template)]
    } else {
        seq![VarV::Int(var_id::CAV_TEMPLATE, 0)]
    }) + (if self_vars || admin_vars {
        seq![
            VarV::Uint(var_id::CITIZEN_IMMIGRATION, c.immigration),
            VarV::Uint(var_id::CITIZEN_EXPIRATION, c.expiration),
            VarV::Uint(var_id::CITIZEN_LAST_LOGIN, c.last_login),
            VarV::Uint(var_id::CITIZEN_TOTAL_TIME, c.total_time),
            VarV::Uint(var_id::CITIZEN_BOT_LIMIT, c.bot_limit),
            VarV::Byte(var_id::BETA_USER, low_byte(c.beta)),
            VarV::Byte(var_id::CITIZEN_ENABLED, low_byte(c.enabled)),
            VarV::Uint(var_id::CITIZEN_PRIVACY, c.privacy),
            VarV::String(var_id::CITIZEN_PASSWORD, c.password),
            VarV::String(var_id::CITIZEN_EMAIL, c.email),
            VarV::String(var_id::CITIZEN_PRIVILEGE_PASSWORD, c.priv_pass),
            VarV::Uint(var_id::CITIZEN_IMMIGRATION, c.immigration),
        ] + (if admin_vars {
            seq![
                VarV::String(var_id::CITIZEN_COMMENT, c.comment),
                VarV::Uint(var_id::IDENTIFY_USER_IP, c.last_address),
            ]
        } else {
            Seq::<VarV>::empty()
        })
    } else {
        Seq::<VarV>::empty()
    })
}

/// The projected fields of one citizen record, in reply order.
pub fn citizen_info_vars(citizen: &CitizenQuery, self_vars: bool, admin_vars: bool) -> (r: Vec<
    AWPacketVar,
>)
    ensures
        r@.map_values(|v: AWPacketVar| v@) == spec_citizen_info_vars(
            citizen@,
            self_vars,
            admin_vars,
        ),
{
    let mut vars: Vec<AWPacketVar> = Vec::new();
    vars.push(AWPacketVar::Uint(var_id::CITIZEN_NUMBER, citizen.id));
    vars.push(AWPacketVar::String(var_id::CITIZEN_NAME, clone_bytes(&citizen.name)));
    vars.push(AWPacketVar::String(var_id::CITIZEN_URL, clone_bytes(&citizen.url)));
    vars.push(AWPacketVar::Byte(var_id::TRIAL_USER, (citizen.trial % 256) as u8));
    vars.push(AWPacketVar::Byte(var_id::CAV_ENABLED, (citizen.cav_enabled % 256) as u8));
    if citizen.cav_enabled != 0 {
        vars.push(AWPacketVar::Uint(var_id::CAV_TEMPLATE, citizen.cav_template));
    } else {
        vars.push(AWPacketVar::Int(var_id::CAV_TEMPLATE, 0));
    }
    if self_vars || admin_vars {
        vars.push(AWPacketVar::Uint(var_id::CITIZEN_IMMIGRATION, citizen.immigration));
        vars.push(AWPacketVar::Uint(var_id::CITIZEN_EXPIRATION, citizen.expiration));
        vars.push(AWPacketVar::Uint(var_id::CITIZEN_LAST_LOGIN, citizen.last_login));
        vars.push(AWPacketVar::Uint(var_id::CITIZEN_TOTAL_TIME, citizen.total_time));
        vars.push(AWPacketVar::Uint(var_id::CITIZEN_BOT_LIMIT, citizen.bot_limit));
        vars.push(AWPacketVar::Byte(var_id::BETA_USER, (citizen.beta % 256) as u8));
        vars.push(AWPacketVar::Byte(var_id::CITIZEN_ENABLED, (citizen.enabled % 256) as u8));
        vars.push(AWPacketVar::Uint(var_id::CITIZEN_PRIVACY, citizen.privacy));
        vars.push(AWPacketVar::String(var_id::CITIZEN_PASSWORD, clone_bytes(&citizen.password)));
        vars.push(AWPacketVar::String(var_id::CITIZEN_EMAIL, clone_bytes(&citizen.email)));
        vars.push(
            AWPacketVar::String(var_id::CITIZEN_PRIVILEGE_PASSWORD, clone_bytes(&citizen.priv_pass)),
        );
        vars.push(AWPacketVar::Uint(var_id::CITIZEN_IMMIGRATION, citizen.immigration));
        if admin_vars {
            vars.push(AWPacketVar::String(var_id::CITIZEN_COMMENT, clone_bytes(&citizen.comment)));
            vars.push(AWPacketVar::Uint(var_id::IDENTIFY_USER_IP, citizen.last_address));
        }
    }
    assert(vars@.map_values(|v: AWPacketVar| v@) =~= spec_citizen_info_vars(
        citizen@,
        self_vars,
        admin_vars,
    ));
    vars
}

/// The citizen record a change request carries; `None` when any required
/// field is missing. Fields the requester cannot supply start at zero.
pub open spec fn spec_citizen_from_packet(vars: Seq<VarV>) -> Option<CitizenV> {
    if spec_get_string(vars, var_id::CITIZEN_NAME) is None || spec_get_uint(
        vars,
        var_id::CITIZEN_NUMBER,
    ) is None || spec_get_string(vars, var_id::CITIZEN_EMAIL) is None || spec_get_string(
        vars,
        var_id::CITIZEN_PRIVILEGE_PASSWORD,
    ) is None || spec_get_uint(vars, var_id::CITIZEN_EXPIRATION) is None || spec_get_uint(
        vars,
        var_id::CITIZEN_BOT_LIMIT,
    ) is None || spec_get_uint(vars, var_id::BETA_USER) is None || spec_get_uint(
        vars,
        var_id::CITIZEN_ENABLED,
    ) is None || spec_get_string(vars, var_id::CITIZEN_COMMENT) is None || spec_get_string(
        vars,
        var_id::CITIZEN_PASSWORD,
    ) is None || spec_get_string(vars, var_id::CITIZEN_URL) is None || spec_get_uint(
        vars,
        var_id::CAV_TEMPLATE,
    ) is None || spec_get_uint(vars, var_id::CAV_ENABLED) is None || spec_get_uint(
        vars,
        var_id::CITIZEN_PRIVACY,
    ) is None || spec_get_uint(vars, var_id::TRIAL_USER) is None {
        None
    } else {
        Some(
            CitizenV {
                id: spec_get_uint(vars, var_id::CITIZEN_NUMBER)->Some_0,
                changed: 0,
                name: spec_get_string(vars, var_id::CITIZEN_NAME)->Some_0,
                password: spec_get_string(vars, var_id::CITIZEN_PASSWORD)->Some_0,
                email: spec_get_string(vars, var_id::CITIZEN_EMAIL)->Some_0,
                priv_pass: spec_get_string(vars, var_id::CITIZEN_PRIVILEGE_PASSWORD)->Some_0,
                comment: spec_get_string(vars, var_id::CITIZEN_COMMENT)->Some_0,
                url: spec_get_string(vars, var_id::CITIZEN_URL)->Some_0,
                immigration: 0,
                expiration: spec_get_uint(vars, var_id::CITIZEN_EXPIRATION)->Some_0,
                last_login: 0,
                last_address: 0,
                total_time: 0,
                bot_limit: spec_get_uint(vars, var_id::CITIZEN_BOT_LIMIT)->Some_0,
                beta: spec_get_uint(vars, var_id::BETA_USER)->Some_0,
                cav_enabled: spec_get_uint(vars, var_id::CAV_ENABLED)->Some_0,
                cav_template: spec_get_uint(vars, var_id::CAV_TEMPLATE)->Some_0,
                enabled: spec_get_uint(vars, var_id::CITIZEN_ENABLED)->Some_0,
                privacy: spec_get_uint(vars, var_id::CITIZEN_PRIVACY)->Some_0,
                trial: spec_get_uint(vars, var_id::TRIAL_USER)->Some_0,
            },
        )
    }
}

/// Reads the citizen record a change request carries.
pub fn citizen_from_packet(packet: &AWPacket) -> (r: Option<CitizenQuery>)
    ensures
        match r {
            Some(c) => spec_citizen_from_packet(packet@.vars) == Some(c@),
            None => spec_citizen_from_packet(packet@.vars) is None,
        },
{
    let name = match packet.get_string(var_id::CITIZEN_NAME) {
        Some(x) => x,
        None => {
            return None;
        }
    };
    let id = match packet.get_uint(var_id::CITIZEN_NUMBER) {
        Some(x) => x,
        None => {
            return None;
        }
    };
    let email = match packet.get_string(var_id::CITIZEN_EMAIL) {
        Some(x) => x,
        None => {
            return None;
        }
    };
    let priv_pass = match packet.get_string(var_id::CITIZEN_PRIVILEGE_PASSWORD) {
        Some(x) => x,
        None => {
            return None;
        }
    };
    let expiration = match packet.get_uint(var_id::CITIZEN_EXPIRATION) {
        Some(x) => x,
        None => {
            return None;
        }
    };
    let bot_limit = match packet.get_uint(var_id::CITIZEN_BOT_LIMIT) {
        Some(x) => x,
        None => {
            return None;
        }
    };
    let beta = match packet.get_uint(var_id::BETA_USER) {
        Some(x) => x,
        None => {
            return None;
        }
    };
    let enabled = match packet.get_uint(var_id::CITIZEN_ENABLED) {
        Some(x) => x,
        None => {
            return None;
        }
    };
    let comment = match packet.get_string(var_id::CITIZEN_COMMENT) {
        Some(x) => x,
        None => {
            return None;
        }
    };
    let password = match packet.get_string(var_id::CITIZEN_PASSWORD) {
        Some(x) => x,
        None => {
            return None;
        }
    };
    let url = match packet.get_string(var_id::CITIZEN_URL) {
        Some(x) => x,
        None => {
            return None;
        }
    };
    let cav_template = match packet.get_uint(var_id::CAV_TEMPLATE) {
        Some(x) => x,
        None => {
            return None;
        }
    };
    let cav_enabled = match packet.get_uint(var_id::CAV_ENABLED) {
        Some(x) => x,
        None => {
            return None;
        }
    };
    let privacy = match packet.get_uint(var_id::CITIZEN_PRIVACY) {
        Some(x) => x,
        None => {
            return None;
        }
    };
    let trial = match packet.get_uint(var_id::TRIAL_USER) {
        Some(x) => x,
        None => {
            return None;
        }
    };
    Some(
        CitizenQuery {
            id,
            changed: 0,
            name,
            password,
            email,
            priv_pass,
            comment,
            url,
            immigration: 0,
            expiration,
            last_login: 0,
            last_address: 0,
            total_time: 0,
            bot_limit,
            beta,
            cav_enabled,
            cav_template,
            enabled,
            privacy,
            trial,
        },
    )
}

/// What a change writes: the target keeps its id and history; the
/// requester supplies name, passwords, mail, url, template and privacy;
/// the gated fields follow the request only for an administrator and
/// otherwise keep their stored values.
pub open spec fn spec_merged_citizen(orig: CitizenV, ch: CitizenV, admin: bool) -> CitizenV {
    CitizenV {
        id: orig.id,
        changed: 0,
        name: ch.name,
        password: ch.password,
        email: ch.email,
        priv_pass: ch.priv_pass,
        comment: if admin {
            ch.comment
        } else {
            orig.comment
        },
        url: ch.url,
        immigration: orig.immigration,
        expiration: if admin {
            ch.expiration
        } else {
            orig.expiration
        },
        last_login: orig.last_login,
        last_address: orig.last_address,
        total_time: orig.total_time,
        bot_limit: if admin {
            ch.bot_limit
        } else {
            orig.bot_limit
        },
        beta: if admin {
            ch.beta
        } else {
            orig.beta
        },
        cav_enabled: if admin {
            ch.cav_enabled
        } else {
            orig.cav_enabled
        },
        cav_template: ch.cav_template,
        enabled: if admin {
            ch.enabled
        } else {
            orig.enabled
        },
        privacy: ch.privacy,
        trial: if admin {
            ch.trial
        } else {
            orig.trial
        },
    }
}

/// Whether a change request's name collides with a different record.
pub open spec fn spec_name_collides(db: CitizenDbV, name: Seq<u8>, own_id: u32) -> bool {
    match spec_citizen_by_name(db.citizens, name) {
        Some(m) => m.id != own_id,
        None => false,
    }
}

/// Writes a change to the citizen table. A name held by a different
/// record refuses the change with `NameAlreadyUsed` and leaves the table
/// untouched; a missing target refuses it with `UnableToChangeCitizen`.
pub fn modify_citizen(
    original: &CitizenQuery,
    changed: &CitizenQuery,
    db: &mut CitizenDb,
    admin: bool,
) -> (r: Result<(), ReasonCode>)
    requires
        old(db)@.wf(),
    ensures
        final(db)@.wf(),
        final(db)@.contacts == old(db)@.contacts,
        match r {
            Ok(()) => {
                &&& !spec_name_collides(old(db)@, changed@.name, original@.id)
                &&& exists|i: int|
                    {
                        &&& 0 <= i < old(db)@.citizens.len()
                        &&& (#[trigger] old(db)@.citizens[i]).id == original@.id
                        &&& final(db)@.citizens == old(db)@.citizens.update(
                            i,
                            spec_merged_citizen(original@, changed@, admin),
                        )
                    }
            },
            Err(rc) => {
                &&& final(db)@ == old(db)@
                &&& if spec_name_collides(old(db)@, changed@.name, original@.id) {
                    rc == ReasonCode::NameAlreadyUsed
                } else {
                    rc == ReasonCode::UnableToChangeCitizen && !has_citizen_number(
                        old(db)@.citizens,
                        original@.id,
                    )
                }
            },
        },
{
    match db.citizen_by_name(&changed.name) {
        Some(matching) => {
            if matching.id != original.id {
                return Err(ReasonCode::NameAlreadyUsed);
            }
        }
        None => {}
    }
    let merged = CitizenQuery {
        id: original.id,
        changed: 0,
        name: clone_bytes(&changed.name),
        password: clone_bytes(&changed.password),
        email: clone_bytes(&changed.email),
        priv_pass: clone_bytes(&changed.priv_pass),
        comment: if admin {
            clone_bytes(&changed.comment)
        } else {
            clone_bytes(&original.comment)
        },
        url: clone_bytes(&changed.url),
        immigration: original.immigration,
        expiration: if admin {
            changed.expiration
        } else {
            original.expiration
        },
        last_login: original.last_login,
        last_address: original.last_address,
        total_time: original.total_time,
        bot_limit: if admin {
            changed.bot_limit
        } else {
            original.bot_limit
        },
        beta: if admin {
            changed.beta
        } else {
            original.beta
        },
        cav_enabled: if admin {
            changed.cav_enabled
        } else {
            original.cav_enabled
        },
        cav_template: changed.cav_template,
        enabled: if admin {
            changed.enabled
        } else {
            original.enabled
        },
        privacy: changed.privacy,
        trial: if admin {
            changed.trial
        } else {
            original.trial
        },
    };
    assert(merged@ == spec_merged_citizen(original@, changed@, admin));
    if db.citizen_change(&merged) {
        Ok(())
    } else {
        Err(ReasonCode::UnableToChangeCitizen)
    }
}

/// The reply fields for one lookup result: the projected record and
/// `Success`, or `NoSuchCitizen` alone.
pub open spec fn spec_lookup_reply_vars(found: Option<CitizenV>, viewer: Option<u32>) -> Seq<
    VarV,
> {
    match found {
        Some(c) => spec_citizen_info_vars(c, Some(c.id) == viewer, true) + seq![
            VarV::Int(var_id::REASON_CODE, reason_code_value(ReasonCode::Success)),
        ],
        None => seq![
            VarV::Int(var_id::REASON_CODE, reason_code_value(ReasonCode::NoSuchCitizen)),
        ],
    }
}

/// One whole lookup reply, given who asked and what was found: a
/// non-administrator gets `Unauthorized`; an administrator without a
/// player identity gets an empty `Success` reply; otherwise the
/// projected record or `NoSuchCitizen`.
pub open spec fn spec_lookup_response(s: SessionV, found: Option<CitizenV>) -> PacketV {
    PacketV {
        opcode: PacketType::CitizenInfo,
        header_0: 0,
        header_1: 0,
        vars: if !s.is_admin() {
            seq![
                VarV::Int(var_id::REASON_CODE, reason_code_value(ReasonCode::Unauthorized)),
            ]
        } else {
            match s.entity {
                Some(EntityV::Player(p)) => spec_lookup_reply_vars(found, p.citizen_id),
                _ => seq![
                    VarV::Int(var_id::REASON_CODE, reason_code_value(ReasonCode::Success)),
                ],
            }
        },
    }
}

/// Builds and queues the reply for one lookup outcome on the session at
/// `idx`.
fn send_lookup_response(registry: &mut Registry, idx: usize, found: Option<CitizenQuery>)
    requires
        idx < old(registry).sessions.len(),
    ensures
        final(registry)@ == spec_send_to(
            old(registry)@,
            idx as int,
            spec_lookup_response(
                old(registry)@.sessions[idx as int],
                match found {
                    Some(c) => Some(c@),
                    None => None,
                },
            ),
        ),
        old(registry)@.wf() ==> final(registry)@.wf(),
{
    let mut response = AWPacket::new(PacketType::CitizenInfo);
    let admin = registry.sessions[idx].has_admin_permissions();
    if !admin {
        response.add_var(
            AWPacketVar::Int(var_id::REASON_CODE, ReasonCode::Unauthorized.as_i32()),
        );
        assert(response@.vars =~= spec_lookup_response(
            registry@.sessions[idx as int],
            match found {
                Some(c) => Some(c@),
                None => None,
            },
        ).vars);
        registry.send_to(idx, response);
        return;
    }
    let viewer_citizen_id: Option<u32> = match &registry.sessions[idx].entity {
        Some(crate::session::Entity::Player(p)) => p.citizen_id,
        _ => {
            response.add_var(
                AWPacketVar::Int(var_id::REASON_CODE, ReasonCode::Success.as_i32()),
            );
            assert(response@.vars =~= spec_lookup_response(
                registry@.sessions[idx as int],
                match found {
                    Some(c) => Some(c@),
                    None => None,
                },
            ).vars);
            registry.send_to(idx, response);
            return;
        }
    };
    match found {
        Some(citizen) => {
            let self_vars = match viewer_citizen_id {
                Some(v) => v == citizen.id,
                None => false,
            };
            let vars = citizen_info_vars(&citizen, self_vars, true);
            let mut i: usize = 0;
            while i < vars.len()
                invariant
                    i <= vars.len(),
                    response@.opcode == PacketType::CitizenInfo,
                    response@.header_0 == 0,
                    response@.header_1 == 0,
                    response@.vars == vars@.map_values(|v: AWPacketVar| v@).take(i as int),
                decreases vars.len() - i,
            {
                let v = vars[i].clone();
                assert(v@ == vars@.map_values(|v2: AWPacketVar| v2@)[i as int]);
                response.add_var(v);
                i = i + 1;
                assert(response@.vars =~= vars@.map_values(|v2: AWPacketVar| v2@).take(
                    i as int,
                ));
            }
            assert(vars@.map_values(|v2: AWPacketVar| v2@).take(i as int) =~= vars@.map_values(
                |v2: AWPacketVar| v2@,
            ));
            response.add_var(
                AWPacketVar::Int(var_id::REASON_CODE, ReasonCode::Success.as_i32()),
            );
            assert(response@.vars =~= spec_lookup_response(
                registry@.sessions[idx as int],
                Some(citizen@),
            ).vars);
            registry.send_to(idx, response);
        }
        None => {
            response.add_var(
                AWPacketVar::Int(var_id::REASON_CODE, ReasonCode::NoSuchCitizen.as_i32()),
            );
            assert(response@.vars =~= spec_lookup_response(
                registry@.sessions[idx as int],
                None,
            ).vars);
            registry.send_to(idx, response);
        }
    }
}

/// The id bound a pagination request starts from.
pub open spec fn spec_requested_citizen_number(vars: Seq<VarV>) -> u32 {
    match spec_get_uint(vars, var_id::CITIZEN_NUMBER) {
        Some(x) => x,
        None => 0,
    }
}

/// Answers a forward pagination request: the citizen with the smallest
/// id above the requested one, projected for the asking administrator.
pub fn citizen_next(registry: &mut Registry, idx: usize, packet: &AWPacket, db: &CitizenDb)
    requires
        old(registry)@.wf(),
        db@.wf(),
        idx < old(registry)@.sessions.len(),
    ensures
        final(registry)@.wf(),
        final(registry)@ == spec_send_to(
            old(registry)@,
            idx as int,
            spec_lookup_response(
                old(registry)@.sessions[idx as int],
                if old(registry)@.sessions[idx as int].is_admin() {
                    spec_next_citizen(
                        db@.citizens,
                        spec_requested_citizen_number(packet@.vars),
                    )
                } else {
                    None
                },
            ),
        ),
{
    let admin = registry.sessions[idx].has_admin_permissions();
    let found: Option<CitizenQuery> = if admin {
        let citizen_id = match packet.get_uint(var_id::CITIZEN_NUMBER) {
            Some(x) => x,
            None => 0,
        };
        db.next_citizen(citizen_id)
    } else {
        None
    };
    send_lookup_response(registry, idx, found);
}

/// Answers a backward pagination request: the citizen with the largest
/// id below the requested one, projected for the asking administrator.
pub fn citizen_prev(registry: &mut Registry, idx: usize, packet: &AWPacket, db: &CitizenDb)
    requires
        old(registry)@.wf(),
        db@.wf(),
        idx < old(registry)@.sessions.len(),
    ensures
        final(registry)@.wf(),
        final(registry)@ == spec_send_to(
            old(registry)@,
            idx as int,
            spec_lookup_response(
                old(registry)@.sessions[idx as int],
                if old(registry)@.sessions[idx as int].is_admin() {
                    spec_prev_citizen(
                        db@.citizens,
                        spec_requested_citizen_number(packet@.vars),
                    )
                } else {
                    None
                },
            ),
        ),
{
    let admin = registry.sessions[idx].has_admin_permissions();
    let found: Option<CitizenQuery> = if admin {
        let citizen_id = match packet.get_uint(var_id::CITIZEN_NUMBER) {
            Some(x) => x,
            None => 0,
        };
        db.prev_citizen(citizen_id)
    } else {
        None
    };
    send_lookup_response(registry, idx, found);
}

/// What a name lookup finds: the record with the requested name, or
/// nothing when the request names none.
pub open spec fn spec_lookup_by_name_found(vars: Seq<VarV>, db: CitizenDbV) -> Option<
    CitizenV,
> {
    match spec_get_string(vars, var_id::CITIZEN_NAME) {
        Some(name) => spec_citizen_by_name(db.citizens, name),
        None => None,
    }
}

/// Answers a lookup by name for an administrator.
pub fn citizen_lookup_by_name(
    registry: &mut Registry,
    idx: usize,
    packet: &AWPacket,
    db: &CitizenDb,
)
    requires
        old(registry)@.wf(),
        db@.wf(),
        idx < old(registry)@.sessions.len(),
    ensures
        final(registry)@.wf(),
        final(registry)@ == spec_send_to(
            old(registry)@,
            idx as int,
            spec_lookup_response(
                old(registry)@.sessions[idx as int],
                if old(registry)@.sessions[idx as int].is_admin() {
                    spec_lookup_by_name_found(packet@.vars, db@)
                } else {
                    None
                },
            ),
        ),
{
    let admin = registry.sessions[idx].has_admin_permissions();
    let found: Option<CitizenQuery> = if admin {
        match packet.get_string(var_id::CITIZEN_NAME) {
            Some(name) => db.citizen_by_name(&name),
            None => None,
        }
    } else {
        None
    };
    send_lookup_response(registry, idx, found);
}

/// What a number lookup finds: the record with the requested id, or
/// nothing when the request names none.
pub open spec fn spec_lookup_by_number_found(vars: Seq<VarV>, db: CitizenDbV) -> Option<
    CitizenV,
> {
    match spec_get_uint(vars, var_id::CITIZEN_NUMBER) {
        Some(id) => spec_citizen_by_number(db.citizens, id),
        None => None,
    }
}

/// Answers a lookup by citizen number for an administrator.
pub fn citizen_lookup_by_number(
    registry: &mut Registry,
    idx: usize,
    packet: &AWPacket,
    db: &CitizenDb,
)
    requires
        old(registry)@.wf(),
        db@.wf(),
        idx < old(registry)@.sessions.len(),
    ensures
        final(registry)@.wf(),
        final(registry)@ == spec_send_to(
            old(registry)@,
            idx as int,
            spec_lookup_response(
                old(registry)@.sessions[idx as int],
                if old(registry)@.sessions[idx as int].is_admin() {
                    spec_lookup_by_number_found(packet@.vars, db@)
                } else {
                    None
                },
            ),
        ),
{
    let admin = registry.sessions[idx].has_admin_permissions();
    let found: Option<CitizenQuery> = if admin {
        match packet.get_uint(var_id::CITIZEN_NUMBER) {
            Some(id) => db.citizen_by_number(id),
            None => None,
        }
    } else {
        None
    };
    send_lookup_response(registry, idx, found);
}

/// The reason a change request is answered with, and whether it writes.
/// `Unauthorized` when the requester is neither an administrator nor the
/// target; `NoSuchCitizen` for a missing target; `NameAlreadyUsed` for a
/// name held by a different record; otherwise `Success` with the write.
pub open spec fn spec_citizen_change_rc(s: SessionV, ch: CitizenV, db: CitizenDbV) -> ReasonCode {
    match s.entity {
        Some(EntityV::Player(p)) => if Some(ch.id) != p.citizen_id && !s.is_admin() {
            ReasonCode::Unauthorized
        } else {
            match spec_citizen_by_number(db.citizens, ch.id) {
                None => ReasonCode::NoSuchCitizen,
                Some(orig) => if spec_name_collides(db, ch.name, orig.id) {
                    ReasonCode::NameAlreadyUsed
                } else {
                    ReasonCode::Success
                },
            }
        },
        _ => ReasonCode::Success,
    }
}

/// Whether a change request writes the table.
pub open spec fn spec_citizen_change_writes(s: SessionV, ch: CitizenV, db: CitizenDbV) -> bool {
    spec_citizen_change_rc(s, ch, db) == ReasonCode::Success && (match s.entity {
        Some(EntityV::Player(_)) => true,
        _ => false,
    })
}

/// The reply to a change request.
pub open spec fn spec_citizen_change_response(rc: ReasonCode) -> PacketV {
    PacketV {
        opcode: PacketType::CitizenChangeResult,
        header_0: 0,
        header_1: 0,
        vars: seq![VarV::Int(var_id::REASON_CODE, reason_code_value(rc))],
    }
}

/// A change request from a non-administrator that targets a citizen
/// other than its own is refused with `Unauthorized` and never writes
/// the table.
pub proof fn lemma_unauthorized_change_rejected(s: SessionV, ch: CitizenV, db: CitizenDbV)
    requires
        match s.entity {
            Some(EntityV::Player(p)) => Some(ch.id) != p.citizen_id,
            _ => false,
        },
        !s.is_admin(),
    ensures
        spec_citizen_change_rc(s, ch, db) == ReasonCode::Unauthorized,
        !spec_citizen_change_writes(s, ch, db),
{
}

/// A change whose requested name is already held by a different record
/// is refused with `NameAlreadyUsed` and never writes the table.
pub proof fn lemma_name_collision_rejected(s: SessionV, ch: CitizenV, db: CitizenDbV)
    requires
        match s.entity {
            Some(EntityV::Player(p)) => Some(ch.id) == p.citizen_id || s.is_admin(),
            _ => false,
        },
        spec_citizen_by_number(db.citizens, ch.id) is Some,
        spec_name_collides(db, ch.name, spec_citizen_by_number(db.citizens, ch.id)->Some_0.id),
    ensures
        spec_citizen_change_rc(s, ch, db) == ReasonCode::NameAlreadyUsed,
        !spec_citizen_change_writes(s, ch, db),
{
}

/// Handles a change request on the session at `idx`. A malformed request
/// — one missing a required var — touches neither the table nor any
/// session state beyond its reply: it is answered with
/// `UnableToChangeCitizen`. An authorized, collision-free request
/// overwrites the target record with the merged fields; every other
/// outcome leaves the table untouched — in particular, an unauthorized
/// requester never reaches it. Exactly one `CitizenChangeResult` reply
/// carries the reason, whatever the outcome.
pub fn citizen_change(registry: &mut Registry, idx: usize, packet: &AWPacket, db: &mut CitizenDb)
    requires
        old(registry)@.wf(),
        old(db)@.wf(),
        idx < old(registry)@.sessions.len(),
    ensures
        final(registry)@.wf(),
        final(db)@.wf(),
        final(db)@.contacts == old(db)@.contacts,
        match spec_citizen_from_packet(packet@.vars) {
            None => final(registry)@ == spec_send_to(
                old(registry)@,
                idx as int,
                spec_citizen_change_response(ReasonCode::UnableToChangeCitizen),
            ) && final(db)@ == old(db)@,
            Some(ch) => {
                let s = old(registry)@.sessions[idx as int];
                let rc = spec_citizen_change_rc(s, ch, old(db)@);
                &&& final(registry)@ == spec_send_to(
                    old(registry)@,
                    idx as int,
                    spec_citizen_change_response(rc),
                )
                &&& if spec_citizen_change_writes(s, ch, old(db)@) {
                    exists|i: int|
                        {
                            &&& 0 <= i < old(db)@.citizens.len()
                            &&& (#[trigger] old(db)@.citizens[i]).id == ch.id
                            &&& final(db)@.citizens == old(db)@.citizens.update(
                                i,
                                spec_merged_citizen(
                                    spec_citizen_by_number(old(db)@.citizens, ch.id)->Some_0,
                                    ch,
                                    s.is_admin(),
                                ),
                            )
                        }
                } else {
                    final(db)@ == old(db)@
                }
            },
        },
{
    let changed_info = match citizen_from_packet(packet) {
        Some(c) => c,
        None => {
            let mut refusal = AWPacket::new(PacketType::CitizenChangeResult);
            refusal.add_var(
                AWPacketVar::Int(var_id::REASON_CODE, ReasonCode::UnableToChangeCitizen.as_i32()),
            );
            assert(refusal@.vars =~= spec_citizen_change_response(
                ReasonCode::UnableToChangeCitizen,
            ).vars);
            registry.send_to(idx, refusal);
            return;
        }
    };
    let mut rc = ReasonCode::Success;
    let admin = registry.sessions[idx].has_admin_permissions();
    let viewer: Option<Option<u32>> = match &registry.sessions[idx].entity {
        Some(crate::session::Entity::Player(p)) => Some(p.citizen_id),
        _ => None,
    };
    match viewer {
        Some(own_citizen_id) => {
            let is_self = match own_citizen_id {
                Some(own) => own == changed_info.id,
                None => false,
            };
            if !is_self && !admin {
                rc = ReasonCode::Unauthorized;
            } else {
                match db.citizen_by_number(changed_info.id) {
                    Some(original_info) => {
                        match modify_citizen(&original_info, &changed_info, db, admin) {
                            Ok(()) => {}
                            Err(x) => {
                                rc = x;
                            }
                        }
                    }
                    None => {
                        rc = ReasonCode::NoSuchCitizen;
                    }
                }
            }
        }
        None => {}
    }
    let mut response = AWPacket::new(PacketType::CitizenChangeResult);
    response.add_var(AWPacketVar::Int(var_id::REASON_CODE, rc.as_i32()));
    assert(response@.vars =~= spec_citizen_change_response(rc).vars);
    registry.send_to(idx, response);
}

} // verus!

//! The login and role machine: credential extraction, validation, and
//! the promotion of an unclassified connection to citizen, tourist or
//! bot.
//!
//! A session logs in successfully at most once: a second `Login` is a
//! protocol violation answered with `Unauthorized`, leaving the prior
//! identity intact. A username wrapped in quotes names a tourist, kept to
//! format rules and barred from impersonating a citizen name; any other
//! username is validated against the citizen table, including the
//! enabled flag, the password and an optional privilege credential. Every
//! reply carries the universe license blob and a reason code.

use vstd::prelude::*;

use crate::bytes::{bytes_eq, clone_bytes, sub_bytes};
use crate::citizen::{
    spec_citizen_by_name, spec_citizen_by_number, CitizenDb, CitizenDbV, CitizenQuery, CitizenV,
};
use crate::opcode::PacketType;
use crate::packet::{spec_get_int, spec_get_string, spec_get_uint, AWPacket, PacketV};
use crate::reason::{reason_code_value, ReasonCode};
use crate::session::{
    lemma_wf_update, spec_client_type_of, ClientType, Entity, EntityV, PlayerInfo, PlayerInfoV,
    PlayerState, Registry, RegistryV, SessionV,
};
use crate::var::{AWPacketVar, VarV};
use crate::var_id;

verus! {

/// The credentials a `Login` packet carries.
pub struct LoginCredentials {
    pub user_type: Option<ClientType>,
    pub username: Option<Vec<u8>>,
    pub password: Option<Vec<u8>>,
    pub email: Option<Vec<u8>>,
    pub privilege_id: Option<u32>,
    pub privilege_password: Option<Vec<u8>>,
}

/// The mathematical value of login credentials.
pub ghost struct LoginCredentialsV {
    pub user_type: Option<ClientType>,
    pub username: Option<Seq<u8>>,
    pub password: Option<Seq<u8>>,
    pub email: Option<Seq<u8>>,
    pub privilege_id: Option<u32>,
    pub privilege_password: Option<Seq<u8>>,
}

impl View for LoginCredentials {
    type V = LoginCredentialsV;

    open spec fn view(&self) -> LoginCredentialsV {
        LoginCredentialsV {
            user_type: self.user_type,
            username: match self.username {
                Some(ref u) => Some(u@),
                None => None,
            },
            password: match self.password {
                Some(ref u) => Some(u@),
                None => None,
            },
            email: match self.email {
                Some(ref u) => Some(u@),
                None => None,
            },
            privilege_id: self.privilege_id,
            privilege_password: match self.privilege_password {
                Some(ref u) => Some(u@),
                None => None,
            },
        }
    }
}

/// The credentials the vars of a `Login` packet carry.
pub open spec fn spec_credentials(vars: Seq<VarV>) -> LoginCredentialsV {
    LoginCredentialsV {
        user_type: match spec_get_int(vars, var_id::USER_TYPE) {
            Some(x) => spec_client_type_of(x),
            None => None,
        },
        username: spec_get_string(vars, var_id::LOGIN_USERNAME),
        password: spec_get_string(vars, var_id::PASSWORD),
        email: spec_get_string(vars, var_id::EMAIL),
        privilege_id: spec_get_uint(vars, var_id::PRIVILEGE_USER_ID),
        privilege_password: spec_get_string(vars, var_id::PRIVILEGE_PASSWORD),
    }
}

impl LoginCredentials {
    /// Reads the credentials out of a `Login` packet.
    pub fn from_packet(packet: &AWPacket) -> (r: Self)
        ensures
            r@ == spec_credentials(packet@.vars),
    {
        LoginCredentials {
            user_type: match packet.get_int(var_id::USER_TYPE) {
                Some(x) => ClientType::from_i32(x),
                None => None,
            },
            username: packet.get_string(var_id::LOGIN_USERNAME),
            password: packet.get_string(var_id::PASSWORD),
            email: packet.get_string(var_id::EMAIL),
            privilege_id: packet.get_uint(var_id::PRIVILEGE_USER_ID),
            privilege_password: packet.get_string(var_id::PRIVILEGE_PASSWORD),
        }
    }
}

/// The quote byte that wraps a tourist name.
pub const QUOTE: u8 = 34;

/// Format rules of a tourist name: wrapped in quotes, at least one
/// character inside them, and at most 255 bytes in all.
pub open spec fn spec_tourist_name_ok(name: Seq<u8>) -> bool {
    &&& 3 <= name.len() <= 255
    &&& name[0] == QUOTE
    &&& name[name.len() - 1] == QUOTE
}

/// Whether a tourist may use a name: it must follow the format rules,
/// and the name inside the quotes must not impersonate a citizen.
pub open spec fn spec_check_tourist(db: CitizenDbV, name: Seq<u8>) -> Result<(), ReasonCode> {
    if !spec_tourist_name_ok(name) {
        Err(ReasonCode::NoSuchCitizen)
    } else if spec_citizen_by_name(db.citizens, name.subrange(1, name.len() - 1)) is Some {
        Err(ReasonCode::NameAlreadyUsed)
    } else {
        Ok(())
    }
}

/// Validates a tourist name against the format rules and the citizen
/// table.
pub fn check_tourist(db: &CitizenDb, username: &Vec<u8>) -> (r: Result<(), ReasonCode>)
    ensures
        r == spec_check_tourist(db@, username@),
{
    if username.len() < 3 || username.len() > 255 {
        return Err(ReasonCode::NoSuchCitizen);
    }
    if username[0] != QUOTE || username[username.len() - 1] != QUOTE {
        return Err(ReasonCode::NoSuchCitizen);
    }
    let inner = sub_bytes(username, 1, username.len() - 1);
    match db.citizen_by_name(&inner) {
        Some(_) => Err(ReasonCode::NameAlreadyUsed),
        None => Ok(()),
    }
}

/// Whether citizen credentials check out: the name must exist and be
/// enabled, the password must be present, non-empty and equal to the
/// stored one, and a presented privilege id (other than the citizen's
/// own) must name an existing citizen whose privilege password matches.
pub open spec fn spec_check_citizen(
    db: CitizenDbV,
    username: Seq<u8>,
    password: Option<Seq<u8>>,
    privilege_id: Option<u32>,
    privilege_password: Option<Seq<u8>>,
) -> Result<CitizenV, ReasonCode> {
    match spec_citizen_by_name(db.citizens, username) {
        None => Err(ReasonCode::NoSuchCitizen),
        Some(cit) => if cit.enabled == 0 {
            Err(ReasonCode::NoSuchCitizen)
        } else {
            match password {
                None => Err(ReasonCode::NoSuchCitizen),
                Some(p) => if p.len() == 0 || p != cit.password {
                    Err(ReasonCode::NoSuchCitizen)
                } else {
                    match privilege_id {
                        Some(pid) => if pid != 0 && pid != cit.id {
                            match spec_citizen_by_number(db.citizens, pid) {
                                None => Err(ReasonCode::NoSuchCitizen),
                                Some(pc) => match privilege_password {
                                    Some(pp) => if pp.len() > 0 && pp == pc.priv_pass {
                                        Ok(cit)
                                    } else {
                                        Err(ReasonCode::Unauthorized)
                                    },
                                    None => Err(ReasonCode::Unauthorized),
                                },
                            }
                        } else {
                            Ok(cit)
                        },
                        None => Ok(cit),
                    }
                },
            }
        },
    }
}

/// Validates citizen credentials against the table.
pub fn check_citizen(
    db: &CitizenDb,
    username: &Vec<u8>,
    password: &Option<Vec<u8>>,
    privilege_id: Option<u32>,
    privilege_password: &Option<Vec<u8>>,
) -> (r: Result<CitizenQuery, ReasonCode>)
    ensures
        match r {
            Ok(c) => spec_check_citizen(
                db@,
                username@,
                match password {
                    Some(p) => Some(p@),
                    None => None,
                },
                privilege_id,
                match privilege_password {
                    Some(p) => Some(p@),
                    None => None,
                },
            ) == Ok::<CitizenV, ReasonCode>(c@),
            Err(rc) => spec_check_citizen(
                db@,
                username@,
                match password {
                    Some(p) => Some(p@),
                    None => None,
                },
                privilege_id,
                match privilege_password {
                    Some(p) => Some(p@),
                    None => None,
                },
            ) == Err::<CitizenV, ReasonCode>(rc),
        },
{
    let cit = match db.citizen_by_name(username) {
        Some(c) => c,
        None => {
            return Err(ReasonCode::NoSuchCitizen);
        }
    };
    if cit.enabled == 0 {
        return Err(ReasonCode::NoSuchCitizen);
    }
    let pw = match password {
        Some(p) => p,
        None => {
            return Err(ReasonCode::NoSuchCitizen);
        }
    };
    if pw.len() == 0 || !bytes_eq(pw, &cit.password) {
        return Err(ReasonCode::NoSuchCitizen);
    }
    match privilege_id {
        Some(pid) => {
            if pid != 0 && pid != cit.id {
                let pc = match db.citizen_by_number(pid) {
                    Some(c) => c,
                    None => {
                        return Err(ReasonCode::NoSuchCitizen);
                    }
                };
                match privilege_password {
                    Some(pp) => {
                        if pp.len() > 0 && bytes_eq(pp, &pc.priv_pass) {
                            Ok(cit)
                        } else {
                            Err(ReasonCode::Unauthorized)
                        }
                    }
                    None => Err(ReasonCode::Unauthorized),
                }
            } else {
                Ok(cit)
            }
        }
        None => Ok(cit),
    }
}

/// Validates a human login: a quoted name takes the tourist rules and
/// yields no citizen record; any other name takes the citizen rules.
pub open spec fn spec_validate_human_login(db: CitizenDbV, creds: LoginCredentialsV) -> Result<
    Option<CitizenV>,
    ReasonCode,
> {
    match creds.username {
        None => Err(ReasonCode::NoSuchCitizen),
        Some(name) => if name.len() > 0 && name[0] == QUOTE {
            match spec_check_tourist(db, name) {
                Ok(()) => Ok(None),
                Err(rc) => Err(rc),
            }
        } else {
            match spec_check_citizen(
                db,
                name,
                creds.password,
                creds.privilege_id,
                creds.privilege_password,
            ) {
                Ok(c) => Ok(Some(c)),
                Err(rc) => Err(rc),
            }
        },
    }
}

/// Validates a human login; the citizen record comes back for a citizen,
/// nothing for a tourist.
pub fn validate_human_login(db: &CitizenDb, credentials: &LoginCredentials) -> (r: Result<
    Option<CitizenQuery>,
    ReasonCode,
>)
    ensures
        match r {
            Ok(Some(c)) => spec_validate_human_login(db@, credentials@) == Ok::<
                Option<CitizenV>,
                ReasonCode,
            >(Some(c@)),
            Ok(None) => spec_validate_human_login(db@, credentials@) == Ok::<
                Option<CitizenV>,
                ReasonCode,
            >(None),
            Err(rc) => spec_validate_human_login(db@, credentials@) == Err::<
                Option<CitizenV>,
                ReasonCode,
            >(rc),
        },
{
    let username = match &credentials.username {
        Some(u) => u,
        None => {
            return Err(ReasonCode::NoSuchCitizen);
        }
    };
    if username.len() > 0 && username[0] == QUOTE {
        match check_tourist(db, username) {
            Ok(()) => Ok(None),
            Err(rc) => Err(rc),
        }
    } else {
        match check_citizen(
            db,
            username,
            &credentials.password,
            credentials.privilege_id,
            &credentials.privilege_password,
        ) {
            Ok(c) => Ok(Some(c)),
            Err(rc) => Err(rc),
        }
    }
}

/// Whether a session is a bot logged in under the given citizen.
pub open spec fn spec_is_bot_of(s: SessionV, cid: u32) -> bool {
    s.client_kind == ClientType::Bot && (match s.entity {
        Some(EntityV::Player(p)) => p.citizen_id == Some(cid),
        _ => false,
    })
}

/// How many live sessions are bots of the given citizen.
pub open spec fn spec_count_bots(ss: Seq<SessionV>, cid: u32) -> int
    decreases ss.len(),
{
    if ss.len() == 0 {
        0int
    } else {
        (if spec_is_bot_of(ss[0], cid) {
            1int
        } else {
            0int
        }) + spec_count_bots(ss.skip(1), cid)
    }
}

/// Counts the bots of the given citizen among live sessions.
pub fn count_bots(registry: &Registry, cid: u32) -> (r: usize)
    ensures
        r == spec_count_bots(registry@.sessions, cid),
{
    let mut count: usize = 0;
    let mut i: usize = 0;
    assert(registry@.sessions.skip(0) =~= registry@.sessions);
    while i < registry.sessions.len()
        invariant
            i <= registry.sessions.len(),
            count <= i,
            spec_count_bots(registry@.sessions, cid) == count + spec_count_bots(
                registry@.sessions.skip(i as int),
                cid,
            ),
        decreases registry.sessions.len() - i,
    {
        assert(registry@.sessions.skip(i as int)[0] == registry@.sessions[i as int]);
        assert(registry@.sessions.skip(i as int).skip(1) =~= registry@.sessions.skip(
            i as int + 1,
        ));
        let is_bot = match (registry.sessions[i].client_kind, &registry.sessions[i].entity) {
            (ClientType::Bot, Some(Entity::Player(p))) => match p.citizen_id {
                Some(c) => c == cid,
                None => false,
            },
            _ => false,
        };
        if is_bot {
            count = count + 1;
        }
        i = i + 1;
    }
    proof {
        assert(registry@.sessions.skip(i as int) =~= Seq::<SessionV>::empty());
        lemma_count_bots_nonneg(registry@.sessions.skip(i as int), cid);
    }
    count
}

/// A bot count never goes below zero.
pub proof fn lemma_count_bots_nonneg(ss: Seq<SessionV>, cid: u32)
    ensures
        spec_count_bots(ss, cid) >= 0,
    decreases ss.len(),
{
    if ss.len() > 0 {
        lemma_count_bots_nonneg(ss.skip(1), cid);
    }
}

/// Validates a bot login: citizen rules, then the allotment — the
/// citizen's running bots must stay below its bot limit.
pub open spec fn spec_validate_bot_login(
    ss: Seq<SessionV>,
    db: CitizenDbV,
    creds: LoginCredentialsV,
) -> Result<Option<CitizenV>, ReasonCode> {
    match creds.username {
        None => Err(ReasonCode::NoSuchCitizen),
        Some(name) => match spec_check_citizen(
            db,
            name,
            creds.password,
            creds.privilege_id,
            creds.privilege_password,
        ) {
            Err(rc) => Err(rc),
            Ok(cit) => if spec_count_bots(ss, cit.id) >= cit.bot_limit {
                Err(ReasonCode::Unauthorized)
            } else {
                Ok(Some(cit))
            },
        },
    }
}

/// Validates a login by user type: humans may become citizens or
/// tourists, bots take the allotment check, and anything else fails.
pub open spec fn spec_validate_login(
    ss: Seq<SessionV>,
    db: CitizenDbV,
    creds: LoginCredentialsV,
) -> Result<Option<CitizenV>, ReasonCode> {
    match creds.user_type {
        Some(ClientType::UnspecifiedHuman) => spec_validate_human_login(db, creds),
        Some(ClientType::Bot) => spec_validate_bot_login(ss, db, creds),
        _ => Err(ReasonCode::NoSuchCitizen),
    }
}

/// Validates a login by user type against the table and the registry.
pub fn validate_login(
    registry: &Registry,
    credentials: &LoginCredentials,
    db: &CitizenDb,
) -> (r: Result<Option<CitizenQuery>, ReasonCode>)
    ensures
        match r {
            Ok(Some(c)) => spec_validate_login(registry@.sessions, db@, credentials@) == Ok::<
                Option<CitizenV>,
                ReasonCode,
            >(Some(c@)),
            Ok(None) => spec_validate_login(registry@.sessions, db@, credentials@) == Ok::<
                Option<CitizenV>,
                ReasonCode,
            >(None),
            Err(rc) => spec_validate_login(registry@.sessions, db@, credentials@) == Err::<
                Option<CitizenV>,
                ReasonCode,
            >(rc),
        },
{
    match credentials.user_type {
        Some(ClientType::UnspecifiedHuman) => validate_human_login(db, credentials),
        Some(ClientType::Bot) => {
            let username = match &credentials.username {
                Some(u) => u,
                None => {
                    return Err(ReasonCode::NoSuchCitizen);
                }
            };
            let cit = match check_citizen(
                db,
                username,
                &credentials.password,
                credentials.privilege_id,
                &credentials.privilege_password,
            ) {
                Ok(c) => c,
                Err(rc) => {
                    return Err(rc);
                }
            };
            let running = count_bots(registry, cit.id);
            if running >= cit.bot_limit as usize {
                Err(ReasonCode::Unauthorized)
            } else {
                Ok(Some(cit))
            }
        }
        _ => Err(ReasonCode::NoSuchCitizen),
    }
}

/// The build number a login reports; zero when absent.
pub open spec fn spec_browser_build(vars: Seq<VarV>) -> i32 {
    match spec_get_int(vars, var_id::BROWSER_BUILD) {
        Some(b) => b,
        None => 0,
    }
}

/// Everything one login decides: the reason code, the session's new
/// classification and entity, the citizen record a fresh citizen or bot
/// login used, and where the session-id allocator stands afterwards.
pub ghost struct LoginOutcome {
    pub rc: ReasonCode,
    pub kind: ClientType,
    pub entity: Option<EntityV>,
    pub cit: Option<CitizenV>,
    pub next_session_id: u32,
}

/// What one `Login` packet does to the session at `i`: a session that
/// already logged in is refused with `Unauthorized` and keeps its
/// identity; a failed validation reports its reason and changes nothing;
/// a successful one allocates the next session id and installs the
/// player identity — citizen or bot with the record's name and number,
/// tourist with the quoted name and no citizen number.
pub open spec fn spec_login_outcome(
    s0: RegistryV,
    i: int,
    creds: LoginCredentialsV,
    build: i32,
    db: CitizenDbV,
) -> LoginOutcome {
    let s = s0.sessions[i];
    if s.client_kind != ClientType::Unknown {
        LoginOutcome {
            rc: ReasonCode::Unauthorized,
            kind: s.client_kind,
            entity: s.entity,
            cit: None,
            next_session_id: s0.next_session_id,
        }
    } else {
        match spec_validate_login(s0.sessions, db, creds) {
            Err(rc) => LoginOutcome {
                rc,
                kind: s.client_kind,
                entity: s.entity,
                cit: None,
                next_session_id: s0.next_session_id,
            },
            Ok(None) => LoginOutcome {
                rc: ReasonCode::Success,
                kind: ClientType::Tourist,
                entity: Some(
                    EntityV::Player(
                        PlayerInfoV {
                            build,
                            session_id: s0.next_session_id,
                            citizen_id: None,
                            privilege_id: None,
                            username: match creds.username {
                                Some(u) => u,
                                None => Seq::<u8>::empty(),
                            },
                            state: PlayerState::Online,
                        },
                    ),
                ),
                cit: None,
                next_session_id: (s0.next_session_id + 1) as u32,
            },
            Ok(Some(c)) => LoginOutcome {
                rc: ReasonCode::Success,
                kind: if creds.user_type == Some(ClientType::Bot) {
                    ClientType::Bot
                } else {
                    ClientType::Citizen
                },
                entity: Some(
                    EntityV::Player(
                        PlayerInfoV {
                            build,
                            session_id: s0.next_session_id,
                            citizen_id: Some(c.id),
                            privilege_id: creds.privilege_id,
                            username: c.name,
                            state: PlayerState::Online,
                        },
                    ),
                ),
                cit: Some(c),
                next_session_id: (s0.next_session_id + 1) as u32,
            },
        }
    }
}

/// The fields of one login reply, in order: the citizen block for a
/// fresh citizen or bot login, then the player's display name and
/// session id whenever the session has a player identity, then the
/// universe license blob and the reason code.
pub open spec fn spec_login_response_vars(out: LoginOutcome, license: Seq<u8>) -> Seq<VarV> {
    (match out.cit {
        Some(c) => seq![
            VarV::Uint(var_id::BETA_USER, c.beta),
            VarV::Uint(var_id::TRIAL_USER, c.trial),
            VarV::Uint(var_id::CITIZEN_NUMBER, c.id),
            VarV::Uint(var_id::CITIZEN_PRIVACY, c.privacy),
            VarV::Uint(var_id::CAV_ENABLED, c.cav_enabled),
        ],
        None => Seq::<VarV>::empty(),
    }) + (match out.entity {
        Some(EntityV::Player(p)) => seq![
            VarV::String(var_id::CITIZEN_NAME, p.username),
            VarV::Int(var_id::SESSION_ID, p.session_id as i32),
        ],
        _ => Seq::<VarV>::empty(),
    }) + seq![
        VarV::Data(var_id::UNIVERSE_LICENSE, license),
        VarV::Int(var_id::REASON_CODE, reason_code_value(out.rc)),
    ]
}

/// Handles a `Login` packet on the session at `idx`: validates the
/// credentials, promotes the session on success, and queues exactly one
/// `Login` reply carrying the new identity, the license and the reason.
pub fn login(
    registry: &mut Registry,
    idx: usize,
    packet: &AWPacket,
    license_data: Vec<u8>,
    db: &CitizenDb,
)
    requires
        old(registry)@.wf(),
        db@.wf(),
        idx < old(registry)@.sessions.len(),
        old(registry)@.next_session_id < 0x8000_0000,
    ensures
        final(registry)@.wf(),
        ({
            let out = spec_login_outcome(
                old(registry)@,
                idx as int,
                spec_credentials(packet@.vars),
                spec_browser_build(packet@.vars),
                db@,
            );
            let s = old(registry)@.sessions[idx as int];
            let resp = PacketV {
                opcode: PacketType::Login,
                header_0: 0,
                header_1: 0,
                vars: spec_login_response_vars(out, license_data@),
            };
            final(registry)@ == (RegistryV {
                sessions: old(registry)@.sessions.update(
                    idx as int,
                    SessionV {
                        client_kind: out.kind,
                        entity: out.entity,
                        outbound: if s.dead {
                            s.outbound
                        } else {
                            s.outbound.push(resp)
                        },
                        ..s
                    },
                ),
                next_session_id: out.next_session_id,
                attributes: old(registry)@.attributes,
            })
        }),
{
    let ghost s0 = registry@;
    let ghost out = spec_login_outcome(
        s0,
        idx as int,
        spec_credentials(packet@.vars),
        spec_browser_build(packet@.vars),
        db@,
    );
    let browser_build = match packet.get_int(var_id::BROWSER_BUILD) {
        Some(b) => b,
        None => 0,
    };
    let credentials = LoginCredentials::from_packet(packet);
    let mut response = AWPacket::new(PacketType::Login);

    let already_classified = match registry.sessions[idx].client_kind {
        ClientType::Unknown => false,
        _ => true,
    };
    let mut rc = ReasonCode::Success;
    let mut promotion: Option<(ClientType, PlayerInfo)> = None;
    if already_classified {
        rc = ReasonCode::Unauthorized;
    } else {
        match validate_login(registry, &credentials, db) {
            Ok(Some(cit)) => {
                let session_id = registry.create_session_id();
                let kind = match credentials.user_type {
                    Some(ClientType::Bot) => ClientType::Bot,
                    _ => ClientType::Citizen,
                };
                response.add_var(AWPacketVar::Uint(var_id::BETA_USER, cit.beta));
                response.add_var(AWPacketVar::Uint(var_id::TRIAL_USER, cit.trial));
                response.add_var(AWPacketVar::Uint(var_id::CITIZEN_NUMBER, cit.id));
                response.add_var(AWPacketVar::Uint(var_id::CITIZEN_PRIVACY, cit.privacy));
                response.add_var(AWPacketVar::Uint(var_id::CAV_ENABLED, cit.cav_enabled));
                let info = PlayerInfo {
                    build: browser_build,
                    session_id,
                    citizen_id: Some(cit.id),
                    privilege_id: credentials.privilege_id,
                    username: cit.name,
                    state: PlayerState::Online,
                };
                promotion = Some((kind, info));
            }
            Ok(None) => {
                let session_id = registry.create_session_id();
                let username = match credentials.username {
                    Some(u) => u,
                    None => Vec::new(),
                };
                let info = PlayerInfo {
                    build: browser_build,
                    session_id,
                    citizen_id: None,
                    privilege_id: None,
                    username,
                    state: PlayerState::Online,
                };
                promotion = Some((ClientType::Tourist, info));
            }
            Err(reason) => {
                rc = reason;
            }
        }
    }
    assert(registry@.next_session_id == out.next_session_id);
    assert(registry@.sessions == s0.sessions);

    let mut rec = registry.sessions.remove(idx);
    match promotion {
        Some((kind, info)) => {
            rec.client_kind = kind;
            rec.entity = Some(Entity::Player(info));
        }
        None => {}
    }
    assert(rec@.client_kind == out.kind && rec@.entity == out.entity);
    match &rec.entity {
        Some(Entity::Player(p)) => {
            assert(p@.session_id < 0x8000_0000) by {
                match promotion {
                    Some(_) => {}
                    None => {
                        assert(s0.sessions[idx as int].kind_wf());
                        assert(s0.sessions[idx as int].session_id() == Some(p@.session_id));
                    }
                }
            }
            response.add_var(
                AWPacketVar::String(var_id::CITIZEN_NAME, clone_bytes(&p.username)),
            );
            response.add_var(AWPacketVar::Int(var_id::SESSION_ID, p.session_id as i32));
        }
        _ => {}
    }
    response.add_var(AWPacketVar::Data(var_id::UNIVERSE_LICENSE, license_data));
    response.add_var(AWPacketVar::Int(var_id::REASON_CODE, rc.as_i32()));
    assert(rc == out.rc);
    assert(response@.vars =~= spec_login_response_vars(out, license_data@));
    rec.send(response);
    registry.sessions.insert(idx, rec);
    proof {
        let s = s0.sessions[idx as int];
        let resp = PacketV {
            opcode: PacketType::Login,
            header_0: 0,
            header_1: 0,
            vars: spec_login_response_vars(out, license_data@),
        };
        let r = SessionV {
            client_kind: out.kind,
            entity: out.entity,
            outbound: if s.dead {
                s.outbound
            } else {
                s.outbound.push(resp)
            },
            ..s
        };
        assert(registry@.sessions =~= s0.sessions.update(idx as int, r));
        let s1 = RegistryV {
            next_session_id: out.next_session_id,
            ..s0
        };
        crate::session::lemma_wf_same_shape(s0, s1);
        assert(r.kind_wf());
        assert(match r.session_id() {
            Some(sid) => 1 <= sid < s1.next_session_id,
            None => true,
        }) by {
            match promotion {
                Some(_) => {}
                None => {
                    assert(s.kind_wf());
                    assert(match s.session_id() {
                        Some(sid) => 1 <= sid < s0.next_session_id,
                        None => true,
                    });
                }
            }
        }
        lemma_wf_update(s1, idx as int, r);
    }
}

/// A session logs in successfully at most once: a second `Login` on an
/// already-classified session is refused with `Unauthorized`, the prior
/// identity stands untouched, and no session id is spent.
pub proof fn lemma_second_login_rejected(
    s0: RegistryV,
    i: int,
    creds: LoginCredentialsV,
    build: i32,
    db: CitizenDbV,
)
    requires
        0 <= i < s0.sessions.len(),
        s0.sessions[i].client_kind != ClientType::Unknown,
    ensures
        ({
            let out = spec_login_outcome(s0, i, creds, build, db);
            &&& out.rc == ReasonCode::Unauthorized
            &&& out.kind == s0.sessions[i].client_kind
            &&& out.entity == s0.sessions[i].entity
            &&& out.next_session_id == s0.next_session_id
        }),
{
}

/// Session ids are strictly monotonic across logins: two successful
/// logins, the second starting from an allocator that has not moved
/// backwards since the first finished, receive strictly increasing ids.
pub proof fn lemma_login_ids_strictly_increase(
    r0: RegistryV,
    i: int,
    c0: LoginCredentialsV,
    b0: i32,
    d0: CitizenDbV,
    r1: RegistryV,
    j: int,
    c1: LoginCredentialsV,
    b1: i32,
    d1: CitizenDbV,
)
    requires
        0 <= i < r0.sessions.len(),
        0 <= j < r1.sessions.len(),
        r0.next_session_id < 0x8000_0000,
        spec_login_outcome(r0, i, c0, b0, d0).rc == ReasonCode::Success,
        spec_login_outcome(r1, j, c1, b1, d1).rc == ReasonCode::Success,
        r1.next_session_id >= spec_login_outcome(r0, i, c0, b0, d0).next_session_id,
    ensures
        ({
            let o0 = spec_login_outcome(r0, i, c0, b0, d0);
            let o1 = spec_login_outcome(r1, j, c1, b1, d1);
            match (o0.entity, o1.entity) {
                (Some(EntityV::Player(p0)), Some(EntityV::Player(p1))) => p0.session_id
                    < p1.session_id,
                _ => false,
            }
        }),
{
}

/// Handles an inbound `Heartbeat` on the session at `idx`: the peer is
/// alive, so its receive timestamp moves to now.
pub fn heartbeat(registry: &mut Registry, idx: usize, now: u64)
    requires
        old(registry)@.wf(),
        idx < old(registry)@.sessions.len(),
    ensures
        final(registry)@.wf(),
        final(registry)@ == (RegistryV {
            sessions: old(registry)@.sessions.update(
                idx as int,
                SessionV { last_heartbeat_recv: now, ..old(registry)@.sessions[idx as int] },
            ),
            ..old(registry)@
        }),
{
    let ghost s0 = registry@;
    let mut rec = registry.sessions.remove(idx);
    rec.last_heartbeat_recv = now;
    registry.sessions.insert(idx, rec);
    proof {
        let r = SessionV { last_heartbeat_recv: now, ..s0.sessions[idx as int] };
        assert(registry@.sessions =~= s0.sessions.update(idx as int, r));
        assert(r.kind_wf()) by {
            assert(s0.sessions[idx as int].kind_wf());
        }
        assert(match r.session_id() {
            Some(sid) => 1 <= sid < s0.next_session_id,
            None => true,
        }) by {
            assert(match s0.sessions[idx as int].session_id() {
                Some(sid) => 1 <= sid < s0.next_session_id,
                None => true,
            });
        }
        lemma_wf_update(s0, idx as int, r);
    }
}

} // verus!

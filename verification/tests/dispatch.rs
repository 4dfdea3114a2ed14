use aw_universe::attributes::attribute_change;
use aw_universe::citizen::{CitizenDb, CitizenQuery};
use aw_universe::directory::{citizen_change, citizen_lookup_by_name, citizen_lookup_by_number, citizen_next, citizen_prev, modify_citizen};
use aw_universe::reason::ReasonCode;
use aw_universe::login::{heartbeat, login};
use aw_universe::opcode::PacketType;
use aw_universe::packet::AWPacket;
use aw_universe::presence::{send_heartbeats, user_list};
use aw_universe::purge::purge_dead_clients;
use aw_universe::session::{ClientType, Entity, Ipv4Octets, Registry};
use aw_universe::var::AWPacketVar;
use aw_universe::var_id;

fn make_citizen(id: u32, name: &[u8], password: &[u8]) -> CitizenQuery {
    CitizenQuery {
        id,
        changed: 0,
        name: name.to_vec(),
        password: password.to_vec(),
        email: b"someone@example.org".to_vec(),
        priv_pass: b"privpw".to_vec(),
        comment: b"".to_vec(),
        url: b"".to_vec(),
        immigration: 100,
        expiration: 0,
        last_login: 0,
        last_address: 0,
        total_time: 0,
        bot_limit: 1,
        beta: 0,
        cav_enabled: 0,
        cav_template: 0,
        enabled: 1,
        privacy: 0,
        trial: 0,
    }
}

fn some_ip() -> Ipv4Octets {
    Ipv4Octets { o0: 192, o1: 168, o2: 1, o3: 2 }
}

fn login_packet(user_type: i32, username: &[u8], password: Option<&[u8]>) -> AWPacket {
    let mut p = AWPacket::new(PacketType::Login);
    p.add_var(AWPacketVar::Int(var_id::USER_TYPE, user_type));
    p.add_var(AWPacketVar::String(var_id::LOGIN_USERNAME, username.to_vec()));
    if let Some(pw) = password {
        p.add_var(AWPacketVar::String(var_id::PASSWORD, pw.to_vec()));
    }
    p
}

fn seeded_db() -> CitizenDb {
    let mut db = CitizenDb::new();
    assert!(db.citizen_add(make_citizen(1, b"root", b"rootpw")));
    assert!(db.citizen_add(make_citizen(5, b"bob", b"bobpw")));
    assert!(db.citizen_add(make_citizen(7, b"carol", b"carolpw")));
    db
}

fn registry_with_sessions(n: u32) -> Registry {
    let mut registry = Registry::new();
    for c in 0..n {
        assert!(registry.add_session(c + 1, some_ip(), 7000, 50));
    }
    registry
}

fn last_outbound(registry: &Registry, idx: usize) -> &AWPacket {
    registry.sessions[idx].outbound.last().unwrap()
}

#[test]
fn tourist_login_succeeds() {
    let db = seeded_db();
    let mut registry = registry_with_sessions(1);
    let packet = login_packet(1, b"\"Alice\"", None);
    login(&mut registry, 0, &packet, b"license".to_vec(), &db);
    assert!(matches!(registry.sessions[0].client_kind, ClientType::Tourist));
    let reply = last_outbound(&registry, 0);
    assert_eq!(reply.get_string(var_id::CITIZEN_NAME), Some(b"\"Alice\"".to_vec()));
    assert_eq!(reply.get_int(var_id::SESSION_ID), Some(1));
    assert_eq!(reply.get_data(var_id::UNIVERSE_LICENSE), Some(b"license".to_vec()));
    assert_eq!(reply.get_int(var_id::REASON_CODE), Some(0));
}

#[test]
fn wrong_password_login_fails() {
    let db = seeded_db();
    let mut registry = registry_with_sessions(1);
    let packet = login_packet(1, b"bob", Some(b"wrong"));
    login(&mut registry, 0, &packet, b"license".to_vec(), &db);
    assert!(matches!(registry.sessions[0].client_kind, ClientType::Unknown));
    let reply = last_outbound(&registry, 0);
    assert_eq!(reply.get_int(var_id::REASON_CODE), Some(1));
    assert_eq!(reply.get_int(var_id::SESSION_ID), None);
}

#[test]
fn citizen_login_succeeds() {
    let db = seeded_db();
    let mut registry = registry_with_sessions(1);
    let packet = login_packet(1, b"bob", Some(b"bobpw"));
    login(&mut registry, 0, &packet, b"lic".to_vec(), &db);
    assert!(matches!(registry.sessions[0].client_kind, ClientType::Citizen));
    let reply = last_outbound(&registry, 0);
    assert_eq!(reply.get_uint(var_id::CITIZEN_NUMBER), Some(5));
    assert_eq!(reply.get_string(var_id::CITIZEN_NAME), Some(b"bob".to_vec()));
    assert_eq!(reply.get_int(var_id::REASON_CODE), Some(0));
    match &registry.sessions[0].entity {
        Some(Entity::Player(p)) => {
            assert_eq!(p.citizen_id, Some(5));
            assert_eq!(p.session_id, 1);
        }
        _ => panic!("expected a player identity"),
    }
}

#[test]
fn session_ids_strictly_increase() {
    let db = seeded_db();
    let mut registry = registry_with_sessions(3);
    login(&mut registry, 0, &login_packet(1, b"\"a\"", None), vec![], &db);
    login(&mut registry, 1, &login_packet(1, b"bob", Some(b"bobpw")), vec![], &db);
    login(&mut registry, 2, &login_packet(1, b"\"c\"", None), vec![], &db);
    let ids: Vec<u32> = registry
        .sessions
        .iter()
        .map(|s| match &s.entity {
            Some(Entity::Player(p)) => p.session_id,
            _ => panic!("expected players"),
        })
        .collect();
    assert_eq!(ids, vec![1, 2, 3]);
}

#[test]
fn second_login_is_rejected() {
    let db = seeded_db();
    let mut registry = registry_with_sessions(1);
    login(&mut registry, 0, &login_packet(1, b"bob", Some(b"bobpw")), vec![], &db);
    let before_kind = registry.sessions[0].client_kind;
    login(&mut registry, 0, &login_packet(1, b"\"Eve\"", None), vec![], &db);
    assert!(matches!(registry.sessions[0].client_kind, ClientType::Citizen));
    assert_eq!(registry.sessions[0].client_kind, before_kind);
    let reply = last_outbound(&registry, 0);
    assert_eq!(reply.get_int(var_id::REASON_CODE), Some(2));
    // The prior identity still answers.
    assert_eq!(reply.get_string(var_id::CITIZEN_NAME), Some(b"bob".to_vec()));
    match &registry.sessions[0].entity {
        Some(Entity::Player(p)) => assert_eq!(p.citizen_id, Some(5)),
        _ => panic!("identity must stand"),
    }
}

#[test]
fn tourist_name_rules_are_enforced() {
    let db = seeded_db();
    let mut registry = registry_with_sessions(2);
    // Impersonating the citizen name inside the quotes.
    login(&mut registry, 0, &login_packet(1, b"\"bob\"", None), vec![], &db);
    assert!(matches!(registry.sessions[0].client_kind, ClientType::Unknown));
    assert_eq!(last_outbound(&registry, 0).get_int(var_id::REASON_CODE), Some(3));
    // Nothing inside the quotes.
    login(&mut registry, 1, &login_packet(1, b"\"\"", None), vec![], &db);
    assert!(matches!(registry.sessions[1].client_kind, ClientType::Unknown));
    assert_eq!(last_outbound(&registry, 1).get_int(var_id::REASON_CODE), Some(1));
}

#[test]
fn bot_login_respects_allotment() {
    let db = seeded_db();
    let mut registry = registry_with_sessions(2);
    login(&mut registry, 0, &login_packet(2, b"bob", Some(b"bobpw")), vec![], &db);
    assert!(matches!(registry.sessions[0].client_kind, ClientType::Bot));
    // The bot limit of one is used up.
    login(&mut registry, 1, &login_packet(2, b"bob", Some(b"bobpw")), vec![], &db);
    assert!(matches!(registry.sessions[1].client_kind, ClientType::Unknown));
    assert_eq!(last_outbound(&registry, 1).get_int(var_id::REASON_CODE), Some(2));
}

fn admin_registry(db: &CitizenDb) -> Registry {
    let mut registry = registry_with_sessions(1);
    login(&mut registry, 0, &login_packet(1, b"root", Some(b"rootpw")), vec![], db);
    assert!(matches!(registry.sessions[0].client_kind, ClientType::Citizen));
    registry
}

#[test]
fn citizen_next_paginates() {
    let db = seeded_db();
    let mut registry = admin_registry(&db);
    let mut request = AWPacket::new(PacketType::CitizenNext);
    request.add_var(AWPacketVar::Uint(var_id::CITIZEN_NUMBER, 1));
    citizen_next(&mut registry, 0, &request, &db);
    let reply = last_outbound(&registry, 0);
    assert_eq!(reply.get_uint(var_id::CITIZEN_NUMBER), Some(5));
    assert_eq!(reply.get_string(var_id::CITIZEN_NAME), Some(b"bob".to_vec()));
    assert_eq!(reply.get_int(var_id::REASON_CODE), Some(0));

    let mut request2 = AWPacket::new(PacketType::CitizenNext);
    request2.add_var(AWPacketVar::Uint(var_id::CITIZEN_NUMBER, 7));
    citizen_next(&mut registry, 0, &request2, &db);
    let reply2 = last_outbound(&registry, 0);
    assert_eq!(reply2.get_int(var_id::REASON_CODE), Some(1));
}

#[test]
fn citizen_prev_paginates() {
    let db = seeded_db();
    let mut registry = admin_registry(&db);
    let mut request = AWPacket::new(PacketType::CitizenPrev);
    request.add_var(AWPacketVar::Uint(var_id::CITIZEN_NUMBER, 7));
    citizen_prev(&mut registry, 0, &request, &db);
    let reply = last_outbound(&registry, 0);
    assert_eq!(reply.get_uint(var_id::CITIZEN_NUMBER), Some(5));
    let mut request2 = AWPacket::new(PacketType::CitizenPrev);
    request2.add_var(AWPacketVar::Uint(var_id::CITIZEN_NUMBER, 1));
    citizen_prev(&mut registry, 0, &request2, &db);
    assert_eq!(last_outbound(&registry, 0).get_int(var_id::REASON_CODE), Some(1));
}

#[test]
fn lookups_need_admin_rights() {
    let db = seeded_db();
    let mut registry = registry_with_sessions(1);
    login(&mut registry, 0, &login_packet(1, b"bob", Some(b"bobpw")), vec![], &db);
    let mut request = AWPacket::new(PacketType::CitizenLookupByNumber);
    request.add_var(AWPacketVar::Uint(var_id::CITIZEN_NUMBER, 7));
    citizen_lookup_by_number(&mut registry, 0, &request, &db);
    assert_eq!(last_outbound(&registry, 0).get_int(var_id::REASON_CODE), Some(2));
}

#[test]
fn lookup_by_name_and_number() {
    let db = seeded_db();
    let mut registry = admin_registry(&db);
    let mut by_name = AWPacket::new(PacketType::CitizenLookupByName);
    by_name.add_var(AWPacketVar::String(var_id::CITIZEN_NAME, b"carol".to_vec()));
    citizen_lookup_by_name(&mut registry, 0, &by_name, &db);
    let reply = last_outbound(&registry, 0);
    assert_eq!(reply.get_uint(var_id::CITIZEN_NUMBER), Some(7));
    // The admin view includes the stored address.
    assert_eq!(reply.get_uint(var_id::IDENTIFY_USER_IP), Some(0));

    let mut by_number = AWPacket::new(PacketType::CitizenLookupByNumber);
    by_number.add_var(AWPacketVar::Uint(var_id::CITIZEN_NUMBER, 123));
    citizen_lookup_by_number(&mut registry, 0, &by_number, &db);
    assert_eq!(last_outbound(&registry, 0).get_int(var_id::REASON_CODE), Some(1));
}

fn change_packet(target: &CitizenQuery) -> AWPacket {
    let mut p = AWPacket::new(PacketType::CitizenChange);
    p.add_var(AWPacketVar::String(var_id::CITIZEN_NAME, target.name.clone()));
    p.add_var(AWPacketVar::Uint(var_id::CITIZEN_NUMBER, target.id));
    p.add_var(AWPacketVar::String(var_id::CITIZEN_EMAIL, target.email.clone()));
    p.add_var(AWPacketVar::String(var_id::CITIZEN_PRIVILEGE_PASSWORD, target.priv_pass.clone()));
    p.add_var(AWPacketVar::Uint(var_id::CITIZEN_EXPIRATION, target.expiration));
    p.add_var(AWPacketVar::Uint(var_id::CITIZEN_BOT_LIMIT, target.bot_limit));
    p.add_var(AWPacketVar::Uint(var_id::BETA_USER, target.beta));
    p.add_var(AWPacketVar::Uint(var_id::CITIZEN_ENABLED, target.enabled));
    p.add_var(AWPacketVar::String(var_id::CITIZEN_COMMENT, target.comment.clone()));
    p.add_var(AWPacketVar::String(var_id::CITIZEN_PASSWORD, target.password.clone()));
    p.add_var(AWPacketVar::String(var_id::CITIZEN_URL, target.url.clone()));
    p.add_var(AWPacketVar::Uint(var_id::CAV_TEMPLATE, target.cav_template));
    p.add_var(AWPacketVar::Uint(var_id::CAV_ENABLED, target.cav_enabled));
    p.add_var(AWPacketVar::Uint(var_id::CITIZEN_PRIVACY, target.privacy));
    p.add_var(AWPacketVar::Uint(var_id::TRIAL_USER, target.trial));
    p
}

#[test]
fn unauthorized_change_leaves_table_alone() {
    let mut db = seeded_db();
    let mut registry = registry_with_sessions(1);
    login(&mut registry, 0, &login_packet(1, b"bob", Some(b"bobpw")), vec![], &db);
    let mut target = make_citizen(7, b"someone_else", b"carolpw");
    target.url = b"http://evil".to_vec();
    citizen_change(&mut registry, 0, &change_packet(&target), &mut db);
    assert_eq!(last_outbound(&registry, 0).get_int(var_id::REASON_CODE), Some(2));
    let carol = db.citizen_by_number(7).unwrap();
    assert_eq!(carol.name, b"carol".to_vec());
    assert_eq!(carol.url, b"".to_vec());
}

#[test]
fn name_collision_change_is_rejected() {
    let mut db = seeded_db();
    let mut registry = admin_registry(&db);
    let mut target = make_citizen(5, b"carol", b"bobpw");
    target.url = b"http://b".to_vec();
    citizen_change(&mut registry, 0, &change_packet(&target), &mut db);
    assert_eq!(last_outbound(&registry, 0).get_int(var_id::REASON_CODE), Some(3));
    assert_eq!(db.citizen_by_number(5).unwrap().name, b"bob".to_vec());
}

#[test]
fn self_change_keeps_gated_fields() {
    let mut db = seeded_db();
    let mut registry = registry_with_sessions(1);
    login(&mut registry, 0, &login_packet(1, b"bob", Some(b"bobpw")), vec![], &db);
    let mut target = make_citizen(5, b"bob", b"newpw");
    target.url = b"http://bob".to_vec();
    target.enabled = 0;
    target.bot_limit = 99;
    citizen_change(&mut registry, 0, &change_packet(&target), &mut db);
    assert_eq!(last_outbound(&registry, 0).get_int(var_id::REASON_CODE), Some(0));
    let bob = db.citizen_by_number(5).unwrap();
    assert_eq!(bob.url, b"http://bob".to_vec());
    assert_eq!(bob.password, b"newpw".to_vec());
    // Gated fields silently keep their stored values for a non-admin.
    assert_eq!(bob.enabled, 1);
    assert_eq!(bob.bot_limit, 1);
}

#[test]
fn admin_change_honours_gated_fields() {
    let mut db = seeded_db();
    let mut registry = admin_registry(&db);
    let mut target = make_citizen(5, b"bob", b"bobpw");
    target.bot_limit = 4;
    target.enabled = 0;
    citizen_change(&mut registry, 0, &change_packet(&target), &mut db);
    assert_eq!(last_outbound(&registry, 0).get_int(var_id::REASON_CODE), Some(0));
    let bob = db.citizen_by_number(5).unwrap();
    assert_eq!(bob.bot_limit, 4);
    assert_eq!(bob.enabled, 0);
}

#[test]
fn malformed_change_is_answered_not_ignored() {
    let mut db = seeded_db();
    let mut registry = admin_registry(&db);
    let before = db.citizen_by_number(5).unwrap();
    // A change request missing most of its required vars.
    let mut request = AWPacket::new(PacketType::CitizenChange);
    request.add_var(AWPacketVar::Uint(var_id::CITIZEN_NUMBER, 5));
    citizen_change(&mut registry, 0, &request, &mut db);
    let reply = last_outbound(&registry, 0);
    assert!(matches!(reply.get_opcode(), PacketType::CitizenChangeResult));
    assert_eq!(reply.get_int(var_id::REASON_CODE), Some(4));
    assert_eq!(db.citizen_by_number(5).unwrap().name, before.name);
}

#[test]
fn change_of_missing_record_cannot_be_written() {
    let mut db = seeded_db();
    let missing_record = make_citizen(99, b"nobody", b"pw");
    let requested = make_citizen(99, b"nobody", b"pw2");
    let r = modify_citizen(&missing_record, &requested, &mut db, true);
    assert_eq!(r.unwrap_err(), ReasonCode::UnableToChangeCitizen);
    assert!(db.citizen_by_number(99).is_none());
}

#[test]
fn user_list_is_throttled() {
    let db = seeded_db();
    let mut registry = registry_with_sessions(1);
    login(&mut registry, 0, &login_packet(1, b"bob", Some(b"bobpw")), vec![], &db);
    let before = registry.sessions[0].outbound.len();
    let mut first = AWPacket::new(PacketType::UserList);
    first.add_var(AWPacketVar::Int(var_id::USER_LIST_3DAY_UNKNOWN, 0));
    user_list(&mut registry, 0, &first, 1000);
    let after_first = registry.sessions[0].outbound.len();
    // One entry for the one player plus the final marker.
    assert_eq!(after_first - before, 2);
    let marker = last_outbound(&registry, 0);
    assert_eq!(marker.get_byte(var_id::USER_LIST_MORE), Some(0));
    assert_eq!(marker.get_int(var_id::USER_LIST_3DAY_UNKNOWN), Some(1000));

    let mut second = AWPacket::new(PacketType::UserList);
    second.add_var(AWPacketVar::Int(var_id::USER_LIST_3DAY_UNKNOWN, 1000));
    user_list(&mut registry, 0, &second, 1001);
    assert_eq!(registry.sessions[0].outbound.len(), after_first);
}

#[test]
fn user_list_entry_carries_player_fields() {
    let db = seeded_db();
    let mut registry = registry_with_sessions(1);
    login(&mut registry, 0, &login_packet(1, b"root", Some(b"rootpw")), vec![], &db);
    let before = registry.sessions[0].outbound.len();
    let request = AWPacket::new(PacketType::UserList);
    user_list(&mut registry, 0, &request, 500);
    let entry = &registry.sessions[0].outbound[before];
    assert_eq!(entry.get_string(var_id::USER_LIST_NAME), Some(b"root".to_vec()));
    assert_eq!(entry.get_int(var_id::USER_LIST_ID), Some(1));
    assert_eq!(entry.get_uint(var_id::USER_LIST_CITIZEN_ID), Some(1));
    assert_eq!(entry.get_byte(var_id::USER_LIST_STATE), Some(1));
    assert_eq!(entry.get_string(var_id::USER_LIST_WORLD_NAME), Some(b"NO WORLD".to_vec()));
    // The admin caller sees the packed peer address: octets low byte first.
    let expected = 192u32 + 168 * 0x100 + 1 * 0x1_0000 + 2 * 0x100_0000;
    assert_eq!(entry.get_uint(var_id::USER_LIST_ADDRESS), Some(expected));
}

#[test]
fn heartbeats_fire_once_per_interval() {
    let db = seeded_db();
    let mut registry = registry_with_sessions(1);
    login(&mut registry, 0, &login_packet(1, b"bob", Some(b"bobpw")), vec![], &db);
    // Sessions start with last_heartbeat_sent at 50.
    let before = registry.sessions[0].outbound.len();
    send_heartbeats(&mut registry, 60);
    assert_eq!(registry.sessions[0].outbound.len(), before);
    send_heartbeats(&mut registry, 80);
    assert_eq!(registry.sessions[0].outbound.len(), before + 1);
    assert!(matches!(last_outbound(&registry, 0).get_opcode(), PacketType::Heartbeat));
    assert_eq!(registry.sessions[0].last_heartbeat_sent, 80);
    // Within thirty seconds of the last one: nothing more.
    send_heartbeats(&mut registry, 100);
    assert_eq!(registry.sessions[0].outbound.len(), before + 1);
    send_heartbeats(&mut registry, 110);
    assert_eq!(registry.sessions[0].outbound.len(), before + 2);
}

#[test]
fn inbound_heartbeat_refreshes_liveness() {
    let mut registry = registry_with_sessions(1);
    heartbeat(&mut registry, 0, 777);
    assert_eq!(registry.sessions[0].last_heartbeat_recv, 777);
}

#[test]
fn purge_removes_dead_and_notifies_contacts() {
    let mut db = seeded_db();
    db.citizen_add(make_citizen(6, b"dan", b"danpw"));
    db.add_contact(5, 6);
    db.add_contact(5, 7);
    let mut registry = registry_with_sessions(3);
    login(&mut registry, 0, &login_packet(1, b"bob", Some(b"bobpw")), vec![], &db);
    login(&mut registry, 1, &login_packet(1, b"dan", Some(b"danpw")), vec![], &db);
    login(&mut registry, 2, &login_packet(1, b"carol", Some(b"carolpw")), vec![], &db);
    registry.sessions[0].dead = true;
    let dan_before = registry.sessions[1].outbound.len();
    purge_dead_clients(&mut registry, &db);
    assert_eq!(registry.sessions.len(), 2);
    assert_eq!(registry.sessions[0].conn_id, 2);
    assert_eq!(registry.sessions[1].conn_id, 3);
    // Each survivor saw the offline entry and, being a contact, the
    // contact-state update.
    let dan_new = &registry.sessions[0].outbound[dan_before..];
    assert_eq!(dan_new.len(), 2);
    assert!(matches!(dan_new[0].get_opcode(), PacketType::UserList));
    assert_eq!(dan_new[0].get_string(var_id::USER_LIST_NAME), Some(b"bob".to_vec()));
    assert_eq!(dan_new[0].get_byte(var_id::USER_LIST_STATE), Some(0));
    assert!(matches!(dan_new[1].get_opcode(), PacketType::ContactChange));
    assert_eq!(dan_new[1].get_uint(var_id::CITIZEN_NUMBER), Some(5));
    assert_eq!(dan_new[1].get_byte(var_id::CONTACT_STATUS), Some(0));
}

#[test]
fn purge_keeps_live_sessions_untouched() {
    let db = seeded_db();
    let mut registry = registry_with_sessions(2);
    login(&mut registry, 0, &login_packet(1, b"bob", Some(b"bobpw")), vec![], &db);
    let lens: Vec<usize> = registry.sessions.iter().map(|s| s.outbound.len()).collect();
    purge_dead_clients(&mut registry, &db);
    assert_eq!(registry.sessions.len(), 2);
    let after: Vec<usize> = registry.sessions.iter().map(|s| s.outbound.len()).collect();
    assert_eq!(lens, after);
}

#[test]
fn attribute_change_needs_admin() {
    let db = seeded_db();
    let mut registry = registry_with_sessions(1);
    login(&mut registry, 0, &login_packet(1, b"bob", Some(b"bobpw")), vec![], &db);
    let mut request = AWPacket::new(PacketType::AttributeChange);
    request.add_var(AWPacketVar::String(300, b"welcome".to_vec()));
    let before = registry.sessions[0].outbound.len();
    attribute_change(&mut registry, 0, &request);
    assert!(registry.attributes.is_empty());
    assert_eq!(registry.sessions[0].outbound.len(), before);
}

#[test]
fn attribute_change_broadcasts() {
    let db = seeded_db();
    let mut registry = registry_with_sessions(2);
    login(&mut registry, 0, &login_packet(1, b"root", Some(b"rootpw")), vec![], &db);
    let mut request = AWPacket::new(PacketType::AttributeChange);
    request.add_var(AWPacketVar::String(300, b"welcome".to_vec()));
    request.add_var(AWPacketVar::String(301, b"news".to_vec()));
    let other_before = registry.sessions[1].outbound.len();
    attribute_change(&mut registry, 0, &request);
    assert_eq!(registry.attributes.len(), 2);
    let broadcast = last_outbound(&registry, 1);
    assert_eq!(registry.sessions[1].outbound.len(), other_before + 1);
    assert!(matches!(broadcast.get_opcode(), PacketType::Attributes));
    assert_eq!(broadcast.get_string(300), Some(b"welcome".to_vec()));
    assert_eq!(broadcast.get_string(301), Some(b"news".to_vec()));
    // Writing an existing id replaces its value in place.
    let mut again = AWPacket::new(PacketType::AttributeChange);
    again.add_var(AWPacketVar::String(300, b"hello".to_vec()));
    attribute_change(&mut registry, 0, &again);
    assert_eq!(registry.attributes.len(), 2);
    assert_eq!(last_outbound(&registry, 1).get_string(300), Some(b"hello".to_vec()));
}

#[test]
fn privilege_credentials_grant_admin() {
    let db = seeded_db();
    let mut registry = registry_with_sessions(2);
    let mut p = login_packet(1, b"carol", Some(b"carolpw"));
    p.add_var(AWPacketVar::Uint(var_id::PRIVILEGE_USER_ID, 1));
    p.add_var(AWPacketVar::String(var_id::PRIVILEGE_PASSWORD, b"privpw".to_vec()));
    login(&mut registry, 0, &p, vec![], &db);
    assert!(matches!(registry.sessions[0].client_kind, ClientType::Citizen));
    assert!(registry.sessions[0].has_admin_permissions());
    // A wrong privilege password refuses the login outright.
    let mut bad = login_packet(1, b"carol", Some(b"carolpw"));
    bad.add_var(AWPacketVar::Uint(var_id::PRIVILEGE_USER_ID, 1));
    bad.add_var(AWPacketVar::String(var_id::PRIVILEGE_PASSWORD, b"nope".to_vec()));
    login(&mut registry, 1, &bad, vec![], &db);
    assert!(matches!(registry.sessions[1].client_kind, ClientType::Unknown));
    assert_eq!(last_outbound(&registry, 1).get_int(var_id::REASON_CODE), Some(2));
}

#[test]
fn disabled_citizen_cannot_log_in() {
    let mut db = seeded_db();
    let mut disabled = make_citizen(9, b"zed", b"zedpw");
    disabled.enabled = 0;
    db.citizen_add(disabled);
    let mut registry = registry_with_sessions(1);
    login(&mut registry, 0, &login_packet(1, b"zed", Some(b"zedpw")), vec![], &db);
    assert!(matches!(registry.sessions[0].client_kind, ClientType::Unknown));
    assert_eq!(last_outbound(&registry, 0).get_int(var_id::REASON_CODE), Some(1));
}

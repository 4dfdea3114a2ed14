use aw_universe::group::AWPacketGroup;
use aw_universe::opcode::PacketType;
use aw_universe::packet::{AWPacket, TagHeader};
use aw_universe::var::{AWPacketVar, PacketError};
use aw_universe::var_id;

#[test]
pub fn test_serialize() {
    let mut packet = AWPacket::new(PacketType::Address);
    packet.add_var(AWPacketVar::String(var_id::AFK_STATUS, b"Hello".to_vec()));
    packet.add_var(AWPacketVar::Byte(var_id::ATTRIB_ALLOW_TOURISTS, 1));
    let serialized = packet.serialize().unwrap();
    let (deserialized, _) = AWPacket::deserialize(&serialized).unwrap();
    assert!(packet == deserialized);
}

#[test]
fn var_round_trip_each_kind() {
    let vars = vec![
        AWPacketVar::Byte(7, 200),
        AWPacketVar::Int(8, -123456),
        AWPacketVar::Uint(9, 0xDEAD_BEEF),
        AWPacketVar::Float(10, 1.5f32.to_bits()),
        AWPacketVar::String(11, b"text".to_vec()),
        AWPacketVar::Data(12, vec![0, 1, 2, 255]),
    ];
    for v in vars {
        let encoded = v.encode();
        let (decoded, consumed) = AWPacketVar::decode(&encoded, 0).unwrap();
        assert_eq!(consumed, encoded.len());
        assert!(decoded == v);
    }
}

#[test]
fn var_encode_layout_is_big_endian() {
    let v = AWPacketVar::Uint(0x0102, 0x0A0B0C0D);
    let encoded = v.encode();
    assert_eq!(encoded, vec![0x01, 0x02, 3, 0x0A, 0x0B, 0x0C, 0x0D]);
}

#[test]
fn length_field_equals_byte_count() {
    let mut packet = AWPacket::new(PacketType::Login);
    packet.add_var(AWPacketVar::Int(var_id::USER_TYPE, 1));
    packet.add_var(AWPacketVar::String(var_id::LOGIN_USERNAME, b"someone".to_vec()));
    let bytes = packet.serialize().unwrap();
    let declared = ((bytes[0] as usize) << 8) | bytes[1] as usize;
    assert_eq!(declared, bytes.len());
    assert_eq!(packet.serialize_len(), bytes.len());
}

#[test]
fn packet_round_trip_consumes_whole_frame() {
    let mut packet = AWPacket::new(PacketType::Heartbeat);
    packet.add_var(AWPacketVar::Uint(var_id::SESSION_ID, 44));
    let bytes = packet.serialize().unwrap();
    let (back, consumed) = AWPacket::deserialize(&bytes).unwrap();
    assert_eq!(consumed, bytes.len());
    assert!(back == packet);
}

#[test]
fn declared_length_mismatch_is_rejected() {
    let mut packet = AWPacket::new(PacketType::Heartbeat);
    packet.add_var(AWPacketVar::Byte(var_id::USER_LIST_MORE, 1));
    let mut bytes = packet.serialize().unwrap();
    // One more than the bytes the header and vars consume.
    bytes[1] = bytes[1] + 1;
    bytes.push(0);
    let r = AWPacket::deserialize(&bytes);
    assert_eq!(r.unwrap_err(), PacketError::LengthMismatch);
}

#[test]
fn oversized_packet_is_rejected() {
    let mut packet = AWPacket::new(PacketType::Login);
    packet.add_var(AWPacketVar::Data(var_id::UNIVERSE_LICENSE, vec![7u8; 40000]));
    packet.add_var(AWPacketVar::Data(var_id::UNIVERSE_LICENSE, vec![8u8; 40000]));
    assert_eq!(packet.serialize().unwrap_err(), PacketError::TooLarge);
}

#[test]
fn oversized_single_payload_is_rejected() {
    let mut packet = AWPacket::new(PacketType::Login);
    packet.add_var(AWPacketVar::Data(var_id::UNIVERSE_LICENSE, vec![9u8; 70000]));
    assert_eq!(packet.serialize().unwrap_err(), PacketError::TooLarge);
}

#[test]
fn short_read_is_rejected() {
    let bytes = vec![0u8, 1, 2];
    assert_eq!(AWPacket::deserialize(&bytes).unwrap_err(), PacketError::ShortRead);
    let two = vec![0u8, 5];
    assert_eq!(AWPacketVar::decode(&two, 0).unwrap_err(), PacketError::ShortRead);
}

#[test]
fn truncated_var_payload_is_rejected() {
    // A string var that declares four payload bytes but carries two.
    let bytes = vec![0u8, 11, 5, 0, 4, 65, 66];
    assert_eq!(AWPacketVar::decode(&bytes, 0).unwrap_err(), PacketError::ShortRead);
}

#[test]
fn unknown_type_tag_is_rejected() {
    let mut packet = AWPacket::new(PacketType::Heartbeat);
    packet.add_var(AWPacketVar::Byte(var_id::USER_LIST_MORE, 1));
    let mut bytes = packet.serialize().unwrap();
    bytes[12] = 200;
    assert_eq!(AWPacket::deserialize(&bytes).unwrap_err(), PacketError::UnknownType);
}

#[test]
fn unknown_opcode_becomes_sentinel() {
    let packet = AWPacket::new(PacketType::Heartbeat);
    let mut bytes = packet.serialize().unwrap();
    // Patch the opcode field to a value outside the registry.
    bytes[4] = 0x00;
    bytes[5] = 0x03;
    let (back, _) = AWPacket::deserialize(&bytes).unwrap();
    assert!(matches!(back.get_opcode(), PacketType::Unknown));
}

#[test]
fn opcode_wire_values_round_trip() {
    assert_eq!(PacketType::Login.as_i16(), 47);
    assert_eq!(PacketType::Heartbeat.as_i16(), 37);
    assert_eq!(PacketType::UserList.as_i16(), 92);
    assert_eq!(PacketType::Unknown.as_i16(), 0x7FFF);
    assert!(matches!(PacketType::from_i16(47), PacketType::Login));
    assert!(matches!(PacketType::from_i16(62), PacketType::ServerLogin));
    assert!(matches!(PacketType::from_i16(12345), PacketType::Unknown));
}

#[test]
fn accessor_returns_first_matching_kind() {
    let mut packet = AWPacket::new(PacketType::Login);
    packet.add_var(AWPacketVar::Byte(50, 1));
    packet.add_var(AWPacketVar::Byte(50, 2));
    packet.add_var(AWPacketVar::Int(50, 33));
    packet.add_var(AWPacketVar::String(50, b"x".to_vec()));
    assert_eq!(packet.get_byte(50), Some(1));
    assert_eq!(packet.get_int(50), Some(33));
    assert_eq!(packet.get_string(50), Some(b"x".to_vec()));
    assert_eq!(packet.get_uint(50), None);
    assert_eq!(packet.get_data(50), None);
    assert_eq!(packet.get_byte(51), None);
}

#[test]
fn added_var_is_found_by_its_kind() {
    let mut packet = AWPacket::new(PacketType::Login);
    packet.add_var(AWPacketVar::Uint(var_id::CITIZEN_NUMBER, 99));
    assert_eq!(packet.get_uint(var_id::CITIZEN_NUMBER), Some(99));
    let found = packet.get_var(var_id::CITIZEN_NUMBER);
    assert!(found.is_some());
    assert_eq!(found.unwrap().get_var_id(), var_id::CITIZEN_NUMBER);
}

fn packet_of_len(len: usize) -> AWPacket {
    // Header (10) + var header (5) + payload.
    let mut p = AWPacket::new(PacketType::UserList);
    p.add_var(AWPacketVar::Data(var_id::UNIVERSE_LICENSE, vec![0u8; len - 15]));
    assert_eq!(p.serialize_len(), len);
    p
}

#[test]
fn group_overflow_returns_packet() {
    let mut group = AWPacketGroup::new();
    assert!(group.push(packet_of_len(2000)).is_ok());
    assert!(group.push(packet_of_len(2000)).is_ok());
    let third = packet_of_len(2000);
    let returned = group.push(third).unwrap_err();
    assert_eq!(returned.serialize_len(), 2000);
    assert_eq!(group.packet_count(), 2);
    assert_eq!(group.byte_len(), 4000);
    let mut fresh = AWPacketGroup::new();
    assert!(fresh.push(returned).is_ok());
    assert_eq!(fresh.packet_count(), 1);
}

#[test]
fn float_bits_survive_the_wire() {
    let bits = (-2.25f32).to_bits();
    let mut packet = AWPacket::new(PacketType::Teleport);
    packet.add_var(AWPacketVar::Float(77, bits));
    let bytes = packet.serialize().unwrap();
    let (back, _) = AWPacket::deserialize(&bytes).unwrap();
    match back.get_var(77) {
        Some(AWPacketVar::Float(_, b)) => assert_eq!(f32::from_bits(*b), -2.25f32),
        _ => panic!("float var lost"),
    }
}

#[test]
fn tag_header_round_trips() {
    assert_eq!(TagHeader::length(), 10);
    let header = TagHeader {
        serialized_length: 321,
        header_0: 7,
        opcode: -2,
        header_1: 9,
        var_count: 3,
    };
    let bytes = header.serialize();
    assert_eq!(bytes.len(), 10);
    let (back, consumed) = TagHeader::deserialize(&bytes).unwrap();
    assert_eq!(consumed, 10);
    assert_eq!(back, header);
    let short = vec![1u8, 2, 3];
    assert_eq!(TagHeader::deserialize(&short).unwrap_err(), PacketError::ShortRead);
}

#[test]
fn header_words_pass_through() {
    let mut packet = AWPacket::new(PacketType::Address);
    packet.header_0 = 0x1234;
    packet.header_1 = 0xABCD;
    let bytes = packet.serialize().unwrap();
    let (back, _) = AWPacket::deserialize(&bytes).unwrap();
    assert_eq!(back.header_0, 0x1234);
    assert_eq!(back.header_1, 0xABCD);
}

use smoo::errors::EncodingError;
use smoo::fixed_str::FixedString;
use smoo::guid::Guid;
use smoo::packet::{
    ConnectionType, Costume, Packet, PacketData, Quaternion, TagUpdate, Vector3,
};

fn encode(p: &Packet) -> Vec<u8> {
    let mut buf = Vec::new();
    p.encode(&mut buf).expect("Encode error");
    buf
}

fn round_trip(p: Packet) {
    let bytes = encode(&p);
    let (back, used) = Packet::decode(&bytes).expect("Decode error");
    assert_eq!(used, bytes.len());
    assert_eq!(back, p);
}

fn gid(b: u8) -> Guid {
    Guid { id: [b; 16] }
}

#[test]
fn bad_data_packet() {
    let bad_data = b"~\x80W4\xba-\0\x10\xaf\xed_\xea\xc5h\x15K\x03\0P\00v\xa5E\0\0\xf0B\xa1R\x9fE\0\0\0\0\0\0\0\0\0\0\0\0\0\0\0\0\x01FlyingWaitR\0\0\0\0\0\0\0\0\0\0\0\0\0\0\0\0\0\0\0\0\0\0\0\0\0\0\0\0\0\0\0\0\0\0\0\0\0\xccL>";

    let (mut bad_packet, _) = Packet::decode(&bad_data[..]).unwrap();
    bad_packet.resize();

    let buff = encode(&bad_packet);
    let (decode, _) = Packet::decode(&buff[..]).unwrap();

    assert_eq!(bad_packet, decode)
}

#[test]
fn bad_packet() {
    let mut bad_packet = Packet {
        id: Guid {
            id: [
                211, 55, 133, 91, 69, 255, 239, 214, 220, 209, 51, 243, 52, 26, 154, 27,
            ],
        },
        data_size: 6,
        data: PacketData::Tag {
            update_type: TagUpdate::State,
            is_it: true,
            seconds: 115,
            minutes: 32608,
        },
    };
    bad_packet.resize();

    let buff = encode(&bad_packet);
    let (new_pack, _) = Packet::decode(&buff).expect("Decode error");
    assert_eq!(bad_packet, new_pack);
}

#[test]
fn cap_packet_reads_its_animation_name() {
    let bad_data = b"~\x80W4\xba-\0\x10\xaf\xed_\xea\xc5h\x15K\x03\0P\00v\xa5E\0\0\xf0B\xa1R\x9fE\0\0\0\0\0\0\0\0\0\0\0\0\0\0\0\0\x01FlyingWaitR\0\0\0\0\0\0\0\0\0\0\0\0\0\0\0\0\0\0\0\0\0\0\0\0\0\0\0\0\0\0\0\0\0\0\0\0\0\xccL>";
    let (p, used) = Packet::decode(&bad_data[..]).unwrap();
    assert_eq!(used, 100);
    assert_eq!(p.data_size, 80);
    match p.data {
        PacketData::Cap { cap_out, cap_anim, pos, .. } => {
            assert!(cap_out);
            assert_eq!(cap_anim, "FlyingWaitR");
            assert_eq!(pos.y, 120.0f32.to_bits());
        }
        other => panic!("unexpected {:?}", other),
    }
}

#[test]
fn every_variant_round_trips() {
    let pos = Vector3 { x: 1.0f32.to_bits(), y: 0, z: 0 };
    let rot = Quaternion { i: 0, j: 0, k: 0, w: 1.0f32.to_bits() };
    let bodies = vec![
        PacketData::Init { max_players: 8 },
        PacketData::Player {
            pos,
            rot,
            animation_blend_weights: [1, 2, 3, 4, 5, 6],
            act: 10,
            sub_act: 0,
        },
        PacketData::Cap { pos, rot, cap_out: true, cap_anim: "Spin".to_string() },
        PacketData::Game { is_2d: true, scenario_num: -1, stage: "CapWorldHomeStage".to_string() },
        PacketData::Tag { update_type: TagUpdate::Time, is_it: false, seconds: 59, minutes: 3 },
        PacketData::Connect {
            c_type: ConnectionType::Reconnecting,
            max_player: 4,
            client_name: "Mock1".to_string(),
        },
        PacketData::Disconnect,
        PacketData::Costume(Costume {
            body_name: FixedString::new("X".to_string()),
            cap_name: FixedString::new("Y".to_string()),
        }),
        PacketData::Shine { shine_id: -7, is_grand: true },
        PacketData::Capture { model: "Frog".to_string() },
        PacketData::ChangeStage {
            stage: "SandWorldHomeStage".to_string(),
            id: "start".to_string(),
            scenario: 2,
            sub_scenario: 1,
        },
        PacketData::Command,
        PacketData::UdpInit { port: 51888 },
        PacketData::HolePunch,
        PacketData::Unhandled { tag: 99, data: vec![1, 2, 3] },
    ];
    for d in bodies {
        round_trip(Packet::new(gid(0xaa), d));
    }
}

#[test]
fn encoding_is_little_endian_with_header() {
    let p = Packet::new(gid(1), PacketData::UdpInit { port: 0x1234 });
    let bytes = encode(&p);
    assert_eq!(bytes.len(), 22);
    assert_eq!(&bytes[..16], &[1u8; 16]);
    assert_eq!(&bytes[16..], &[13, 0, 2, 0, 0x34, 0x12]);
}

#[test]
fn names_are_nul_padded() {
    let p = Packet::new(gid(2), PacketData::Capture { model: "ab".to_string() });
    let bytes = encode(&p);
    assert_eq!(bytes.len(), 20 + 32);
    assert_eq!(&bytes[20..22], b"ab");
    assert!(bytes[22..].iter().all(|b| *b == 0));
}

#[test]
fn every_prefix_needs_more() {
    let p = Packet::new(gid(3), PacketData::Shine { shine_id: 7, is_grand: false });
    let bytes = encode(&p);
    for k in 0..bytes.len() {
        assert_eq!(Packet::decode(&bytes[..k]).unwrap_err(), EncodingError::NotEnoughData);
        assert_eq!(Packet::check(&bytes[..k]).unwrap_err(), EncodingError::NotEnoughData);
    }
    assert_eq!(Packet::check(&bytes), Ok(bytes.len()));
}

#[test]
fn padding_is_skipped_and_not_written_again() {
    let mut bytes = vec![5u8; 16];
    bytes.extend_from_slice(&[13, 0, 4, 0, 0x10, 0x00, 0xee, 0xee, 0x77]);
    let (p, used) = Packet::decode(&bytes).unwrap();
    assert_eq!(used, 24);
    assert_eq!(p.data_size, 4);
    assert_eq!(p.data, PacketData::UdpInit { port: 16 });
    let again = encode(&p);
    assert_eq!(again.len(), 22);
}

#[test]
fn short_body_is_refused() {
    let mut bytes = vec![5u8; 16];
    bytes.extend_from_slice(&[9, 0, 2, 0, 1, 2]);
    assert_eq!(Packet::decode(&bytes).unwrap_err(), EncodingError::BodyTooShort);
}

#[test]
fn invalid_utf8_name_is_refused() {
    let mut bytes = vec![5u8; 16];
    bytes.extend_from_slice(&[10, 0, 32, 0]);
    let mut name = vec![0xffu8; 2];
    name.resize(32, 0);
    bytes.extend_from_slice(&name);
    assert_eq!(Packet::decode(&bytes).unwrap_err(), EncodingError::BadUtf8);
}

#[test]
fn oversized_raw_body_cannot_be_encoded() {
    let p = Packet { id: gid(1), data_size: 0, data: PacketData::Unhandled { tag: 200, data: vec![0; 70000] } };
    let mut buf = vec![9u8];
    assert_eq!(p.encode(&mut buf), Err(EncodingError::IntConversion));
    assert_eq!(buf, vec![9u8]);
}

#[test]
fn unknown_tags_keep_their_bytes() {
    let mut bytes = vec![1u8; 16];
    bytes.extend_from_slice(&[0x2c, 0x01, 3, 0, 7, 8, 9]);
    let (p, _) = Packet::decode(&bytes).unwrap();
    assert_eq!(p.data, PacketData::Unhandled { tag: 300, data: vec![7, 8, 9] });
    assert_eq!(encode(&p), bytes);
}

#[test]
fn type_names_and_sizes() {
    assert_eq!(PacketData::HolePunch.get_type_name(), "holePunch");
    assert_eq!(PacketData::Init { max_players: 1 }.get_type_id(), 1);
    assert_eq!(PacketData::Cap { pos: Vector3::default(), rot: Quaternion::default(), cap_out: false, cap_anim: String::new() }.get_size(), 77);
}

use smoo::cmds::{ExternalCommand, PlayerCommand, Players, ShineCommand};
use smoo::coordinator::Delivery;
use smoo::errors::{ClientInitError, EncodingError, SMOError};
use smoo::names::NameMap;
use smoo::session::{end_of_stream, parse_connect};
use smoo::fixed_str::FixedString;
use smoo::guid::Guid;
use smoo::lobby::Lobby;
use smoo::packet::{ConnectionType, Costume, Packet, PacketData, Quaternion, TagUpdate, Vector3};
use smoo::session::{
    choose_transport, handle_incoming, handle_outbound, ClientCommand, DatagramPeer, Flip,
    OutboundPlan, PacketDestination, PlayerData, SessionState, Transport,
};
use smoo::settings::{FlipPovSettings, FlipSettings, Settings};

fn gid(b: u8) -> Guid {
    Guid { id: [b; 16] }
}

fn lobby_with(max: u16) -> Lobby {
    let mut s = Settings::default();
    s.server.max_players = max;
    Lobby::new(s)
}

fn player_packet(sender: Guid) -> Packet {
    Packet::new(
        sender,
        PacketData::Player {
            pos: Vector3 { x: 1.0f32.to_bits(), y: 0, z: 0 },
            rot: Quaternion { i: 0, j: 0, k: 0, w: 1.0f32.to_bits() },
            animation_blend_weights: [1, 2, 3, 4, 5, 6],
            act: 10,
            sub_act: 0,
        },
    )
}

fn session(guid: Guid) -> SessionState {
    SessionState { guid, alive: true, datagram: DatagramPeer::Pending }
}

fn no_flip() -> FlipSettings {
    FlipSettings { enabled: false, players: vec![], pov: FlipPovSettings::Both }
}

#[test]
fn two_client_join_replays_snapshot() {
    let mut lobby = lobby_with(4);
    let a = gid(0xaa);
    let b = gid(0xbb);
    let replay_a = lobby.add_player(a, ConnectionType::FirstConnection, "A".to_string(), None).unwrap();
    assert!(replay_a.is_empty());
    let costume = Packet::new(
        a,
        PacketData::Costume(Costume { body_name: FixedString::new("X".into()), cap_name: FixedString::new("Y".into()) }),
    );
    let mut st = session(a);
    lobby.incoming_for(&mut st, &costume).unwrap();
    let replay_b = lobby.add_player(b, ConnectionType::FirstConnection, "B".to_string(), None).unwrap();
    assert_eq!(replay_b.len(), 2);
    assert_eq!(replay_b[0].id, a);
    assert_eq!(
        replay_b[0].data,
        PacketData::Connect { c_type: ConnectionType::FirstConnection, max_player: 4, client_name: "A".to_string() }
    );
    assert_eq!(replay_b[1], Packet::new(a, costume.data.clone()));
    assert_eq!(lobby.player_count(), 2);
}

#[test]
fn duplicate_join_is_rejected() {
    let mut lobby = lobby_with(4);
    lobby.add_player(gid(0xaa), ConnectionType::FirstConnection, "A".to_string(), None).unwrap();
    lobby.add_player(gid(0xbb), ConnectionType::FirstConnection, "B".to_string(), None).unwrap();
    let r = lobby.add_player(gid(0xcc), ConnectionType::FirstConnection, "A".to_string(), None);
    assert_eq!(r.unwrap_err(), ClientInitError::DuplicateClient);
    assert_eq!(lobby.player_count(), 2);
    assert!(lobby.names.contains_name(&"B".to_string()));
}

#[test]
fn admission_stops_at_the_cap() {
    let mut lobby = lobby_with(1);
    lobby.add_player(gid(1), ConnectionType::FirstConnection, "A".to_string(), None).unwrap();
    let r = lobby.add_player(gid(2), ConnectionType::FirstConnection, "B".to_string(), None);
    assert_eq!(r.unwrap_err(), ClientInitError::TooManyPlayers);
    let again = lobby.add_player(gid(1), ConnectionType::Reconnecting, "A".to_string(), None);
    assert!(again.is_ok());
    assert_eq!(lobby.player_count(), 1);
}

#[test]
fn banned_and_reserved_ids_are_refused() {
    let mut lobby = lobby_with(4);
    lobby.settings.ban_list.players.push(gid(7));
    lobby.settings.ban_list.ip_addresses.push(42);
    assert_eq!(lobby.add_player(gid(7), ConnectionType::FirstConnection, "A".into(), None).unwrap_err(), ClientInitError::BannedID);
    assert_eq!(lobby.add_player(gid(8), ConnectionType::FirstConnection, "B".into(), Some(42)).unwrap_err(), ClientInitError::BannedIP);
    assert_eq!(lobby.add_player(Guid::server(), ConnectionType::FirstConnection, "C".into(), None).unwrap_err(), ClientInitError::BadHandshake);
}

#[test]
fn player_pose_is_relayed_unchanged() {
    let a = gid(0xaa);
    let b = gid(0xbb);
    let p = player_packet(a);
    let mut st = session(b);
    let mut rec = PlayerData::new("B".to_string(), None);
    let plan = handle_outbound(&mut st, &mut rec, ClientCommand::Packet(p.clone()), &no_flip());
    match plan {
        OutboundPlan::Send { packet, transport, flip } => {
            assert_eq!(packet, p);
            assert_eq!(transport, Transport::Stream);
            assert_eq!(flip, None);
        }
        OutboundPlan::Drop => panic!("dropped"),
    }
}

#[test]
fn no_self_echo() {
    let a = gid(0xaa);
    let mut st = session(a);
    let mut rec = PlayerData::new("A".to_string(), None);
    let plan = handle_outbound(&mut st, &mut rec, ClientCommand::Packet(player_packet(a)), &no_flip());
    assert!(matches!(plan, OutboundPlan::Drop));
    let plan = handle_outbound(&mut st, &mut rec, ClientCommand::Packet(Packet::new(a, PacketData::Disconnect)), &no_flip());
    assert!(matches!(plan, OutboundPlan::Drop));
    assert!(!st.alive);
}

#[test]
fn flip_only_for_flipped_viewer() {
    let a = gid(0xaa);
    let b = gid(0xbb);
    let flip = FlipSettings { enabled: true, players: vec![b], pov: FlipPovSettings::Player };
    let mut sb = session(b);
    let mut rb = PlayerData::new("B".to_string(), None);
    match handle_outbound(&mut sb, &mut rb, ClientCommand::Packet(player_packet(a)), &flip) {
        OutboundPlan::Send { flip, .. } => assert_eq!(flip, Some(Flip { is_2d: false })),
        OutboundPlan::Drop => panic!("dropped"),
    }
    let c = gid(0xcc);
    let mut sc = session(c);
    let mut rc = PlayerData::new("C".to_string(), None);
    match handle_outbound(&mut sc, &mut rc, ClientCommand::Packet(player_packet(a)), &flip) {
        OutboundPlan::Send { flip, .. } => assert_eq!(flip, None),
        OutboundPlan::Drop => panic!("dropped"),
    }
}

#[test]
fn datagram_after_udp_init() {
    let a = gid(0xaa);
    let mut st = session(a);
    let mut rec = PlayerData::new("A".to_string(), None);
    let other = player_packet(gid(0xbb));
    match handle_outbound(&mut st, &mut rec, ClientCommand::Packet(other.clone()), &no_flip()) {
        OutboundPlan::Send { transport, .. } => assert_eq!(transport, Transport::Stream),
        _ => panic!(),
    }
    let init = Packet::new(a, PacketData::UdpInit { port: 5000 });
    let plan = handle_incoming(&mut st, &mut rec, &init, &no_flip());
    assert_eq!(plan.destination, PacketDestination::NoSend);
    assert_eq!(st.datagram, DatagramPeer::Bound(5000));
    match handle_outbound(&mut st, &mut rec, ClientCommand::Packet(other), &no_flip()) {
        OutboundPlan::Send { transport, .. } => assert_eq!(transport, Transport::Datagram),
        _ => panic!(),
    }
    let game = PacketData::Game { is_2d: false, scenario_num: 1, stage: "x".into() };
    assert_eq!(choose_transport(DatagramPeer::Bound(1), &game), Transport::Stream);
}

#[test]
fn incoming_routing_and_record_updates() {
    let a = gid(0xaa);
    let mut st = session(a);
    let mut rec = PlayerData::new("A".to_string(), None);
    let tag = Packet::new(a, PacketData::Tag { update_type: TagUpdate::Time, is_it: false, seconds: 5, minutes: 2 });
    assert_eq!(handle_incoming(&mut st, &mut rec, &tag, &no_flip()).destination, PacketDestination::Broadcast);
    assert_eq!(rec.time, 125);
    let shine = Packet::new(a, PacketData::Shine { shine_id: 3, is_grand: false });
    assert_eq!(handle_incoming(&mut st, &mut rec, &shine, &no_flip()).destination, PacketDestination::Coordinator);
    assert!(!rec.shine_sync.contains(3));
    let game = Packet::new(a, PacketData::Game { is_2d: true, scenario_num: 0, stage: "CapWorldHomeStage".into() });
    handle_incoming(&mut st, &mut rec, &game, &no_flip());
    assert!(rec.speedrun_start && rec.is_2d);
    assert_eq!(rec.last_game_packet, Some(game));
    let hp = Packet::new(a, PacketData::HolePunch);
    assert_eq!(handle_incoming(&mut st, &mut rec, &hp, &no_flip()).destination, PacketDestination::NoSend);
    let d = Packet::new(a, PacketData::Disconnect);
    assert_eq!(handle_incoming(&mut st, &mut rec, &d, &no_flip()).destination, PacketDestination::Coordinator);
    assert!(!st.alive);
}

#[test]
fn shine_reconciliation_converges() {
    let mut lobby = lobby_with(4);
    let a = gid(0xaa);
    let b = gid(0xbb);
    lobby.add_player(a, ConnectionType::FirstConnection, "A".into(), None).unwrap();
    lobby.add_player(b, ConnectionType::FirstConnection, "B".into(), None).unwrap();
    let plan = lobby.handle_packet(Packet::new(a, PacketData::Shine { shine_id: 7, is_grand: false }));
    assert!(plan.broadcasts.is_empty());
    assert!(lobby.shines.contains(7));
    let push_b = plan.shine_pushes.iter().find(|p| p.guid == b).unwrap();
    assert_eq!(push_b.ids, vec![7]);
    let mut sb = session(b);
    for id in &push_b.ids {
        let cmd = ClientCommand::SelfAddressed(smoo::lobby::shine_packet(*id));
        match lobby.outbound_for(&mut sb, cmd).unwrap() {
            OutboundPlan::Send { packet, .. } => {
                assert_eq!(packet.id, b);
                assert_eq!(packet.data, PacketData::Shine { shine_id: 7, is_grand: false });
            }
            _ => panic!(),
        }
    }
    let again = lobby.sync_all_shines();
    let push_b = again.iter().find(|p| p.guid == b).unwrap();
    assert!(push_b.ids.is_empty());
}

#[test]
fn new_save_clears_shines() {
    let mut lobby = lobby_with(4);
    let a = gid(0xaa);
    lobby.add_player(a, ConnectionType::FirstConnection, "A".into(), None).unwrap();
    lobby.handle_packet(Packet::new(a, PacketData::Shine { shine_id: 1, is_grand: false }));
    let plan = lobby.handle_packet(Packet::new(a, PacketData::Game { is_2d: false, scenario_num: 0, stage: "CapWorldHomeStage".into() }));
    assert_eq!(plan.broadcasts.len(), 1);
    assert_eq!(lobby.shines.len(), 0);
    let plan = lobby.handle_packet(Packet::new(a, PacketData::Game { is_2d: false, scenario_num: 1, stage: "WaterfallWorldHomeStage".into() }));
    assert_eq!(plan.deferred_sync, Some(a));
}

#[test]
fn operator_commands() {
    let mut lobby = lobby_with(4);
    let a = gid(0xaa);
    lobby.add_player(a, ConnectionType::FirstConnection, "A".into(), None).unwrap();
    let plan = lobby.handle_external_cmd(ExternalCommand::Player {
        players: Players::Individual(vec![a]),
        command: PlayerCommand::SendShine { id: 4 },
    });
    assert_eq!(plan.reply.unwrap(), "Sent player shine");
    assert!(matches!(&plan.deliveries[0], Delivery::Direct(g, ClientCommand::SelfAddressed(_)) if *g == a));
    let plan = lobby.handle_external_cmd(ExternalCommand::Player {
        players: Players::Individual(vec![gid(9)]),
        command: PlayerCommand::Crash {},
    });
    assert_eq!(plan.reply.unwrap_err(), SMOError::InvalidID(gid(9)));
    let plan = lobby.handle_external_cmd(ExternalCommand::Shine { command: ShineCommand::Clear });
    assert_eq!(plan.reply.unwrap(), "Shines cleared");
    let plan = lobby.handle_external_cmd(ExternalCommand::Player { players: Players::All, command: PlayerCommand::Disconnect {} });
    assert_eq!(plan.reply.unwrap(), "Disconnected players");
    assert_eq!(plan.deliveries.len(), 2);
    assert_eq!(lobby.player_count(), 0);
    assert!(!lobby.names.contains_guid(&a));
}

#[test]
fn handshake_wants_connect_first() {
    let c = Packet::new(gid(1), PacketData::Connect { c_type: ConnectionType::FirstConnection, max_player: 8, client_name: "Mock1".into() });
    let info = parse_connect(&c).unwrap();
    assert_eq!(info.guid, gid(1));
    assert_eq!(info.name, "Mock1");
    let other = Packet::new(gid(1), PacketData::HolePunch);
    assert_eq!(parse_connect(&other).unwrap_err(), ClientInitError::BadHandshake);
    assert_eq!(end_of_stream(0), EncodingError::ConnectionClose);
    assert_eq!(end_of_stream(3), EncodingError::ConnectionReset);
}

#[test]
fn name_map_keeps_names_unique() {
    let mut names = NameMap::new();
    names.register(gid(1), "A".to_string());
    names.register(gid(2), "A".to_string());
    assert!(!names.contains_guid(&gid(1)));
    assert_eq!(names.guid_of(&"A".to_string()), Some(gid(2)));
    names.register(gid(2), "B".to_string());
    assert!(!names.contains_name(&"A".to_string()));
    names.remove(&gid(2));
    assert_eq!(names.guid_of(&"B".to_string()), None);
}

#[test]
fn datagram_peer_rules() {
    let pending = DatagramPeer::Pending;
    assert_eq!(pending.send_port(), Err(SMOError::UdpNotInit));
    assert!(!pending.accepts(true, 1));
    let bound = DatagramPeer::Bound(4000);
    assert_eq!(bound.send_port(), Ok(4000));
    assert!(bound.accepts(true, 4000));
    assert!(!bound.accepts(true, 4001));
    assert!(!bound.accepts(false, 4000));
}

#[test]
fn reconnect_cannot_take_another_players_name() {
    let mut lobby = lobby_with(4);
    lobby.add_player(gid(1), ConnectionType::FirstConnection, "A".into(), None).unwrap();
    let r = lobby.add_player(gid(2), ConnectionType::Reconnecting, "A".into(), None);
    assert_eq!(r.unwrap_err(), ClientInitError::DuplicateClient);
    assert_eq!(lobby.names.guid_of(&"A".to_string()), Some(gid(1)));
    assert!(lobby.add_player(gid(1), ConnectionType::Reconnecting, "A".into(), None).is_ok());
}

#[test]
fn unknown_names_are_refused() {
    let mut lobby = lobby_with(4);
    lobby.add_player(gid(1), ConnectionType::FirstConnection, "A".into(), None).unwrap();
    let sel = smoo::cmds::PlayerSelect::SelectPlayers(vec!["A".to_string(), "Ghost".to_string()]);
    assert_eq!(sel.into_guid_select(&lobby.names).unwrap_err(), SMOError::InvalidName("Ghost".to_string()));
    let sel = smoo::cmds::PlayerSelect::ExcludePlayers(vec!["A".to_string()]);
    match sel.into_guid_select(&lobby.names).unwrap() {
        smoo::cmds::PlayerSelect::ExcludePlayers(v) => assert_eq!(v, vec![gid(1)]),
        _ => panic!("wrong variant"),
    }
}

use classics::block::{block_info, classic_block, BlockType, ID_BEDROCK};
use classics::level::Level;
use classics::packet::client::{ClientPacket, ExtendedClientPacket};
use classics::packet::server::{prepare_outgoing, spread_packets, ServerPacket};
use classics::packet::{ExtBitmask, Extension, PacketWriter};
use classics::player::PlayerType;
use classics::session::{
    assign_player_id, check_identification, custom_support_level, default_spawn, handle_set_block, hex_string,
    kick_player, leave_packets, negotiate_extensions, remove_player, Player, ServerProtectionMode,
};
use classics::stream::{build_level_packets, chunk_packets, level_payload_bytes};

fn player(id: i8, name: &str, permissions: PlayerType) -> Player {
    Player {
        id,
        username: name.to_string(),
        x: 0,
        y: 0,
        z: 0,
        yaw: 0,
        pitch: 0,
        permissions,
        extensions: ExtBitmask::none(),
        custom_blocks_support_level: 0,
        packets_to_send: Vec::new(),
        should_be_kicked: None,
    }
}

fn padded(text: &str) -> Vec<u8> {
    let mut v = text.as_bytes().to_vec();
    v.resize(64, b' ');
    v
}

#[test]
fn writer_encodes_big_endian_and_padding() {
    let w = PacketWriter::new().write_i16(-2).write_i32(0x01020304).write_bool(true).write_string("ab");
    let bytes = w.into_raw_packet();
    assert_eq!(&bytes[..7], &[0xff, 0xfe, 1, 2, 3, 4, 1]);
    assert_eq!(bytes.len(), 7 + 64);
    assert_eq!(&bytes[7..9], b"ab");
    assert!(bytes[9..].iter().all(|b| *b == 0x20));
    let arr = PacketWriter::new().write_array(&[9, 8]).into_raw_packet();
    assert_eq!(arr.len(), 1024);
    assert_eq!(&arr[..3], &[9, 8, 0]);
}

#[test]
fn set_block_frame() {
    let p = ServerPacket::SetBlock { x: 1, y: 256, z: -1, block_type: 7 };
    assert_eq!(p.get_id(), 0x06);
    assert_eq!(p.to_bytes(), vec![0x06, 0, 1, 1, 0, 0xff, 0xff, 7]);
}

#[test]
fn server_identification_frame() {
    let p = ServerPacket::ServerIdentification {
        protocol_version: 7,
        server_name: "name".to_string(),
        server_motd: "motd".to_string(),
        user_type: PlayerType::Operator,
    };
    let bytes = p.to_bytes();
    assert_eq!(bytes.len(), 1 + 1 + 64 + 64 + 1);
    assert_eq!(bytes[0], 0x00);
    assert_eq!(bytes[1], 7);
    assert_eq!(bytes[2..66].to_vec(), padded("name"));
    assert_eq!(bytes[130], 0x64);
}

#[test]
fn ext_info_frame_announces_count() {
    let p = ServerPacket::ExtInfo { extension_count: 5 };
    let bytes = p.to_bytes();
    assert_eq!(bytes[0], 0x10);
    assert_eq!(bytes[1..65].to_vec(), padded("classics"));
    assert_eq!(&bytes[65..], &[0, 5]);
}

#[test]
fn player_ids_in_packets() {
    let mut p = ServerPacket::DespawnPlayer { player_id: 3 };
    assert_eq!(p.get_player_id(), Some(3));
    p.set_player_id(9);
    assert_eq!(p.get_player_id(), Some(9));
    let mut q = ServerPacket::Ping;
    q.set_player_id(4);
    assert_eq!(q.get_player_id(), None);
    assert!(ServerPacket::SetBlock { x: 0, y: 0, z: 0, block_type: 0 }.should_echo());
    assert!(!ServerPacket::DespawnPlayer { player_id: 0 }.should_echo());
}

#[test]
fn echo_rule_rewrites_or_drops_own_packets() {
    let spawn = ServerPacket::SpawnPlayer { player_id: 2, player_name: "a".to_string(), x: 1, y: 2, z: 3, yaw: 0, pitch: 0 };
    match prepare_outgoing(spawn, 2) {
        Some(ServerPacket::SpawnPlayer { player_id, .. }) => assert_eq!(player_id, -1),
        other => panic!("unexpected {:?}", other),
    }
    let mv = ServerPacket::SetPositionOrientation { player_id: 2, x: 0, y: 0, z: 0, yaw: 0, pitch: 0 };
    assert!(prepare_outgoing(mv, 2).is_none());
    let other = ServerPacket::DespawnPlayer { player_id: 5 };
    match prepare_outgoing(other, 2) {
        Some(ServerPacket::DespawnPlayer { player_id }) => assert_eq!(player_id, 5),
        other => panic!("unexpected {:?}", other),
    }
    let msg = ServerPacket::Message { player_id: 2, message: "hi".to_string() };
    match prepare_outgoing(msg, 2) {
        Some(ServerPacket::Message { player_id, message }) => {
            assert_eq!(player_id, -1);
            assert_eq!(message, "hi");
        },
        other => panic!("unexpected {:?}", other),
    }
}

#[test]
fn spreading_copies_to_every_queue() {
    let mut queues = vec![vec![ServerPacket::Ping], Vec::new()];
    spread_packets(&mut queues, &vec![ServerPacket::LevelInitialize, ServerPacket::DespawnPlayer { player_id: 1 }]);
    assert_eq!(queues[0].len(), 3);
    assert_eq!(queues[1].len(), 2);
    assert_eq!(queues[1][1].get_player_id(), Some(1));
}

#[test]
fn client_identification_is_decoded_and_trimmed() {
    let mut body = vec![7u8];
    body.extend(padded("alice"));
    body.extend(padded(""));
    body.push(0x42);
    assert_eq!(ClientPacket::get_size_from_id(0x00), Some(130));
    match ClientPacket::read(0x00, &body) {
        Some(ClientPacket::PlayerIdentification { protocol_version, username, verification_key, magic_number }) => {
            assert_eq!(protocol_version, 7);
            assert_eq!(username, "alice");
            assert_eq!(verification_key, "");
            assert_eq!(magic_number, 0x42);
        },
        other => panic!("unexpected {:?}", other),
    }
}

#[test]
fn client_packets_reject_short_and_unknown() {
    assert!(ClientPacket::read(0x05, &[0, 1, 0, 2]).is_none());
    assert!(ClientPacket::read(0x42, &[0; 200]).is_none());
    assert_eq!(ClientPacket::get_size_from_id(0x42), None);
    assert_eq!(ExtendedClientPacket::get_size_from_id(0x11), Some(68));
    match ClientPacket::read(0x05, &[0, 1, 0xff, 0xfe, 0, 3, 1, 7]) {
        Some(ClientPacket::SetBlock { x, y, z, mode, block_type }) => assert_eq!((x, y, z, mode, block_type), (1, -2, 3, 1, 7)),
        other => panic!("unexpected {:?}", other),
    }
    let mut entry = padded("CustomBlocks");
    entry.extend([0, 0, 0, 1]);
    match ClientPacket::read(0x11, &entry) {
        Some(ClientPacket::Extended(ExtendedClientPacket::ExtEntry { ext_name, version })) => {
            assert_eq!(ext_name, "CustomBlocks");
            assert_eq!(version, 1);
        },
        other => panic!("unexpected {:?}", other),
    }
}

#[test]
fn catalog_entries() {
    let bedrock = block_info(ID_BEDROCK).unwrap();
    assert_eq!(bedrock.place_permissions, PlayerType::Operator);
    assert_eq!(block_info(0x08).unwrap().block_type, BlockType::FluidFlowing { stationary: 0x09, ticks_to_spread: 3 });
    assert!(block_info(0x08).unwrap().block_type.needs_update_on_place());
    assert!(block_info(0x09).unwrap().block_type.needs_update_when_neighbor_changed());
    assert!(block_info(0x42).is_none());
    assert_eq!(classic_block(0x32), 0x2c);
    assert_eq!(classic_block(0x20), 0x20);
    assert_eq!(block_info(0x41).unwrap().fallback, Some(0x01));
}

#[test]
fn permission_order() {
    assert!(PlayerType::Operator.allows(PlayerType::Moderator));
    assert!(PlayerType::Moderator.allows(PlayerType::Normal));
    assert!(!PlayerType::Normal.allows(PlayerType::Moderator));
    assert!(!PlayerType::Moderator.allows(PlayerType::Operator));
    assert!(PlayerType::Normal.allows(PlayerType::Normal));
}

#[test]
fn extension_info_lists_supported_in_order() {
    let info = ExtBitmask::supported().all_contained_info();
    let names: Vec<_> = info.iter().map(|i| i.ext_name.clone()).collect();
    assert_eq!(names, vec!["CustomBlocks", "HeldBlock", "EmoteFix", "EnvWeatherType", "FullCP437"]);
    assert!(info.iter().all(|i| i.version == 1));
    let some = ExtBitmask::none().with(Extension::EmoteFix).with(Extension::LongerMessages);
    assert_eq!(some.all_contained_info().len(), 1);
    assert!(some.contains(Extension::LongerMessages));
    assert!(!some.contains(Extension::CustomBlocks));
}

#[test]
fn negotiation_intersects_by_name_and_version() {
    let client = vec![
        ("CustomBlocks".to_string(), 1),
        ("EnvWeatherType".to_string(), 2),
        ("LongerMessages".to_string(), 1),
        ("EmoteFix".to_string(), 1),
    ];
    let mask = negotiate_extensions(&client);
    assert!(mask.contains(Extension::CustomBlocks));
    assert!(mask.contains(Extension::EmoteFix));
    assert!(!mask.contains(Extension::EnvWeatherType));
    assert!(!mask.contains(Extension::LongerMessages));
    assert_eq!(custom_support_level(3), 1);
    assert_eq!(custom_support_level(0), 0);
}

#[test]
fn handshake_without_extensions() {
    let level = Level::new(2, 2, 2);
    let players: Vec<Player> = Vec::new();
    let mode = ServerProtectionMode::Unprotected;
    assert!(check_identification(7, &"alice".to_string(), &"".to_string(), &mode, &players).is_ok());
    let packets = build_level_packets(&level, ExtBitmask::none(), 0).unwrap();
    assert_eq!(packets.len(), 3);
    assert!(matches!(packets[0], ServerPacket::LevelInitialize));
    match &packets[1] {
        ServerPacket::LevelDataChunk { chunk_length, chunk_data, percent_complete } => {
            assert_eq!(*percent_complete, 100);
            assert_eq!(*chunk_length as usize, chunk_data.len());
            assert_eq!(&chunk_data[..2], &[0x1f, 0x8b]);
        },
        other => panic!("unexpected {:?}", other),
    }
    match packets[2] {
        ServerPacket::LevelFinalize { x_size, y_size, z_size } => assert_eq!((x_size, y_size, z_size), (2, 2, 2)),
        ref other => panic!("unexpected {:?}", other),
    }
    assert_eq!(default_spawn(&level), (528, 96, 528, 0, 0));
    let spawn = ServerPacket::SpawnPlayer { player_id: 0, player_name: "alice".to_string(), x: 528, y: 96, z: 528, yaw: 0, pitch: 0 };
    match prepare_outgoing(spawn, 0) {
        Some(ServerPacket::SpawnPlayer { player_id, .. }) => assert_eq!(player_id, -1),
        other => panic!("unexpected {:?}", other),
    }
}

#[test]
fn identification_failures() {
    let players = vec![player(0, "bob", PlayerType::Normal)];
    let none = ServerProtectionMode::Unprotected;
    assert_eq!(
        check_identification(6, &"x".to_string(), &"".to_string(), &none, &players).unwrap_err(),
        "Unknown protocol version! Please connect with a classic 0.30-compatible client."
    );
    let pw = ServerProtectionMode::Password("secret".to_string());
    assert_eq!(check_identification(7, &"x".to_string(), &"nope".to_string(), &pw, &players).unwrap_err(), "Incorrect password!");
    assert!(check_identification(7, &"x".to_string(), &"secret".to_string(), &pw, &players).is_ok());
    let by_user = ServerProtectionMode::PasswordsByUser(vec![("x".to_string(), "k".to_string())]);
    assert!(check_identification(7, &"x".to_string(), &"k".to_string(), &by_user, &players).is_ok());
    assert_eq!(check_identification(7, &"y".to_string(), &"k".to_string(), &by_user, &players).unwrap_err(), "Incorrect password!");
    assert_eq!(
        check_identification(7, &"bob".to_string(), &"".to_string(), &none, &players).unwrap_err(),
        "Player with username already connected!"
    );
}

#[test]
fn player_ids_reuse_freed_ones() {
    let mut free = vec![4, 9];
    assert_eq!(assign_player_id(&mut free, 2), 9);
    assert_eq!(free, vec![4]);
    let mut none: Vec<i8> = Vec::new();
    assert_eq!(assign_player_id(&mut none, 2), 2);
}

#[test]
fn level_payload_replaces_custom_blocks() {
    let mut level = Level::new(2, 1, 1);
    level.set_block(0, 0, 0, 0x32);
    level.set_block(1, 0, 0, 0x05);
    assert_eq!(level_payload_bytes(&level, false), vec![0, 0, 0, 2, 0x2c, 0x05]);
    assert_eq!(level_payload_bytes(&level, true), vec![0, 0, 0, 2, 0x32, 0x05]);
}

#[test]
fn chunks_report_progress_after_each_chunk() {
    let level = Level::new(1, 1, 1);
    let data: Vec<u8> = (0..2500u32).map(|i| i as u8).collect();
    let packets = chunk_packets(&level, &data);
    assert_eq!(packets.len(), 5);
    let mut got = Vec::new();
    for p in &packets[1..4] {
        match p {
            ServerPacket::LevelDataChunk { chunk_length, chunk_data, percent_complete } => got.push((*chunk_length, chunk_data.len(), *percent_complete)),
            other => panic!("unexpected {:?}", other),
        }
    }
    assert_eq!(got, vec![(1024, 1024, 40), (1024, 1024, 81), (452, 452, 100)]);
}

#[test]
fn denied_placement_is_rewritten() {
    let mut level = Level::new(4, 4, 4);
    level.set_block(1, 1, 1, 0x04);
    let replies = handle_set_block(&mut level, PlayerType::Normal, 1, 1, 1, 1, ID_BEDROCK).unwrap();
    assert_eq!(replies.len(), 2);
    match &replies[0] {
        ServerPacket::Message { player_id, message } => {
            assert_eq!(*player_id, -1);
            assert_eq!(message, "&cNot allow to place this block.");
        },
        other => panic!("unexpected {:?}", other),
    }
    match replies[1] {
        ServerPacket::SetBlock { x, y, z, block_type } => assert_eq!((x, y, z, block_type), (1, 1, 1, 0x04)),
        ref other => panic!("unexpected {:?}", other),
    }
    assert!(level.updates.is_empty());
    assert_eq!(level.get_block(1, 1, 1), 0x04);
}

#[test]
fn block_edits_queue_or_fail() {
    let mut level = Level::new(4, 4, 4);
    assert_eq!(handle_set_block(&mut level, PlayerType::Operator, 4, 0, 0, 1, 1).unwrap_err(), "Attempt to place block out of bounds");
    assert_eq!(handle_set_block(&mut level, PlayerType::Operator, -1, 0, 0, 1, 1).unwrap_err(), "Attempt to place block out of bounds");
    let unknown = handle_set_block(&mut level, PlayerType::Operator, 0, 0, 0, 1, 0x7f).unwrap();
    match &unknown[0] {
        ServerPacket::Message { message, .. } => assert_eq!(message, "&cUnknown block ID: 0x7f"),
        other => panic!("unexpected {:?}", other),
    }
    assert!(handle_set_block(&mut level, PlayerType::Moderator, 2, 0, 1, 1, 0x08).unwrap().is_empty());
    let i = level.index(2, 0, 1);
    assert_eq!(level.updates.len(), 1);
    assert_eq!(level.updates[0].index, i);
    assert_eq!(level.updates[0].block, 0x08);
    assert_eq!(level.awaiting_update, vec![i]);
    assert!(handle_set_block(&mut level, PlayerType::Normal, 0, 0, 0, 1, 0x02).unwrap().is_empty());
    assert_eq!(level.possible_random_updates, vec![0]);
    assert!(handle_set_block(&mut level, PlayerType::Normal, 3, 3, 3, 0, 0x05).unwrap().is_empty());
    assert_eq!(level.updates[2].block, 0);
    level.set_block(3, 0, 0, ID_BEDROCK);
    let replies = handle_set_block(&mut level, PlayerType::Moderator, 3, 0, 0, 0, 1).unwrap();
    match &replies[0] {
        ServerPacket::Message { message, .. } => assert_eq!(message, "&cNot allowed to break this block."),
        other => panic!("unexpected {:?}", other),
    }
    assert_eq!(hex_string(0x0a), "a");
}

#[test]
fn kick_marks_and_cleanup_announces() {
    let mut players = vec![player(0, "admin", PlayerType::Operator), player(1, "bob", PlayerType::Normal)];
    let (reply, at) = kick_player(&mut players, PlayerType::Operator, "bob", Some("Goodbye"));
    assert_eq!(reply, "bob has been kicked");
    assert_eq!(at, Some(1));
    assert_eq!(players[1].should_be_kicked.as_deref(), Some("Kicked: Goodbye"));
    let mut free = Vec::new();
    let gone = remove_player(&mut players, &mut free, 1).unwrap();
    assert_eq!(gone.username, "bob");
    assert_eq!(free, vec![1]);
    assert_eq!(players.len(), 1);
    let packets = leave_packets(gone.id, &gone.username);
    let mut queues = vec![Vec::new()];
    spread_packets(&mut queues, &packets);
    match &queues[0][0] {
        ServerPacket::DespawnPlayer { player_id } => assert_eq!(*player_id, 1),
        other => panic!("unexpected {:?}", other),
    }
    match &queues[0][1] {
        ServerPacket::Message { message, .. } => assert_eq!(message, "&ebob has left the server."),
        other => panic!("unexpected {:?}", other),
    }
}

#[test]
fn kick_refusals() {
    let mut players = vec![player(0, "a", PlayerType::Moderator)];
    assert_eq!(kick_player(&mut players, PlayerType::Moderator, "a", None).0, "&cThis player outranks or is the same rank as you");
    assert_eq!(kick_player(&mut players, PlayerType::Operator, "zed", None).0, "&cPlayer not connected to server!");
    let (_, at) = kick_player(&mut players, PlayerType::Operator, "a", None);
    assert_eq!(at, Some(0));
    assert_eq!(players[0].should_be_kicked.as_deref(), Some("Kicked: <no message>"));
}

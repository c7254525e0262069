use classics::block::BlockInfo;
use classics::block::BlockType;
use classics::command::Command;
use classics::generation::{FlatLayer, FlatPreset, LevelGeneration};
use classics::level::{Level, SavablePlayerData, WeatherType};
use classics::packet::server::ServerPacket;
use classics::packet::ExtBitmask;
use classics::player::PlayerType;
use classics::rng::thread_rng;
use classics::server::{command_list, parse_weather, ServerData};
use classics::session::{chat_fragments, Player, ServerProtectionMode};

fn player(id: i8, name: &str, permissions: PlayerType) -> Player {
    Player {
        id,
        username: name.to_string(),
        x: 32,
        y: 64,
        z: 96,
        yaw: 1,
        pitch: 2,
        permissions,
        extensions: ExtBitmask::none(),
        custom_blocks_support_level: 0,
        packets_to_send: Vec::new(),
        should_be_kicked: None,
    }
}

fn server(mode: ServerProtectionMode) -> ServerData {
    ServerData {
        level: Level::new(4, 4, 4),
        players: vec![player(0, "admin", PlayerType::Operator), player(1, "bob", PlayerType::Normal)],
        free_player_ids: Vec::new(),
        protection_mode: mode,
        player_perms: vec![("admin".to_string(), PlayerType::Operator)],
        spawn: None,
        config_needs_saving: false,
        stop: false,
    }
}

fn run(data: &mut ServerData, who: i8, text: &str) -> Vec<String> {
    Command::parse(text).unwrap().process(data, who, "generated", None)
}

fn last_message(p: &Player) -> String {
    match p.packets_to_send.last() {
        Some(ServerPacket::Message { message, .. }) => message.clone(),
        other => panic!("unexpected {:?}", other),
    }
}

#[test]
fn kick_command_propagates_reason() {
    let mut data = server(ServerProtectionMode::Unprotected);
    assert_eq!(run(&mut data, 0, "kick bob Goodbye"), vec!["bob has been kicked".to_string()]);
    assert_eq!(data.players[1].should_be_kicked.as_deref(), Some("Kicked: Goodbye"));
}

#[test]
fn commands_need_their_level() {
    let mut data = server(ServerProtectionMode::Unprotected);
    assert_eq!(run(&mut data, 1, "stop"), vec!["&cPermissions do not allow you to use this command".to_string()]);
    assert!(!data.stop);
    assert!(run(&mut data, 0, "stop").is_empty());
    assert!(data.stop);
    assert!(run(&mut data, 9, "stop").is_empty());
}

#[test]
fn levelrule_command_through_process() {
    let mut data = server(ServerProtectionMode::Unprotected);
    assert_eq!(run(&mut data, 0, "levelrule grass_spread_chance 1024"), vec!["&fUpdated rule grass_spread_chance".to_string()]);
    assert_eq!(run(&mut data, 0, "levelrule grass_spread_chance"), vec!["&f1024 (u64)".to_string()]);
    assert_eq!(run(&mut data, 0, "levelrule all").len(), 3);
}

#[test]
fn weather_save_and_chat_commands() {
    let mut data = server(ServerProtectionMode::Unprotected);
    assert_eq!(run(&mut data, 0, "weather Raining"), vec!["Weather updated!".to_string()]);
    assert_eq!(data.level.weather, WeatherType::Raining);
    assert!(matches!(data.players[1].packets_to_send.last(), Some(ServerPacket::EnvWeatherType { weather_type: WeatherType::Raining })));
    assert_eq!(run(&mut data, 0, "weather hail"), vec!["&cUnknown weather type hail!".to_string()]);
    assert_eq!(run(&mut data, 0, "save"), vec!["Saving level...".to_string()]);
    assert!(data.level.save_now);
    run(&mut data, 1, "me waves");
    assert_eq!(last_message(&data.players[0]), "&f*bob waves");
    run(&mut data, 0, "say hello");
    assert_eq!(last_message(&data.players[1]), "&d[SERVER] &fhello");
    assert_eq!(parse_weather("SNOWING"), Some(WeatherType::Snowing));
}

#[test]
fn setperm_command_rules() {
    let mut data = server(ServerProtectionMode::Unprotected);
    assert_eq!(run(&mut data, 0, "setperm admin Normal"), vec!["&cCannot change your own permissions".to_string()]);
    assert_eq!(run(&mut data, 0, "setperm bob Operator"), vec!["&cCannot set permissions higher or equal to your own".to_string()]);
    assert_eq!(run(&mut data, 0, "setperm bob moderator"), vec!["Set permissions for bob to Moderator".to_string()]);
    assert_eq!(data.players[1].permissions, PlayerType::Moderator);
    assert!(data.player_perms.iter().any(|(n, p)| n == "bob" && *p == PlayerType::Moderator));
    assert!(data.config_needs_saving);
}

#[test]
fn password_commands() {
    let mut data = server(ServerProtectionMode::PasswordsByUser(vec![("bob".to_string(), "pw".to_string())]));
    assert_eq!(run(&mut data, 0, "allowentry carol"), vec!["carol is now allowed in the server.".to_string(), "Password: generated".to_string()]);
    assert_eq!(run(&mut data, 0, "allowentry carol"), vec!["&cPlayer is already allowed in the server!".to_string()]);
    assert_eq!(run(&mut data, 1, "setpass hunter2"), vec!["Updated password!".to_string()]);
    assert_eq!(run(&mut data, 0, "ban bob rude"), vec!["bob has been banned".to_string()]);
    assert_eq!(data.players[1].should_be_kicked.as_deref(), Some("Banned: rude"));
    assert_eq!(run(&mut data, 0, "ban bob"), vec!["&cPlayer is already banned!".to_string()]);
    let mut open = server(ServerProtectionMode::Unprotected);
    assert_eq!(run(&mut open, 1, "setpass x"), vec!["&cServer must be set to per-user passwords!".to_string()]);
}

#[test]
fn spawn_and_teleport_commands() {
    let mut data = server(ServerProtectionMode::Unprotected);
    assert_eq!(run(&mut data, 0, "setlevelspawn true"), vec!["Level spawn updated!".to_string()]);
    assert_eq!(data.spawn, Some((32, 64, 96, 1, 2)));
    assert!(matches!(data.players[1].packets_to_send.last(), Some(ServerPacket::SetSpawnPoint { .. })));
    data.players[1].x = 500;
    assert!(run(&mut data, 0, "tp @s bob").is_empty());
    assert_eq!(data.players[0].x, 500);
    assert_eq!(run(&mut data, 0, "tp nobody bob"), vec!["Unknown username: nobody!".to_string()]);
    let moved = Command::parse("tp bob 1 2 3").unwrap().process(&mut data, 0, "", Some((48, 96, 112, "1.5, 3, 3.5".to_string())));
    assert!(moved.is_empty());
    assert_eq!((data.players[1].x, data.players[1].y, data.players[1].z), (48, 96, 112));
    match &data.players[1].packets_to_send[data.players[1].packets_to_send.len() - 2] {
        ServerPacket::Message { message, .. } => assert_eq!(message, "You have been teleported to 1.5, 3, 3.5."),
        other => panic!("unexpected {:?}", other),
    }
}

#[test]
fn help_lists_commands_by_level() {
    let lines = command_list(PlayerType::Normal);
    assert_eq!(lines[0], "Commands available to you:");
    assert_eq!(lines[1], "&fme, help, setpass");
    assert!(command_list(PlayerType::Operator).iter().all(|l| l.len() <= 64));
}

#[test]
fn chat_is_cut_into_protocol_lines() {
    let long: String = "a".repeat(130);
    let parts = chat_fragments(&long);
    assert_eq!(parts.len(), 3);
    assert_eq!(parts[0].len(), 64);
    assert!(parts[1].starts_with("&f"));
    assert_eq!(parts[1].len(), 64);
    assert_eq!(parts[2], format!("&f{}", "a".repeat(4)));
    assert_eq!(chat_fragments("hi"), vec!["hi".to_string()]);
}

#[test]
fn flat_generation_lays_layers() {
    let mut level = Level::new(2, 10, 2);
    let mut rng = thread_rng();
    LevelGeneration::Flat(FlatPreset::StoneAndGrass).generate(&mut level, &mut rng);
    assert_eq!(level.get_block(1, 0, 1), 0x01);
    assert_eq!(level.get_block(0, 1, 0), 0x03);
    assert_eq!(level.get_block(0, 3, 1), 0x03);
    assert_eq!(level.get_block(1, 4, 0), 0x02);
    assert_eq!(level.get_block(1, 5, 0), 0x00);
    let mut custom = Level::new(1, 3, 1);
    LevelGeneration::Flat(FlatPreset::Custom { layers: vec![FlatLayer { block: 7, depth: 5 }] }).generate(&mut custom, &mut rng);
    assert_eq!(custom.blocks, vec![7, 7, 7]);
    let mut random = Level::new(2, 3, 2);
    LevelGeneration::FullRandom { height: 2 }.generate(&mut random, &mut rng);
    assert!(random.blocks.iter().all(|b| *b < 49));
    assert!((0..2).all(|x| (0..2).all(|z| random.get_block(x, 2, z) == 0)));
}

#[test]
fn level_from_saved_parts() {
    let blocks = vec![0x08, 0x00, 0x0a, 0x09];
    let level = Level::from_saved(2, 1, 2, blocks.clone(), WeatherType::Snowing, classics::level::LevelRules::default_rules(), vec![3], vec![]).unwrap();
    assert_eq!(level.awaiting_update, vec![0, 2]);
    assert_eq!(level.blocks, blocks);
    assert_eq!(level.weather, WeatherType::Snowing);
    assert!(Level::from_saved(2, 1, 2, vec![0; 3], WeatherType::Sunny, classics::level::LevelRules::default_rules(), vec![], vec![]).is_none());
    assert!(Level::from_saved(2, 1, 2, vec![0; 4], WeatherType::Sunny, classics::level::LevelRules::default_rules(), vec![4], vec![]).is_none());
    assert!(Level::from_saved(0, 1, 2, vec![], WeatherType::Sunny, classics::level::LevelRules::default_rules(), vec![], vec![]).is_none());
}

#[test]
fn block_info_builders() {
    let b = BlockInfo::new().block_type(BlockType::Rope).perm(PlayerType::Moderator, PlayerType::Operator).fallback(0x27);
    assert_eq!(b.block_type, BlockType::Rope);
    assert_eq!(b.place_permissions, PlayerType::Moderator);
    assert_eq!(b.break_permissions, PlayerType::Operator);
    assert_eq!(b.fallback, Some(0x27));
}

#[test]
fn joining_sets_up_the_client_and_tells_everyone() {
    let mut data = server(ServerProtectionMode::Unprotected);
    data.free_player_ids = vec![5];
    let (id, packets) = classics::server::join_player(&mut data, "carol", PlayerType::Normal, ExtBitmask::none(), 0, "srv", "hello").unwrap();
    assert_eq!(id, 5);
    match &packets[0] {
        ServerPacket::ServerIdentification { protocol_version, server_name, server_motd, user_type } => {
            assert_eq!((*protocol_version, server_name.as_str(), server_motd.as_str(), *user_type), (7, "srv", "hello", PlayerType::Normal));
        },
        other => panic!("unexpected {:?}", other),
    }
    assert!(matches!(packets[1], ServerPacket::LevelInitialize));
    let spawns = packets.iter().filter(|p| matches!(p, ServerPacket::SpawnPlayer { .. })).count();
    assert_eq!(spawns, 2);
    assert!(matches!(packets.last(), Some(ServerPacket::UpdateUserType { .. })));
    assert_eq!(data.players.len(), 3);
    assert_eq!(data.players[2].username, "carol");
    assert_eq!((data.players[2].x, data.players[2].y, data.players[2].z), (528, 128, 528));
    assert_eq!(last_message(&data.players[0]), "&ecarol has joined the server.");
    assert!(matches!(data.players[2].packets_to_send[0], ServerPacket::SpawnPlayer { player_id: 5, .. }));
}

#[test]
fn inventory_order_hides_blocks_above_the_player() {
    let classic = classics::session::inventory_order_packets(PlayerType::Normal, ExtBitmask::none(), 0);
    assert_eq!(classic.len(), 50);
    assert!(matches!(classic[7], ServerPacket::SetInventoryOrder { order: 7, block: 0 }));
    assert!(matches!(classic[8], ServerPacket::SetInventoryOrder { order: 8, block: 0 }));
    assert!(matches!(classic[1], ServerPacket::SetInventoryOrder { order: 1, block: 1 }));
    let custom = classics::session::inventory_order_packets(
        PlayerType::Operator,
        ExtBitmask::none().with(classics::packet::Extension::CustomBlocks),
        1,
    );
    assert_eq!(custom.len(), 66);
    assert!(matches!(custom[7], ServerPacket::SetInventoryOrder { order: 7, block: 7 }));
}

#[test]
fn leaving_keeps_the_position_for_the_next_visit() {
    let mut data = server(ServerProtectionMode::Unprotected);
    assert!(classics::server::leave(&mut data, 1));
    assert_eq!(data.players.len(), 1);
    assert_eq!(data.free_player_ids, vec![1]);
    assert!(matches!(data.players[0].packets_to_send[0], ServerPacket::DespawnPlayer { player_id: 1 }));
    assert_eq!(last_message(&data.players[0]), "&ebob has left the server.");
    assert_eq!(data.level.player_data.len(), 1);
    assert_eq!(data.level.player_data[0].0, "bob");
    assert!(!classics::server::leave(&mut data, 9));
    let (id, _) = classics::server::join_player(&mut data, "bob", PlayerType::Normal, ExtBitmask::none(), 0, "s", "m").unwrap();
    assert_eq!(id, 1);
    assert_eq!((data.players[1].x, data.players[1].y, data.players[1].z, data.players[1].yaw, data.players[1].pitch), (32, 64, 96, 1, 2));
}

#[test]
fn player_data_survives_saving_and_updates() {
    let d = SavablePlayerData { x: 1, y: 2, z: 3, yaw: 4, pitch: 5 };
    let e = SavablePlayerData { x: 6, y: 7, z: 8, yaw: 9, pitch: 10 };
    let mut level = Level::new(2, 2, 2);
    assert!(level.player_data.is_empty());
    level.update_player_data(vec![("a".to_string(), d), ("b".to_string(), d), ("a".to_string(), e)]);
    assert_eq!(level.player_data.len(), 2);
    assert!(level.player_data.iter().any(|(n, v)| n == "a" && *v == e));
    let back = Level::from_saved(2, 2, 2, level.blocks.clone(), level.weather, level.rules, vec![], level.player_data.clone()).unwrap();
    assert_eq!(back.player_data, level.player_data);
    assert!(Level::from_saved(2, 2, 2, vec![0; 8], WeatherType::Sunny, level.rules, vec![], vec![("a".to_string(), d), ("a".to_string(), e)]).is_none());
}

#[test]
fn permissions_come_from_the_configuration() {
    let data = server(ServerProtectionMode::Unprotected);
    assert_eq!(classics::server::permissions_for(&data, "admin"), PlayerType::Operator);
    assert_eq!(classics::server::permissions_for(&data, "bob"), PlayerType::Normal);
}

#[test]
fn moves_are_told_to_everyone() {
    let mut data = server(ServerProtectionMode::Unprotected);
    data.players[0].extensions = ExtBitmask::none().with(classics::packet::Extension::ExtEntityTeleport);
    assert!(classics::server::move_player(&mut data, 1, 10, 20, 30, 4, 5));
    assert_eq!((data.players[1].x, data.players[1].y, data.players[1].z), (10, 20, 30));
    assert!(matches!(data.players[0].packets_to_send.last(), Some(ServerPacket::ExtEntityTeleport { entity_id: 1, x: 10, .. })));
    assert!(matches!(data.players[1].packets_to_send.last(), Some(ServerPacket::SetPositionOrientation { player_id: 1, x: 10, .. })));
    assert!(!classics::server::move_player(&mut data, 9, 0, 0, 0, 0, 0));
}

#[test]
fn chat_is_cut_at_whitespace_when_possible() {
    let text = format!("{} {}", "a".repeat(50), "b".repeat(30));
    let parts = chat_fragments(&text);
    assert_eq!(parts, vec!["a".repeat(50), format!("&f{}", "b".repeat(30))]);
}

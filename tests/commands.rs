use classics::command::{next_string, trim_str, Command};
use classics::level::LevelRules;
use classics::player::PlayerType;
use classics::rules::{decimal_string, levelrule_command, parse_bool, parse_u64};

#[test]
fn tokenizer_handles_quotes_and_spaces() {
    assert_eq!(next_string(""), None);
    assert_eq!(next_string("bob  rest of it "), Some(("bob", "rest of it")));
    assert_eq!(next_string("\"two words\" tail"), Some(("two words", "tail")));
    assert_eq!(next_string("\"a \\\" b\" c"), Some(("a \\\" b", "c")));
    assert_eq!(next_string("\"open ended"), Some(("open ended", "")));
    assert_eq!(next_string("single"), Some(("single", "")));
    assert_eq!(trim_str("  x y \t"), "x y");
}

#[test]
fn parse_kick_with_reason() {
    match Command::parse("kick bob Goodbye").unwrap() {
        Command::Kick { username, message } => {
            assert_eq!(username, "bob");
            assert_eq!(message.as_deref(), Some("Goodbye"));
        },
        other => panic!("unexpected {:?}", other),
    }
    match Command::parse("kick bob").unwrap() {
        Command::Kick { message, .. } => assert!(message.is_none()),
        other => panic!("unexpected {:?}", other),
    }
}

#[test]
fn parse_errors() {
    assert_eq!(Command::parse("fly").unwrap_err(), "Unknown command: fly");
    assert_eq!(Command::parse("kick").unwrap_err(), "&cMissing argument: username");
    assert_eq!(Command::parse("levelrule").unwrap_err(), "&cMissing argument: rule");
    assert_eq!(Command::parse("setperm bob King").unwrap_err(), "&cUnknown permissions type: King");
    assert_eq!(Command::parse("setlevelspawn maybe").unwrap_err(), "Expected bool, got maybe");
}

#[test]
fn parse_other_commands() {
    match Command::parse("setperm bob MODERATOR").unwrap() {
        Command::SetPermissions { player_username, permissions } => {
            assert_eq!(player_username, "bob");
            assert_eq!(permissions, PlayerType::Moderator);
        },
        other => panic!("unexpected {:?}", other),
    }
    match Command::parse("levelrule grass_spread_chance 1024").unwrap() {
        Command::LevelRule { rule, value } => {
            assert_eq!(rule, "grass_spread_chance");
            assert_eq!(value.as_deref(), Some("1024"));
        },
        other => panic!("unexpected {:?}", other),
    }
    assert!(matches!(Command::parse("stop").unwrap(), Command::Stop));
    assert!(matches!(Command::parse("setlevelspawn TRUE").unwrap(), Command::SetLevelSpawn { overwrite_others: true }));
    assert!(matches!(Command::parse("setlevelspawn").unwrap(), Command::SetLevelSpawn { overwrite_others: false }));
    match Command::parse("me waves").unwrap() {
        Command::Me { action } => assert_eq!(action, "waves"),
        other => panic!("unexpected {:?}", other),
    }
    match Command::parse("help").unwrap() {
        Command::Help { command } => assert!(command.is_none()),
        other => panic!("unexpected {:?}", other),
    }
}

#[test]
fn command_permissions_and_names() {
    assert_eq!(Command::perms_required_by_name("me"), PlayerType::Normal);
    assert_eq!(Command::perms_required_by_name("stop"), PlayerType::Operator);
    assert_eq!(Command::perms_required_by_name("kick"), PlayerType::Moderator);
    let c = Command::parse("setpass  hunter2 ").unwrap();
    assert_eq!(c.command_name(), "setpass");
    assert_eq!(c.perms_required(), PlayerType::Normal);
    assert_eq!(Command::help("kick"), vec!["&f/kick <username> [reason]".to_string(), "&fKicks a player from the server.".to_string()]);
    assert_eq!(Command::help("nope"), vec!["&eUnknown command!".to_string()]);
}

#[test]
fn levelrule_round_trip() {
    let mut rules = LevelRules::default_rules();
    assert_eq!(levelrule_command(&mut rules, "grass_spread_chance", Some("1024")), vec!["&fUpdated rule grass_spread_chance".to_string()]);
    assert_eq!(levelrule_command(&mut rules, "grass_spread_chance", None), vec!["&f1024 (u64)".to_string()]);
    let all = levelrule_command(&mut rules, "all", None);
    assert_eq!(
        all,
        vec![
            "&ffluid_spread: true (bool)".to_string(),
            "&fgrass_spread_chance: 1024 (u64)".to_string(),
            "&frandom_tick_updates: 1000 (u64)".to_string(),
        ]
    );
}

#[test]
fn levelrule_errors() {
    let mut rules = LevelRules::default_rules();
    assert_eq!(levelrule_command(&mut rules, "fluid_spread", Some("nah")), vec!["Failed to parse value".to_string()]);
    assert_eq!(levelrule_command(&mut rules, "gravity", Some("1")), vec!["Unknown field: gravity".to_string()]);
    assert_eq!(levelrule_command(&mut rules, "gravity", None), vec!["Unknown rule: gravity".to_string()]);
    assert_eq!(levelrule_command(&mut rules, "fluid_spread", Some("false")), vec!["&fUpdated rule fluid_spread".to_string()]);
    assert!(!rules.fluid_spread);
}

#[test]
fn number_text() {
    assert_eq!(decimal_string(0), "0");
    assert_eq!(decimal_string(18446744073709551615), "18446744073709551615");
    assert_eq!(parse_u64("+42"), Some(42));
    assert_eq!(parse_u64("18446744073709551615"), Some(u64::MAX));
    assert_eq!(parse_u64("18446744073709551616"), None);
    assert_eq!(parse_u64(""), None);
    assert_eq!(parse_u64("+"), None);
    assert_eq!(parse_u64("1a"), None);
    assert_eq!(parse_bool("true"), Some(true));
    assert_eq!(parse_bool("True"), None);
}

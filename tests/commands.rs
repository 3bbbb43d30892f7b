use smoo::cmds::{unalias_map, PlayerSelect, SinglePlayerSelect};
use smoo::console::{
    apply_settings_command, check_tag_seconds, resolve_stage, ConsoleCommand, ConsoleStep, FlipCommand,
    ScenarioCommand,
};
use smoo::guid::Guid;
use smoo::lobby::Lobby;
use smoo::packet::ConnectionType;
use smoo::settings::Settings;
use smoo::errors::{ChannelError, EncodingError, ErrorSeverity, SMOError};
use smoo::json_api::{
    check_command, has_permission, request_permissions, BlockClients, CommandCheck, JsonApiCommands,
};
use smoo::settings::JsonApiSettings;
use smoo::settings::FlipPovSettings;

#[test]
fn stage_aliases() {
    assert_eq!(unalias_map("cascade"), Some("WaterfallWorldHomeStage".to_string()));
    assert_eq!(unalias_map("darker"), Some("Special2WorldHomeStage".to_string()));
    assert_eq!(unalias_map("nowhere"), None);
    assert_eq!(resolve_stage("nowhere", true).unwrap(), "nowhere");
    assert!(matches!(resolve_stage("nowhere", false), Err(SMOError::InvalidConsoleArg(_))));
    assert!(check_tag_seconds(60).is_err());
    assert!(check_tag_seconds(59).is_ok());
}

#[test]
fn selector_lists() {
    let all = PlayerSelect::from_selectors(&[SinglePlayerSelect::AllPlayers]);
    assert!(matches!(all, PlayerSelect::AllPlayers));
    let neg = PlayerSelect::from_selectors(&[SinglePlayerSelect::Negate, SinglePlayerSelect::Player("A".into())]);
    assert!(matches!(neg, PlayerSelect::ExcludePlayers(ref v) if v == &vec!["A".to_string()]));
    let only_neg = PlayerSelect::from_selectors(&[SinglePlayerSelect::Negate]);
    assert!(matches!(only_neg, PlayerSelect::AllPlayers));
    let sel = PlayerSelect::from_selectors(&[SinglePlayerSelect::Player("B".into())]);
    assert!(matches!(sel.clone().not(), PlayerSelect::ExcludePlayers(_)));
    assert!(matches!(SinglePlayerSelect::parse("!"), SinglePlayerSelect::Negate));
    assert_eq!(SinglePlayerSelect::parse("Mock1").to_text(), "Mock1");
}

#[test]
fn flip_pov_words() {
    assert_eq!(FlipPovSettings::parse("self").unwrap(), FlipPovSettings::Player);
    assert_eq!(FlipPovSettings::parse("both").unwrap(), FlipPovSettings::Both);
    assert!(FlipPovSettings::parse("up").is_err());
    assert_eq!(FlipPovSettings::Others.to_text(), "others");
}

#[test]
fn failures_block_after_five() {
    let mut b = BlockClients::new();
    for _ in 0..4 {
        b.fail(1);
    }
    assert!(!b.is_blocked(1));
    b.fail(1);
    assert!(b.is_blocked(1));
    assert!(!b.is_blocked(2));
    b.redeem(1);
    assert!(!b.is_blocked(1));
}

#[test]
fn permissions_and_replies() {
    let perms = vec!["Status".to_string(), "Commands/list".to_string()];
    assert!(has_permission(&perms, "Commands/list"));
    assert!(!has_permission(&perms, "Commands"));
    assert_eq!(JsonApiCommands::result("x".into()).output, Some("x".to_string()));
}

#[test]
fn severity_classes() {
    assert!(matches!(SMOError::Encoding(EncodingError::ConnectionReset).severity(), ErrorSeverity::ClientFatal));
    assert!(matches!(SMOError::UdpNotInit.severity(), ErrorSeverity::NonCritical));
    assert!(matches!(SMOError::Channel(ChannelError::RecvBroadcastChannel).severity(), ErrorSeverity::ClientFatal));
    assert!(matches!(SMOError::Channel(ChannelError::ReplyChannel).severity(), ErrorSeverity::ClientFatal));
    assert!(matches!(SMOError::Channel(ChannelError::SendClientChannel).severity(), ErrorSeverity::NonCritical));
}

#[test]
fn command_permissions() {
    let perms = vec!["Commands".to_string(), "Commands/list".to_string(), "Status".to_string(), "Commands/crash".to_string()];
    match check_command(&perms, Some("help")) {
        CommandCheck::Reply(m) => assert_eq!(m, "Valid commands: list, crash"),
        other => panic!("{:?}", other),
    }
    match check_command(&perms, Some("  list  ")) {
        CommandCheck::Run(line) => assert_eq!(line, "list"),
        other => panic!("{:?}", other),
    }
    match check_command(&perms, Some("ban Mock1")) {
        CommandCheck::Reply(m) => assert_eq!(m, "Error: Missing Commands/ban permission."),
        other => panic!("{:?}", other),
    }
    match check_command(&perms, None) {
        CommandCheck::Reply(m) => assert_eq!(m, "Error: Invalid request - Data is missing"),
        other => panic!("{:?}", other),
    }
    let none = vec!["Status".to_string()];
    match check_command(&none, Some("list")) {
        CommandCheck::Reply(m) => assert_eq!(m, "Error: Missing Commands permission."),
        other => panic!("{:?}", other),
    }
}

#[test]
fn settings_commands_from_the_console() {
    let mut s = Settings::default();
    let g = Guid { id: [1; 16] };
    match apply_settings_command(&mut s, &ConsoleCommand::Flip(FlipCommand::Add { player: g })) {
        ConsoleStep::Reply { text, save } => {
            assert!(save);
            assert_eq!(text, format!("Added {} to flipped players", g.to_text()));
        }
        ConsoleStep::Other => panic!("not handled"),
    }
    assert_eq!(s.flip.players, vec![g]);
    match apply_settings_command(&mut s, &ConsoleCommand::Flip(FlipCommand::Remove { player: g })) {
        ConsoleStep::Reply { text, .. } => assert!(text.starts_with("Removed ")),
        ConsoleStep::Other => panic!("not handled"),
    }
    assert!(s.flip.players.is_empty());
    match apply_settings_command(&mut s, &ConsoleCommand::Scenario(ScenarioCommand::Merge { enabled: None })) {
        ConsoleStep::Reply { text, save } => {
            assert!(!save);
            assert_eq!(text, "Scenario merging is false");
        }
        ConsoleStep::Other => panic!("not handled"),
    }
    match apply_settings_command(&mut s, &ConsoleCommand::Flip(FlipCommand::Pov { value: FlipPovSettings::Others })) {
        ConsoleStep::Reply { text, .. } => assert_eq!(text, "Point of view set to others"),
        ConsoleStep::Other => panic!("not handled"),
    }
    assert_eq!(s.flip.pov, FlipPovSettings::Others);
    assert!(matches!(apply_settings_command(&mut s, &ConsoleCommand::List), ConsoleStep::Other));
}

#[test]
fn request_gate() {
    let mut api = JsonApiSettings::default();
    api.tokens.push(("token-a".to_string(), vec!["Status".to_string()]));
    assert_eq!(request_permissions(&api, "Status", "token-a"), Some(vec!["Status".to_string()]));
    assert_eq!(request_permissions(&api, "Status", "other"), None);
    assert_eq!(request_permissions(&api, "Shutdown", "token-a"), None);
}

#[test]
fn status_fields_follow_permissions() {
    let mut lobby = Lobby::new(Settings::default());
    let g = Guid { id: [3; 16] };
    lobby.add_player(g, ConnectionType::FirstConnection, "Mock1".into(), Some(7)).unwrap();
    assert!(lobby.status_players(&vec!["Status".to_string()]).is_none());
    let perms = vec!["Status/Players".to_string(), "Status/Players/Name".to_string(), "Status/Players/IPv4".to_string()];
    let rows = lobby.status_players(&perms).unwrap();
    assert_eq!(rows.len(), 1);
    assert_eq!(rows[0].name, Some("Mock1".to_string()));
    assert_eq!(rows[0].ipv4, Some(7));
    assert_eq!(rows[0].id, None);
    assert_eq!(rows[0].tagged, None);
}

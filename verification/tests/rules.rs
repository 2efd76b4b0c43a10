use ascending_login::gameloop::mainloop::{is_rotation_due, ROTATION_INTERVAL};
use ascending_login::gametypes::enums::{DeathType, FtlType, UserAccess, VitalTypes};
use ascending_login::gametypes::map_position::MapPosition;
use ascending_login::gametypes::position::Position;
use ascending_login::gametypes::rgb::Rgba;
use ascending_login::gametypes::rules::{
    all_name_acceptable, all_password_acceptable, is_client_outdated, is_name_acceptable,
    is_password_acceptable, APP_MAJOR, APP_MINOR, APP_REVISION,
};
use ascending_login::players::player::Player;
use ascending_login::socket::game_server::SocketPollState;
use ascending_login::socket::packet_ids::{
    ClientPacket, GameServerPacket, ServerToClientPackets, ServerToServerPackets,
};
use ascending_login::sql::queries::{check_existance, find_player, new_player, Check};
use ascending_login::sql::playerstruct::PlayerWithPassword;
use ascending_login::gametypes::error::AscendingError;
use ascending_login::containers::storage::ServerLevelFilter;

#[test]
fn version_gate_turns_away_only_what_is_below_in_all_three_parts() {
    assert!(!is_client_outdated(APP_MAJOR, APP_MINOR, APP_REVISION));
    assert!(is_client_outdated(APP_MAJOR - 1, APP_MINOR - 1, APP_REVISION - 1));
    assert!(!is_client_outdated(APP_MAJOR - 1, APP_MINOR - 1, APP_REVISION));
    assert!(!is_client_outdated(APP_MAJOR, APP_MINOR - 1, APP_REVISION - 1));
    assert!(!is_client_outdated(APP_MAJOR - 1, APP_MINOR + 5, APP_REVISION - 1));
}

#[test]
fn names_take_letters_digits_and_a_few_signs() {
    for c in "azAZ09!$&_~".chars() {
        assert!(is_name_acceptable(c), "{c}");
    }
    for c in " @%*+-?.é\n".chars() {
        assert!(!is_name_acceptable(c), "{c}");
    }
    assert!(all_name_acceptable("alice01"));
    assert!(all_name_acceptable(""));
    assert!(!all_name_acceptable("alice 01"));
    assert!(!all_name_acceptable("alicé"));
}

#[test]
fn passwords_take_a_few_signs_more() {
    for c in "azAZ09!$&_~%*+-?@".chars() {
        assert!(is_password_acceptable(c), "{c}");
    }
    for c in " .é\n#".chars() {
        assert!(!is_password_acceptable(c), "{c}");
    }
    assert!(all_password_acceptable("hunter22!"));
    assert!(!all_password_acceptable("hunter 22"));
}

#[test]
fn rotation_is_due_after_eight_hours() {
    assert_eq!(ROTATION_INTERVAL, 8 * 60 * 60 * 1000);
    assert!(!is_rotation_due(1_000, 1_000));
    assert!(!is_rotation_due(1_000, 1_000 + ROTATION_INTERVAL - 1));
    assert!(is_rotation_due(1_000, 1_000 + ROTATION_INTERVAL));
    assert!(is_rotation_due(1_000, 1_000 + ROTATION_INTERVAL + 1));
    assert!(!is_rotation_due(i64::MAX, i64::MAX));
    assert!(is_rotation_due(i64::MIN, 0));
    assert!(!is_rotation_due(0, i64::MIN));
}

#[test]
fn death_types_tell_what_they_are() {
    assert!(DeathType::Alive.is_alive());
    assert!(!DeathType::Alive.is_dead());
    assert!(DeathType::Spirit.is_spirit());
    assert!(DeathType::Spirit.is_dead());
    assert!(DeathType::Dead.is_dead());
    assert!(!DeathType::Dead.is_spirit());
    assert!(DeathType::Spawning.is_spawning());
    assert!(DeathType::Spawning.is_dead());
    assert!(!DeathType::Dead.is_spawning());
    assert_eq!(DeathType::default(), DeathType::Alive);
    assert_eq!(UserAccess::default(), UserAccess::NoAccess);
    assert_eq!(VitalTypes::default(), VitalTypes::Count);
}

#[test]
fn positions_hold_what_they_are_made_of() {
    let map = MapPosition::new(1, -2, 3);
    assert_eq!(map, MapPosition { x: 1, y: -2, group: 3 });
    let position = Position::new(4, 5, map);
    assert_eq!(position, Position { x: 4, y: 5, map });
    assert_eq!(MapPosition::default(), MapPosition::new(0, 0, 0));
    assert_eq!(Position::default(), Position::new(0, 0, MapPosition::new(0, 0, 0)));
    assert_eq!(Rgba::default(), Rgba { r: 0, g: 0, b: 0, a: 0 });
}

#[test]
fn wire_tags_are_the_ordinals() {
    assert_eq!(ServerToClientPackets::OnlineCheck.wire_tag(), 0);
    assert_eq!(ServerToClientPackets::AlertMsg.wire_tag(), 1);
    assert_eq!(ServerToClientPackets::FltAlert.wire_tag(), 2);
    assert_eq!(ServerToClientPackets::ServerList.wire_tag(), 3);
    assert_eq!(ServerToClientPackets::Login.wire_tag(), 4);
    assert_eq!(ServerToServerPackets::OnlineCheck.wire_tag(), 0);
    assert_eq!(ServerToServerPackets::Verification.wire_tag(), 1);
    assert_eq!(ServerToServerPackets::KillClient.wire_tag(), 2);
    assert_eq!(ClientPacket::from_wire_tag(0), Some(ClientPacket::OnlineCheck));
    assert_eq!(ClientPacket::from_wire_tag(1), Some(ClientPacket::Register));
    assert_eq!(ClientPacket::from_wire_tag(2), Some(ClientPacket::Login));
    assert_eq!(ClientPacket::from_wire_tag(3), Some(ClientPacket::PasswordReset));
    assert_eq!(ClientPacket::from_wire_tag(4), Some(ClientPacket::RequestServers));
    assert_eq!(ClientPacket::from_wire_tag(5), None);
    assert_eq!(GameServerPacket::from_wire_tag(0), Some(GameServerPacket::OnlineCheck));
    assert_eq!(GameServerPacket::from_wire_tag(1), Some(GameServerPacket::Verification));
    assert_eq!(GameServerPacket::from_wire_tag(2), Some(GameServerPacket::UpdateInfo));
    assert_eq!(GameServerPacket::from_wire_tag(3), Some(GameServerPacket::UpdateCount));
    assert_eq!(GameServerPacket::from_wire_tag(4), None);
    assert_eq!(FtlType::Message.wire_tag(), 0);
    assert_eq!(FtlType::Money.wire_tag(), 5);
}

#[test]
fn poll_state_remove_is_a_subtraction() {
    let mut s = SocketPollState::ReadWrite;
    s.remove(SocketPollState::Write);
    assert_eq!(s, SocketPollState::Read);
    s.remove(SocketPollState::Write);
    assert_eq!(s, SocketPollState::Read);
    s.remove(SocketPollState::Read);
    assert_eq!(s, SocketPollState::Idle);
    let mut t = SocketPollState::ReadWrite;
    t.remove(SocketPollState::Read);
    assert_eq!(t, SocketPollState::Write);
    t.remove(SocketPollState::ReadWrite);
    assert_eq!(t, SocketPollState::Idle);
    let mut u = SocketPollState::Write;
    u.remove(SocketPollState::Idle);
    assert_eq!(u, SocketPollState::Write);
}

#[test]
fn poll_state_set_and_contains() {
    let mut s = SocketPollState::Read;
    s.set(SocketPollState::Write);
    assert_eq!(s, SocketPollState::Write);
    assert!(s.contains(SocketPollState::Write));
    assert!(s.contains(SocketPollState::ReadWrite));
    assert!(!s.contains(SocketPollState::Read));
    assert!(!s.contains(SocketPollState::Idle));
    let mut idle = SocketPollState::Idle;
    assert!(!idle.contains(SocketPollState::ReadWrite));
    let mut both = SocketPollState::ReadWrite;
    assert!(both.contains(SocketPollState::Read));
    assert_eq!(both, SocketPollState::ReadWrite);
}

#[test]
fn new_player_has_the_starting_values() {
    let player = Player::default();
    assert_eq!(player.username, "");
    assert_eq!(player.vital, [25, 2, 100]);
    assert_eq!(player.vital_max, [25, 2, 100]);
    assert_eq!(player.level, 1);
    assert_eq!(player.data, [0; 10]);
    assert_eq!(player.access, UserAccess::NoAccess);
    assert_eq!(player.death_type, DeathType::Alive);
    assert!(player.current_server.is_none());
    assert!(!player.pk);
}

#[test]
fn existence_is_told_by_a_number() {
    assert_eq!(check_existance(Check { username_check: false, email_check: false }), 0);
    assert_eq!(check_existance(Check { username_check: true, email_check: false }), 1);
    assert_eq!(check_existance(Check { username_check: true, email_check: true }), 1);
    assert_eq!(check_existance(Check { username_check: false, email_check: true }), 2);
}

fn row(password_hash: String) -> PlayerWithPassword {
    PlayerWithPassword {
        uid: 5,
        username: "alice01".to_string(),
        current_server: None,
        reconnect_code: None,
        password: password_hash,
    }
}

#[test]
fn stored_password_is_an_argon2_hash_that_accepts_the_password() {
    let hashed = new_player("hunter22!");
    assert!(hashed.starts_with("$argon2id$"));
    assert_eq!(hashed, new_player("hunter22!"));
    assert_ne!(hashed, new_player("hunter22?"));
    let found = find_player(Some(row(hashed.clone())), "hunter22!").unwrap().unwrap();
    assert_eq!(found.uid, 5);
    assert!(matches!(
        find_player(Some(row(hashed)), "hunter23!"),
        Err(AscendingError::IncorrectPassword)
    ));
}

#[test]
fn find_player_refuses_a_row_without_a_hash() {
    assert!(matches!(
        find_player(Some(row("hunter22!".to_string())), "hunter22!"),
        Err(AscendingError::IncorrectPassword)
    ));
    assert!(matches!(
        find_player(Some(row("FailedPasswordHash".to_string())), "FailedPasswordHash"),
        Err(AscendingError::IncorrectPassword)
    ));
    assert!(find_player(None, "hunter22!").unwrap().is_none());
}

#[test]
fn level_filters_map_to_those_of_the_logger() {
    assert_eq!(ServerLevelFilter::Off.parse_enum(), log::LevelFilter::Off);
    assert_eq!(ServerLevelFilter::Error.parse_enum(), log::LevelFilter::Error);
    assert_eq!(ServerLevelFilter::Warn.parse_enum(), log::LevelFilter::Warn);
    assert_eq!(ServerLevelFilter::Info.parse_enum(), log::LevelFilter::Info);
    assert_eq!(ServerLevelFilter::Debug.parse_enum(), log::LevelFilter::Debug);
    assert_eq!(ServerLevelFilter::Trace.parse_enum(), log::LevelFilter::Trace);
}

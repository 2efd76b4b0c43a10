use ascending_login::containers::storage::{Config, GameServerInfo, ServerLevelFilter, Storage};
use ascending_login::gameloop::handledata::router::{client_handle_data, game_server_handle_data};
use ascending_login::gameloop::handledata::routes::{
    check_login, check_registration, handle_login, handle_login_found, handle_login_stored,
    handle_register, handle_register_created, handle_register_existence, resume_client,
    ClientStep, LoginRequest, RegisterRequest, Rejection, StoreReply,
};
use ascending_login::gametypes::error::AscendingError;
use ascending_login::gametypes::rules::{APP_MAJOR, APP_MINOR, APP_REVISION};
use ascending_login::socket::buffer::{
    scratch_packet,
    read_u16, read_u64, read_u8, write_bytes, write_u16, write_u64, write_u8, ByteBufferExt,
};
use ascending_login::socket::client::{process_client_packets, tick_client, Client};
use ascending_login::socket::game_server::{
    dispatch_servers, process_packets, GameServer, ReadEnd, SocketPollState, SocketState, WriteAction, WriteEvent,
};
use ascending_login::socket::sends::{
    send_fltalert, send_game_server_online_check, send_infomsg, send_kill_client, send_login,
    send_server_list, send_verification,
};
use ascending_login::gametypes::enums::FtlType;
use ascending_login::socket::server::settle_connection;
use ascending_login::sql::playerstruct::PlayerWithPassword;
use ascending_login::sql::queries::{new_player, Check};
use ascending_login::containers::storage::UserClaim;
use bytey_byte_buffer::byte_buffer::ByteBuffer;

fn config() -> Config {
    Config {
        listen: "127.0.0.1".to_string(),
        clients_port: 7010,
        servers_port: 7011,
        server_cert: "cert.pem".to_string(),
        server_key: "key.pem".to_string(),
        ca_root: "ca.pem".to_string(),
        maxconnections: 64,
        database: "db".to_string(),
        username: "user".to_string(),
        password: "pass".to_string(),
        host: "localhost".to_string(),
        port: 5432,
        enable_backtrace: false,
        level_filter: ServerLevelFilter::Info,
    }
}

fn storage() -> Storage {
    let mut storage = Storage::new(config()).unwrap();
    storage.poll.take();
    storage
}

fn client() -> Client {
    Client::new(40, "10.1.1.1:999".to_string()).unwrap()
}

fn info(name: &str, players_on: u64) -> GameServerInfo {
    GameServerInfo {
        name: name.to_string(),
        ip: "10.0.0.1".to_string(),
        port: 7000,
        players_on,
        max_players: 100,
    }
}

/// The frames that wait in a queue, each as its payload.
fn payloads(sends: &std::collections::VecDeque<ByteBuffer>) -> Vec<ByteBuffer> {
    sends
        .iter()
        .map(|frame| {
            let mut copy = frame.clone();
            let bytes = copy.as_slice().to_vec();
            let length = u64::from_le_bytes(bytes[..8].try_into().unwrap()) as usize;
            assert_eq!(length, bytes.len() - 8);
            assert!(length >= 1 && length <= 8192);
            let mut payload = ByteBuffer::with_capacity(8192).unwrap();
            write_bytes(&mut payload, &bytes[8..]).unwrap();
            payload.move_cursor(0).unwrap();
            payload
        })
        .collect()
}

fn alert_of(payload: &mut ByteBuffer) -> (String, bool) {
    assert_eq!(read_u8(payload).unwrap(), 1);
    let message = payload.read_str().unwrap();
    let close = read_u8(payload).unwrap();
    assert_eq!(payload.cursor(), payload.length());
    (message, close == 1)
}

fn only_alert(client: &Client) -> (String, bool) {
    let mut frames = payloads(&client.sends);
    assert_eq!(frames.len(), 1);
    alert_of(&mut frames[0])
}

fn register_frame(username: &str, password: &str, email: &str, sprite: u8, version: (u16, u16, u16)) -> ByteBuffer {
    let mut data = ByteBuffer::with_capacity(8192).unwrap();
    data.write_str(username).unwrap();
    data.write_str(password).unwrap();
    data.write_str(email).unwrap();
    write_u8(&mut data, sprite).unwrap();
    write_u16(&mut data, version.0).unwrap();
    write_u16(&mut data, version.1).unwrap();
    write_u16(&mut data, version.2).unwrap();
    data.write_str("S1").unwrap();
    data.move_cursor(0).unwrap();
    data
}

fn login_frame(email: &str, password: &str, version: (u16, u16, u16), code: &str, server: &str) -> ByteBuffer {
    let mut data = ByteBuffer::with_capacity(8192).unwrap();
    data.write_str(email).unwrap();
    data.write_str(password).unwrap();
    write_u16(&mut data, version.0).unwrap();
    write_u16(&mut data, version.1).unwrap();
    write_u16(&mut data, version.2).unwrap();
    data.write_str(code).unwrap();
    data.write_str(server).unwrap();
    data.move_cursor(0).unwrap();
    data
}

fn current() -> (u16, u16, u16) {
    (APP_MAJOR as u16, APP_MINOR as u16, APP_REVISION as u16)
}

fn register_request(username: &str, password: &str, sprite_id: u8) -> RegisterRequest {
    RegisterRequest {
        username: username.to_string(),
        password: password.to_string(),
        email: "a@b.co".to_string(),
        sprite_id,
        appmajor: APP_MAJOR,
        appminor: APP_MINOR,
        apprevision: APP_REVISION,
        server_name: "S1".to_string(),
    }
}

#[test]
fn register_happy() {
    let mut storage = storage();
    let mut client = client();
    let mut data = register_frame("alice01", "hunter22!", "a@b.co", 2, current());

    let step = handle_register(&mut storage, &mut data, &mut client).unwrap();
    let request = match step {
        ClientStep::CheckExistence { request } => request,
        other => panic!("{other:?}"),
    };
    assert_eq!(request.username, "alice01");
    assert_eq!(request.password, "hunter22!");
    assert_eq!(request.email, "a@b.co");
    assert_eq!(request.sprite_id, 2);
    assert_eq!(request.server_name, "S1");
    assert!(client.sends.is_empty());

    let step = handle_register_existence(&mut storage, &mut client, request, Ok(0)).unwrap();
    let (player, hashed_password, server_name) = match step {
        ClientStep::CreatePlayer { player, hashed_password, server_name } => {
            (player, hashed_password, server_name)
        }
        other => panic!("{other:?}"),
    };
    assert_eq!(player.username, "alice01");
    assert_eq!(player.email, "a@b.co");
    assert_eq!(player.sprite, 2);
    assert_eq!(player.level, 1);
    assert_eq!(player.code.len(), 32);
    assert!(player.code.chars().all(|c| c.is_ascii_alphanumeric()));
    assert_eq!(hashed_password, new_player("hunter22!"));
    assert_eq!(server_name, "S1");
    assert!(client.sends.is_empty());

    let step =
        handle_register_created(&mut storage, &mut client, server_name, player.code.clone(), Ok(17))
            .unwrap();
    assert!(matches!(step, ClientStep::Done));
    let mut frames = payloads(&client.sends);
    assert_eq!(frames.len(), 1);
    assert_eq!(read_u8(&mut frames[0]).unwrap(), 4);
    let token = frames[0].read_str().unwrap();
    let code = frames[0].read_str().unwrap();
    assert_eq!(frames[0].cursor(), frames[0].length());
    assert_eq!(code, player.code);
    let (slot, claim) = storage.keys.decode(&token).unwrap();
    assert_eq!(slot, storage.keys.active_id());
    assert_eq!(claim.server_name, "S1");
    assert_eq!(claim.uid, 17);
    assert_eq!(client.poll_state, SocketPollState::ReadWrite);
    assert_eq!(client.state, SocketState::Open);
}

#[test]
fn register_bad_email() {
    let mut storage = storage();
    let mut client = client();
    let mut data = register_frame("alice01", "hunter22!", "not-an-email", 2, current());
    let step = handle_register(&mut storage, &mut data, &mut client).unwrap();
    assert!(matches!(step, ClientStep::Done));
    assert_eq!(only_alert(&client), ("Email must be an actual email.".to_string(), true));
    assert_eq!(client.state, SocketState::Open);
    assert!(client.close_after_drain);

    // The alert is written in full: the connection closes.
    client.begin_process();
    assert!(matches!(client.tls_write(WriteEvent::Writable), WriteAction::Write(_)));
    assert_eq!(client.state, SocketState::Open);
    assert!(matches!(client.tls_write(WriteEvent::Sent), WriteAction::Done));
    assert_eq!(client.state, SocketState::Closing);
    client.process(&mut storage.poll, false);
    assert_eq!(client.state, SocketState::Closed);
}

#[test]
fn a_client_that_is_turned_down_is_closed_and_dropped() {
    let mut storage = storage();
    let token = storage.server.accept_client(&mut storage.poll, "c".to_string()).unwrap().unwrap();
    let mut frame = vec![1u8];
    frame.extend_from_slice(
        register_frame("alice01", "hunter22!", "not-an-email", 2, current()).as_slice(),
    );
    {
        let conn = storage.server.clients.get_mut(&token).unwrap();
        conn.tls_read(&mut storage.client_ids, &wire(&frame), ReadEnd::WouldBlock).unwrap();
    }
    let (handled, step) = process_client_packets(&mut storage, token, 0, None).unwrap();
    assert_eq!(handled, 1);
    assert!(matches!(step, ClientStep::Done));
    {
        let conn = storage.server.clients.get_mut(&token).unwrap();
        assert_eq!(conn.state, SocketState::Open);
        conn.begin_process();
        let mut action = conn.tls_write(WriteEvent::Writable);
        while let WriteAction::Write(_) = action {
            action = conn.tls_write(WriteEvent::Sent);
        }
        conn.process(&mut storage.poll, false);
        assert_eq!(conn.state, SocketState::Closed);
    }
    assert!(settle_connection(&mut storage, token));
    assert!(!storage.server.clients.contains_key(&token));
    assert_eq!(storage.server.tokens[0], token);
}

#[test]
fn register_takes_addresses_that_match_the_pattern() {
    for (email, ok) in [
        ("a@b.co", true),
        ("first.last+tag@mail.example.org", true),
        ("a_b@x-y.info", true),
        ("A@b.co", false),
        (".a@b.co", false),
        ("a@b", false),
        ("a@b.c", false),
        ("a@.co", false),
        ("a b@c.de", false),
        ("", false),
    ] {
        let mut storage = storage();
        let mut client = client();
        let mut data = register_frame("alice01", "hunter22!", email, 0, current());
        let step = handle_register(&mut storage, &mut data, &mut client).unwrap();
        assert_eq!(matches!(step, ClientStep::CheckExistence { .. }), ok, "{email}");
        assert_eq!(client.sends.len(), if ok { 0 } else { 1 }, "{email}");
    }
}

#[test]
fn registration_is_turned_down_for_the_first_reason() {
    assert_eq!(check_registration(&register_request("alice01", "hunter22!", 5), true), None);
    assert_eq!(
        check_registration(&register_request("alice01", "hunter22!", 6), true),
        Some(Rejection::BadEmail)
    );
    assert_eq!(
        check_registration(&register_request("alice01", "hunter22!", 0), false),
        Some(Rejection::BadEmail)
    );
    assert_eq!(
        check_registration(&register_request("alice 01", "hunter22!", 0), true),
        Some(Rejection::BadCharacters)
    );
    assert_eq!(
        check_registration(&register_request("alice01", "hunter 22", 0), true),
        Some(Rejection::BadCharacters)
    );
    assert_eq!(
        check_registration(&register_request(&"a".repeat(63), "hunter22!", 0), true),
        None
    );
    assert_eq!(
        check_registration(&register_request(&"a".repeat(64), "hunter22!", 0), true),
        Some(Rejection::UsernameTooLong)
    );
    assert_eq!(
        check_registration(&register_request("alice01", &"p".repeat(127), 0), true),
        None
    );
    assert_eq!(
        check_registration(&register_request("alice01", &"p".repeat(128), 0), true),
        Some(Rejection::PasswordTooLong)
    );
    assert_eq!(
        check_registration(&register_request(&"a".repeat(64), &"p".repeat(128), 9), false),
        Some(Rejection::UsernameTooLong)
    );
    let mut old = register_request("alice 01", "hunter22!", 9);
    old.appmajor = APP_MAJOR - 1;
    old.appminor = APP_MINOR - 1;
    old.apprevision = APP_REVISION - 1;
    assert_eq!(check_registration(&old, false), Some(Rejection::Outdated));
    old.apprevision = APP_REVISION;
    assert_eq!(check_registration(&old, false), Some(Rejection::BadCharacters));
}

#[test]
fn rejections_say_why() {
    assert_eq!(Rejection::Outdated.message(), "Client needs to be updated.");
    assert_eq!(
        Rejection::BadCharacters.message(),
        "Username or Password contains unaccepted Characters"
    );
    assert_eq!(
        Rejection::UsernameTooLong.message(),
        "Username has too many Characters, 64 Characters Max"
    );
    assert_eq!(
        Rejection::PasswordTooLong.message(),
        "Password has too many Characters, 128 Characters Max"
    );
    assert_eq!(Rejection::BadEmail.message(), "Email must be an actual email.");
    assert_eq!(Rejection::UsernameTaken.message(), "Username Exists. Please try Another.");
    assert_eq!(Rejection::EmailTaken.message(), "Email Already Exists. Please Try Another.");
    assert_eq!(
        Rejection::CreationFailed.message(),
        "There was an Issue Creating the player account. Please Contact Support."
    );
    assert_eq!(
        Rejection::NoAccount.message(),
        "Account does not Exist or Password is not Correct."
    );
    assert_eq!(
        Rejection::NoRelogin.message(),
        "Account logged in. Could not Verify Relogin Code."
    );
}

#[test]
fn register_from_an_outdated_client_is_turned_down() {
    let mut storage = storage();
    let mut client = client();
    let version = (APP_MAJOR as u16 - 1, APP_MINOR as u16 - 1, APP_REVISION as u16 - 1);
    let mut data = register_frame("alice01", "hunter22!", "a@b.co", 2, version);
    let step = handle_register(&mut storage, &mut data, &mut client).unwrap();
    assert!(matches!(step, ClientStep::Done));
    assert_eq!(only_alert(&client), ("Client needs to be updated.".to_string(), true));
}

#[test]
fn register_that_is_cut_short_is_a_fault() {
    let mut storage = storage();
    let mut client = client();
    let mut data = ByteBuffer::with_capacity(8192).unwrap();
    data.write_str("alice01").unwrap();
    data.write_str("hunter22!").unwrap();
    data.move_cursor(0).unwrap();
    assert!(matches!(
        handle_register(&mut storage, &mut data, &mut client),
        Err(AscendingError::ByteyError { .. })
    ));
    assert!(client.sends.is_empty());
}

#[test]
fn register_is_turned_down_when_name_or_address_is_taken() {
    for (existence, message) in [
        (1, "Username Exists. Please try Another."),
        (2, "Email Already Exists. Please Try Another."),
    ] {
        let mut storage = storage();
        let mut client = client();
        let step = handle_register_existence(
            &mut storage,
            &mut client,
            register_request("alice01", "hunter22!", 0),
            Ok(existence),
        )
        .unwrap();
        assert!(matches!(step, ClientStep::Done));
        assert_eq!(only_alert(&client), (message.to_string(), true));
    }
    let mut storage = storage();
    let mut client = client();
    assert!(matches!(
        handle_register_existence(
            &mut storage,
            &mut client,
            register_request("alice01", "hunter22!", 0),
            Ok(3)
        ),
        Err(AscendingError::RegisterFail)
    ));
    assert!(matches!(
        handle_register_existence(
            &mut storage,
            &mut client,
            register_request("alice01", "hunter22!", 0),
            Err(AscendingError::Sqlx { error: "down".to_string() })
        ),
        Err(AscendingError::UserNotFound)
    ));
    assert!(client.sends.is_empty());
}

#[test]
fn register_is_turned_down_when_the_player_cannot_be_created() {
    let mut storage = storage();
    let mut client = client();
    let step = handle_register_created(
        &mut storage,
        &mut client,
        "S1".to_string(),
        "c".repeat(32),
        Err(AscendingError::Sqlx { error: "down".to_string() }),
    )
    .unwrap();
    assert!(matches!(step, ClientStep::Done));
    assert_eq!(
        only_alert(&client),
        (
            "There was an Issue Creating the player account. Please Contact Support.".to_string(),
            true
        )
    );
}

fn login_request(password: &str, code: &str, server: &str) -> LoginRequest {
    LoginRequest {
        email: "a@b.co".to_string(),
        password: password.to_string(),
        appmajor: APP_MAJOR,
        appminor: APP_MINOR,
        apprevision: APP_REVISION,
        reconnect_code: code.to_string(),
        server_name: server.to_string(),
    }
}

fn row(current_server: Option<&str>, reconnect_code: Option<&str>) -> PlayerWithPassword {
    PlayerWithPassword {
        uid: 77,
        username: "alice01".to_string(),
        current_server: current_server.map(|s| s.to_string()),
        reconnect_code: reconnect_code.map(|s| s.to_string()),
        password: new_player("hunter22!"),
    }
}

#[test]
fn login_reads_the_request_and_asks_for_the_player() {
    let mut storage = storage();
    let mut client = client();
    let mut data = login_frame("a@b.co", "hunter22!", current(), "XYZ", "S2");
    let step = handle_login(&mut storage, &mut data, &mut client).unwrap();
    match step {
        ClientStep::FindPlayer { request } => {
            assert_eq!(request.email, "a@b.co");
            assert_eq!(request.password, "hunter22!");
            assert_eq!(request.reconnect_code, "XYZ");
            assert_eq!(request.server_name, "S2");
            assert_eq!(request.appmajor, APP_MAJOR);
        }
        other => panic!("{other:?}"),
    }
    assert!(client.sends.is_empty());
}

#[test]
fn login_is_turned_down_before_the_store_is_asked() {
    let mut long_email = login_request("hunter22!", "", "S1");
    long_email.email = "e".repeat(64);
    assert_eq!(check_login(&long_email), Some(Rejection::NoAccount));
    long_email.email = "e".repeat(63);
    assert_eq!(check_login(&long_email), None);
    assert_eq!(
        check_login(&login_request(&"p".repeat(128), "", "S1")),
        Some(Rejection::NoAccount)
    );
    assert_eq!(check_login(&login_request(&"p".repeat(127), "", "S1")), None);
    let mut old = login_request(&"p".repeat(128), "", "S1");
    old.appmajor = APP_MAJOR - 1;
    old.appminor = APP_MINOR - 1;
    old.apprevision = APP_REVISION - 1;
    assert_eq!(check_login(&old), Some(Rejection::Outdated));

    let mut storage = storage();
    let mut client = client();
    let mut data = login_frame(&"e".repeat(64), "hunter22!", current(), "", "S1");
    let step = handle_login(&mut storage, &mut data, &mut client).unwrap();
    assert!(matches!(step, ClientStep::Done));
    assert_eq!(
        only_alert(&client),
        ("Account does not Exist or Password is not Correct.".to_string(), true)
    );
}

#[test]
fn login_without_an_earlier_session_gets_a_token_and_a_code() {
    let mut storage = storage();
    let mut client = client();
    let step = handle_login_found(
        &mut storage,
        &mut client,
        login_request("hunter22!", "", "S2"),
        Ok(Some(row(None, Some("XYZ")))),
    )
    .unwrap();
    let (uid, code, token) = match step {
        ClientStep::StoreReconnectCode { uid, code, token } => (uid, code, token),
        other => panic!("{other:?}"),
    };
    assert_eq!(uid, 77);
    assert_eq!(code.len(), 32);
    assert!(code.chars().all(|c| c.is_ascii_alphanumeric()));
    let (_, claim) = storage.keys.decode(&token).unwrap();
    assert_eq!(claim.server_name, "S2");
    assert_eq!(claim.uid, 77);
    assert!(client.sends.is_empty());

    let step =
        handle_login_stored(&mut storage, &mut client, token.clone(), code.clone(), Ok(())).unwrap();
    assert!(matches!(step, ClientStep::Done));
    let mut frames = payloads(&client.sends);
    assert_eq!(frames.len(), 1);
    assert_eq!(read_u8(&mut frames[0]).unwrap(), 4);
    assert_eq!(frames[0].read_str().unwrap(), token);
    assert_eq!(frames[0].read_str().unwrap(), code);
}

#[test]
fn login_is_turned_down_in_the_same_words_for_no_row_and_wrong_password() {
    for found in [None, Some(row(None, None))] {
        let mut storage = storage();
        let mut client = client();
        let step = handle_login_found(
            &mut storage,
            &mut client,
            login_request("wrong-password", "", "S2"),
            Ok(found),
        )
        .unwrap();
        assert!(matches!(step, ClientStep::Done));
        assert_eq!(
            only_alert(&client),
            ("Account does not Exist or Password is not Correct.".to_string(), true)
        );
    }
}

#[test]
fn login_hands_on_a_failure_of_the_store() {
    let mut storage = storage();
    let mut client = client();
    assert!(matches!(
        handle_login_found(
            &mut storage,
            &mut client,
            login_request("hunter22!", "", "S2"),
            Err(AscendingError::Sqlx { error: "down".to_string() })
        ),
        Err(AscendingError::Sqlx { .. })
    ));
    assert!(matches!(
        handle_login_stored(
            &mut storage,
            &mut client,
            "t".to_string(),
            "c".to_string(),
            Err(AscendingError::Sqlx { error: "down".to_string() })
        ),
        Err(AscendingError::Sqlx { .. })
    ));
    assert!(client.sends.is_empty());
}

#[test]
fn login_multisession() {
    let mut storage = storage();
    let s1 = storage.server.accept_server(&mut storage.poll, "s1".to_string()).unwrap().unwrap();
    let other = storage.server.accept_server(&mut storage.poll, "s3".to_string()).unwrap().unwrap();
    storage.servers.update_info(s1, info("S1", 3));
    storage.servers.update_info(other, info("S3", 3));
    storage.poll.take();
    let mut client = client();

    let step = handle_login_found(
        &mut storage,
        &mut client,
        login_request("hunter22!", "XYZ", "S2"),
        Ok(Some(row(Some("S1"), Some("XYZ")))),
    )
    .unwrap();

    let mut kills = payloads(&storage.server.game_servers[&s1].sends);
    assert_eq!(kills.len(), 1);
    assert_eq!(read_u8(&mut kills[0]).unwrap(), 2);
    assert_eq!(read_u64(&mut kills[0]).unwrap(), 77);
    assert_eq!(kills[0].cursor(), kills[0].length());
    assert!(storage.server.game_servers[&other].sends.is_empty());
    assert_eq!(storage.server.game_servers[&s1].poll_state, SocketPollState::ReadWrite);
    assert_eq!(storage.poll.take().len(), 1);

    let (uid, code, token) = match step {
        ClientStep::StoreReconnectCode { uid, code, token } => (uid, code, token),
        other => panic!("{other:?}"),
    };
    assert_eq!(uid, 77);
    assert_ne!(code, "XYZ");
    assert_eq!(code.len(), 32);
    assert!(client.sends.is_empty());

    handle_login_stored(&mut storage, &mut client, token.clone(), code.clone(), Ok(())).unwrap();
    let mut frames = payloads(&client.sends);
    assert_eq!(frames.len(), 1);
    assert_eq!(read_u8(&mut frames[0]).unwrap(), 4);
    let sent = frames[0].read_str().unwrap();
    assert_eq!(sent, token);
    assert_eq!(frames[0].read_str().unwrap(), code);
    let (_, claim) = storage.keys.decode(&sent).unwrap();
    assert_eq!((claim.server_name.as_str(), claim.uid), ("S2", 77));
}

#[test]
fn login_cannot_take_over_a_session_without_the_code_or_the_server() {
    for (row, code, connected, listed) in [
        (row(Some("S1"), Some("XYZ")), "ABC", true, true),
        (row(Some("S1"), None), "XYZ", true, true),
        (row(Some("S1"), Some("XYZ")), "XYZ", true, false),
        (row(Some("S1"), Some("XYZ")), "XYZ", false, true),
    ] {
        let mut storage = storage();
        let s1 = storage.server.accept_server(&mut storage.poll, "s1".to_string()).unwrap().unwrap();
        if listed {
            storage.servers.update_info(s1, info("S1", 3));
        }
        if !connected {
            storage.server.remove(s1);
        }
        let mut client = client();
        let step = handle_login_found(
            &mut storage,
            &mut client,
            login_request("hunter22!", code, "S2"),
            Ok(Some(row)),
        )
        .unwrap();
        assert!(matches!(step, ClientStep::Done));
        assert_eq!(
            only_alert(&client),
            ("Account logged in. Could not Verify Relogin Code.".to_string(), true)
        );
        if connected {
            assert!(storage.server.game_servers[&s1].sends.is_empty());
        }
    }
}

fn list_of(payload: &mut ByteBuffer) -> Vec<(String, String, u16, u64, u64)> {
    assert_eq!(read_u16(payload).unwrap(), 3);
    let count = read_u64(payload).unwrap();
    let mut entries = Vec::new();
    for _ in 0..count {
        let name = payload.read_str().unwrap();
        let ip = payload.read_str().unwrap();
        let port = read_u16(payload).unwrap();
        let players_on = read_u64(payload).unwrap();
        let max_players = read_u64(payload).unwrap();
        entries.push((name, ip, port, players_on, max_players));
    }
    assert_eq!(payload.cursor(), payload.length());
    entries
}

#[test]
fn server_list_paging() {
    let mut storage = storage();
    for i in 0..12usize {
        storage.servers.update_info(20 - i, info(&format!("S{i}"), i as u64));
    }
    let mut client = client();
    let mut data = ByteBuffer::with_capacity(8192).unwrap();
    write_u8(&mut data, 4).unwrap();
    data.move_cursor(0).unwrap();
    let step = client_handle_data(&mut storage, &mut data, &mut client).unwrap();
    assert!(matches!(step, ClientStep::Done));

    let mut frames = payloads(&client.sends);
    assert_eq!(frames.len(), 3);
    let pages: Vec<_> = frames.iter_mut().map(list_of).collect();
    assert_eq!(pages.iter().map(|p| p.len()).collect::<Vec<_>>(), vec![5, 5, 2]);
    let names: Vec<String> = pages.iter().flatten().map(|e| e.0.clone()).collect();
    assert_eq!(names, (0..12).map(|i| format!("S{i}")).collect::<Vec<_>>());
    assert_eq!(pages[1][2], ("S7".to_string(), "10.0.0.1".to_string(), 7000, 7, 100));
}

#[test]
fn server_list_is_sent_even_when_empty_and_ends_with_what_is_left() {
    for (entries, counts) in [
        (0usize, vec![0usize]),
        (1, vec![1]),
        (4, vec![4]),
        (5, vec![5, 0]),
        (6, vec![5, 1]),
        (10, vec![5, 5, 0]),
    ] {
        let mut storage = storage();
        for i in 0..entries {
            storage.servers.update_info(2 + i, info(&format!("S{i}"), 0));
        }
        let mut client = client();
        send_server_list(&mut storage, &mut client).unwrap();
        let mut frames = payloads(&client.sends);
        let pages: Vec<usize> = frames.iter_mut().map(|f| list_of(f).len()).collect();
        assert_eq!(pages, counts);
    }
}

fn verification_frame(token: &str) -> ByteBuffer {
    let mut data = ByteBuffer::with_capacity(8192).unwrap();
    write_u8(&mut data, 1).unwrap();
    data.write_str(token).unwrap();
    data.move_cursor(0).unwrap();
    data
}

fn verdict_of(server: &GameServer) -> (i64, bool) {
    let mut frames = payloads(&server.sends);
    let last = frames.last_mut().unwrap();
    assert_eq!(read_u8(last).unwrap(), 1);
    let uid = read_u64(last).unwrap() as i64;
    let verified = read_u8(last).unwrap();
    assert_eq!(last.cursor(), last.length());
    (uid, verified == 1)
}

#[test]
fn verification_pass_after_rotation() {
    let mut storage = storage();
    let mut server = GameServer::new(9, "s".to_string()).unwrap();
    storage.servers.update_info(9, info("S1", 0));
    let token = storage.keys.encode(&UserClaim { server_name: "S1".to_string(), uid: 1234 }).unwrap();

    game_server_handle_data(&mut storage, &mut verification_frame(&token), &mut server).unwrap();
    assert_eq!(verdict_of(&server), (1234, true));

    assert!(storage.keys.rotate());
    game_server_handle_data(&mut storage, &mut verification_frame(&token), &mut server).unwrap();
    assert_eq!(verdict_of(&server), (1234, true));

    assert!(storage.keys.rotate());
    game_server_handle_data(&mut storage, &mut verification_frame(&token), &mut server).unwrap();
    assert_eq!(verdict_of(&server), (0, false));
    assert_eq!(server.sends.len(), 3);
}

#[test]
fn verification_fails_for_another_server_and_for_no_token() {
    let mut storage = storage();
    let mut server = GameServer::new(9, "s".to_string()).unwrap();
    let token = storage.keys.encode(&UserClaim { server_name: "S1".to_string(), uid: 1234 }).unwrap();
    game_server_handle_data(&mut storage, &mut verification_frame(&token), &mut server).unwrap();
    assert_eq!(verdict_of(&server), (0, false));
    storage.servers.update_info(9, info("S2", 0));
    game_server_handle_data(&mut storage, &mut verification_frame(&token), &mut server).unwrap();
    assert_eq!(verdict_of(&server), (0, false));
    game_server_handle_data(&mut storage, &mut verification_frame("junk"), &mut server).unwrap();
    assert_eq!(verdict_of(&server), (0, false));
    storage.servers.update_info(9, info("S1", 0));
    game_server_handle_data(&mut storage, &mut verification_frame(&token), &mut server).unwrap();
    assert_eq!(verdict_of(&server), (1234, true));
}

fn update_info_frame(name: &str, players_on: u64) -> ByteBuffer {
    let mut data = ByteBuffer::with_capacity(8192).unwrap();
    write_u8(&mut data, 2).unwrap();
    data.write_str(name).unwrap();
    data.write_str("192.168.0.9").unwrap();
    write_u16(&mut data, 8000).unwrap();
    write_u64(&mut data, players_on).unwrap();
    write_u64(&mut data, 500).unwrap();
    data.move_cursor(0).unwrap();
    data
}

#[test]
fn update_info_writes_the_entry_and_update_count_the_counts() {
    let mut storage = storage();
    let mut server = GameServer::new(9, "s".to_string()).unwrap();
    game_server_handle_data(&mut storage, &mut update_info_frame("S1", 3), &mut server).unwrap();
    let entry = storage.servers.get(9).unwrap();
    assert_eq!(entry.name, "S1");
    assert_eq!(entry.ip, "192.168.0.9");
    assert_eq!(entry.port, 8000);
    assert_eq!(entry.players_on, 3);
    assert_eq!(entry.max_players, 500);
    assert_eq!(storage.servers.find(&"S1".to_string()), Some(9));

    let mut data = ByteBuffer::with_capacity(8192).unwrap();
    write_u8(&mut data, 3).unwrap();
    write_u64(&mut data, 41).unwrap();
    write_u64(&mut data, 42).unwrap();
    data.move_cursor(0).unwrap();
    game_server_handle_data(&mut storage, &mut data, &mut server).unwrap();
    let entry = storage.servers.get(9).unwrap();
    assert_eq!((entry.players_on, entry.max_players), (41, 42));
    assert_eq!(entry.name, "S1");

    game_server_handle_data(&mut storage, &mut update_info_frame("S1-renamed", 3), &mut server)
        .unwrap();
    assert_eq!(storage.servers.len(), 1);
    assert_eq!(storage.servers.find(&"S1".to_string()), None);
    assert_eq!(storage.servers.find(&"S1-renamed".to_string()), Some(9));
    assert!(server.sends.is_empty());
}

#[test]
fn frames_of_no_known_kind_are_errors() {
    let mut storage = storage();
    let mut server = GameServer::new(9, "s".to_string()).unwrap();
    let mut client = client();
    let mut unknown = ByteBuffer::with_capacity(8192).unwrap();
    write_u8(&mut unknown, 200).unwrap();
    unknown.move_cursor(0).unwrap();
    assert!(matches!(
        game_server_handle_data(&mut storage, &mut unknown, &mut server),
        Err(AscendingError::InvalidPacket)
    ));
    unknown.move_cursor(0).unwrap();
    assert!(matches!(
        client_handle_data(&mut storage, &mut unknown, &mut client),
        Err(AscendingError::InvalidPacket)
    ));
    let mut empty = ByteBuffer::with_capacity(8192).unwrap();
    assert!(matches!(
        client_handle_data(&mut storage, &mut empty, &mut client),
        Err(AscendingError::ByteyError { .. })
    ));
}

#[test]
fn online_check_and_password_reset_do_nothing() {
    let mut storage = storage();
    let mut server = GameServer::new(9, "s".to_string()).unwrap();
    let mut client = client();
    for tag in [0u8, 3] {
        let mut data = ByteBuffer::with_capacity(8192).unwrap();
        write_u8(&mut data, tag).unwrap();
        data.move_cursor(0).unwrap();
        let step = client_handle_data(&mut storage, &mut data, &mut client).unwrap();
        assert!(matches!(step, ClientStep::Done));
    }
    let mut data = ByteBuffer::with_capacity(8192).unwrap();
    write_u8(&mut data, 0).unwrap();
    data.move_cursor(0).unwrap();
    game_server_handle_data(&mut storage, &mut data, &mut server).unwrap();
    assert!(client.sends.is_empty());
    assert!(server.sends.is_empty());
    assert_eq!(client.state, SocketState::Open);
    assert!(storage.poll.take().is_empty());
}

#[test]
fn sends_build_the_frames_of_their_kind() {
    let mut storage = storage();
    let mut client = client();
    let mut server = GameServer::new(9, "s".to_string()).unwrap();
    send_infomsg(&mut storage, &mut client, "hello".to_string(), false).unwrap();
    send_fltalert(&mut storage, &mut client, "gold".to_string(), FtlType::Money).unwrap();
    send_login(&mut storage, &mut client, "tok".to_string(), "code").unwrap();
    send_verification(&mut storage, &mut server, -5, true).unwrap();
    send_game_server_online_check(&mut storage, &mut server).unwrap();
    send_kill_client(&mut storage, &mut server, 6).unwrap();

    let mut frames = payloads(&client.sends);
    assert_eq!(alert_of(&mut frames[0]), ("hello".to_string(), false));
    assert_eq!(frames[1].as_slice(), &[2, 5, 4, 0, 0, 0, 0, 0, 0, 0, b'g', b'o', b'l', b'd']);
    assert_eq!(
        frames[2].as_slice(),
        &[4, 3, 0, 0, 0, 0, 0, 0, 0, b't', b'o', b'k', 4, 0, 0, 0, 0, 0, 0, 0, b'c', b'o', b'd', b'e']
    );
    let mut frames = payloads(&server.sends);
    assert_eq!(
        frames[0].as_slice(),
        &[1, 0xfb, 0xff, 0xff, 0xff, 0xff, 0xff, 0xff, 0xff, 1]
    );
    assert_eq!(frames[1].as_slice(), &[0]);
    assert_eq!(frames[2].as_slice(), &[2, 6, 0, 0, 0, 0, 0, 0, 0]);
    assert_eq!(storage.poll.take().len(), 2);
}

#[test]
fn a_message_that_does_not_fit_is_not_sent() {
    let mut storage = storage();
    let mut client = client();
    assert!(matches!(
        send_infomsg(&mut storage, &mut client, "x".repeat(8183), true),
        Err(AscendingError::InvalidPacket)
    ));
    assert!(client.sends.is_empty());
    assert!(!client.close_after_drain);
    assert!(storage.poll.take().is_empty());
}

#[test]
fn a_long_message_is_sent_in_one_frame() {
    for len in [2000usize, 8182] {
        let mut storage = storage();
        let mut client = client();
        send_infomsg(&mut storage, &mut client, "x".repeat(len), false).unwrap();
        assert_eq!(only_alert(&client), ("x".repeat(len), false));
        assert_eq!(client.sends[0].length(), 8 + 1 + 8 + len + 1);
    }
}

fn wire(payload: &[u8]) -> Vec<u8> {
    let mut bytes = (payload.len() as u64).to_le_bytes().to_vec();
    bytes.extend_from_slice(payload);
    bytes
}

#[test]
fn frame_too_large() {
    let mut storage = storage();
    let token = storage.server.accept_client(&mut storage.poll, "c".to_string()).unwrap().unwrap();
    storage.poll.take();
    {
        let conn = storage.server.clients.get_mut(&token).unwrap();
        conn.begin_process();
        let mut bytes = 9000u64.to_le_bytes().to_vec();
        bytes.push(4);
        conn.tls_read(&mut storage.client_ids, &bytes, ReadEnd::WouldBlock).unwrap();
        conn.process(&mut storage.poll, false);
    }
    assert_eq!(storage.client_ids.snapshot(), vec![token]);

    let (handled, step) = process_client_packets(&mut storage, token, 0, None).unwrap();
    assert_eq!(handled, 0);
    assert!(matches!(step, ClientStep::Done));
    assert!(storage.client_ids.is_empty());
    assert_eq!(storage.server.clients[&token].state, SocketState::Closing);
    assert!(storage.server.clients[&token].sends.is_empty());

    {
        let conn = storage.server.clients.get_mut(&token).unwrap();
        conn.begin_process();
        conn.process(&mut storage.poll, false);
        assert_eq!(conn.state, SocketState::Closed);
    }
    assert!(settle_connection(&mut storage, token));
    assert!(!storage.server.clients.contains_key(&token));
    assert_eq!(storage.server.tokens[0], token);
}

#[test]
fn frame_of_length_zero_closes_the_connection() {
    let mut storage = storage();
    let token = storage.server.accept_server(&mut storage.poll, "s".to_string()).unwrap().unwrap();
    {
        let conn = storage.server.game_servers.get_mut(&token).unwrap();
        conn.read(&mut storage.servers_ids, &0u64.to_le_bytes(), ReadEnd::WouldBlock).unwrap();
    }
    process_packets(&mut storage).unwrap();
    assert_eq!(storage.server.game_servers[&token].state, SocketState::Closing);
    assert!(storage.servers_ids.is_empty());
}

#[test]
fn at_most_twenty_five_frames_are_handled_in_a_tick() {
    let mut storage = storage();
    let token = storage.server.accept_server(&mut storage.poll, "s".to_string()).unwrap().unwrap();
    let mut bytes = Vec::new();
    for i in 0..30u64 {
        let mut payload = vec![3u8];
        payload.extend_from_slice(&i.to_le_bytes());
        payload.extend_from_slice(&100u64.to_le_bytes());
        bytes.extend_from_slice(&wire(&payload));
    }
    bytes.extend_from_slice(&wire(&[0])[..5]);
    storage.servers.update_info(token, info("S1", 1000));
    {
        let conn = storage.server.game_servers.get_mut(&token).unwrap();
        conn.read(&mut storage.servers_ids, &bytes, ReadEnd::WouldBlock).unwrap();
    }
    process_packets(&mut storage).unwrap();
    assert_eq!(storage.servers.get(token).unwrap().players_on, 24);
    assert_eq!(storage.servers_ids.snapshot(), vec![token]);
    assert_eq!(storage.server.game_servers[&token].buffer.cursor(), 25 * 25);

    process_packets(&mut storage).unwrap();
    assert_eq!(storage.servers.get(token).unwrap().players_on, 29);
    assert!(storage.servers_ids.is_empty());
    assert_eq!(storage.server.game_servers[&token].buffer.cursor(), 30 * 25);
    assert_eq!(storage.server.game_servers[&token].state, SocketState::Open);
}

#[test]
fn a_frame_whose_handler_fails_closes_the_connection() {
    let mut storage = storage();
    let token = storage.server.accept_server(&mut storage.poll, "s".to_string()).unwrap().unwrap();
    {
        let conn = storage.server.game_servers.get_mut(&token).unwrap();
        let mut bytes = wire(&[3, 1, 2]);
        bytes.extend_from_slice(&wire(&update_info_frame("S1", 1).as_slice().to_vec()));
        conn.read(&mut storage.servers_ids, &bytes, ReadEnd::WouldBlock).unwrap();
    }
    process_packets(&mut storage).unwrap();
    assert_eq!(storage.server.game_servers[&token].state, SocketState::Closing);
    assert_eq!(storage.servers.len(), 0);
    assert!(storage.servers_ids.is_empty());
}

#[test]
fn client_frames_wait_for_the_store_and_go_on() {
    let mut storage = storage();
    let token = storage.server.accept_client(&mut storage.poll, "c".to_string()).unwrap().unwrap();
    let mut bytes = Vec::new();
    let mut first = vec![1u8];
    first.extend_from_slice(register_frame("alice01", "hunter22!", "a@b.co", 2, current()).as_slice());
    bytes.extend_from_slice(&wire(&first));
    bytes.extend_from_slice(&wire(&[0]));
    bytes.extend_from_slice(&wire(&[4]));
    {
        let conn = storage.server.clients.get_mut(&token).unwrap();
        conn.tls_read(&mut storage.client_ids, &bytes, ReadEnd::WouldBlock).unwrap();
    }

    let (handled, step) = process_client_packets(&mut storage, token, 0, None).unwrap();
    assert_eq!(handled, 1);
    assert!(matches!(step, ClientStep::CheckExistence { .. }));
    assert!(storage.server.clients[&token].sends.is_empty());

    let reply = StoreReply::Existence(Ok(Check { username_check: false, email_check: false }));
    let (handled, step) = process_client_packets(&mut storage, token, handled, Some((step, reply))).unwrap();
    assert_eq!(handled, 1);
    let code = match &step {
        ClientStep::CreatePlayer { player, .. } => player.code.clone(),
        other => panic!("{other:?}"),
    };

    let (handled, step) = process_client_packets(
        &mut storage,
        token,
        handled,
        Some((step, StoreReply::Created(Ok(5)))),
    )
    .unwrap();
    assert_eq!(handled, 3);
    assert!(matches!(step, ClientStep::Done));
    assert!(storage.client_ids.is_empty());

    let mut frames = payloads(&storage.server.clients[&token].sends);
    assert_eq!(frames.len(), 2);
    assert_eq!(read_u8(&mut frames[0]).unwrap(), 4);
    let (_, claim) = storage.keys.decode(&frames[0].read_str().unwrap()).unwrap();
    assert_eq!((claim.server_name.as_str(), claim.uid), ("S1", 5));
    assert_eq!(frames[0].read_str().unwrap(), code);
    assert!(list_of(&mut frames[1]).is_empty());
    assert_eq!(storage.server.clients[&token].state, SocketState::Open);
}

#[test]
fn an_answer_to_another_question_is_an_error() {
    let mut storage = storage();
    let mut client = client();
    assert!(matches!(
        resume_client(
            &mut storage,
            &mut client,
            ClientStep::FindPlayer { request: login_request("p", "", "S1") },
            StoreReply::Created(Ok(1))
        ),
        Err(AscendingError::InvalidPacket)
    ));
    assert!(matches!(
        resume_client(&mut storage, &mut client, ClientStep::Done, StoreReply::Stored(Ok(()))),
        Err(AscendingError::InvalidPacket)
    ));
    assert!(client.sends.is_empty());
}

#[test]
fn a_failure_of_the_store_closes_the_client() {
    let mut storage = storage();
    let token = storage.server.accept_client(&mut storage.poll, "c".to_string()).unwrap().unwrap();
    let mut first = vec![2u8];
    first.extend_from_slice(login_frame("a@b.co", "hunter22!", current(), "", "S1").as_slice());
    {
        let conn = storage.server.clients.get_mut(&token).unwrap();
        conn.tls_read(&mut storage.client_ids, &wire(&first), ReadEnd::WouldBlock).unwrap();
    }
    let (handled, step) = process_client_packets(&mut storage, token, 0, None).unwrap();
    assert!(matches!(step, ClientStep::FindPlayer { .. }));
    let reply = StoreReply::Found(Err(AscendingError::Sqlx { error: "down".to_string() }));
    let (handled, step) =
        process_client_packets(&mut storage, token, handled, Some((step, reply))).unwrap();
    assert_eq!(handled, 1);
    assert!(matches!(step, ClientStep::Done));
    assert_eq!(storage.server.clients[&token].state, SocketState::Closing);
    assert!(storage.client_ids.is_empty());
}

#[test]
fn tick_client_handles_a_frame_of_thousands_of_bytes() {
    let mut storage = storage();
    let token = storage.server.accept_client(&mut storage.poll, "c".to_string()).unwrap().unwrap();
    storage.poll.take();
    let mut frame = vec![1u8];
    frame.extend_from_slice(
        register_frame("alice01", &"p".repeat(5000), "alice@example.com", 2, current()).as_slice(),
    );
    assert!(frame.len() > 5000 && frame.len() <= 8192);
    {
        let conn = storage.server.clients.get_mut(&token).unwrap();
        conn.tls_read(&mut storage.client_ids, &wire(&frame), ReadEnd::WouldBlock).unwrap();
    }
    let mut packet = scratch_packet().unwrap();
    let (handled, step) = tick_client(&mut storage, token, 0, None, &mut packet);
    assert_eq!(handled, 1);
    assert!(matches!(step, ClientStep::Done));
    assert_eq!(packet.length(), frame.len());
    let conn = &storage.server.clients[&token];
    assert_eq!(conn.state, SocketState::Open);
    assert_eq!(
        only_alert(conn),
        ("Password has too many Characters, 128 Characters Max".to_string(), true)
    );
    assert!(!storage.client_ids.contains(token));
}

#[test]
fn tick_client_does_nothing_for_a_client_that_is_not_connected() {
    let mut storage = storage();
    let mut packet = scratch_packet().unwrap();
    let (handled, step) = tick_client(&mut storage, 77, 3, None, &mut packet);
    assert_eq!(handled, 3);
    assert!(matches!(step, ClientStep::Done));
    assert!(storage.poll.take().is_empty());
}

#[test]
fn dispatch_servers_handles_a_frame_of_thousands_of_bytes() {
    let mut storage = storage();
    let token = storage.server.accept_server(&mut storage.poll, "s".to_string()).unwrap().unwrap();
    storage.poll.take();
    let name = "n".repeat(6000);
    let mut bytes = wire(update_info_frame(&name, 3).as_slice());
    bytes.extend_from_slice(&wire(&[0]));
    {
        let conn = storage.server.game_servers.get_mut(&token).unwrap();
        conn.read(&mut storage.servers_ids, &bytes, ReadEnd::WouldBlock).unwrap();
    }
    assert!(storage.servers_ids.contains(token));
    let mut packet = scratch_packet().unwrap();
    dispatch_servers(&mut storage, &mut packet);
    assert_eq!(storage.servers.get(token).unwrap().name, name);
    assert_eq!(storage.servers.get(token).unwrap().players_on, 3);
    assert_eq!(storage.server.game_servers[&token].state, SocketState::Open);
    assert_eq!(storage.server.game_servers[&token].buffer.cursor(), bytes.len());
    assert!(!storage.servers_ids.contains(token));
    assert_eq!(packet.as_slice(), &[0]);
}

#[test]
fn login_multisession_through_the_dispatcher() {
    let mut storage = storage();
    let s1 = storage.server.accept_server(&mut storage.poll, "s1".to_string()).unwrap().unwrap();
    storage.servers.update_info(s1, info("S1", 3));
    let token = storage.server.accept_client(&mut storage.poll, "c".to_string()).unwrap().unwrap();
    storage.poll.take();
    let mut frame = vec![2u8];
    frame.extend_from_slice(login_frame("a@b.co", "hunter22!", current(), "XYZ", "S2").as_slice());
    {
        let conn = storage.server.clients.get_mut(&token).unwrap();
        conn.tls_read(&mut storage.client_ids, &wire(&frame), ReadEnd::WouldBlock).unwrap();
    }
    let mut packet = scratch_packet().unwrap();

    let (handled, step) = tick_client(&mut storage, token, 0, None, &mut packet);
    assert_eq!(handled, 1);
    assert!(matches!(step, ClientStep::FindPlayer { .. }));

    let found = StoreReply::Found(Ok(Some(row(Some("S1"), Some("XYZ")))));
    let (handled, step) = tick_client(&mut storage, token, handled, Some((step, found)), &mut packet);
    assert_eq!(handled, 1);
    let (uid, code) = match &step {
        ClientStep::StoreReconnectCode { uid, code, .. } => (*uid, code.clone()),
        other => panic!("{other:?}"),
    };
    assert_eq!(uid, 77);
    assert_ne!(code, "XYZ");
    assert_eq!(code.len(), 32);
    let mut kills = payloads(&storage.server.game_servers[&s1].sends);
    assert_eq!(kills.len(), 1);
    assert_eq!(read_u8(&mut kills[0]).unwrap(), 2);
    assert_eq!(read_u64(&mut kills[0]).unwrap(), 77);
    assert!(storage.server.clients[&token].sends.is_empty());

    let stored = StoreReply::Stored(Ok(()));
    let (handled, step) = tick_client(&mut storage, token, handled, Some((step, stored)), &mut packet);
    assert_eq!(handled, 1);
    assert!(matches!(step, ClientStep::Done));
    let mut frames = payloads(&storage.server.clients[&token].sends);
    assert_eq!(frames.len(), 1);
    assert_eq!(read_u8(&mut frames[0]).unwrap(), 4);
    let (_, claim) = storage.keys.decode(&frames[0].read_str().unwrap()).unwrap();
    assert_eq!((claim.server_name.as_str(), claim.uid), ("S2", 77));
    assert_eq!(frames[0].read_str().unwrap(), code);
    assert_eq!(storage.server.clients[&token].state, SocketState::Open);
    assert!(storage.client_ids.is_empty());
}

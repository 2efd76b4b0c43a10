use ascending_login::containers::storage::{Config, GameServerInfo, ServerLevelFilter, Storage};
use ascending_login::gameloop::mainloop::{game_loop, ROTATION_INTERVAL};
use ascending_login::socket::buffer::pack;
use ascending_login::socket::buffer::ByteBufferExt;
use ascending_login::socket::game_server::{send_to_client, ReadEnd, SocketPollState, SocketState};
use bytey_byte_buffer::byte_buffer::ByteBuffer;
use ascending_login::socket::poll::{PollRequest, PollRequestKind, PollRequests};
use ascending_login::socket::server::{
    poll_events, rearm_listener, settle_connection, EventTarget, Server, CLIENT_SERVER,
    GAME_SERVER,
};

fn config(maxconnections: usize) -> Config {
    Config {
        listen: "127.0.0.1".to_string(),
        clients_port: 7010,
        servers_port: 7011,
        server_cert: "cert.pem".to_string(),
        server_key: "key.pem".to_string(),
        ca_root: "ca.pem".to_string(),
        maxconnections,
        database: "db".to_string(),
        username: "user".to_string(),
        password: "pass".to_string(),
        host: "localhost".to_string(),
        port: 5432,
        enable_backtrace: false,
        level_filter: ServerLevelFilter::Info,
    }
}

fn pool(server: &Server) -> Vec<usize> {
    server.tokens.iter().copied().collect()
}

#[test]
fn new_registry_has_the_identifiers_from_two_on() {
    let mut poll = PollRequests::new();
    let server = Server::new(&mut poll, 1, 2, 6);
    assert_eq!(pool(&server), vec![2, 3, 4, 5]);
    assert!(server.clients.is_empty());
    assert!(server.game_servers.is_empty());
    assert_eq!(
        poll.take(),
        vec![
            PollRequest { token: CLIENT_SERVER, kind: PollRequestKind::Register, interest: SocketPollState::Read },
            PollRequest { token: GAME_SERVER, kind: PollRequestKind::Register, interest: SocketPollState::Read },
        ]
    );
    for max in [0usize, 1, 2] {
        let mut poll = PollRequests::new();
        assert!(pool(&Server::new(&mut poll, 1, 2, max)).is_empty());
    }
}

#[test]
fn accept_takes_the_identifier_at_the_head() {
    let mut poll = PollRequests::new();
    let mut server = Server::new(&mut poll, 1, 2, 6);
    poll.take();
    assert_eq!(server.accept_client(&mut poll, "a".to_string()).unwrap(), Some(2));
    assert_eq!(server.accept_server(&mut poll, "b".to_string()).unwrap(), Some(3));
    assert_eq!(pool(&server), vec![4, 5]);
    assert_eq!(server.clients[&2].addr, "a");
    assert_eq!(server.clients[&2].token, 2);
    assert_eq!(server.game_servers[&3].addr, "b");
    assert_eq!(server.game_servers[&3].state, SocketState::Open);
    assert_eq!(
        poll.take(),
        vec![
            PollRequest { token: 2, kind: PollRequestKind::Register, interest: SocketPollState::Read },
            PollRequest { token: 3, kind: PollRequestKind::Register, interest: SocketPollState::Read },
        ]
    );
}

#[test]
fn accept_with_an_empty_pool_admits_nobody() {
    let mut poll = PollRequests::new();
    let mut server = Server::new(&mut poll, 1, 2, 3);
    poll.take();
    assert_eq!(server.accept_client(&mut poll, "a".to_string()).unwrap(), Some(2));
    assert_eq!(server.accept_client(&mut poll, "b".to_string()).unwrap(), None);
    assert_eq!(server.accept_server(&mut poll, "c".to_string()).unwrap(), None);
    assert_eq!(server.clients.len(), 1);
    assert!(server.game_servers.is_empty());
    assert_eq!(poll.take().len(), 1);
}

#[test]
fn no_live_identifier_is_free() {
    let mut poll = PollRequests::new();
    let mut server = Server::new(&mut poll, 1, 2, 12);
    let mut live = Vec::new();
    for i in 0..6 {
        let token = if i % 2 == 0 {
            server.accept_client(&mut poll, "a".to_string()).unwrap().unwrap()
        } else {
            server.accept_server(&mut poll, "b".to_string()).unwrap().unwrap()
        };
        live.push(token);
    }
    server.remove(live[1]);
    server.remove(live[4]);
    server.remove(100);
    let free = pool(&server);
    assert_eq!(free, vec![live[4], live[1], 8, 9, 10, 11]);
    for token in 2..12 {
        let is_live = server.clients.contains_key(&token) || server.game_servers.contains_key(&token);
        assert_ne!(is_live, free.contains(&token));
    }
    assert_eq!(server.accept_client(&mut poll, "c".to_string()).unwrap(), Some(live[4]));
}

#[test]
fn storage_starts_empty_with_fresh_keys() {
    let mut storage = Storage::new(config(10)).unwrap();
    assert_eq!(storage.servers.len(), 0);
    assert!(storage.client_ids.is_empty());
    assert!(storage.servers_ids.is_empty());
    assert_eq!(pool(&storage.server).len(), 8);
    assert_eq!(storage.keys.active_id(), 0);
    assert_eq!(storage.poll.take().len(), 2);
    assert_eq!(storage.config.maxconnections, 10);
}

#[test]
fn events_are_routed_by_identifier() {
    let mut storage = Storage::new(config(10)).unwrap();
    let client = storage.server.accept_client(&mut storage.poll, "a".to_string()).unwrap().unwrap();
    let server = storage.server.accept_server(&mut storage.poll, "b".to_string()).unwrap().unwrap();
    assert_eq!(poll_events(&storage, 0), EventTarget::ClientListener);
    assert_eq!(poll_events(&storage, 1), EventTarget::ServerListener);
    assert_eq!(poll_events(&storage, client), EventTarget::Client);
    assert_eq!(poll_events(&storage, server), EventTarget::GameServer);
    assert_eq!(poll_events(&storage, 9), EventTarget::Nothing);
    storage.poll.take();
    rearm_listener(&mut storage, GAME_SERVER);
    assert_eq!(
        storage.poll.take(),
        vec![PollRequest { token: 1, kind: PollRequestKind::Reregister, interest: SocketPollState::Read }]
    );
}

#[test]
fn a_closed_connection_is_taken_out_everywhere() {
    let mut storage = Storage::new(config(10)).unwrap();
    let token = storage.server.accept_server(&mut storage.poll, "b".to_string()).unwrap().unwrap();
    storage.servers.update_info(
        token,
        GameServerInfo {
            name: "S1".to_string(),
            ip: "1.2.3.4".to_string(),
            port: 1,
            players_on: 0,
            max_players: 1,
        },
    );
    storage.servers_ids.insert(token);
    assert!(!settle_connection(&mut storage, token));
    assert!(storage.server.game_servers.contains_key(&token));

    let conn = storage.server.game_servers.get_mut(&token).unwrap();
    conn.read(&mut storage.servers_ids, &[], ReadEnd::Closed).unwrap();
    conn.process(&mut storage.poll);
    assert_eq!(conn.state, SocketState::Closed);
    assert!(settle_connection(&mut storage, token));
    assert!(!storage.server.game_servers.contains_key(&token));
    assert_eq!(pool(&storage.server)[0], token);
    assert_eq!(storage.servers.len(), 0);
    assert_eq!(storage.servers.find(&"S1".to_string()), None);
    assert!(storage.servers_ids.is_empty());
    assert!(!settle_connection(&mut storage, token));
}

#[test]
fn keys_are_rotated_when_due() {
    let mut storage = Storage::new(config(10)).unwrap();
    let stamped = storage.keys.last_updated();
    assert!(!game_loop(&mut storage, stamped));
    assert!(!game_loop(&mut storage, stamped + ROTATION_INTERVAL - 1));
    assert_eq!(storage.keys.active_id(), 0);
    assert!(game_loop(&mut storage, stamped + ROTATION_INTERVAL));
    assert_eq!(storage.keys.active_id(), 1);
    assert_eq!(storage.keys.last_updated(), stamped + ROTATION_INTERVAL);
    assert!(!game_loop(&mut storage, stamped + ROTATION_INTERVAL + 1));
    assert!(game_loop(&mut storage, stamped + 2 * ROTATION_INTERVAL));
    assert_eq!(storage.keys.active_id(), 0);
}

#[test]
fn send_to_client_reaches_the_client_that_is_connected() {
    let mut storage = Storage::new(config(10)).unwrap();
    let token = storage.server.accept_client(&mut storage.poll, "a".to_string()).unwrap().unwrap();
    storage.poll.take();
    let frame = pack(ByteBuffer::new_packet().unwrap(), &[1, 2]).unwrap();
    send_to_client(&mut storage, token, frame).unwrap();
    assert_eq!(storage.server.clients[&token].sends.len(), 1);
    assert_eq!(storage.server.clients[&token].poll_state, SocketPollState::ReadWrite);
    assert_eq!(
        storage.poll.take(),
        vec![PollRequest { token, kind: PollRequestKind::Reregister, interest: SocketPollState::ReadWrite }]
    );

    let frame = pack(ByteBuffer::new_packet().unwrap(), &[3]).unwrap();
    send_to_client(&mut storage, token + 1, frame).unwrap();
    assert_eq!(storage.server.clients.len(), 1);
    assert_eq!(storage.server.clients[&token].sends.len(), 1);
    assert!(storage.poll.take().is_empty());

    assert!(send_to_client(&mut storage, token, ByteBuffer::new_packet().unwrap()).is_err());
    assert_eq!(storage.server.clients[&token].sends.len(), 1);
}

#[test]
fn admit_puts_the_connection_on_the_buffer_it_is_given() {
    let mut poll = PollRequests::new();
    let mut server = Server::new(&mut poll, 1, 2, 4);
    poll.take();
    let mut used = ByteBuffer::with_capacity(64).unwrap();
    used.write_slice(&[1, 2, 3]).unwrap();
    assert_eq!(server.admit_client(&mut poll, "a".to_string(), used), Some(2));
    assert_eq!(server.clients[&2].token, 2);
    assert_eq!(server.clients[&2].addr, "a");
    assert_eq!(server.clients[&2].state, SocketState::Open);
    assert_eq!(server.clients[&2].poll_state, SocketPollState::Read);
    assert_eq!(server.clients[&2].buffer.length(), 0);
    assert_eq!(server.clients[&2].buffer.cursor(), 0);
    assert_eq!(server.clients[&2].buffer.capacity(), 64);
    assert!(server.clients[&2].sends.is_empty());
    let fresh = ByteBuffer::with_capacity(32).unwrap();
    assert_eq!(server.admit_server(&mut poll, "b".to_string(), fresh), Some(3));
    assert_eq!(server.game_servers[&3].addr, "b");
    assert_eq!(server.game_servers[&3].buffer.capacity(), 32);
    assert!(pool(&server).is_empty());
    assert_eq!(
        poll.take(),
        vec![
            PollRequest { token: 2, kind: PollRequestKind::Register, interest: SocketPollState::Read },
            PollRequest { token: 3, kind: PollRequestKind::Register, interest: SocketPollState::Read },
        ]
    );
    let spare = ByteBuffer::with_capacity(32).unwrap();
    assert_eq!(server.admit_client(&mut poll, "c".to_string(), spare), None);
    let spare = ByteBuffer::with_capacity(32).unwrap();
    assert_eq!(server.admit_server(&mut poll, "d".to_string(), spare), None);
    assert_eq!(server.clients.len(), 1);
    assert_eq!(server.game_servers.len(), 1);
    assert!(poll.take().is_empty());
}

#[test]
fn accept_gives_the_connection_an_inbound_buffer_of_its_own() {
    let mut poll = PollRequests::new();
    let mut server = Server::new(&mut poll, 1, 2, 4);
    assert_eq!(server.accept_client(&mut poll, "a".to_string()).unwrap(), Some(2));
    assert_eq!(server.accept_server(&mut poll, "b".to_string()).unwrap(), Some(3));
    assert_eq!(server.clients[&2].buffer.capacity(), 16_384);
    assert_eq!(server.game_servers[&3].buffer.capacity(), 16_384);
    assert_eq!(server.clients[&2].buffer.length(), 0);
}

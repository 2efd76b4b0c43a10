use crate::containers::directory::Directory;
use crate::containers::storage::{GameServerInfoView, Storage};
use crate::gametypes::enums::FtlType;
use crate::gametypes::error::AscendingError;
use crate::socket::buffer::{
    bool_bytes, frame_bytes, i64_bytes, is_buffer_fault, payload_fits, str_bytes,
};
use crate::socket::client::Client;
use crate::socket::game_server::{GameServer, SocketPollState, SocketState};
use crate::socket::packet_ids::{ServerToClientPackets, ServerToServerPackets};
use vstd::bytes::*;
use vstd::prelude::*;
use vstd::utf8::*;

verus! {

/// The most entries of the directory that one frame of the server list carries.
pub const SERVERS_PER_PACKET: usize = 5;

/// Appends the wire form of `text` to `out`.
pub fn put_str(out: &mut Vec<u8>, text: &str)
    ensures
        final(out)@ == old(out)@ + str_bytes(text@),
{
    let bytes = text.as_bytes();
    let size = u64_to_le_bytes(bytes.len() as u64);
    out.extend_from_slice(size.as_slice());
    out.extend_from_slice(bytes);
    assert(out@ =~= old(out)@ + str_bytes(text@));
}

/// Appends `value` to `out`, little-endian.
pub fn put_u64(out: &mut Vec<u8>, value: u64)
    ensures
        final(out)@ == old(out)@ + spec_u64_to_le_bytes(value),
{
    let bytes = u64_to_le_bytes(value);
    out.extend_from_slice(bytes.as_slice());
}

/// Appends `value` to `out`, little-endian.
pub fn put_u16(out: &mut Vec<u8>, value: u16)
    ensures
        final(out)@ == old(out)@ + spec_u16_to_le_bytes(value),
{
    let bytes = u16_to_le_bytes(value);
    out.extend_from_slice(bytes.as_slice());
}

/// Appends `value` to `out`, as its two's complement, little-endian.
pub fn put_i64(out: &mut Vec<u8>, value: i64)
    ensures
        final(out)@ == old(out)@ + i64_bytes(value),
{
    put_u64(out, value as u64);
}

/// Appends `value` to `out`, as one byte.
pub fn put_bool(out: &mut Vec<u8>, value: bool)
    ensures
        final(out)@ == old(out)@ + bool_bytes(value),
{
    out.push(if value { 1 } else { 0 });
    assert(out@ =~= old(out)@ + bool_bytes(value));
}

/// The payload of an alert: the frame kind, the message, and whether the
/// client is to close the connection.
pub open spec fn alert_payload(message: Seq<char>, close_socket: bool) -> Seq<u8> {
    seq![ServerToClientPackets::AlertMsg.spec_wire_tag()] + str_bytes(message) + bool_bytes(
        close_socket,
    )
}

/// The payload of a floating alert: the frame kind, the kind of alert, and the message.
pub open spec fn fltalert_payload(message: Seq<char>, ftltype: FtlType) -> Seq<u8> {
    seq![ServerToClientPackets::FltAlert.spec_wire_tag()] + seq![ftltype.spec_wire_tag()]
        + str_bytes(message)
}

/// The payload of the answer to a verification: the frame kind, the player,
/// and whether the token was accepted.
pub open spec fn verification_payload(id: i64, verified: bool) -> Seq<u8> {
    seq![ServerToServerPackets::Verification.spec_wire_tag()] + i64_bytes(id) + bool_bytes(
        verified,
    )
}

/// The payload of a login answer: the frame kind, the token, and the reconnect code.
pub open spec fn login_payload(token: Seq<char>, relogin_code: Seq<char>) -> Seq<u8> {
    seq![ServerToClientPackets::Login.spec_wire_tag()] + str_bytes(token) + str_bytes(
        relogin_code,
    )
}

/// The payload of an online check: the frame kind alone.
pub open spec fn online_check_payload() -> Seq<u8> {
    seq![ServerToServerPackets::OnlineCheck.spec_wire_tag()]
}

/// The payload that tells a game server to drop a player: the frame kind and the player.
pub open spec fn kill_client_payload(uid: i64) -> Seq<u8> {
    seq![ServerToServerPackets::KillClient.spec_wire_tag()] + i64_bytes(uid)
}

/// The wire form of one entry of the server list.
pub open spec fn server_entry_bytes(info: GameServerInfoView) -> Seq<u8> {
    str_bytes(info.name) + str_bytes(info.ip) + spec_u16_to_le_bytes(info.port)
        + spec_u64_to_le_bytes(info.players_on) + spec_u64_to_le_bytes(info.max_players)
}

/// The wire forms of `entries`, one after the other.
pub open spec fn server_entries_bytes(entries: Seq<GameServerInfoView>) -> Seq<u8>
    decreases entries.len(),
{
    if entries.len() == 0 {
        Seq::<u8>::empty()
    } else {
        server_entries_bytes(entries.drop_last()) + server_entry_bytes(entries.last())
    }
}

/// The payload of one frame of the server list: the frame kind as a 16-bit
/// number, the number of entries, and the entries.
pub open spec fn server_list_payload(entries: Seq<GameServerInfoView>) -> Seq<u8> {
    spec_u16_to_le_bytes(ServerToClientPackets::ServerList.spec_wire_tag() as u16)
        + spec_u64_to_le_bytes(entries.len() as u64) + server_entries_bytes(entries)
}

/// The number of frames in which a directory of `len` entries is sent.
pub open spec fn server_list_pages(len: int) -> int {
    len / (SERVERS_PER_PACKET as int) + 1
}

/// The entries that frame `page` of the server list carries.
pub open spec fn server_list_page(infos: Seq<GameServerInfoView>, page: int) -> Seq<
    GameServerInfoView,
> {
    let start = page * (SERVERS_PER_PACKET as int);
    let end = if start + SERVERS_PER_PACKET <= infos.len() {
        start + SERVERS_PER_PACKET
    } else {
        infos.len() as int
    };
    infos.subrange(start, end)
}

/// Whether the sending of `payload` to a connection succeeds, and how it
/// may fail: what is sent to a closed connection is dropped, which always
/// succeeds; for any other connection a payload that no frame can carry is
/// refused as no packet, and any other fails only with the byte buffer's
/// fault, where no buffer can be had for its frame.
pub open spec fn send_settled<T>(
    closed: bool,
    payload: Seq<u8>,
    r: Result<T, AscendingError>,
) -> bool {
    &&& closed ==> r is Ok
    &&& !closed && !payload_fits(payload) ==> (r matches Err(AscendingError::InvalidPacket))
    &&& r is Err && payload_fits(payload) ==> is_buffer_fault(r)
}

/// Sends an alert to `client`: the frame kind, the message, and whether the
/// client is to close the connection. A client that is told to close is
/// bound to close once its outbound queue has drained. What is sent to a closed client is
/// dropped, which always succeeds. Otherwise a message that no frame can
/// carry is refused as no packet, and any other is queued unless no buffer
/// can be had for its frame. Whatever fails changes nothing.
#[inline]
pub fn send_infomsg(
    storage: &mut Storage,
    client: &mut Client,
    message: String,
    close_socket: bool,
) -> (r: Result<(), AscendingError>)
    requires
        old(client).wf(),
    ensures
        final(client).wf(),
        old(storage).differs_in_poll(final(storage)),
        old(client).state != SocketState::Closed && !payload_fits(alert_payload(message@, close_socket))
            ==> r matches Err(AscendingError::InvalidPacket),
        r is Ok ==> old(client).queued_with(
            final(client),
            frame_bytes(alert_payload(message@, close_socket)),
            close_socket,
        ),
        r is Ok ==> final(storage).poll@ == old(client).asked_to_write(
            final(client),
            old(storage).poll@,
        ),
        old(client).state == SocketState::Closed ==> r is Ok,
        r is Err && payload_fits(alert_payload(message@, close_socket)) ==> is_buffer_fault(r),
        r is Err ==> *final(client) == *old(client) && final(storage).poll@ == old(storage).poll@,
{
    let mut payload: Vec<u8> = Vec::new();
    payload.push(ServerToClientPackets::AlertMsg.wire_tag());
    put_str(&mut payload, message.as_str());
    put_bool(&mut payload, close_socket);
    assert(payload@ =~= alert_payload(message@, close_socket));
    match client.send_payload(&mut storage.poll, payload.as_slice()) {
        Ok(()) => {},
        Err(e) => return Err(e),
    }
    if close_socket && client.state != SocketState::Closed {
        let ghost queued = *client;
        client.close_after_drain = true;
        proof {
            queued.lemma_wf_kept(client);
        }
    }
    Ok(())
}

/// Sends a floating alert to `client`: the frame kind, the kind of alert,
/// and the message. It succeeds and fails as [`send_infomsg`] does.
#[inline]
pub fn send_fltalert(
    storage: &mut Storage,
    client: &mut Client,
    message: String,
    ftltype: FtlType,
) -> (r: Result<(), AscendingError>)
    requires
        old(client).wf(),
    ensures
        final(client).wf(),
        old(storage).differs_in_poll(final(storage)),
        old(client).state != SocketState::Closed && !payload_fits(fltalert_payload(message@, ftltype))
            ==> r matches Err(AscendingError::InvalidPacket),
        r is Ok ==> old(client).queued(
            final(client),
            frame_bytes(fltalert_payload(message@, ftltype)),
        ),
        r is Ok ==> final(storage).poll@ == old(client).asked_to_write(
            final(client),
            old(storage).poll@,
        ),
        old(client).state == SocketState::Closed ==> r is Ok,
        r is Err && payload_fits(fltalert_payload(message@, ftltype)) ==> is_buffer_fault(r),
        r is Err ==> *final(client) == *old(client) && final(storage).poll@ == old(storage).poll@,
{
    let mut payload: Vec<u8> = Vec::new();
    payload.push(ServerToClientPackets::FltAlert.wire_tag());
    payload.push(ftltype.wire_tag());
    put_str(&mut payload, message.as_str());
    assert(payload@ =~= fltalert_payload(message@, ftltype));
    client.send_payload(&mut storage.poll, payload.as_slice())
}

/// Sends the answer to a verification to `game_server`: the frame kind, the
/// player, and whether the token was accepted. What is sent to a closed
/// game server is dropped, which always succeeds; otherwise the frame is
/// queued unless no buffer can be had for it, which changes nothing.
#[inline]
pub fn send_verification(
    storage: &mut Storage,
    game_server: &mut GameServer,
    id: i64,
    verified: bool,
) -> (r: Result<(), AscendingError>)
    requires
        old(game_server).wf(),
    ensures
        final(game_server).wf(),
        old(storage).differs_in_poll(final(storage)),
        r is Ok ==> old(game_server).queued(
            final(game_server),
            frame_bytes(verification_payload(id, verified)),
        ),
        r is Ok ==> final(storage).poll@ == old(game_server).asked_to_write(
            final(game_server),
            old(storage).poll@,
        ),
        old(game_server).state == SocketState::Closed ==> r is Ok,
        r is Err ==> is_buffer_fault(r),
        r is Err
            ==> *final(game_server) == *old(game_server)
                && final(storage).poll@ == old(storage).poll@,
{
    let mut payload: Vec<u8> = Vec::new();
    payload.push(ServerToServerPackets::Verification.wire_tag());
    put_i64(&mut payload, id);
    put_bool(&mut payload, verified);
    assert(payload@ =~= verification_payload(id, verified));
    proof {
        lemma_auto_spec_u64_to_from_le_bytes();
    }
    assert(payload_fits(payload@));
    game_server.send_payload(&mut storage.poll, payload.as_slice())
}

/// Sends a login answer to `client`: the frame kind, the token, and the
/// reconnect code. It succeeds and fails as [`send_infomsg`] does.
#[inline]
pub fn send_login(
    storage: &mut Storage,
    client: &mut Client,
    token: String,
    relogin_code: &str,
) -> (r: Result<(), AscendingError>)
    requires
        old(client).wf(),
    ensures
        final(client).wf(),
        old(storage).differs_in_poll(final(storage)),
        old(client).state != SocketState::Closed && !payload_fits(login_payload(token@, relogin_code@))
            ==> r matches Err(AscendingError::InvalidPacket),
        r is Ok ==> old(client).queued(
            final(client),
            frame_bytes(login_payload(token@, relogin_code@)),
        ),
        r is Ok ==> final(storage).poll@ == old(client).asked_to_write(
            final(client),
            old(storage).poll@,
        ),
        old(client).state == SocketState::Closed ==> r is Ok,
        r is Err && payload_fits(login_payload(token@, relogin_code@)) ==> is_buffer_fault(r),
        r is Err ==> *final(client) == *old(client) && final(storage).poll@ == old(storage).poll@,
{
    let mut payload: Vec<u8> = Vec::new();
    payload.push(ServerToClientPackets::Login.wire_tag());
    put_str(&mut payload, token.as_str());
    put_str(&mut payload, relogin_code);
    assert(payload@ =~= login_payload(token@, relogin_code@));
    client.send_payload(&mut storage.poll, payload.as_slice())
}

/// Sends an online check to `game_server`: the frame kind alone. It
/// succeeds and fails as [`send_verification`] does.
pub fn send_game_server_online_check(storage: &mut Storage, game_server: &mut GameServer) -> (r:
    Result<(), AscendingError>)
    requires
        old(game_server).wf(),
    ensures
        final(game_server).wf(),
        old(storage).differs_in_poll(final(storage)),
        r is Ok
            ==> old(game_server).queued(final(game_server), frame_bytes(online_check_payload())),
        r is Ok ==> final(storage).poll@ == old(game_server).asked_to_write(
            final(game_server),
            old(storage).poll@,
        ),
        old(game_server).state == SocketState::Closed ==> r is Ok,
        r is Err ==> is_buffer_fault(r),
        r is Err
            ==> *final(game_server) == *old(game_server)
                && final(storage).poll@ == old(storage).poll@,
{
    let mut payload: Vec<u8> = Vec::new();
    payload.push(ServerToServerPackets::OnlineCheck.wire_tag());
    assert(payload@ =~= online_check_payload());
    proof {
        lemma_auto_spec_u64_to_from_le_bytes();
    }
    assert(payload_fits(payload@));
    game_server.send_payload(&mut storage.poll, payload.as_slice())
}

/// Tells `game_server` to drop the player `uid`. It succeeds and fails as
/// [`send_verification`] does.
pub fn send_kill_client(storage: &mut Storage, game_server: &mut GameServer, uid: i64) -> (r:
    Result<(), AscendingError>)
    requires
        old(game_server).wf(),
    ensures
        final(game_server).wf(),
        old(storage).differs_in_poll(final(storage)),
        r is Ok
            ==> old(game_server).queued(final(game_server), frame_bytes(kill_client_payload(uid))),
        r is Ok ==> final(storage).poll@ == old(game_server).asked_to_write(
            final(game_server),
            old(storage).poll@,
        ),
        old(game_server).state == SocketState::Closed ==> r is Ok,
        r is Err ==> is_buffer_fault(r),
        r is Err
            ==> *final(game_server) == *old(game_server)
                && final(storage).poll@ == old(storage).poll@,
{
    let mut payload: Vec<u8> = Vec::new();
    payload.push(ServerToServerPackets::KillClient.wire_tag());
    put_i64(&mut payload, uid);
    assert(payload@ =~= kill_client_payload(uid));
    proof {
        lemma_auto_spec_u64_to_from_le_bytes();
    }
    assert(payload_fits(payload@));
    game_server.send_payload(&mut storage.poll, payload.as_slice())
}

/// The frames of the server list up to frame `pages`, one after the other.
pub open spec fn server_list_frames(infos: Seq<GameServerInfoView>, pages: int) -> Seq<Seq<u8>> {
    Seq::new(
        pages as nat,
        |page: int| frame_bytes(server_list_payload(server_list_page(infos, page))),
    )
}

/// The payload of frame `page` of the server list of `directory`.
pub fn server_list_page_payload(directory: &Directory, page: usize) -> (payload: Vec<u8>)
    requires
        directory.wf(),
        page < server_list_pages(directory.ids().len() as int),
    ensures
        payload@ == server_list_payload(server_list_page(directory.infos(), page as int)),
{
    let len = directory.len();
    let start = page * SERVERS_PER_PACKET;
    let end = if len - start >= SERVERS_PER_PACKET {
        start + SERVERS_PER_PACKET
    } else {
        len
    };
    let ghost entries = server_list_page(directory.infos(), page as int);
    let mut payload: Vec<u8> = Vec::new();
    put_u16(&mut payload, ServerToClientPackets::ServerList.wire_tag() as u16);
    put_u64(&mut payload, (end - start) as u64);
    let ghost head = payload@;
    let mut id = start;
    assert(entries.take(0) =~= Seq::<GameServerInfoView>::empty());
    while id < end
        invariant
            directory.wf(),
            start <= id <= end <= directory.ids().len(),
            entries == directory.infos().subrange(start as int, end as int),
            payload@ == head + server_entries_bytes(entries.take(id - start)),
        decreases end - id,
    {
        match directory.get_index(id) {
            Some((_, server_info)) => {
                put_str(&mut payload, server_info.name.as_str());
                put_str(&mut payload, server_info.ip.as_str());
                put_u16(&mut payload, server_info.port);
                put_u64(&mut payload, server_info.players_on);
                put_u64(&mut payload, server_info.max_players);
                proof {
                    let done = entries.take(id - start + 1);
                    assert(done.drop_last() =~= entries.take(id - start));
                    assert(done.last() == server_info@);
                    assert(payload@ =~= head + server_entries_bytes(done));
                }
            },
            None => {},
        }
        id += 1;
    }
    assert(entries.take(end - start) =~= entries);
    payload
}

/// Sends the directory to `client`, [`SERVERS_PER_PACKET`] entries to a
/// frame, in the order of the directory, and one frame more for what is left,
/// which may be nothing.
///
/// Where a frame cannot be sent, the frames before it have been, and the
/// rest are not. Nothing is sent to a closed connection.
#[inline]
pub fn send_server_list(storage: &mut Storage, client: &mut Client) -> (r: Result<
    (),
    AscendingError,
>)
    requires
        old(storage).wf(),
        old(client).wf(),
    ensures
        final(client).wf(),
        old(storage).differs_in_poll(final(storage)),
        final(client).token == old(client).token,
        final(client).state == old(client).state,
        final(client).buffer == old(client).buffer,
        final(client).addr == old(client).addr,
        final(client).sent_in_pass == old(client).sent_in_pass,
        old(client).state == SocketState::Closed ==> r is Ok && *final(client) == *old(client),
        r is Ok && old(client).state != SocketState::Closed
            ==> final(client).frames() == old(client).frames() + server_list_frames(
            old(storage).servers.infos(),
            server_list_pages(old(storage).servers.ids().len() as int),
        ),
        r is Ok && old(client).state != SocketState::Closed ==> final(client).poll_state
            == SocketPollState::of(old(client).poll_state.readable(), true),
        r is Ok ==> final(storage).poll@ == old(client).asked_to_write(
            final(client),
            old(storage).poll@,
        ),
        r is Err ==> exists|sent: int|
            0 <= sent < server_list_pages(old(storage).servers.ids().len() as int)
                && final(client).frames() == old(client).frames() + #[trigger] server_list_frames(
                old(storage).servers.infos(),
                sent,
            ),
{
    if client.state == SocketState::Closed {
        return Ok(());
    }
    let pages = storage.servers.len() / SERVERS_PER_PACKET + 1;
    let ghost infos = storage.servers.infos();
    let mut page: usize = 0;
    assert(server_list_frames(infos, 0) =~= Seq::<Seq<u8>>::empty());
    assert(old(client).frames() + Seq::<Seq<u8>>::empty() =~= old(client).frames());
    while page < pages
        invariant
            client.wf(),
            page <= pages,
            pages == server_list_pages(infos.len() as int),
            infos == storage.servers.infos(),
            storage.servers.wf(),
            storage.servers.ids().len() == infos.len(),
            old(storage).differs_in_poll(storage),
            client.token == old(client).token,
            client.state == old(client).state,
            client.state != SocketState::Closed,
            client.buffer == old(client).buffer,
            client.addr == old(client).addr,
            client.sent_in_pass == old(client).sent_in_pass,
            client.frames() == old(client).frames() + server_list_frames(infos, page as int),
            page == 0
                ==> client.poll_state == old(client).poll_state
                    && storage.poll@ == old(storage).poll@,
            page > 0 ==> client.poll_state == SocketPollState::of(
                old(client).poll_state.readable(),
                true,
            ) && storage.poll@ == old(client).asked_to_write(client, old(storage).poll@),
        decreases pages - page,
    {
        let payload = server_list_page_payload(&storage.servers, page);
        let ghost before = *client;
        match client.send_payload(&mut storage.poll, payload.as_slice()) {
            Ok(()) => {},
            Err(e) => {
                return Err(e);
            },
        }
        proof {
            assert(server_list_frames(infos, page + 1) =~= server_list_frames(infos, page as int).push(
                frame_bytes(server_list_payload(server_list_page(infos, page as int))),
            ));
            assert(client.frames() =~= old(client).frames() + server_list_frames(infos, page + 1));
        }
        page += 1;
    }
    Ok(())
}

} // verus!

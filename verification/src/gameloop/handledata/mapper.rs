use crate::containers::storage::Storage;
use crate::gameloop::handledata::routes::{
    handle_login, handle_register, handle_server_list_request, handle_update_server_count,
    handle_update_server_info, handle_verification, is_done, login_handled, register_handled,
    server_count_handled, server_info_handled, server_list_handled, unchanged, verification_handled,
    ClientStep,
};
use crate::gametypes::error::AscendingError;
use crate::socket::buffer::{bb_bytes, bb_cursor, bb_room};
use crate::socket::client::Client;
use crate::socket::game_server::GameServer;
use crate::socket::packet_ids::{ClientPacket, GameServerPacket};
use bytey_byte_buffer::byte_buffer::ByteBuffer;
use vstd::prelude::*;

verus! {

/// What is done with a frame of kind `id` from a client, read from the
/// second part of `frame` on: a registration, a login and a request for the
/// server list go to their handlers; an online check and a password reset
/// are taken in without any effect.
pub open spec fn client_mapped(
    before: (Storage, Client),
    frame: (Seq<u8>, int),
    after: (Storage, Client),
    id: ClientPacket,
    r: Result<ClientStep, AscendingError>,
) -> bool {
    match id {
        ClientPacket::Register => register_handled(before, frame, after, r),
        ClientPacket::Login => login_handled(before, frame, after, r),
        ClientPacket::RequestServers => server_list_handled(before, after, r),
        ClientPacket::OnlineCheck => is_done(r) && unchanged(before, after),
        ClientPacket::PasswordReset => is_done(r) && unchanged(before, after),
    }
}

/// Hands a frame of kind `id` from a client to its handler.
pub fn client_packet_mapper(
    storage: &mut Storage,
    data: &mut ByteBuffer,
    client: &mut Client,
    id: ClientPacket,
) -> (r: Result<ClientStep, AscendingError>)
    requires
        old(storage).wf(),
        old(client).wf(),
    ensures
        final(storage).wf(),
        final(client).wf(),
        bb_bytes(*final(data)) == bb_bytes(*old(data)),
        bb_room(*final(data)) == bb_room(*old(data)),
        client_mapped(
            (*old(storage), *old(client)),
            (bb_bytes(*old(data)), bb_cursor(*old(data)) as int),
            (*final(storage), *final(client)),
            id,
            r,
        ),
{
    match id {
        ClientPacket::Register => handle_register(storage, data, client),
        ClientPacket::Login => handle_login(storage, data, client),
        ClientPacket::RequestServers => handle_server_list_request(storage, data, client),
        ClientPacket::OnlineCheck => Ok(ClientStep::Done),
        _ => Ok(ClientStep::Done),
    }
}

/// What is done with a frame of kind `id` from a game server, read from the
/// second part of `frame` on: a verification, an announcement and a report
/// of player counts go to their handlers; an online check is taken in
/// without any effect.
pub open spec fn game_server_mapped(
    before: (Storage, GameServer),
    frame: (Seq<u8>, int),
    after: (Storage, GameServer),
    id: GameServerPacket,
    r: Result<(), AscendingError>,
) -> bool {
    match id {
        GameServerPacket::Verification => verification_handled(before, frame, after, r),
        GameServerPacket::UpdateInfo => server_info_handled(before, frame, after, r),
        GameServerPacket::UpdateCount => server_count_handled(before, frame, after, r),
        GameServerPacket::OnlineCheck => r is Ok && after.1 == before.1 && before.0.same_as(
            &after.0,
        ),
    }
}

/// Hands a frame of kind `id` from a game server to its handler.
pub fn game_server_packet_mapper(
    storage: &mut Storage,
    data: &mut ByteBuffer,
    game_server: &mut GameServer,
    id: GameServerPacket,
) -> (r: Result<(), AscendingError>)
    requires
        old(storage).wf(),
        old(game_server).wf(),
    ensures
        final(storage).wf(),
        final(game_server).wf(),
        bb_bytes(*final(data)) == bb_bytes(*old(data)),
        bb_room(*final(data)) == bb_room(*old(data)),
        game_server_mapped(
            (*old(storage), *old(game_server)),
            (bb_bytes(*old(data)), bb_cursor(*old(data)) as int),
            (*final(storage), *final(game_server)),
            id,
            r,
        ),
{
    match id {
        GameServerPacket::Verification => handle_verification(storage, data, game_server),
        GameServerPacket::UpdateInfo => handle_update_server_info(storage, data, game_server),
        GameServerPacket::UpdateCount => handle_update_server_count(storage, data, game_server),
        GameServerPacket::OnlineCheck => Ok(()),
    }
}

} // verus!

use crate::containers::storage::Storage;
use crate::gameloop::handledata::mapper::{
    client_mapped, client_packet_mapper, game_server_mapped, game_server_packet_mapper,
};
use crate::gameloop::handledata::routes::{unchanged, ClientStep};
use crate::gametypes::error::AscendingError;
use crate::socket::buffer::{bb_bytes, bb_cursor, bb_room, is_buffer_fault, read_u8, u8_at};
use crate::socket::client::Client;
use crate::socket::game_server::GameServer;
use crate::socket::packet_ids::{ClientPacket, GameServerPacket};
use bytey_byte_buffer::byte_buffer::ByteBuffer;
use vstd::prelude::*;

verus! {

/// What is done with the frame `frame` of a client, read from its second
/// part on: its first byte tells its kind, and the handler of that kind
/// takes the rest. A frame without a kind, or of no known kind, is an error
/// and changes nothing.
pub open spec fn client_routed(
    before: (Storage, Client),
    frame: (Seq<u8>, int),
    after: (Storage, Client),
    r: Result<ClientStep, AscendingError>,
) -> bool {
    match u8_at(frame.0, frame.1) {
        None => is_buffer_fault(r) && unchanged(before, after),
        Some(tag) => match ClientPacket::spec_from_wire_tag(tag) {
            None => r matches Err(AscendingError::InvalidPacket) && unchanged(before, after),
            Some(id) => client_mapped(before, (frame.0, frame.1 + 1), after, id, r),
        },
    }
}

/// Reads the kind of a client's frame and hands the frame to its handler.
pub fn client_handle_data(storage: &mut Storage, data: &mut ByteBuffer, client: &mut Client) -> (r:
    Result<ClientStep, AscendingError>)
    requires
        old(storage).wf(),
        old(client).wf(),
    ensures
        final(storage).wf(),
        final(client).wf(),
        bb_bytes(*final(data)) == bb_bytes(*old(data)),
        bb_room(*final(data)) == bb_room(*old(data)),
        client_routed(
            (*old(storage), *old(client)),
            (bb_bytes(*old(data)), bb_cursor(*old(data)) as int),
            (*final(storage), *final(client)),
            r,
        ),
{
    let tag = match read_u8(data) {
        Ok(tag) => tag,
        Err(e) => return Err(e),
    };
    match ClientPacket::from_wire_tag(tag) {
        Some(id) => client_packet_mapper(storage, data, client, id),
        None => Err(AscendingError::InvalidPacket),
    }
}

/// What is done with the frame `frame` of a game server, read from its
/// second part on: its first byte tells its kind, and the handler of that
/// kind takes the rest. A frame without a kind, or of no known kind, is an
/// error and changes nothing.
pub open spec fn game_server_routed(
    before: (Storage, GameServer),
    frame: (Seq<u8>, int),
    after: (Storage, GameServer),
    r: Result<(), AscendingError>,
) -> bool {
    match u8_at(frame.0, frame.1) {
        None => is_buffer_fault(r) && after.1 == before.1 && before.0.same_as(&after.0),
        Some(tag) => match GameServerPacket::spec_from_wire_tag(tag) {
            None => r matches Err(AscendingError::InvalidPacket) && after.1 == before.1
                && before.0.same_as(&after.0),
            Some(id) => game_server_mapped(before, (frame.0, frame.1 + 1), after, id, r),
        },
    }
}

/// Reads the kind of a game server's frame and hands the frame to its handler.
pub fn game_server_handle_data(
    storage: &mut Storage,
    data: &mut ByteBuffer,
    server: &mut GameServer,
) -> (r: Result<(), AscendingError>)
    requires
        old(storage).wf(),
        old(server).wf(),
    ensures
        final(storage).wf(),
        final(server).wf(),
        bb_bytes(*final(data)) == bb_bytes(*old(data)),
        bb_room(*final(data)) == bb_room(*old(data)),
        game_server_routed(
            (*old(storage), *old(server)),
            (bb_bytes(*old(data)), bb_cursor(*old(data)) as int),
            (*final(storage), *final(server)),
            r,
        ),
{
    let tag = match read_u8(data) {
        Ok(tag) => tag,
        Err(e) => return Err(e),
    };
    match GameServerPacket::from_wire_tag(tag) {
        Some(id) => game_server_packet_mapper(storage, data, server, id),
        None => Err(AscendingError::InvalidPacket),
    }
}

} // verus!

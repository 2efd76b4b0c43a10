use crate::containers::storage::Storage;
use crate::gametypes::error::AscendingError;
use crate::socket::client::Client;
use crate::socket::buffer::{bb_room, bb_with_capacity};
use crate::socket::game_server::{GameServer, SocketPollState, SocketState, INBOUND_CAPACITY};
use crate::socket::poll::{PollRequest, PollRequestKind, PollRequests};
use bytey_byte_buffer::byte_buffer::ByteBuffer;
use std::collections::HashMap;
use std::collections::VecDeque;
use vstd::prelude::*;

verus! {

broadcast use vstd::std_specs::hash::group_hash_axioms;

/// The identifier of the listener that player clients connect to.
pub const CLIENT_SERVER: usize = 0;

/// The identifier of the listener that game servers connect to.
pub const GAME_SERVER: usize = 1;

/// The live connections of both kinds, and the identifiers that are free.
pub struct Server {
    pub clients: HashMap<usize, Client>,
    pub game_servers: HashMap<usize, GameServer>,
    pub tokens: VecDeque<usize>,
}

impl Server {
    /// A connection is registered under `token`.
    pub open spec fn is_live(&self, token: usize) -> bool {
        self.clients@.contains_key(token) || self.game_servers@.contains_key(token)
    }

    /// `token` is in the pool of free identifiers.
    pub open spec fn is_free(&self, token: usize) -> bool {
        self.tokens@.contains(token)
    }

    /// No identifier is free twice; none is both free and in use, none in use
    /// by two connections, none that of a listener; and every connection is
    /// well-formed and registered under its own identifier.
    pub open spec fn wf(&self) -> bool {
        &&& self.tokens@.no_duplicates()
        &&& forall|i: int|
            0 <= i < self.tokens@.len() ==> (#[trigger] self.tokens@[i]) >= 2 && !self.is_live(
                self.tokens@[i],
            )
        &&& forall|t: usize| #[trigger]
            self.clients@.contains_key(t) ==> t >= 2 && !self.game_servers@.contains_key(t)
                && self.clients@[t].token == t && self.clients@[t].wf()
        &&& forall|t: usize| #[trigger]
            self.game_servers@.contains_key(t) ==> t >= 2 && self.game_servers@[t].token == t
                && self.game_servers@[t].wf()
    }

    /// The identifiers of a pool made for `max` connections: from 2 up to `max`.
    pub open spec fn fresh_pool(max: usize) -> Seq<usize> {
        Seq::new(
            if max > 2 {
                (max - 2) as nat
            } else {
                0
            },
            |i: int| (i + 2) as usize,
        )
    }

    /// A registry without connections, with the identifiers from 2 up to
    /// `max` free, after it has asked the readiness source to watch the two
    /// listeners for reads. The two ports must differ.
    #[inline]
    pub fn new(poll: &mut PollRequests, clients_port: u16, servers_port: u16, max: usize) -> (r:
        Server)
        requires
            clients_port != servers_port,
        ensures
            r.wf(),
            r.tokens@ == Self::fresh_pool(max),
            r.clients@ == Map::<usize, Client>::empty(),
            r.game_servers@ == Map::<usize, GameServer>::empty(),
            final(poll)@ == old(poll)@.push(
                PollRequest {
                    token: CLIENT_SERVER,
                    kind: PollRequestKind::Register,
                    interest: SocketPollState::Read,
                },
            ).push(
                PollRequest {
                    token: GAME_SERVER,
                    kind: PollRequestKind::Register,
                    interest: SocketPollState::Read,
                },
            ),
    {
        let mut tokens: VecDeque<usize> = VecDeque::new();
        let mut i: usize = 2;
        while i < max
            invariant
                2 <= i,
                i <= max || i == 2,
                tokens@ == Self::fresh_pool(i),
            decreases max - i,
        {
            tokens.push_back(i);
            assert(tokens@ =~= Self::fresh_pool((i + 1) as usize));
            i += 1;
        }
        proof {
            if max >= 2 {
                assert(i == max);
            } else {
                assert(i == 2);
                assert(Self::fresh_pool(2).len() == 0);
                assert(Self::fresh_pool(max).len() == 0);
            }
            assert(tokens@ =~= Self::fresh_pool(max));
        }
        poll.register(CLIENT_SERVER, SocketPollState::Read);
        poll.register(GAME_SERVER, SocketPollState::Read);
        Server { clients: HashMap::new(), game_servers: HashMap::new(), tokens }
    }

    /// What admitting a player client that connected from `addr` does, where
    /// `polls` are the requests to the readiness source before and after,
    /// and `r` is the answer.
    ///
    /// Where no identifier is free, the player client is not admitted and nothing
    /// changes: the answer is `None`, and the socket is to be dropped.
    /// Otherwise the player client gets the identifier at the head of the pool, is
    /// open with nothing queued and nothing received, asks to be watched
    /// for reads, and is registered.
    pub open spec fn client_admitted(
        &self,
        after: &Server,
        polls: (Seq<PollRequest>, Seq<PollRequest>),
        addr: String,
        r: Option<usize>,
    ) -> bool {
        &&& after.game_servers == self.game_servers
        &&& if self.tokens@.len() == 0 {
            &&& r is None
            &&& after.tokens@ == self.tokens@
            &&& after.clients@ == self.clients@
            &&& polls.1 == polls.0
        } else {
            let token = self.tokens@[0];
            &&& r == Some(token)
            &&& after.tokens@ == self.tokens@.drop_first()
            &&& after.clients@.dom() == self.clients@.dom().insert(token)
            &&& forall|t: usize|
                self.clients@.contains_key(t) ==> after.clients@[t] == self.clients@[t]
            &&& after.clients@[token].token == token
            &&& after.clients@[token].addr == addr
            &&& after.clients@[token].state == SocketState::Open
            &&& after.clients@[token].poll_state == SocketPollState::Read
            &&& after.clients@[token].frames().len() == 0
            &&& after.clients@[token].inbound().len() == 0
            &&& polls.1 == polls.0.push(
                PollRequest {
                    token,
                    kind: PollRequestKind::Register,
                    interest: SocketPollState::Read,
                },
            )
        }
    }

    /// Admits a player client that connected from `addr`, with `buffer` as
    /// its inbound buffer, as [`Server::client_admitted`] says.
    pub fn admit_client(&mut self, poll: &mut PollRequests, addr: String, buffer: ByteBuffer) -> (r:
        Option<usize>)
        requires
            old(self).wf(),
        ensures
            final(self).wf(),
            old(self).client_admitted(final(self), (old(poll)@, final(poll)@), addr, r),
            r matches Some(token) ==> bb_room(final(self).clients@[token].buffer) == bb_room(
                buffer,
            ),
    {
        let token = match self.tokens.pop_front() {
            Some(token) => token,
            None => return None,
        };
        assert(old(self).tokens@[0] == token);
        let mut client = Client::with_buffer(token, addr, buffer);
        client.register(poll);
        self.clients.insert(token, client);
        proof {
            assert(self.tokens@ =~= old(self).tokens@.drop_first());
            assert(final(self).clients@.dom() =~= old(self).clients@.dom().insert(token));
            assert forall|i: int| 0 <= i < self.tokens@.len() implies (#[trigger] self.tokens@[i])
                >= 2 && !self.is_live(self.tokens@[i]) by {
                assert(self.tokens@[i] == old(self).tokens@[i + 1]);
            }
        }
        Some(token)
    }

    /// Admits a player client that connected from `addr`, as
    /// [`Server::admit_client`] does on an inbound buffer that it asks for.
    ///
    /// Where no identifier is free, no buffer is asked for and the answer is
    /// `None`. Fails where no inbound buffer can be had; then nothing changes.
    pub fn accept_client(&mut self, poll: &mut PollRequests, addr: String) -> (r: Result<
        Option<usize>,
        AscendingError,
    >)
        requires
            old(self).wf(),
        ensures
            final(self).wf(),
            old(self).tokens@.len() == 0 ==> r is Ok,
            r matches Ok(admitted) ==> old(self).client_admitted(
                final(self),
                (old(poll)@, final(poll)@),
                addr,
                admitted,
            ),
            r matches Ok(Some(token)) ==> bb_room(final(self).clients@[token].buffer)
                == INBOUND_CAPACITY,
            r is Err ==> r matches Err(AscendingError::ByteyError { .. }),
            r is Err ==> *final(self) == *old(self) && final(poll)@ == old(poll)@,
    {
        if self.tokens.len() == 0 {
            return Ok(None);
        }
        let buffer = match bb_with_capacity(INBOUND_CAPACITY) {
            Ok(buffer) => buffer,
            Err(error) => return Err(AscendingError::ByteyError { error }),
        };
        Ok(self.admit_client(poll, addr, buffer))
    }

    /// What admitting a game server that connected from `addr` does, where
    /// `polls` are the requests to the readiness source before and after,
    /// and `r` is the answer.
    ///
    /// Where no identifier is free, the game server is not admitted and nothing
    /// changes: the answer is `None`, and the socket is to be dropped.
    /// Otherwise the game server gets the identifier at the head of the pool, is
    /// open with nothing queued and nothing received, asks to be watched
    /// for reads, and is registered.
    pub open spec fn server_admitted(
        &self,
        after: &Server,
        polls: (Seq<PollRequest>, Seq<PollRequest>),
        addr: String,
        r: Option<usize>,
    ) -> bool {
        &&& after.clients == self.clients
        &&& if self.tokens@.len() == 0 {
            &&& r is None
            &&& after.tokens@ == self.tokens@
            &&& after.game_servers@ == self.game_servers@
            &&& polls.1 == polls.0
        } else {
            let token = self.tokens@[0];
            &&& r == Some(token)
            &&& after.tokens@ == self.tokens@.drop_first()
            &&& after.game_servers@.dom() == self.game_servers@.dom().insert(token)
            &&& forall|t: usize|
                self.game_servers@.contains_key(t) ==> after.game_servers@[t] == self.game_servers@[t]
            &&& after.game_servers@[token].token == token
            &&& after.game_servers@[token].addr == addr
            &&& after.game_servers@[token].state == SocketState::Open
            &&& after.game_servers@[token].poll_state == SocketPollState::Read
            &&& after.game_servers@[token].frames().len() == 0
            &&& after.game_servers@[token].inbound().len() == 0
            &&& polls.1 == polls.0.push(
                PollRequest {
                    token,
                    kind: PollRequestKind::Register,
                    interest: SocketPollState::Read,
                },
            )
        }
    }

    /// Admits a game server that connected from `addr`, with `buffer` as
    /// its inbound buffer, as [`Server::server_admitted`] says.
    pub fn admit_server(&mut self, poll: &mut PollRequests, addr: String, buffer: ByteBuffer) -> (r:
        Option<usize>)
        requires
            old(self).wf(),
        ensures
            final(self).wf(),
            old(self).server_admitted(final(self), (old(poll)@, final(poll)@), addr, r),
            r matches Some(token) ==> bb_room(final(self).game_servers@[token].buffer) == bb_room(
                buffer,
            ),
    {
        let token = match self.tokens.pop_front() {
            Some(token) => token,
            None => return None,
        };
        assert(old(self).tokens@[0] == token);
        let mut server = GameServer::with_buffer(token, addr, buffer);
        server.register(poll);
        self.game_servers.insert(token, server);
        proof {
            assert(self.tokens@ =~= old(self).tokens@.drop_first());
            assert(final(self).game_servers@.dom() =~= old(self).game_servers@.dom().insert(token));
            assert forall|i: int| 0 <= i < self.tokens@.len() implies (#[trigger] self.tokens@[i])
                >= 2 && !self.is_live(self.tokens@[i]) by {
                assert(self.tokens@[i] == old(self).tokens@[i + 1]);
            }
        }
        Some(token)
    }

    /// Admits a game server that connected from `addr`, as
    /// [`Server::admit_server`] does on an inbound buffer that it asks for.
    ///
    /// Where no identifier is free, no buffer is asked for and the answer is
    /// `None`. Fails where no inbound buffer can be had; then nothing changes.
    pub fn accept_server(&mut self, poll: &mut PollRequests, addr: String) -> (r: Result<
        Option<usize>,
        AscendingError,
    >)
        requires
            old(self).wf(),
        ensures
            final(self).wf(),
            old(self).tokens@.len() == 0 ==> r is Ok,
            r matches Ok(admitted) ==> old(self).server_admitted(
                final(self),
                (old(poll)@, final(poll)@),
                addr,
                admitted,
            ),
            r matches Ok(Some(token)) ==> bb_room(final(self).game_servers@[token].buffer)
                == INBOUND_CAPACITY,
            r is Err ==> r matches Err(AscendingError::ByteyError { .. }),
            r is Err ==> *final(self) == *old(self) && final(poll)@ == old(poll)@,
    {
        if self.tokens.len() == 0 {
            return Ok(None);
        }
        let buffer = match bb_with_capacity(INBOUND_CAPACITY) {
            Ok(buffer) => buffer,
            Err(error) => return Err(AscendingError::ByteyError { error }),
        };
        Ok(self.admit_server(poll, addr, buffer))
    }

    /// Takes the connection of `token` out of the registry, if there is one,
    /// and puts its identifier back at the head of the pool.
    #[inline]
    pub fn remove(&mut self, token: usize)
        requires
            old(self).wf(),
        ensures
            final(self).wf(),
            !final(self).is_live(token),
            final(self).clients@ == old(self).clients@.remove(token),
            final(self).game_servers@ == old(self).game_servers@.remove(token),
            final(self).tokens@ == if old(self).is_live(token) {
                seq![token] + old(self).tokens@
            } else {
                old(self).tokens@
            },
    {
        let a = self.clients.remove(&token);
        let b = self.game_servers.remove(&token);
        if a.is_some() || b.is_some() {
            self.tokens.push_front(token);
            proof {
                assert(self.tokens@ =~= seq![token] + old(self).tokens@);
                assert forall|i: int, j: int|
                    0 <= i < self.tokens@.len() && 0 <= j < self.tokens@.len() && i
                        != j implies self.tokens@[i] != self.tokens@[j] by {
                    if i > 0 {
                        assert(self.tokens@[i] == old(self).tokens@[i - 1]);
                    }
                    if j > 0 {
                        assert(self.tokens@[j] == old(self).tokens@[j - 1]);
                    }
                }
                assert forall|i: int| 0 <= i < self.tokens@.len() implies (
                #[trigger] self.tokens@[i]) >= 2 && !self.is_live(self.tokens@[i]) by {
                    if i > 0 {
                        assert(self.tokens@[i] == old(self).tokens@[i - 1]);
                    }
                }
            }
        } else {
            assert(self.clients@ =~= old(self).clients@);
            assert(self.game_servers@ =~= old(self).game_servers@);
        }
    }
}

/// What a readiness event is about.
#[derive(Debug, Copy, Clone, PartialEq, Eq, Structural)]
pub enum EventTarget {
    /// Player clients wait to be accepted.
    ClientListener,
    /// Game servers wait to be accepted.
    ServerListener,
    /// The socket of a player client is ready.
    Client,
    /// The socket of a game server is ready.
    GameServer,
    /// No connection goes by the identifier.
    Nothing,
}

/// What the readiness event for `token` is about.
pub open spec fn event_target(server: Server, token: usize) -> EventTarget {
    if token == CLIENT_SERVER {
        EventTarget::ClientListener
    } else if token == GAME_SERVER {
        EventTarget::ServerListener
    } else if server.clients@.contains_key(token) {
        EventTarget::Client
    } else if server.game_servers@.contains_key(token) {
        EventTarget::GameServer
    } else {
        EventTarget::Nothing
    }
}

/// Tells what the readiness event for `token` is about.
pub fn poll_events(storage: &Storage, token: usize) -> (target: EventTarget)
    ensures
        target == event_target(storage.server, token),
{
    if token == CLIENT_SERVER {
        EventTarget::ClientListener
    } else if token == GAME_SERVER {
        EventTarget::ServerListener
    } else if storage.server.clients.contains_key(&token) {
        EventTarget::Client
    } else if storage.server.game_servers.contains_key(&token) {
        EventTarget::GameServer
    } else {
        EventTarget::Nothing
    }
}

/// Asks the readiness source to watch the listener `token` for reads again,
/// as is due after every pass of accepting.
pub fn rearm_listener(storage: &mut Storage, token: usize)
    ensures
        old(storage).differs_in_poll(final(storage)),
        final(storage).poll@ == old(storage).poll@.push(
            PollRequest { token, kind: PollRequestKind::Reregister, interest: SocketPollState::Read },
        ),
{
    storage.poll.reregister(token, SocketPollState::Read);
}

/// Whether the connection of `token` is closed.
pub open spec fn is_closed(server: Server, token: usize) -> bool {
    ||| server.clients@.contains_key(token) && server.clients@[token].state == SocketState::Closed
    ||| server.game_servers@.contains_key(token) && server.game_servers@[token].state
        == SocketState::Closed
}

/// Settles the connection of `token` after its readiness event has been
/// handled: a connection that is closed is taken out of the registry, out
/// of the connections with frames to dispatch and, if it is a game server,
/// out of the directory, and its identifier is free again. Any other stays.
/// Tells whether the connection was taken out.
pub fn settle_connection(storage: &mut Storage, token: usize) -> (removed: bool)
    requires
        old(storage).wf(),
    ensures
        final(storage).wf(),
        removed == is_closed(old(storage).server, token),
        old(storage).directory_is_live() ==> final(storage).directory_is_live(),
        final(storage).poll == old(storage).poll,
        final(storage).config == old(storage).config,
        final(storage).keys == old(storage).keys,
        !removed ==> final(storage).server == old(storage).server && final(storage).servers
            == old(storage).servers && final(storage).client_ids == old(storage).client_ids
            && final(storage).servers_ids == old(storage).servers_ids,
        removed ==> {
            &&& !final(storage).server.is_live(token)
            &&& final(storage).server.is_free(token)
            &&& final(storage).server.tokens@ == seq![token] + old(storage).server.tokens@
            &&& final(storage).server.clients@ == old(storage).server.clients@.remove(token)
            &&& final(storage).server.game_servers@ == old(storage).server.game_servers@.remove(
                token,
            )
            &&& !final(storage).servers.ids().contains(token)
            &&& !final(storage).client_ids.has(token)
            &&& !final(storage).servers_ids.has(token)
            &&& old(storage).servers.is_inverse() ==> final(storage).servers.is_inverse()
        },
{
    let closed = match storage.server.clients.get(&token) {
        Some(client) => client.state == SocketState::Closed,
        None => match storage.server.game_servers.get(&token) {
            Some(game_server) => game_server.state == SocketState::Closed,
            None => false,
        },
    };
    if !closed {
        return false;
    }
    storage.server.remove(token);
    storage.servers.remove(token);
    storage.client_ids.swap_remove(token);
    storage.servers_ids.swap_remove(token);
    proof {
        assert(final(storage).server.tokens@[0] == token);
        if old(storage).directory_is_live() {
            assert forall|i: int|
                0 <= i < storage.servers.ids().len() implies storage.server.game_servers@.contains_key(
                #[trigger] storage.servers.ids()[i],
            ) by {
                let id = storage.servers.ids()[i];
                assert(storage.servers.ids().contains(id));
                if old(storage).servers.ids().contains(token) {
                    let gone = old(storage).servers.ids().index_of(token);
                    let i0 = if i < gone { i } else { i + 1 };
                    assert(old(storage).servers.ids()[i0] == id);
                } else {
                    assert(old(storage).servers.ids()[i] == id);
                }
            }
        }
    }
    true
}

/// The identifier of a registered connection is not in the pool of free
/// identifiers.
pub proof fn law_live_is_not_free(server: Server, token: usize)
    requires
        server.wf(),
        server.is_live(token),
    ensures
        !server.is_free(token),
{
    if server.tokens@.contains(token) {
        let i = choose|i: int| 0 <= i < server.tokens@.len() && server.tokens@[i] == token;
        assert(!server.is_live(server.tokens@[i]));
    }
}

} // verus!

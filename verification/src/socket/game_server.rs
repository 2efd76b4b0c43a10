use crate::containers::index_set::IndexSet;
use crate::containers::storage::Storage;
use crate::gameloop::handledata::router::{game_server_handle_data, game_server_routed};
use crate::gametypes::error::AscendingError;
use crate::socket::buffer::{
    bb_as_slice, bb_bytes, bb_cursor, bb_cursor_pos, bb_length, bb_move_cursor,
    bb_move_cursor_to_end, bb_read_slice, bb_room, bb_truncate, bb_with_capacity, bb_write_slice,
    frame_bytes, frame_length_ok, frame_ok, has_room, is_buffer_fault, is_frame,
    law_frame_bytes_is_frame, pack, payload_fits, scratch_packet, u64_at, write_bytes,
    ByteBufferExt, MAX_FRAME_LENGTH,
};
use crate::socket::poll::{PollRequest, PollRequestKind, PollRequests};
use bytey_byte_buffer::byte_buffer::ByteBuffer;
use std::collections::VecDeque;
use vstd::bytes::*;
use vstd::prelude::*;

verus! {

/// Where a connection stands in its life.
#[derive(Debug, Copy, Clone, PartialEq, Eq, Structural)]
pub enum SocketState {
    Open,
    Closing,
    Closed,
}

/// The readiness events a connection wants to be woken for.
#[derive(Debug, Copy, Clone, PartialEq, Eq, Structural)]
pub enum SocketPollState {
    /// No readiness event is asked for.
    Idle,
    Read,
    Write,
    ReadWrite,
}

impl SocketPollState {
    /// Whether read readiness is part of this interest.
    pub open spec fn readable(self) -> bool {
        self == SocketPollState::Read || self == SocketPollState::ReadWrite
    }

    /// Whether write readiness is part of this interest.
    pub open spec fn writable(self) -> bool {
        self == SocketPollState::Write || self == SocketPollState::ReadWrite
    }

    /// The interest made of the two given parts.
    pub open spec fn of(readable: bool, writable: bool) -> SocketPollState {
        if readable && writable {
            SocketPollState::ReadWrite
        } else if readable {
            SocketPollState::Read
        } else if writable {
            SocketPollState::Write
        } else {
            SocketPollState::Idle
        }
    }

    /// Union: afterwards the interest holds what it held before and what `state` holds.
    #[inline]
    pub fn add(&mut self, state: SocketPollState)
        ensures
            *final(self) == Self::of(
                old(self).readable() || state.readable(),
                old(self).writable() || state.writable(),
            ),
    {
        match (*self, state) {
            (SocketPollState::Idle, _) => *self = state,
            (SocketPollState::Read, SocketPollState::Write) => *self = SocketPollState::ReadWrite,
            (SocketPollState::Write, SocketPollState::Read) => *self = SocketPollState::ReadWrite,
            (_, SocketPollState::ReadWrite) => *self = SocketPollState::ReadWrite,
            (_, _) => {},
        }
    }

    /// Replaces the interest.
    #[inline]
    pub fn set(&mut self, state: SocketPollState)
        ensures
            *final(self) == state,
    {
        *self = state;
    }

    /// Subtraction: afterwards the interest holds what it held before and `state` does not.
    #[inline]
    pub fn remove(&mut self, state: SocketPollState)
        ensures
            *final(self) == Self::of(
                old(self).readable() && !state.readable(),
                old(self).writable() && !state.writable(),
            ),
    {
        match (*self, state) {
            (SocketPollState::Read, SocketPollState::Read) => *self = SocketPollState::Idle,
            (SocketPollState::Write, SocketPollState::Write) => *self = SocketPollState::Idle,
            (SocketPollState::ReadWrite, SocketPollState::Write) => *self = SocketPollState::Read,
            (SocketPollState::ReadWrite, SocketPollState::Read) => *self = SocketPollState::Write,
            (_, SocketPollState::ReadWrite) => *self = SocketPollState::Idle,
            (_, _) => {},
        }
    }

    /// Whether the interest and `state` have a part in common. The interest is left as it was.
    pub fn contains(&mut self, state: SocketPollState) -> (r: bool)
        ensures
            *final(self) == *old(self),
            r == ((old(self).readable() && state.readable()) || (old(self).writable()
                && state.writable())),
    {
        ((*self == SocketPollState::Read || *self == SocketPollState::ReadWrite) && (state
            == SocketPollState::Read || state == SocketPollState::ReadWrite)) || ((*self
            == SocketPollState::Write || *self == SocketPollState::ReadWrite) && (state
            == SocketPollState::Write || state == SocketPollState::ReadWrite))
    }
}

/// Whether traffic on a connection is encrypted.
#[derive(Debug, Copy, Clone, PartialEq, Eq, Structural)]
pub enum EncryptionState {
    /// Plaintext in both directions.
    Plain,
    /// Encrypted in both directions.
    ReadWrite,
    /// Reads are already plaintext; writes stay encrypted until the pending send has left.
    WriteTransfering,
}

/// How a pass of reading from a socket ended.
#[derive(Debug, Copy, Clone, PartialEq, Eq, Structural)]
pub enum ReadEnd {
    /// The socket has no more bytes for now.
    WouldBlock,
    /// The peer has closed the connection.
    Closed,
    /// The socket reported an error.
    Failed,
}

/// What happened on the socket since the last step of a write pass.
#[derive(Debug, Copy, Clone, PartialEq, Eq, Structural)]
pub enum WriteEvent {
    /// The socket became writable: a pass begins.
    Writable,
    /// The bytes handed out by the last step were written in full.
    Sent,
    /// The socket took no more bytes for now.
    WouldBlock,
    /// The socket reported an error.
    Failed,
}

/// What to do next in a write pass.
#[derive(Debug)]
pub enum WriteAction {
    /// Write these bytes, the frame at the head of the queue, in full and report back.
    Write(Vec<u8>),
    /// The pass is over.
    Done,
}

/// The most frames that one pass writes to a socket.
pub const MAX_SENT_PER_PASS: usize = 25;

/// The capacity to which the outbound queue is shrunk once it has drained.
pub const SENDS_SHRINK_TO: usize = 100;

/// The capacity with which an inbound buffer starts.
pub const INBOUND_CAPACITY: usize = 16_384;

/// `VecDeque::capacity`. Nothing is claimed of the number.
#[verifier::external_body]
pub(crate) fn queue_capacity(queue: &VecDeque<ByteBuffer>) -> (n: usize) {
    queue.capacity()
}

/// `VecDeque::shrink_to`. Claims that the queue holds what it held.
#[verifier::external_body]
pub(crate) fn queue_shrink_to(queue: &mut VecDeque<ByteBuffer>, min_capacity: usize)
    ensures
        final(queue)@ == old(queue)@,
{
    queue.shrink_to(min_capacity)
}

/// What stands at the head of the bytes that a connection has received and
/// not yet consumed.
pub enum InboundHead {
    /// Fewer than the eight bytes of a length header.
    Short,
    /// A header with a length that no frame may have.
    BadLength,
    /// The header of a frame that has not arrived in full.
    Partial,
    /// A whole frame, with a payload of this many bytes.
    Whole(u64),
}

/// What stands at `cursor` of the received `bytes`.
pub open spec fn inbound_head(bytes: Seq<u8>, cursor: int) -> InboundHead {
    match u64_at(bytes, cursor) {
        None => InboundHead::Short,
        Some(length) => if !frame_length_ok(length) {
            InboundHead::BadLength
        } else if cursor + 8 + length > bytes.len() {
            InboundHead::Partial
        } else {
            InboundHead::Whole(length)
        },
    }
}

/// What came of an attempt to take the next frame off the inbound buffer.
#[derive(Debug, Copy, Clone, PartialEq, Eq, Structural)]
pub enum FrameStep {
    /// A frame was taken: its payload is in the scratch buffer.
    Taken,
    /// No whole frame has arrived yet.
    NotYet,
}

/// The state of a connection with a game server.
///
/// The socket itself is not held here: what it delivers is handed to
/// [`GameServer::read`], and what is to be written to it is handed out by
/// [`GameServer::write`].
#[derive(Debug)]
pub struct GameServer {
    pub token: usize,
    pub state: SocketState,
    pub sends: VecDeque<ByteBuffer>,
    pub poll_state: SocketPollState,
    pub buffer: ByteBuffer,
    pub addr: String,
    /// The frames written in the write pass that is under way.
    pub sent_in_pass: usize,
    /// The peer has been told to close: the connection closes once its
    /// outbound queue has drained.
    pub close_after_drain: bool,
}

impl GameServer {
    /// The frames that wait to be written, oldest first, each as its bytes.
    pub open spec fn frames(&self) -> Seq<Seq<u8>> {
        Seq::new(self.sends@.len(), |i: int| bb_bytes(self.sends@[i]))
    }

    /// The bytes received so far.
    pub open spec fn inbound(&self) -> Seq<u8> {
        bb_bytes(self.buffer)
    }

    /// The position up to which the received bytes have been consumed.
    pub open spec fn consumed(&self) -> nat {
        bb_cursor(self.buffer)
    }

    /// Every frame that waits to be written is a well-formed frame, and no
    /// pass has written more than its share.
    pub open spec fn wf(&self) -> bool {
        &&& forall|i: int| 0 <= i < self.frames().len() ==> is_frame(#[trigger] self.frames()[i])
        &&& self.sent_in_pass <= MAX_SENT_PER_PASS
    }

    /// A connection with the same outbound queue and the same count of the
    /// pass is well-formed where this one is.
    pub proof fn lemma_wf_kept(&self, other: &GameServer)
        requires
            self.wf(),
            other.sends == self.sends,
            other.sent_in_pass == self.sent_in_pass,
        ensures
            other.wf(),
    {
        assert(other.frames() =~= self.frames());
    }

    /// `other` is this connection but for its poll interest.
    pub open spec fn differs_in_interest(&self, other: &GameServer) -> bool {
        &&& self.token == other.token
        &&& self.state == other.state
        &&& self.sends == other.sends
        &&& self.buffer == other.buffer
        &&& self.addr == other.addr
        &&& self.sent_in_pass == other.sent_in_pass
        &&& self.close_after_drain == other.close_after_drain
    }

    /// `other` is this connection but for its state and its poll interest.
    pub open spec fn differs_in_state(&self, other: &GameServer) -> bool {
        &&& self.token == other.token
        &&& self.sends == other.sends
        &&& self.buffer == other.buffer
        &&& self.addr == other.addr
        &&& self.sent_in_pass == other.sent_in_pass
        &&& self.close_after_drain == other.close_after_drain
    }

    /// A connection that is open, waits for reads and has nothing buffered.
    #[inline]
    pub fn new(token: usize, addr: String) -> (r: Result<GameServer, AscendingError>)
        ensures
            r matches Ok(g) ==> g.wf() && g.token == token && g.addr == addr && g.state
                == SocketState::Open && g.poll_state == SocketPollState::Read && g.sends@.len()
                == 0 && g.inbound().len() == 0 && g.consumed() == 0 && g.sent_in_pass == 0
                && !g.close_after_drain && bb_room(g.buffer) == INBOUND_CAPACITY,
            r is Err ==> r matches Err(AscendingError::ByteyError { .. }),
    {
        let buffer = match bb_with_capacity(INBOUND_CAPACITY) {
            Ok(buffer) => buffer,
            Err(error) => return Err(AscendingError::ByteyError { error }),
        };
        Ok(GameServer::with_buffer(token, addr, buffer))
    }

    /// A connection that is open, waits for reads and has nothing buffered,
    /// on `buffer` as its inbound buffer, which is emptied.
    pub fn with_buffer(token: usize, addr: String, buffer: ByteBuffer) -> (g: GameServer)
        ensures
            g.wf(),
            g.token == token,
            g.addr == addr,
            g.state == SocketState::Open,
            g.poll_state == SocketPollState::Read,
            g.sends@.len() == 0,
            g.inbound().len() == 0,
            g.consumed() == 0,
            g.sent_in_pass == 0,
            !g.close_after_drain,
            bb_room(g.buffer) == bb_room(buffer),
    {
        let mut buffer = buffer;
        let _ = bb_truncate(&mut buffer, 0);
        GameServer {
            token,
            state: SocketState::Open,
            sends: VecDeque::with_capacity(32),
            poll_state: SocketPollState::Read,
            buffer,
            addr,
            sent_in_pass: 0,
            close_after_drain: false,
        }
    }

    /// Asks the readiness source to watch the socket, unless nothing is to be watched for.
    #[inline]
    pub fn register(&mut self, poll: &mut PollRequests)
        ensures
            *final(self) == *old(self),
            final(poll)@ == if old(self).poll_state == SocketPollState::Idle {
                old(poll)@
            } else {
                old(poll)@.push(
                    PollRequest {
                        token: old(self).token,
                        kind: PollRequestKind::Register,
                        interest: old(self).poll_state,
                    },
                )
            },
    {
        if self.poll_state != SocketPollState::Idle {
            poll.register(self.token, self.poll_state);
        }
    }

    /// Asks the readiness source to watch the socket for the current
    /// interest, unless nothing is to be watched for.
    #[inline]
    pub fn reregister(&mut self, poll: &mut PollRequests)
        ensures
            *final(self) == *old(self),
            final(poll)@ == old(self).reregistered(old(poll)@),
    {
        if self.poll_state != SocketPollState::Idle {
            poll.reregister(self.token, self.poll_state);
        }
    }

    /// The requests after this connection has asked to be watched for its interest.
    pub open spec fn reregistered(&self, requests: Seq<PollRequest>) -> Seq<PollRequest> {
        if self.poll_state == SocketPollState::Idle {
            requests
        } else {
            requests.push(
                PollRequest {
                    token: self.token,
                    kind: PollRequestKind::Reregister,
                    interest: self.poll_state,
                },
            )
        }
    }

    /// Asks the readiness source to watch the socket no longer.
    #[inline]
    pub fn deregister(&mut self, poll: &mut PollRequests)
        ensures
            *final(self) == *old(self),
            final(poll)@ == old(poll)@.push(
                PollRequest {
                    token: old(self).token,
                    kind: PollRequestKind::Deregister,
                    interest: SocketPollState::Idle,
                },
            ),
    {
        poll.deregister(self.token);
    }

    /// Marks the connection as closing and asks to be woken for writing, so
    /// that the next pass closes it.
    #[inline]
    pub fn set_to_closing(&mut self, poll: &mut PollRequests)
        ensures
            old(self).differs_in_state(final(self)),
            final(self).state == SocketState::Closing,
            final(self).poll_state == SocketPollState::of(old(self).poll_state.readable(), true),
            final(poll)@ == final(self).reregistered(old(poll)@),
    {
        self.state = SocketState::Closing;
        self.poll_state.add(SocketPollState::Write);
        self.reregister(poll);
    }

    /// Closes the connection: the socket is watched no longer and is shut
    /// down. A closed connection stays as it is.
    #[inline]
    pub fn close_socket(&mut self, poll: &mut PollRequests)
        ensures
            old(self).differs_in_state(final(self)),
            final(self).poll_state == old(self).poll_state,
            final(self).state == SocketState::Closed,
            final(poll)@ == if old(self).state == SocketState::Closed {
                old(poll)@
            } else {
                old(poll)@.push(
                    PollRequest {
                        token: old(self).token,
                        kind: PollRequestKind::Deregister,
                        interest: SocketPollState::Idle,
                    },
                )
            },
    {
        match self.state {
            SocketState::Closed => {},
            _ => {
                self.deregister(poll);
                self.state = SocketState::Closed;
            },
        }
    }

    /// Puts `buf` at the end of the outbound queue and sees to it that the
    /// connection is woken for writing. Only a well-formed frame is taken:
    /// anything else is refused and changes nothing. What is sent to a closed
    /// connection is dropped without a word.
    #[inline]
    pub fn send(&mut self, poll: &mut PollRequests, buf: ByteBuffer) -> (r: Result<
        (),
        AscendingError,
    >)
        requires
            old(self).wf(),
        ensures
            final(self).wf(),
            old(self).state == SocketState::Closed ==> r is Ok,
            old(self).state != SocketState::Closed ==> (r is Ok <==> is_frame(bb_bytes(buf))),
            r is Err ==> r matches Err(AscendingError::InvalidPacket),
            r is Err ==> *final(self) == *old(self) && final(poll)@ == old(poll)@,
            r is Ok ==> old(self).queued(final(self), bb_bytes(buf)),
            r is Ok ==> final(poll)@ == old(self).asked_to_write(final(self), old(poll)@),
    {
        let mut buf = buf;
        if self.state == SocketState::Closed {
            return Ok(());
        }
        if !frame_ok(&mut buf) {
            return Err(AscendingError::InvalidPacket);
        }
        self.sends.push_back(buf);
        assert(self.frames() =~= old(self).frames().push(bb_bytes(buf)));
        self.add_write_state(poll);
        Ok(())
    }

    /// Begins the handling of a readiness event: until the steps that follow
    /// say otherwise, the connection waits for reads alone.
    pub fn begin_process(&mut self)
        ensures
            old(self).differs_in_interest(final(self)),
            final(self).poll_state == SocketPollState::Read,
    {
        self.poll_state.set(SocketPollState::Read);
    }

    /// Ends the handling of a readiness event, after the read and write steps:
    /// a connection with frames left to write asks to be woken for writing; a
    /// closing connection is closed, any other is watched for its new interest.
    pub fn process(&mut self, poll: &mut PollRequests)
        ensures
            old(self).differs_in_state(final(self)),
            final(self).poll_state == if old(self).sends@.len() > 0 {
                SocketPollState::of(old(self).poll_state.readable(), true)
            } else {
                old(self).poll_state
            },
            final(self).state == if old(self).state == SocketState::Closing {
                SocketState::Closed
            } else {
                old(self).state
            },
            final(poll)@ == if old(self).state == SocketState::Closing {
                old(poll)@.push(
                    PollRequest {
                        token: old(self).token,
                        kind: PollRequestKind::Deregister,
                        interest: SocketPollState::Idle,
                    },
                )
            } else {
                final(self).reregistered(old(poll)@)
            },
    {
        if self.sends.len() > 0 {
            self.poll_state.add(SocketPollState::Write);
        }
        match self.state {
            SocketState::Closing => self.close_socket(poll),
            _ => self.reregister(poll),
        }
    }

    /// Whether a read pass took its bytes in for good: it ended because the
    /// socket had no more for now, and `after` holds what `self` had received
    /// and `incoming` behind it.
    pub open spec fn took_in(&self, after: &GameServer, incoming: Seq<u8>, end: ReadEnd) -> bool {
        end == ReadEnd::WouldBlock && after.inbound() == self.inbound() + incoming
    }

    /// Takes in what a read pass got from the socket: `incoming` is what
    /// arrived, `end` is how the pass ended.
    ///
    /// The bytes are appended to the inbound buffer; that they are is owed
    /// where they go into its room. As [`GameServer::took_in`] says, the
    /// bytes were then taken in for good where the pass ended because the
    /// socket had no more for now: then the buffer is left at the position
    /// it was consumed to, and the connection is entered in `ids`, the
    /// connections with frames to dispatch, if it has any bytes, and asks for
    /// more otherwise. In every other case (the peer closed, the socket
    /// failed, the buffer refused the bytes) the connection is closing, and
    /// neither `ids` nor its poll interest changes.
    pub fn read(&mut self, ids: &mut IndexSet, incoming: &[u8], end: ReadEnd) -> (r: Result<
        (),
        AscendingError,
    >)
        requires
            old(ids).wf(),
        ensures
            r is Ok,
            final(ids).wf(),
            final(self).token == old(self).token,
            final(self).sends == old(self).sends,
            final(self).addr == old(self).addr,
            final(self).sent_in_pass == old(self).sent_in_pass,
            final(self).close_after_drain == old(self).close_after_drain,
            final(self).inbound() == old(self).inbound() + incoming@ || final(self).inbound()
                == old(self).inbound(),
            old(self).inbound().len() + incoming@.len() <= bb_room(old(self).buffer)
                ==> final(self).inbound() == old(self).inbound() + incoming@,
            bb_room(final(self).buffer) >= bb_room(old(self).buffer),
            old(self).took_in(final(self), incoming@, end) ==> final(self).state == old(self).state
                && final(self).consumed() == old(self).consumed(),
            old(self).took_in(final(self), incoming@, end) ==> if final(self).inbound().len() > 0 {
                final(self).poll_state == old(self).poll_state && final(ids)@ == if old(ids).has(
                    old(self).token,
                ) {
                    old(ids)@
                } else {
                    old(ids)@.push(old(self).token)
                }
            } else {
                final(ids)@ == old(ids)@ && final(self).poll_state == SocketPollState::of(
                    true,
                    old(self).poll_state.writable(),
                )
            },
            !old(self).took_in(final(self), incoming@, end) ==> final(self).state
                == SocketState::Closing && final(ids)@ == old(ids)@ && final(self).poll_state
                == old(self).poll_state,
    {
        // Remember how far the buffer has been consumed, and append at its end.
        let pos = bb_cursor_pos(&self.buffer);
        bb_move_cursor_to_end(&mut self.buffer);
        let mut closing = false;
        if incoming.len() > 0 {
            proof {
                crate::socket::buffer::lemma_write_at_end(bb_bytes(self.buffer), incoming@);
            }
            if bb_write_slice(&mut self.buffer, incoming).is_err() {
                closing = true;
            }
        } else {
            assert(old(self).inbound() + incoming@ =~= old(self).inbound());
        }
        match end {
            ReadEnd::WouldBlock => {},
            _ => {
                closing = true;
            },
        }
        if closing {
            self.state = SocketState::Closing;
            return Ok(());
        }
        let _ = bb_length(&self.buffer);
        match bb_move_cursor(&mut self.buffer, pos) {
            Ok(()) => {},
            Err(error) => return Err(AscendingError::ByteyError { error }),
        }
        if bb_length(&self.buffer) > 0 {
            ids.insert(self.token);
        } else {
            self.poll_state.add(SocketPollState::Read);
        }
        Ok(())
    }

    /// One step of a write pass.
    ///
    /// A pass begins with `Writable`. Each step answers either with the bytes
    /// of the frame at the head of the queue, to be written to the socket in
    /// full, or with `Done`. `Sent` takes the frame that was written off the
    /// queue. At most [`MAX_SENT_PER_PASS`] frames are written in one pass.
    /// When the socket takes no more, the frame stays at the head of the
    /// queue; when it fails, the connection is closing. A pass that ends with
    /// frames left asks to be woken for writing. A pass that ends with none
    /// left, on an open connection whose peer has been told to close, leaves
    /// the connection closing.
    pub fn write(&mut self, event: WriteEvent) -> (action: WriteAction)
        requires
            old(self).wf(),
        ensures
            final(self).wf(),
            final(self).token == old(self).token,
            final(self).buffer == old(self).buffer,
            final(self).addr == old(self).addr,
            final(self).close_after_drain == old(self).close_after_drain,
            final(self).frames() == old(self).after_event(event).0,
            final(self).sent_in_pass == old(self).after_event(event).1,
            match action {
                WriteAction::Write(bytes) => {
                    &&& old(self).goes_on(event)
                    &&& bytes@ == final(self).frames()[0]
                    &&& final(self).state == old(self).state
                    &&& final(self).poll_state == old(self).poll_state
                },
                WriteAction::Done => {
                    &&& !old(self).goes_on(event)
                    &&& final(self).state == if event == WriteEvent::Failed {
                        SocketState::Closing
                    } else if old(self).drained_for_good(final(self).frames()) {
                        SocketState::Closing
                    } else {
                        old(self).state
                    }
                    &&& final(self).poll_state == if event != WriteEvent::Failed
                        && final(self).frames().len() > 0 {
                        SocketPollState::of(old(self).poll_state.readable(), true)
                    } else {
                        old(self).poll_state
                    }
                },
            },
    {
        match event {
            WriteEvent::Writable => {
                self.sent_in_pass = 0;
            },
            WriteEvent::Sent => {
                if self.sent_in_pass < MAX_SENT_PER_PASS {
                    let popped = self.sends.pop_front();
                    if popped.is_some() {
                        self.sent_in_pass += 1;
                    }
                    assert(self.frames() =~= old(self).after_event(event).0);
                }
            },
            WriteEvent::WouldBlock => {
                if self.sends.len() > 0 {
                    self.poll_state.add(SocketPollState::Write);
                } else if self.close_after_drain && self.state == SocketState::Open {
                    self.state = SocketState::Closing;
                }
                return WriteAction::Done;
            },
            WriteEvent::Failed => {
                self.state = SocketState::Closing;
                return WriteAction::Done;
            },
        }
        if self.sent_in_pass < MAX_SENT_PER_PASS {
            match self.sends.pop_front() {
                Some(mut frame) => {
                    let ghost rest = self.sends@;
                    let bytes = bb_as_slice(&mut frame);
                    self.sends.push_front(frame);
                    assert(self.frames() =~= old(self).after_event(event).0);
                    return WriteAction::Write(bytes);
                },
                None => {
                    if queue_capacity(&self.sends) > SENDS_SHRINK_TO {
                        queue_shrink_to(&mut self.sends, SENDS_SHRINK_TO);
                    }
                    assert(self.frames() =~= old(self).after_event(event).0);
                },
            }
        }
        if self.sends.len() > 0 {
            self.poll_state.add(SocketPollState::Write);
        } else if self.close_after_drain && self.state == SocketState::Open {
            self.state = SocketState::Closing;
        }
        WriteAction::Done
    }

    /// Whether a write pass that ends with `left` in the queue ends the
    /// connection: nothing is left, the peer has been told to close, and the
    /// connection is still open.
    pub open spec fn drained_for_good(&self, left: Seq<Seq<u8>>) -> bool {
        left.len() == 0 && self.close_after_drain && self.state == SocketState::Open
    }

    /// The outbound queue and the count of the pass after `event` has been
    /// taken in: `Writable` begins the count anew, and `Sent` takes the head
    /// off the queue and counts it.
    pub open spec fn after_event(&self, event: WriteEvent) -> (Seq<Seq<u8>>, usize) {
        match event {
            WriteEvent::Writable => (self.frames(), 0),
            WriteEvent::Sent => if self.sent_in_pass < MAX_SENT_PER_PASS && self.frames().len()
                > 0 {
                (self.frames().drop_first(), (self.sent_in_pass + 1) as usize)
            } else {
                (self.frames(), self.sent_in_pass)
            },
            _ => (self.frames(), self.sent_in_pass),
        }
    }

    /// Whether the pass goes on after `event`: the socket took what it was
    /// given, the pass has not written its share, and a frame is waiting.
    pub open spec fn goes_on(&self, event: WriteEvent) -> bool {
        &&& event == WriteEvent::Writable || event == WriteEvent::Sent
        &&& self.after_event(event).1 < MAX_SENT_PER_PASS
        &&& self.after_event(event).0.len() > 0
    }

    /// `after` is this connection after `frame` has been sent to it: with
    /// `frame` at the end of its outbound queue and writing added to its
    /// interest; or as it was, where it is closed.
    pub open spec fn queued(&self, after: &GameServer, frame: Seq<u8>) -> bool {
        self.queued_with(after, frame, false)
    }

    /// `after` is this connection after `frame` has been sent to it, a
    /// frame that tells the peer to close where `close` holds: with `frame`
    /// at the end of its outbound queue and writing added to its interest,
    /// and bound to close once the queue has drained where the peer has been
    /// told to, now or before; or as it was, where it is closed.
    pub open spec fn queued_with(&self, after: &GameServer, frame: Seq<u8>, close: bool) -> bool {
        if self.state == SocketState::Closed {
            *after == *self
        } else {
            &&& after.frames() == self.frames().push(frame)
            &&& after.token == self.token
            &&& after.state == self.state
            &&& after.buffer == self.buffer
            &&& after.addr == self.addr
            &&& after.sent_in_pass == self.sent_in_pass
            &&& after.close_after_drain == (self.close_after_drain || close)
            &&& after.poll_state == SocketPollState::of(self.poll_state.readable(), true)
        }
    }

    /// The requests after a frame has been sent to this connection: it asks
    /// to be woken for writing, unless it is closed or woken for writing already.
    pub open spec fn asked_to_write(
        &self,
        after: &GameServer,
        requests: Seq<PollRequest>,
    ) -> Seq<PollRequest> {
        if self.state == SocketState::Closed || self.poll_state.writable() {
            requests
        } else {
            after.reregistered(requests)
        }
    }

    /// Frames `payload` and puts the frame at the end of the outbound queue.
    ///
    /// What is sent to a closed connection is dropped without a word: that
    /// always succeeds. For any other connection a payload that no frame can
    /// carry, an empty one or one of more than [`MAX_FRAME_LENGTH`] bytes, is
    /// refused as no packet. For any other payload a buffer is asked for
    /// that has room for the frame. Where none can be had, the byte buffer's
    /// fault is handed on; where one is had, the payload is framed and
    /// queued. Whatever fails changes nothing.
    pub fn send_payload(&mut self, poll: &mut PollRequests, payload: &[u8]) -> (r: Result<
        (),
        AscendingError,
    >)
        requires
            old(self).wf(),
        ensures
            final(self).wf(),
            old(self).state == SocketState::Closed ==> r is Ok,
            old(self).state != SocketState::Closed && !payload_fits(payload@) ==> r matches Err(
                AscendingError::InvalidPacket,
            ),
            r is Ok ==> old(self).queued(final(self), frame_bytes(payload@)),
            r is Ok ==> final(poll)@ == old(self).asked_to_write(final(self), old(poll)@),
            r is Err ==> *final(self) == *old(self) && final(poll)@ == old(poll)@,
            r is Err && payload_fits(payload@) ==> is_buffer_fault(r),
    {
        if self.state == SocketState::Closed {
            return Ok(());
        }
        if payload.len() == 0 || payload.len() > MAX_FRAME_LENGTH as usize {
            return Err(AscendingError::InvalidPacket);
        }
        let buffer = match ByteBuffer::new_packet_with(payload.len()) {
            Ok(buffer) => buffer,
            Err(e) => return Err(e),
        };
        self.send_packed(poll, buffer, payload)
    }

    /// Frames `payload` in `buffer`, a packet that was just begun, and puts
    /// the frame at the end of the outbound queue.
    ///
    /// What is sent to a closed connection is dropped without a word. For
    /// any other connection a payload that no frame can carry is refused as
    /// no packet; any other is framed and queued where it goes into the room
    /// of `buffer`, and may fail with the byte buffer's fault only where that
    /// has to grow. Whatever fails changes nothing.
    pub fn send_packed(&mut self, poll: &mut PollRequests, buffer: ByteBuffer, payload: &[u8]) -> (r:
        Result<(), AscendingError>)
        requires
            old(self).wf(),
            bb_bytes(buffer) == crate::socket::buffer::blank_header(),
            bb_cursor(buffer) == 8,
        ensures
            final(self).wf(),
            old(self).state == SocketState::Closed ==> r is Ok,
            old(self).state != SocketState::Closed && !payload_fits(payload@) ==> r matches Err(
                AscendingError::InvalidPacket,
            ),
            payload_fits(payload@) && has_room(buffer, payload@.len()) ==> r is Ok,
            r is Ok ==> old(self).queued(final(self), frame_bytes(payload@)),
            r is Ok ==> final(poll)@ == old(self).asked_to_write(final(self), old(poll)@),
            r is Err ==> *final(self) == *old(self) && final(poll)@ == old(poll)@,
            r is Err && payload_fits(payload@) ==> is_buffer_fault(r),
    {
        if self.state == SocketState::Closed {
            return Ok(());
        }
        proof {
            if payload_fits(payload@) {
                law_frame_bytes_is_frame(payload@);
            }
        }
        let frame = match pack(buffer, payload) {
            Ok(frame) => frame,
            Err(e) => return Err(e),
        };
        self.send(poll, frame)
    }

    /// Sees to it that the connection is woken for writing.
    #[inline]
    pub fn add_write_state(&mut self, poll: &mut PollRequests)
        ensures
            old(self).differs_in_interest(final(self)),
            final(self).poll_state == SocketPollState::of(old(self).poll_state.readable(), true),
            final(poll)@ == if old(self).poll_state.writable() {
                old(poll)@
            } else {
                final(self).reregistered(old(poll)@)
            },
    {
        if !self.poll_state.contains(SocketPollState::Write) {
            self.poll_state.add(SocketPollState::Write);
            self.reregister(poll);
        }
    }
}

/// Reads the length header of the next frame from the inbound buffer.
///
/// Where fewer than eight bytes are buffered, nothing is consumed and the
/// connection asks for more. Where the header holds a length that no frame may
/// have, the connection is set to closing. Otherwise the header is consumed and
/// the length is handed out.
pub fn get_length(poll: &mut PollRequests, game_server: &mut GameServer) -> (r: Result<
    Option<u64>,
    AscendingError,
>)
    ensures
        r is Ok,
        final(game_server).token == old(game_server).token,
        final(game_server).sends == old(game_server).sends,
        final(game_server).addr == old(game_server).addr,
        final(game_server).sent_in_pass == old(game_server).sent_in_pass,
        final(game_server).close_after_drain == old(game_server).close_after_drain,
        final(game_server).inbound() == old(game_server).inbound(),
        match u64_at(old(game_server).inbound(), old(game_server).consumed() as int) {
            None => {
                &&& r == Ok::<Option<u64>, AscendingError>(None)
                &&& final(game_server).consumed() == old(game_server).consumed()
                &&& final(game_server).state == old(game_server).state
                &&& final(game_server).poll_state == SocketPollState::of(
                    true,
                    old(game_server).poll_state.writable(),
                )
                &&& final(poll)@ == final(game_server).reregistered(old(poll)@)
            },
            Some(length) => {
                &&& final(game_server).consumed() == old(game_server).consumed() + 8
                &&& if frame_length_ok(length) {
                    &&& r == Ok::<Option<u64>, AscendingError>(Some(length))
                    &&& final(game_server).state == old(game_server).state
                    &&& final(game_server).poll_state == old(game_server).poll_state
                    &&& final(poll)@ == old(poll)@
                } else {
                    &&& r == Ok::<Option<u64>, AscendingError>(None)
                    &&& final(game_server).state == SocketState::Closing
                    &&& final(game_server).poll_state == SocketPollState::of(
                        old(game_server).poll_state.readable(),
                        true,
                    )
                    &&& final(poll)@ == final(game_server).reregistered(old(poll)@)
                }
            },
        },
{
    let length = bb_length(&game_server.buffer);
    let cursor = bb_cursor_pos(&game_server.buffer);
    if length - cursor >= 8 {
        let header = match bb_read_slice(&mut game_server.buffer, 8) {
            Ok(header) => header,
            Err(error) => return Err(AscendingError::ByteyError { error }),
        };
        let length = u64_from_le_bytes(header.as_slice());
        if !(length >= 1 && length <= MAX_FRAME_LENGTH) {
            game_server.set_to_closing(poll);
            return Ok(None);
        }
        Ok(Some(length))
    } else {
        game_server.poll_state.add(SocketPollState::Read);
        game_server.reregister(poll);
        Ok(None)
    }
}

/// What [`take_frame`] does: `before` and `after` are the requests to the
/// readiness source and the connection before and after it, `step` is what
/// it answers, and `payload` is what it leaves in the scratch buffer.
///
/// Where no header has arrived in full, nothing is consumed and the
/// connection asks for more. Where the header holds a length that no frame
/// may have, the header is consumed and the connection is set to closing.
/// Where the frame has not arrived in full, nothing is consumed. A frame
/// that has arrived in full is consumed, and its payload is in the scratch
/// buffer.
pub open spec fn frame_taken(
    before: (Seq<PollRequest>, GameServer),
    after: (Seq<PollRequest>, GameServer),
    step: FrameStep,
    payload: Seq<u8>,
) -> bool {
    &&& after.1.token == before.1.token
    &&& after.1.sends == before.1.sends
    &&& after.1.addr == before.1.addr
    &&& after.1.sent_in_pass == before.1.sent_in_pass
    &&& after.1.close_after_drain == before.1.close_after_drain
    &&& after.1.inbound() == before.1.inbound()
    &&& match inbound_head(before.1.inbound(), before.1.consumed() as int) {
        InboundHead::Short => {
            &&& step == FrameStep::NotYet
            &&& after.1.consumed() == before.1.consumed()
            &&& after.1.state == before.1.state
            &&& after.1.poll_state == SocketPollState::of(true, before.1.poll_state.writable())
            &&& after.0 == after.1.reregistered(before.0)
        },
        InboundHead::BadLength => {
            &&& step == FrameStep::NotYet
            &&& after.1.consumed() == before.1.consumed() + 8
            &&& after.1.state == SocketState::Closing
            &&& after.1.poll_state == SocketPollState::of(before.1.poll_state.readable(), true)
            &&& after.0 == after.1.reregistered(before.0)
        },
        InboundHead::Partial => {
            &&& step == FrameStep::NotYet
            &&& after.1.consumed() == before.1.consumed()
            &&& after.1.state == before.1.state
            &&& after.1.poll_state == before.1.poll_state
            &&& after.0 == before.0
        },
        InboundHead::Whole(length) => {
            &&& after.1.consumed() == before.1.consumed() + 8 + length
            &&& after.1.state == before.1.state
            &&& after.1.poll_state == before.1.poll_state
            &&& after.0 == before.0
            &&& step == FrameStep::Taken
            &&& payload == before.1.inbound().subrange(
                before.1.consumed() as int + 8,
                before.1.consumed() + 8 + length,
            )
        },
    }
}

/// Takes the next frame off the inbound buffer of `game_server` and puts its
/// payload into `packet`, rewound. The scratch buffer `packet` has room for
/// the largest frame, so that every frame goes into it.
pub fn take_frame(
    poll: &mut PollRequests,
    game_server: &mut GameServer,
    packet: &mut ByteBuffer,
) -> (r: Result<FrameStep, AscendingError>)
    requires
        bb_room(*old(packet)) >= MAX_FRAME_LENGTH,
    ensures
        r matches Ok(step) && frame_taken(
            (old(poll)@, *old(game_server)),
            (final(poll)@, *final(game_server)),
            step,
            bb_bytes(*final(packet)),
        ),
        r matches Ok(FrameStep::Taken) ==> bb_cursor(*final(packet)) == 0,
        bb_room(*final(packet)) >= MAX_FRAME_LENGTH,
{
    let length = match get_length(poll, game_server) {
        Ok(Some(length)) => length,
        Ok(None) => return Ok(FrameStep::NotYet),
        Err(e) => return Err(e),
    };
    let buffered = bb_length(&game_server.buffer);
    let cursor = bb_cursor_pos(&game_server.buffer);
    if length > (buffered - cursor) as u64 {
        // The frame has not arrived in full: the header is read again next time.
        match bb_move_cursor(&mut game_server.buffer, cursor - 8) {
            Ok(()) => {},
            Err(error) => return Err(AscendingError::ByteyError { error }),
        }
        return Ok(FrameStep::NotYet);
    }
    let bytes = match bb_read_slice(&mut game_server.buffer, length as usize) {
        Ok(bytes) => bytes,
        Err(error) => return Err(AscendingError::ByteyError { error }),
    };
    let _ = bb_truncate(packet, 0);
    proof {
        crate::socket::buffer::lemma_write_at_end(bb_bytes(*packet), bytes@);
    }
    match write_bytes(packet, bytes.as_slice()) {
        Ok(()) => {},
        Err(e) => return Err(e),
    }
    let _ = bb_move_cursor(packet, 0);
    assert(bb_bytes(*packet) =~= bytes@);
    Ok(FrameStep::Taken)
}

/// The most frames of one connection that are handled in one tick.
pub const MAX_PROCESSED_PACKETS: usize = 25;

/// What [`socket_update`] does: the connection is taken off the connections
/// with frames to dispatch, and is set to closing where it is to be closed.
pub open spec fn dropped(
    before: (Storage, GameServer),
    after: (Storage, GameServer),
    should_close: bool,
) -> bool {
    &&& after.0.servers == before.0.servers
    &&& after.0.client_ids == before.0.client_ids
    &&& after.0.server == before.0.server
    &&& after.0.config == before.0.config
    &&& after.0.keys == before.0.keys
    &&& after.0.servers_ids@ == before.0.servers_ids.without(before.1.token)
    &&& if should_close {
        &&& before.1.differs_in_state(&after.1)
        &&& after.1.state == SocketState::Closing
        &&& after.1.poll_state == SocketPollState::of(before.1.poll_state.readable(), true)
        &&& after.0.poll@ == after.1.reregistered(before.0.poll@)
    } else {
        &&& after.1 == before.1
        &&& after.0.poll@ == before.0.poll@
    }
}

/// Takes `game_server` off the connections with frames to dispatch, and sets
/// it to closing where it is to be closed.
pub fn socket_update(storage: &mut Storage, game_server: &mut GameServer, should_close: bool)
    requires
        old(storage).wf(),
    ensures
        final(storage).wf(),
        !final(storage).servers_ids.has(old(game_server).token),
        dropped(
            (*old(storage), *old(game_server)),
            (*final(storage), *final(game_server)),
            should_close,
        ),
{
    storage.servers_ids.swap_remove(game_server.token);
    if should_close {
        game_server.set_to_closing(&mut storage.poll);
    }
}

/// What [`process_server_frame`] does with the next frame of a game server.
///
/// The frame is taken off the inbound buffer, as [`frame_taken`] says. A
/// frame that was taken goes to the handler of its kind, as
/// [`game_server_routed`] says; where the handler succeeds, the frame counts
/// as handled. Where no whole frame has arrived, the connection is taken
/// off the connections with frames to dispatch; where the handler fails, it
/// is also set to closing.
pub open spec fn server_frame_processed(
    before: (Storage, GameServer),
    after: (Storage, GameServer),
    handled: bool,
) -> bool {
    exists|mid: (Storage, GameServer), step: FrameStep, payload: Seq<u8>|
        {
            &&& #[trigger] frame_taken(
                (before.0.poll@, before.1),
                (mid.0.poll@, mid.1),
                step,
                payload,
            )
            &&& before.0.differs_in_poll(&mid.0)
            &&& match step {
                FrameStep::Taken => exists|done: (Storage, GameServer), answer: Result<(), AscendingError>|
                    {
                        &&& #[trigger] game_server_routed(mid, (payload, 0), done, answer)
                        &&& if answer is Ok {
                            handled && after == done
                        } else {
                            !handled && dropped(done, after, true)
                        }
                    },
                FrameStep::NotYet => !handled && dropped(mid, after, false),
            }
        }
}

/// Handles the next frame that `game_server` has received, if one has
/// arrived in full. Tells whether a frame was handled.
pub fn process_server_frame(
    storage: &mut Storage,
    game_server: &mut GameServer,
    packet: &mut ByteBuffer,
) -> (handled: bool)
    requires
        old(storage).wf(),
        old(game_server).wf(),
        bb_room(*old(packet)) >= MAX_FRAME_LENGTH,
    ensures
        final(storage).wf(),
        final(game_server).wf(),
        bb_room(*final(packet)) >= MAX_FRAME_LENGTH,
        !handled ==> !final(storage).servers_ids.has(old(game_server).token),
        server_frame_processed(
            (*old(storage), *old(game_server)),
            (*final(storage), *final(game_server)),
            handled,
        ),
{
    let step = match take_frame(&mut storage.poll, game_server, packet) {
        Ok(step) => step,
        Err(_) => {
            socket_update(storage, game_server, true);
            return false;
        },
    };
    let ghost mid = (*storage, *game_server);
    let ghost payload = bb_bytes(*packet);
    proof {
        old(game_server).lemma_wf_kept(game_server);
    }
    match step {
        FrameStep::Taken => {},
        FrameStep::NotYet => {
            socket_update(storage, game_server, false);
            assert(server_frame_processed(
                (*old(storage), *old(game_server)),
                (*storage, *game_server),
                false,
            ));
            return false;
        },
    }
    assert(frame_taken(
        (old(storage).poll@, *old(game_server)),
        (mid.0.poll@, mid.1),
        FrameStep::Taken,
        payload,
    ));
    let answer = game_server_handle_data(storage, packet, game_server);
    let ghost done = (*storage, *game_server);
    assert(game_server_routed(mid, (payload, 0), done, answer));
    if answer.is_err() {
        socket_update(storage, game_server, true);
        proof {
            done.1.lemma_wf_kept(game_server);
        }
        assert(server_frame_processed(
            (*old(storage), *old(game_server)),
            (*storage, *game_server),
            false,
        ));
        return false;
    }
    assert(server_frame_processed(
        (*old(storage), *old(game_server)),
        (*storage, *game_server),
        true,
    ));
    true
}

/// `after` is what becomes of `before` when `count` frames of the game
/// server are handled one after the other, each as
/// [`server_frame_processed`] says.
pub open spec fn server_frames_handled(
    before: (Storage, GameServer),
    after: (Storage, GameServer),
    count: nat,
) -> bool
    decreases count,
{
    if count == 0 {
        after == before
    } else {
        exists|last: (Storage, GameServer)|
            server_frames_handled(before, last, (count - 1) as nat)
                && #[trigger] server_frame_processed(last, after, true)
    }
}

/// What [`process_server_frames`] does: `handled` frames are handled one
/// after the other, at most [`MAX_PROCESSED_PACKETS`]; and unless that many
/// were handled, a frame more is dealt with that is not handled.
pub open spec fn server_frames_run(
    before: (Storage, GameServer),
    after: (Storage, GameServer),
    handled: nat,
) -> bool {
    &&& handled <= MAX_PROCESSED_PACKETS
    &&& exists|last: (Storage, GameServer)|
        #[trigger] server_frames_handled(before, last, handled) && if handled
            == MAX_PROCESSED_PACKETS {
            after == last
        } else {
            server_frame_processed(last, after, false)
        }
}

/// Handles the frames that `game_server` has received, oldest first, until
/// none is left that has arrived in full, the connection is at fault, or
/// [`MAX_PROCESSED_PACKETS`] frames have been handled. Tells how many were.
///
/// Each frame is dealt with as [`process_server_frame`] does. Unless it
/// stops because it has handled its share, the connection is taken off the
/// connections with frames to dispatch.
pub fn process_server_frames(
    storage: &mut Storage,
    game_server: &mut GameServer,
    packet: &mut ByteBuffer,
) -> (handled: usize)
    requires
        old(storage).wf(),
        old(game_server).wf(),
        bb_room(*old(packet)) >= MAX_FRAME_LENGTH,
    ensures
        final(storage).wf(),
        final(game_server).wf(),
        bb_room(*final(packet)) >= MAX_FRAME_LENGTH,
        handled < MAX_PROCESSED_PACKETS ==> !final(storage).servers_ids.has(old(game_server).token),
        server_frames_run(
            (*old(storage), *old(game_server)),
            (*final(storage), *final(game_server)),
            handled as nat,
        ),
        tick_keeps(*old(storage), *final(storage), old(game_server).token),
        final(game_server).token == old(game_server).token,
        final(game_server).inbound() == old(game_server).inbound(),
{
    let mut count: usize = 0;
    let ghost start = (*old(storage), *old(game_server));
    assert(server_frames_handled(start, start, 0));
    loop
        invariant
            storage.wf(),
            game_server.wf(),
            bb_room(*packet) >= MAX_FRAME_LENGTH,
            count < MAX_PROCESSED_PACKETS,
            start == (*old(storage), *old(game_server)),
            server_frames_handled(start, (*storage, *game_server), count as nat),
            tick_keeps(*old(storage), *storage, old(game_server).token),
            game_server.token == old(game_server).token,
            game_server.inbound() == old(game_server).inbound(),
        decreases MAX_PROCESSED_PACKETS - count,
    {
        let ghost last = (*storage, *game_server);
        let handled = process_server_frame(storage, game_server, packet);
        proof {
            lemma_frame_keeps(last, (*storage, *game_server), handled);
        }
        if !handled {
            return count;
        }
        count += 1;
        proof {
            lemma_one_more_handled(start, last, (*storage, *game_server), (count - 1) as nat);
        }
        if count == MAX_PROCESSED_PACKETS {
            return count;
        }
    }
}

/// A frame that is handled after `count` frames makes one frame more.
pub proof fn lemma_one_more_handled(
    before: (Storage, GameServer),
    last: (Storage, GameServer),
    after: (Storage, GameServer),
    count: nat,
)
    requires
        server_frames_handled(before, last, count),
        server_frame_processed(last, after, true),
    ensures
        server_frames_handled(before, after, count + 1),
{
    assert(server_frames_handled(before, last, ((count + 1) - 1) as nat));
}

/// What the handling of the frames of the game server `token` does not
/// change of the broker's state: the registry of connections, the
/// connections with frames of clients to dispatch, the settings and the
/// keys; and the directory gains no entry but that of `token`.
pub open spec fn tick_keeps(before: Storage, after: Storage, token: usize) -> bool {
    &&& after.server == before.server
    &&& after.client_ids == before.client_ids
    &&& after.config == before.config
    &&& after.keys == before.keys
    &&& forall|t: usize|
        t != token ==> (after.servers_ids.has(t) <==> before.servers_ids.has(t))
    &&& forall|i: int|
        0 <= i < after.servers.ids().len() ==> before.servers.ids().contains(
            #[trigger] after.servers.ids()[i],
        ) || after.servers.ids()[i] == token
}

/// One frame keeps what [`tick_keeps`] names, the identity of the connection
/// and what it has received.
pub proof fn lemma_frame_keeps(
    before: (Storage, GameServer),
    after: (Storage, GameServer),
    handled: bool,
)
    requires
        before.0.servers_ids.wf(),
        server_frame_processed(before, after, handled),
    ensures
        tick_keeps(before.0, after.0, before.1.token),
        after.1.token == before.1.token,
        after.1.inbound() == before.1.inbound(),
{
    let (mid, step, payload) = choose|mid: (Storage, GameServer), step: FrameStep, payload: Seq<u8>|
        {
            &&& #[trigger] frame_taken(
                (before.0.poll@, before.1),
                (mid.0.poll@, mid.1),
                step,
                payload,
            )
            &&& before.0.differs_in_poll(&mid.0)
            &&& match step {
                FrameStep::Taken => exists|done: (Storage, GameServer), answer: Result<(), AscendingError>|
                    {
                        &&& #[trigger] game_server_routed(mid, (payload, 0), done, answer)
                        &&& if answer is Ok {
                            handled && after == done
                        } else {
                            !handled && dropped(done, after, true)
                        }
                    },
                FrameStep::NotYet => !handled && dropped(mid, after, false),
            }
        };
    let token = before.1.token;
    if step == FrameStep::Taken {
        let (done, answer) = choose|done: (Storage, GameServer), answer: Result<(), AscendingError>|
            {
                &&& #[trigger] game_server_routed(mid, (payload, 0), done, answer)
                &&& if answer is Ok {
                    handled && after == done
                } else {
                    !handled && dropped(done, after, true)
                }
            };
        assert(done.1.token == token && done.1.buffer == mid.1.buffer);
        assert(done.0.server == before.0.server && done.0.client_ids == before.0.client_ids
            && done.0.config == before.0.config && done.0.keys == before.0.keys
            && done.0.servers_ids == before.0.servers_ids);
        assert forall|i: int| 0 <= i < done.0.servers.ids().len() implies before.0.servers.ids().contains(
            #[trigger] done.0.servers.ids()[i],
        ) || done.0.servers.ids()[i] == token by {
            if i < before.0.servers.ids().len() {
                assert(done.0.servers.ids()[i] == before.0.servers.ids()[i]);
            }
        }
        if answer is Err {
            before.0.servers_ids.lemma_without(token);
        }
    } else {
        before.0.servers_ids.lemma_without(token);
        assert forall|i: int| 0 <= i < after.0.servers.ids().len() implies before.0.servers.ids().contains(
            #[trigger] after.0.servers.ids()[i],
        ) || after.0.servers.ids()[i] == token by {
            assert(after.0.servers.ids()[i] == before.0.servers.ids()[i]);
        }
    }
}

/// `lent` is `before` without the game server `token` in its registry.
pub open spec fn server_lent(before: Storage, lent: Storage, token: usize) -> bool {
    &&& lent.servers == before.servers
    &&& lent.client_ids == before.client_ids
    &&& lent.servers_ids == before.servers_ids
    &&& lent.poll == before.poll
    &&& lent.config == before.config
    &&& lent.keys == before.keys
    &&& lent.server.clients == before.server.clients
    &&& lent.server.tokens == before.server.tokens
    &&& lent.server.game_servers@ == before.server.game_servers@.remove(token)
}

/// `after` is `lent` with `game_server` in its registry under `token`.
pub open spec fn server_returned(
    lent: Storage,
    game_server: GameServer,
    after: Storage,
    token: usize,
) -> bool {
    &&& after.servers == lent.servers
    &&& after.client_ids == lent.client_ids
    &&& after.servers_ids == lent.servers_ids
    &&& after.poll == lent.poll
    &&& after.config == lent.config
    &&& after.keys == lent.keys
    &&& after.server.clients == lent.server.clients
    &&& after.server.tokens == lent.server.tokens
    &&& after.server.game_servers@ == lent.server.game_servers@.insert(token, game_server)
}

/// What a tick does for the game server `token`: where it is connected, its
/// frames are handled as [`server_frames_run`] says, while it is out of the
/// registry; where it is not, nothing changes but that the registry may be
/// another that holds the same connections.
pub open spec fn server_ticked(before: Storage, after: Storage, token: usize) -> bool {
    if before.server.game_servers@.contains_key(token) {
        exists|lent: Storage, run: (Storage, GameServer), handled: nat|
            {
                &&& server_lent(before, lent, token)
                &&& #[trigger] server_frames_run(
                    (lent, before.server.game_servers@[token]),
                    run,
                    handled,
                )
                &&& server_returned(run.0, run.1, after, token)
            }
    } else {
        server_lent(before, after, token)
    }
}

/// `after` is what becomes of `before` when a tick deals with the game
/// servers `ids` one after the other, each as [`server_ticked`] says.
pub open spec fn servers_ticked(before: Storage, after: Storage, ids: Seq<usize>) -> bool
    decreases ids.len(),
{
    if ids.len() == 0 {
        after == before
    } else {
        exists|last: Storage|
            servers_ticked(before, last, ids.drop_last()) && #[trigger] server_ticked(
                last,
                after,
                ids.last(),
            )
    }
}

/// Handles, for every game server with frames to dispatch, the frames it has
/// received, as [`process_server_frames`] does, in the order in which the
/// game servers were entered. `packet` is the scratch buffer that the frames
/// are handed to their handlers in; it has room for the largest frame.
pub fn dispatch_servers(storage: &mut Storage, packet: &mut ByteBuffer)
    requires
        old(storage).wf(),
        bb_room(*old(packet)) >= MAX_FRAME_LENGTH,
    ensures
        final(storage).wf(),
        bb_room(*final(packet)) >= MAX_FRAME_LENGTH,
        servers_ticked(*old(storage), *final(storage), old(storage).servers_ids@),
        final(storage).client_ids == old(storage).client_ids,
        final(storage).config == old(storage).config,
        final(storage).keys == old(storage).keys,
        final(storage).server.clients == old(storage).server.clients,
        final(storage).server.tokens == old(storage).server.tokens,
        final(storage).server.game_servers@.dom() == old(storage).server.game_servers@.dom(),
        old(storage).directory_is_live() ==> final(storage).directory_is_live(),
{
    broadcast use vstd::std_specs::hash::group_hash_axioms;

    let server_ids = storage.servers_ids.snapshot();
    let mut i: usize = 0;
    assert(server_ids@.take(0) =~= Seq::<usize>::empty());
    while i < server_ids.len()
        invariant
            i <= server_ids@.len(),
            server_ids@ == old(storage).servers_ids@,
            storage.wf(),
            bb_room(*packet) >= MAX_FRAME_LENGTH,
            servers_ticked(*old(storage), *storage, server_ids@.take(i as int)),
            storage.client_ids == old(storage).client_ids,
            storage.config == old(storage).config,
            storage.keys == old(storage).keys,
            storage.server.clients == old(storage).server.clients,
            storage.server.tokens == old(storage).server.tokens,
            storage.server.game_servers@.dom() == old(storage).server.game_servers@.dom(),
            old(storage).directory_is_live() ==> storage.directory_is_live(),
        decreases server_ids@.len() - i,
    {
        let token = server_ids[i];
        let ghost last = *storage;
        let ghost held = storage.server.game_servers@;
        match storage.server.game_servers.remove(&token) {
            Some(mut game_server) => {
                let ghost out = *storage;
                let ghost lent_server = game_server;
                let handled = process_server_frames(storage, &mut game_server, packet);
                let ghost back = *storage;
                let ghost run = (*storage, game_server);
                storage.server.game_servers.insert(token, game_server);
                proof {
                    assert(server_lent(last, out, token));
                    assert(lent_server == last.server.game_servers@[token]);
                    assert(server_frames_run((out, lent_server), run, handled as nat));
                    assert(server_returned(run.0, run.1, *storage, token));
                    assert(server_ticked(last, *storage, token));
                    if old(storage).directory_is_live() {
                        assert forall|k: int|
                            0 <= k < storage.servers.ids().len() implies storage.server.game_servers@.contains_key(
                            #[trigger] storage.servers.ids()[k],
                        ) by {
                            let id = storage.servers.ids()[k];
                            assert(out.servers.ids().contains(back.servers.ids()[k]) || id == token);
                            if id != token {
                                let w = choose|w: int|
                                    0 <= w < out.servers.ids().len() && out.servers.ids()[w] == id;
                                assert(held.contains_key(out.servers.ids()[w]));
                            }
                        }
                    }
                    assert(storage.server.game_servers@.dom() =~= old(storage).server.game_servers@.dom());
                    assert forall|k: int| 0 <= k < storage.server.tokens@.len() implies (
                    #[trigger] storage.server.tokens@[k]) >= 2 && !storage.server.is_live(
                        storage.server.tokens@[k],
                    ) by {
                        assert(storage.server.tokens@[k] == old(storage).server.tokens@[k]);
                    }
                }
            },
            None => {
                assert(storage.server.game_servers@ =~= held);
                assert(storage.server.game_servers@ =~= held.remove(token));
                assert(server_ticked(last, *storage, token));
            },
        }
        proof {
            let done = server_ids@.take(i + 1);
            assert(done.drop_last() =~= server_ids@.take(i as int));
            assert(done.last() == token);
            assert(servers_ticked(*old(storage), last, done.drop_last()));
            assert(server_ticked(last, *storage, done.last()));
        }
        i += 1;
    }
    assert(server_ids@.take(server_ids@.len() as int) =~= server_ids@);
}

/// Handles, for every game server with frames to dispatch, the frames it has
/// received, as [`dispatch_servers`] does on a scratch buffer of its own.
/// Fails where no scratch buffer can be had; then nothing changes.
pub fn process_packets(storage: &mut Storage) -> (r: Result<(), AscendingError>)
    requires
        old(storage).wf(),
    ensures
        final(storage).wf(),
        r is Ok ==> servers_ticked(*old(storage), *final(storage), old(storage).servers_ids@),
        final(storage).client_ids == old(storage).client_ids,
        final(storage).config == old(storage).config,
        final(storage).keys == old(storage).keys,
        final(storage).server.clients == old(storage).server.clients,
        final(storage).server.tokens == old(storage).server.tokens,
        final(storage).server.game_servers@.dom() == old(storage).server.game_servers@.dom(),
        old(storage).directory_is_live() ==> final(storage).directory_is_live(),
        r is Err ==> is_buffer_fault(r) && *final(storage) == *old(storage),
{
    let mut packet = match scratch_packet() {
        Ok(packet) => packet,
        Err(e) => return Err(e),
    };
    dispatch_servers(storage, &mut packet);
    Ok(())
}

/// `after` is `before` with `frame` sent to the client `token`.
pub open spec fn sent_to_client(before: Storage, after: Storage, token: usize, frame: Seq<u8>) -> bool {
    &&& after.servers == before.servers
    &&& after.client_ids == before.client_ids
    &&& after.servers_ids == before.servers_ids
    &&& after.config == before.config
    &&& after.keys == before.keys
    &&& after.server.game_servers == before.server.game_servers
    &&& after.server.tokens == before.server.tokens
    &&& after.server.clients@.dom() == before.server.clients@.dom()
    &&& forall|t: usize|
        t != token && before.server.clients@.contains_key(t)
            ==> #[trigger] after.server.clients@[t] == before.server.clients@[t]
    &&& before.server.clients@[token].queued(&after.server.clients@[token], frame)
    &&& after.poll@ == before.server.clients@[token].asked_to_write(
        &after.server.clients@[token],
        before.poll@,
    )
}

/// Sends `buf` to the client that is connected under `token`. What is sent
/// to a client that is not connected is dropped without a word. What is no
/// well-formed frame is refused.
#[inline]
pub fn send_to_client(storage: &mut Storage, token: usize, buf: ByteBuffer) -> (r: Result<
    (),
    AscendingError,
>)
    requires
        old(storage).wf(),
    ensures
        final(storage).wf(),
        final(storage).servers == old(storage).servers,
        final(storage).client_ids == old(storage).client_ids,
        final(storage).servers_ids == old(storage).servers_ids,
        final(storage).config == old(storage).config,
        final(storage).keys == old(storage).keys,
        final(storage).server.game_servers == old(storage).server.game_servers,
        final(storage).server.tokens == old(storage).server.tokens,
        r is Err ==> r matches Err(AscendingError::InvalidPacket),
        !old(storage).server.clients@.contains_key(token) || r is Err
            ==> final(storage).server.clients@ == old(storage).server.clients@
                && final(storage).poll@ == old(storage).poll@,
        !old(storage).server.clients@.contains_key(token) ==> r is Ok,
        old(storage).server.clients@.contains_key(token)
            && old(storage).server.clients@[token].state
            != SocketState::Closed ==> (r is Ok <==> is_frame(bb_bytes(buf))),
        old(storage).server.clients@.contains_key(token) && r is Ok ==> sent_to_client(
            *old(storage),
            *final(storage),
            token,
            bb_bytes(buf),
        ),
{
    broadcast use vstd::std_specs::hash::group_hash_axioms;

    let ghost held = storage.server.clients@;
    let mut client = match storage.server.clients.remove(&token) {
        Some(client) => client,
        None => {
            assert(storage.server.clients@ =~= held);
            return Ok(());
        },
    };
    let r = client.send(&mut storage.poll, buf);
    storage.server.clients.insert(token, client);
    proof {
        assert(storage.server.clients@.dom() =~= held.dom());
        if r is Err {
            assert(storage.server.clients@ =~= held);
        }
        assert forall|k: int| 0 <= k < storage.server.tokens@.len() implies (
        #[trigger] storage.server.tokens@[k]) >= 2 && !storage.server.is_live(
            storage.server.tokens@[k],
        ) by {
            assert(!old(storage).server.is_live(old(storage).server.tokens@[k]));
        }
    }
    r
}

/// Every frame that waits to be written to a well-formed connection has a
/// header that holds the length of its payload, and a payload of at least
/// one and at most [`MAX_FRAME_LENGTH`] bytes.
pub proof fn law_queued_frames_are_frames(connection: GameServer, i: int)
    requires
        connection.wf(),
        0 <= i < connection.frames().len(),
    ensures
        is_frame(connection.frames()[i]),
        u64_at(connection.frames()[i], 0) == Some((connection.frames()[i].len() - 8) as u64),
        1 <= connection.frames()[i].len() - 8 <= MAX_FRAME_LENGTH,
{
}

} // verus!

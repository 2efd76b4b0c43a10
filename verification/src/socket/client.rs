use crate::containers::index_set::IndexSet;
use crate::containers::storage::Storage;
use crate::gameloop::handledata::router::{client_handle_data, client_routed};
use crate::gameloop::handledata::routes::{resume_client, resumed, ClientStep, StoreReply};
use crate::gametypes::error::AscendingError;
use crate::socket::buffer::{
    bb_as_slice, bb_bytes, bb_cursor, bb_cursor_pos, bb_length, bb_move_cursor,
    bb_move_cursor_to_end, bb_read_slice, bb_room, bb_truncate, bb_with_capacity, bb_write_slice,
    frame_bytes, frame_length_ok, frame_ok, has_room, is_buffer_fault, is_frame,
    law_frame_bytes_is_frame, pack, payload_fits, scratch_packet, u64_at, write_bytes,
    ByteBufferExt, MAX_FRAME_LENGTH,
};
use crate::socket::game_server::{
    inbound_head, queue_capacity, queue_shrink_to, FrameStep, InboundHead, ReadEnd, SocketPollState,
    SocketState, WriteAction, WriteEvent, INBOUND_CAPACITY, MAX_SENT_PER_PASS, SENDS_SHRINK_TO,
};
use crate::socket::poll::{PollRequest, PollRequestKind, PollRequests};
use bytey_byte_buffer::byte_buffer::ByteBuffer;
use std::collections::VecDeque;
use vstd::bytes::*;
use vstd::prelude::*;

verus! {

/// The state of a connection with a player client.
///
/// Neither the socket nor the TLS session is held here: the plaintext that
/// the session delivers is handed to
/// [`Client::tls_read`], and what is to be written to the session is handed
/// out by [`Client::tls_write`].
#[derive(Debug)]
pub struct Client {
    pub token: usize,
    pub state: SocketState,
    pub sends: VecDeque<ByteBuffer>,
    pub poll_state: SocketPollState,
    pub buffer: ByteBuffer,
    pub addr: String,
    /// The frames written in the write pass that is under way.
    pub sent_in_pass: usize,
    /// The peer has been told to close: the connection closes once its
    /// outbound queue has drained.
    pub close_after_drain: bool,
}

impl Client {
    /// The frames that wait to be written, oldest first, each as its bytes.
    pub open spec fn frames(&self) -> Seq<Seq<u8>> {
        Seq::new(self.sends@.len(), |i: int| bb_bytes(self.sends@[i]))
    }

    /// The bytes received so far.
    pub open spec fn inbound(&self) -> Seq<u8> {
        bb_bytes(self.buffer)
    }

    /// The position up to which the received bytes have been consumed.
    pub open spec fn consumed(&self) -> nat {
        bb_cursor(self.buffer)
    }

    /// Every frame that waits to be written is a well-formed frame, and no
    /// pass has written more than its share.
    pub open spec fn wf(&self) -> bool {
        &&& forall|i: int| 0 <= i < self.frames().len() ==> is_frame(#[trigger] self.frames()[i])
        &&& self.sent_in_pass <= MAX_SENT_PER_PASS
    }

    /// A connection with the same outbound queue and the same count of the
    /// pass is well-formed where this one is.
    pub proof fn lemma_wf_kept(&self, other: &Client)
        requires
            self.wf(),
            other.sends == self.sends,
            other.sent_in_pass == self.sent_in_pass,
        ensures
            other.wf(),
    {
        assert(other.frames() =~= self.frames());
    }

    /// `other` is this connection but for its poll interest.
    pub open spec fn differs_in_interest(&self, other: &Client) -> bool {
        &&& self.token == other.token
        &&& self.state == other.state
        &&& self.sends == other.sends
        &&& self.buffer == other.buffer
        &&& self.addr == other.addr
        &&& self.sent_in_pass == other.sent_in_pass
        &&& self.close_after_drain == other.close_after_drain
    }

    /// `other` is this connection but for its state and its poll interest.
    pub open spec fn differs_in_state(&self, other: &Client) -> bool {
        &&& self.token == other.token
        &&& self.sends == other.sends
        &&& self.buffer == other.buffer
        &&& self.addr == other.addr
        &&& self.sent_in_pass == other.sent_in_pass
        &&& self.close_after_drain == other.close_after_drain
    }

    /// A connection that is open, waits for reads and has nothing buffered.
    #[inline]
    pub fn new(token: usize, addr: String) -> (r: Result<Client, AscendingError>)
        ensures
            r matches Ok(g) ==> g.wf() && g.token == token && g.addr == addr && g.state
                == SocketState::Open && g.poll_state == SocketPollState::Read && g.sends@.len()
                == 0 && g.inbound().len() == 0 && g.consumed() == 0 && g.sent_in_pass == 0
                && !g.close_after_drain && bb_room(g.buffer) == INBOUND_CAPACITY,
            r is Err ==> r matches Err(AscendingError::ByteyError { .. }),
    {
        let buffer = match bb_with_capacity(INBOUND_CAPACITY) {
            Ok(buffer) => buffer,
            Err(error) => return Err(AscendingError::ByteyError { error }),
        };
        Ok(Client::with_buffer(token, addr, buffer))
    }

    /// A connection that is open, waits for reads and has nothing buffered,
    /// on `buffer` as its inbound buffer, which is emptied.
    pub fn with_buffer(token: usize, addr: String, buffer: ByteBuffer) -> (g: Client)
        ensures
            g.wf(),
            g.token == token,
            g.addr == addr,
            g.state == SocketState::Open,
            g.poll_state == SocketPollState::Read,
            g.sends@.len() == 0,
            g.inbound().len() == 0,
            g.consumed() == 0,
            g.sent_in_pass == 0,
            !g.close_after_drain,
            bb_room(g.buffer) == bb_room(buffer),
    {
        let mut buffer = buffer;
        let _ = bb_truncate(&mut buffer, 0);
        Client {
            token,
            state: SocketState::Open,
            sends: VecDeque::with_capacity(32),
            poll_state: SocketPollState::Read,
            buffer,
            addr,
            sent_in_pass: 0,
            close_after_drain: false,
        }
    }

    /// Asks the readiness source to watch the socket, unless nothing is to be watched for.
    #[inline]
    pub fn register(&mut self, poll: &mut PollRequests)
        ensures
            *final(self) == *old(self),
            final(poll)@ == if old(self).poll_state == SocketPollState::Idle {
                old(poll)@
            } else {
                old(poll)@.push(
                    PollRequest {
                        token: old(self).token,
                        kind: PollRequestKind::Register,
                        interest: old(self).poll_state,
                    },
                )
            },
    {
        if self.poll_state != SocketPollState::Idle {
            poll.register(self.token, self.poll_state);
        }
    }

    /// Asks the readiness source to watch the socket for the current
    /// interest, unless nothing is to be watched for.
    #[inline]
    pub fn reregister(&mut self, poll: &mut PollRequests)
        ensures
            *final(self) == *old(self),
            final(poll)@ == old(self).reregistered(old(poll)@),
    {
        if self.poll_state != SocketPollState::Idle {
            poll.reregister(self.token, self.poll_state);
        }
    }

    /// The requests after this connection has asked to be watched for its interest.
    pub open spec fn reregistered(&self, requests: Seq<PollRequest>) -> Seq<PollRequest> {
        if self.poll_state == SocketPollState::Idle {
            requests
        } else {
            requests.push(
                PollRequest {
                    token: self.token,
                    kind: PollRequestKind::Reregister,
                    interest: self.poll_state,
                },
            )
        }
    }

    /// Asks the readiness source to watch the socket no longer.
    #[inline]
    pub fn deregister(&mut self, poll: &mut PollRequests)
        ensures
            *final(self) == *old(self),
            final(poll)@ == old(poll)@.push(
                PollRequest {
                    token: old(self).token,
                    kind: PollRequestKind::Deregister,
                    interest: SocketPollState::Idle,
                },
            ),
    {
        poll.deregister(self.token);
    }

    /// Marks the connection as closing and asks to be woken for writing, so
    /// that the next pass closes it.
    #[inline]
    pub fn set_to_closing(&mut self, poll: &mut PollRequests)
        ensures
            old(self).differs_in_state(final(self)),
            final(self).state == SocketState::Closing,
            final(self).poll_state == SocketPollState::of(old(self).poll_state.readable(), true),
            final(poll)@ == final(self).reregistered(old(poll)@),
    {
        self.state = SocketState::Closing;
        self.poll_state.add(SocketPollState::Write);
        self.reregister(poll);
    }

    /// Closes the connection: the socket is watched no longer and is shut
    /// down. A closed connection stays as it is.
    #[inline]
    pub fn close_socket(&mut self, poll: &mut PollRequests)
        ensures
            old(self).differs_in_state(final(self)),
            final(self).poll_state == old(self).poll_state,
            final(self).state == SocketState::Closed,
            final(poll)@ == if old(self).state == SocketState::Closed {
                old(poll)@
            } else {
                old(poll)@.push(
                    PollRequest {
                        token: old(self).token,
                        kind: PollRequestKind::Deregister,
                        interest: SocketPollState::Idle,
                    },
                )
            },
    {
        match self.state {
            SocketState::Closed => {},
            _ => {
                self.deregister(poll);
                self.state = SocketState::Closed;
            },
        }
    }

    /// Puts `buf` at the end of the outbound queue and sees to it that the
    /// connection is woken for writing. Only a well-formed frame is taken:
    /// anything else is refused and changes nothing. What is sent to a closed
    /// connection is dropped without a word.
    #[inline]
    pub fn send(&mut self, poll: &mut PollRequests, buf: ByteBuffer) -> (r: Result<
        (),
        AscendingError,
    >)
        requires
            old(self).wf(),
        ensures
            final(self).wf(),
            old(self).state == SocketState::Closed ==> r is Ok,
            old(self).state != SocketState::Closed ==> (r is Ok <==> is_frame(bb_bytes(buf))),
            r is Err ==> r matches Err(AscendingError::InvalidPacket),
            r is Err ==> *final(self) == *old(self) && final(poll)@ == old(poll)@,
            r is Ok ==> old(self).queued(final(self), bb_bytes(buf)),
            r is Ok ==> final(poll)@ == old(self).asked_to_write(final(self), old(poll)@),
    {
        let mut buf = buf;
        if self.state == SocketState::Closed {
            return Ok(());
        }
        if !frame_ok(&mut buf) {
            return Err(AscendingError::InvalidPacket);
        }
        self.sends.push_back(buf);
        assert(self.frames() =~= old(self).frames().push(bb_bytes(buf)));
        self.add_write_state(poll);
        Ok(())
    }

    /// Begins the handling of a readiness event: until the steps that follow
    /// say otherwise, the connection waits for reads alone.
    pub fn begin_process(&mut self)
        ensures
            old(self).differs_in_interest(final(self)),
            final(self).poll_state == SocketPollState::Read,
    {
        self.poll_state.set(SocketPollState::Read);
    }

    /// Ends the handling of a readiness event, after the read and write steps:
    /// a connection with frames left to write, or whose TLS session has bytes
    /// of its own to write, asks to be woken for writing; a closing connection
    /// is closed, any other is watched for its new interest.
    pub fn process(&mut self, poll: &mut PollRequests, wants_write: bool)
        ensures
            old(self).differs_in_state(final(self)),
            final(self).poll_state == if old(self).sends@.len() > 0 || wants_write {
                SocketPollState::of(old(self).poll_state.readable(), true)
            } else {
                old(self).poll_state
            },
            final(self).state == if old(self).state == SocketState::Closing {
                SocketState::Closed
            } else {
                old(self).state
            },
            final(poll)@ == if old(self).state == SocketState::Closing {
                old(poll)@.push(
                    PollRequest {
                        token: old(self).token,
                        kind: PollRequestKind::Deregister,
                        interest: SocketPollState::Idle,
                    },
                )
            } else {
                final(self).reregistered(old(poll)@)
            },
    {
        if self.sends.len() > 0 || wants_write {
            self.poll_state.add(SocketPollState::Write);
        }
        match self.state {
            SocketState::Closing => self.close_socket(poll),
            _ => self.reregister(poll),
        }
    }

    /// Whether a read pass took its bytes in for good: it ended because the
    /// socket had no more for now, and `after` holds what `self` had received
    /// and `incoming` behind it.
    pub open spec fn took_in(&self, after: &Client, incoming: Seq<u8>, end: ReadEnd) -> bool {
        end == ReadEnd::WouldBlock && after.inbound() == self.inbound() + incoming
    }

    /// Takes in what a read pass got from the socket: `incoming` is what
    /// arrived, `end` is how the pass ended.
    ///
    /// The bytes are appended to the inbound buffer; that they are is owed
    /// where they go into its room. As [`Client::took_in`] says, the
    /// bytes were then taken in for good where the pass ended because the
    /// socket had no more for now: then the buffer is left at the position
    /// it was consumed to, and the connection is entered in `ids`, the
    /// connections with frames to dispatch, if it has any bytes, and asks for
    /// more otherwise. In every other case (the peer closed, the socket
    /// failed, the buffer refused the bytes) the connection is closing, and
    /// neither `ids` nor its poll interest changes.
    pub fn tls_read(&mut self, ids: &mut IndexSet, incoming: &[u8], end: ReadEnd) -> (r: Result<
        (),
        AscendingError,
    >)
        requires
            old(ids).wf(),
        ensures
            r is Ok,
            final(ids).wf(),
            final(self).token == old(self).token,
            final(self).sends == old(self).sends,
            final(self).addr == old(self).addr,
            final(self).sent_in_pass == old(self).sent_in_pass,
            final(self).close_after_drain == old(self).close_after_drain,
            final(self).inbound() == old(self).inbound() + incoming@ || final(self).inbound()
                == old(self).inbound(),
            old(self).inbound().len() + incoming@.len() <= bb_room(old(self).buffer)
                ==> final(self).inbound() == old(self).inbound() + incoming@,
            bb_room(final(self).buffer) >= bb_room(old(self).buffer),
            old(self).took_in(final(self), incoming@, end) ==> final(self).state == old(self).state
                && final(self).consumed() == old(self).consumed(),
            old(self).took_in(final(self), incoming@, end) ==> if final(self).inbound().len() > 0 {
                final(self).poll_state == old(self).poll_state && final(ids)@ == if old(ids).has(
                    old(self).token,
                ) {
                    old(ids)@
                } else {
                    old(ids)@.push(old(self).token)
                }
            } else {
                final(ids)@ == old(ids)@ && final(self).poll_state == SocketPollState::of(
                    true,
                    old(self).poll_state.writable(),
                )
            },
            !old(self).took_in(final(self), incoming@, end) ==> final(self).state
                == SocketState::Closing && final(ids)@ == old(ids)@ && final(self).poll_state
                == old(self).poll_state,
    {
        // Remember how far the buffer has been consumed, and append at its end.
        let pos = bb_cursor_pos(&self.buffer);
        bb_move_cursor_to_end(&mut self.buffer);
        let mut closing = false;
        if incoming.len() > 0 {
            proof {
                crate::socket::buffer::lemma_write_at_end(bb_bytes(self.buffer), incoming@);
            }
            if bb_write_slice(&mut self.buffer, incoming).is_err() {
                closing = true;
            }
        } else {
            assert(old(self).inbound() + incoming@ =~= old(self).inbound());
        }
        match end {
            ReadEnd::WouldBlock => {},
            _ => {
                closing = true;
            },
        }
        if closing {
            self.state = SocketState::Closing;
            return Ok(());
        }
        let _ = bb_length(&self.buffer);
        match bb_move_cursor(&mut self.buffer, pos) {
            Ok(()) => {},
            Err(error) => return Err(AscendingError::ByteyError { error }),
        }
        if bb_length(&self.buffer) > 0 {
            ids.insert(self.token);
        } else {
            self.poll_state.add(SocketPollState::Read);
        }
        Ok(())
    }

    /// One step of a write pass.
    ///
    /// A pass begins with `Writable`. Each step answers either with the bytes
    /// of the frame at the head of the queue, to be written to the socket in
    /// full, or with `Done`. `Sent` takes the frame that was written off the
    /// queue. At most [`MAX_SENT_PER_PASS`] frames are written in one pass.
    /// When the socket takes no more, the frame stays at the head of the
    /// queue; when it fails, the connection is closing. A pass that ends with
    /// frames left asks to be woken for writing. A pass that ends with none
    /// left, on an open connection whose peer has been told to close, leaves
    /// the connection closing.
    pub fn tls_write(&mut self, event: WriteEvent) -> (action: WriteAction)
        requires
            old(self).wf(),
        ensures
            final(self).wf(),
            final(self).token == old(self).token,
            final(self).buffer == old(self).buffer,
            final(self).addr == old(self).addr,
            final(self).close_after_drain == old(self).close_after_drain,
            final(self).frames() == old(self).after_event(event).0,
            final(self).sent_in_pass == old(self).after_event(event).1,
            match action {
                WriteAction::Write(bytes) => {
                    &&& old(self).goes_on(event)
                    &&& bytes@ == final(self).frames()[0]
                    &&& final(self).state == old(self).state
                    &&& final(self).poll_state == old(self).poll_state
                },
                WriteAction::Done => {
                    &&& !old(self).goes_on(event)
                    &&& final(self).state == if event == WriteEvent::Failed {
                        SocketState::Closing
                    } else if old(self).drained_for_good(final(self).frames()) {
                        SocketState::Closing
                    } else {
                        old(self).state
                    }
                    &&& final(self).poll_state == if event != WriteEvent::Failed
                        && final(self).frames().len() > 0 {
                        SocketPollState::of(old(self).poll_state.readable(), true)
                    } else {
                        old(self).poll_state
                    }
                },
            },
    {
        match event {
            WriteEvent::Writable => {
                self.sent_in_pass = 0;
            },
            WriteEvent::Sent => {
                if self.sent_in_pass < MAX_SENT_PER_PASS {
                    let popped = self.sends.pop_front();
                    if popped.is_some() {
                        self.sent_in_pass += 1;
                    }
                    assert(self.frames() =~= old(self).after_event(event).0);
                }
            },
            WriteEvent::WouldBlock => {
                if self.sends.len() > 0 {
                    self.poll_state.add(SocketPollState::Write);
                } else if self.close_after_drain && self.state == SocketState::Open {
                    self.state = SocketState::Closing;
                }
                return WriteAction::Done;
            },
            WriteEvent::Failed => {
                self.state = SocketState::Closing;
                return WriteAction::Done;
            },
        }
        if self.sent_in_pass < MAX_SENT_PER_PASS {
            match self.sends.pop_front() {
                Some(mut frame) => {
                    let ghost rest = self.sends@;
                    let bytes = bb_as_slice(&mut frame);
                    self.sends.push_front(frame);
                    assert(self.frames() =~= old(self).after_event(event).0);
                    return WriteAction::Write(bytes);
                },
                None => {
                    if queue_capacity(&self.sends) > SENDS_SHRINK_TO {
                        queue_shrink_to(&mut self.sends, SENDS_SHRINK_TO);
                    }
                    assert(self.frames() =~= old(self).after_event(event).0);
                },
            }
        }
        if self.sends.len() > 0 {
            self.poll_state.add(SocketPollState::Write);
        } else if self.close_after_drain && self.state == SocketState::Open {
            self.state = SocketState::Closing;
        }
        WriteAction::Done
    }

    /// Whether a write pass that ends with `left` in the queue ends the
    /// connection: nothing is left, the peer has been told to close, and the
    /// connection is still open.
    pub open spec fn drained_for_good(&self, left: Seq<Seq<u8>>) -> bool {
        left.len() == 0 && self.close_after_drain && self.state == SocketState::Open
    }

    /// The outbound queue and the count of the pass after `event` has been
    /// taken in: `Writable` begins the count anew, and `Sent` takes the head
    /// off the queue and counts it.
    pub open spec fn after_event(&self, event: WriteEvent) -> (Seq<Seq<u8>>, usize) {
        match event {
            WriteEvent::Writable => (self.frames(), 0),
            WriteEvent::Sent => if self.sent_in_pass < MAX_SENT_PER_PASS && self.frames().len()
                > 0 {
                (self.frames().drop_first(), (self.sent_in_pass + 1) as usize)
            } else {
                (self.frames(), self.sent_in_pass)
            },
            _ => (self.frames(), self.sent_in_pass),
        }
    }

    /// Whether the pass goes on after `event`: the socket took what it was
    /// given, the pass has not written its share, and a frame is waiting.
    pub open spec fn goes_on(&self, event: WriteEvent) -> bool {
        &&& event == WriteEvent::Writable || event == WriteEvent::Sent
        &&& self.after_event(event).1 < MAX_SENT_PER_PASS
        &&& self.after_event(event).0.len() > 0
    }

    /// `after` is this connection after `frame` has been sent to it: with
    /// `frame` at the end of its outbound queue and writing added to its
    /// interest; or as it was, where it is closed.
    pub open spec fn queued(&self, after: &Client, frame: Seq<u8>) -> bool {
        self.queued_with(after, frame, false)
    }

    /// `after` is this connection after `frame` has been sent to it, a
    /// frame that tells the peer to close where `close` holds: with `frame`
    /// at the end of its outbound queue and writing added to its interest,
    /// and bound to close once the queue has drained where the peer has been
    /// told to, now or before; or as it was, where it is closed.
    pub open spec fn queued_with(&self, after: &Client, frame: Seq<u8>, close: bool) -> bool {
        if self.state == SocketState::Closed {
            *after == *self
        } else {
            &&& after.frames() == self.frames().push(frame)
            &&& after.token == self.token
            &&& after.state == self.state
            &&& after.buffer == self.buffer
            &&& after.addr == self.addr
            &&& after.sent_in_pass == self.sent_in_pass
            &&& after.close_after_drain == (self.close_after_drain || close)
            &&& after.poll_state == SocketPollState::of(self.poll_state.readable(), true)
        }
    }

    /// The requests after a frame has been sent to this connection: it asks
    /// to be woken for writing, unless it is closed or woken for writing already.
    pub open spec fn asked_to_write(
        &self,
        after: &Client,
        requests: Seq<PollRequest>,
    ) -> Seq<PollRequest> {
        if self.state == SocketState::Closed || self.poll_state.writable() {
            requests
        } else {
            after.reregistered(requests)
        }
    }

    /// Frames `payload` and puts the frame at the end of the outbound queue.
    ///
    /// What is sent to a closed connection is dropped without a word: that
    /// always succeeds. For any other connection a payload that no frame can
    /// carry, an empty one or one of more than [`MAX_FRAME_LENGTH`] bytes, is
    /// refused as no packet. For any other payload a buffer is asked for
    /// that has room for the frame. Where none can be had, the byte buffer's
    /// fault is handed on; where one is had, the payload is framed and
    /// queued. Whatever fails changes nothing.
    pub fn send_payload(&mut self, poll: &mut PollRequests, payload: &[u8]) -> (r: Result<
        (),
        AscendingError,
    >)
        requires
            old(self).wf(),
        ensures
            final(self).wf(),
            old(self).state == SocketState::Closed ==> r is Ok,
            old(self).state != SocketState::Closed && !payload_fits(payload@) ==> r matches Err(
                AscendingError::InvalidPacket,
            ),
            r is Ok ==> old(self).queued(final(self), frame_bytes(payload@)),
            r is Ok ==> final(poll)@ == old(self).asked_to_write(final(self), old(poll)@),
            r is Err ==> *final(self) == *old(self) && final(poll)@ == old(poll)@,
            r is Err && payload_fits(payload@) ==> is_buffer_fault(r),
    {
        if self.state == SocketState::Closed {
            return Ok(());
        }
        if payload.len() == 0 || payload.len() > MAX_FRAME_LENGTH as usize {
            return Err(AscendingError::InvalidPacket);
        }
        let buffer = match ByteBuffer::new_packet_with(payload.len()) {
            Ok(buffer) => buffer,
            Err(e) => return Err(e),
        };
        self.send_packed(poll, buffer, payload)
    }

    /// Frames `payload` in `buffer`, a packet that was just begun, and puts
    /// the frame at the end of the outbound queue.
    ///
    /// What is sent to a closed connection is dropped without a word. For
    /// any other connection a payload that no frame can carry is refused as
    /// no packet; any other is framed and queued where it goes into the room
    /// of `buffer`, and may fail with the byte buffer's fault only where that
    /// has to grow. Whatever fails changes nothing.
    pub fn send_packed(&mut self, poll: &mut PollRequests, buffer: ByteBuffer, payload: &[u8]) -> (r:
        Result<(), AscendingError>)
        requires
            old(self).wf(),
            bb_bytes(buffer) == crate::socket::buffer::blank_header(),
            bb_cursor(buffer) == 8,
        ensures
            final(self).wf(),
            old(self).state == SocketState::Closed ==> r is Ok,
            old(self).state != SocketState::Closed && !payload_fits(payload@) ==> r matches Err(
                AscendingError::InvalidPacket,
            ),
            payload_fits(payload@) && has_room(buffer, payload@.len()) ==> r is Ok,
            r is Ok ==> old(self).queued(final(self), frame_bytes(payload@)),
            r is Ok ==> final(poll)@ == old(self).asked_to_write(final(self), old(poll)@),
            r is Err ==> *final(self) == *old(self) && final(poll)@ == old(poll)@,
            r is Err && payload_fits(payload@) ==> is_buffer_fault(r),
    {
        if self.state == SocketState::Closed {
            return Ok(());
        }
        proof {
            if payload_fits(payload@) {
                law_frame_bytes_is_frame(payload@);
            }
        }
        let frame = match pack(buffer, payload) {
            Ok(frame) => frame,
            Err(e) => return Err(e),
        };
        self.send(poll, frame)
    }

    /// Sees to it that the connection is woken for writing.
    #[inline]
    pub fn add_write_state(&mut self, poll: &mut PollRequests)
        ensures
            old(self).differs_in_interest(final(self)),
            final(self).poll_state == SocketPollState::of(old(self).poll_state.readable(), true),
            final(poll)@ == if old(self).poll_state.writable() {
                old(poll)@
            } else {
                final(self).reregistered(old(poll)@)
            },
    {
        if !self.poll_state.contains(SocketPollState::Write) {
            self.poll_state.add(SocketPollState::Write);
            self.reregister(poll);
        }
    }
}

/// Reads the length header of the next frame from the inbound buffer.
///
/// Where fewer than eight bytes are buffered, nothing is consumed and the
/// connection asks for more. Where the header holds a length that no frame may
/// have, the connection is set to closing. Otherwise the header is consumed and
/// the length is handed out.
pub fn get_length(poll: &mut PollRequests, client: &mut Client) -> (r: Result<
    Option<u64>,
    AscendingError,
>)
    ensures
        r is Ok,
        final(client).token == old(client).token,
        final(client).sends == old(client).sends,
        final(client).addr == old(client).addr,
        final(client).sent_in_pass == old(client).sent_in_pass,
        final(client).close_after_drain == old(client).close_after_drain,
        final(client).inbound() == old(client).inbound(),
        match u64_at(old(client).inbound(), old(client).consumed() as int) {
            None => {
                &&& r == Ok::<Option<u64>, AscendingError>(None)
                &&& final(client).consumed() == old(client).consumed()
                &&& final(client).state == old(client).state
                &&& final(client).poll_state == SocketPollState::of(
                    true,
                    old(client).poll_state.writable(),
                )
                &&& final(poll)@ == final(client).reregistered(old(poll)@)
            },
            Some(length) => {
                &&& final(client).consumed() == old(client).consumed() + 8
                &&& if frame_length_ok(length) {
                    &&& r == Ok::<Option<u64>, AscendingError>(Some(length))
                    &&& final(client).state == old(client).state
                    &&& final(client).poll_state == old(client).poll_state
                    &&& final(poll)@ == old(poll)@
                } else {
                    &&& r == Ok::<Option<u64>, AscendingError>(None)
                    &&& final(client).state == SocketState::Closing
                    &&& final(client).poll_state == SocketPollState::of(
                        old(client).poll_state.readable(),
                        true,
                    )
                    &&& final(poll)@ == final(client).reregistered(old(poll)@)
                }
            },
        },
{
    let length = bb_length(&client.buffer);
    let cursor = bb_cursor_pos(&client.buffer);
    if length - cursor >= 8 {
        let header = match bb_read_slice(&mut client.buffer, 8) {
            Ok(header) => header,
            Err(error) => return Err(AscendingError::ByteyError { error }),
        };
        let length = u64_from_le_bytes(header.as_slice());
        if !(length >= 1 && length <= MAX_FRAME_LENGTH) {
            client.set_to_closing(poll);
            return Ok(None);
        }
        Ok(Some(length))
    } else {
        client.poll_state.add(SocketPollState::Read);
        client.reregister(poll);
        Ok(None)
    }
}

/// What [`take_frame`] does: `before` and `after` are the requests to the
/// readiness source and the connection before and after it, `step` is what
/// it answers, and `payload` is what it leaves in the scratch buffer.
///
/// Where no header has arrived in full, nothing is consumed and the
/// connection asks for more. Where the header holds a length that no frame
/// may have, the header is consumed and the connection is set to closing.
/// Where the frame has not arrived in full, nothing is consumed. A frame
/// that has arrived in full is consumed, and its payload is in the scratch
/// buffer.
pub open spec fn frame_taken(
    before: (Seq<PollRequest>, Client),
    after: (Seq<PollRequest>, Client),
    step: FrameStep,
    payload: Seq<u8>,
) -> bool {
    &&& after.1.token == before.1.token
    &&& after.1.sends == before.1.sends
    &&& after.1.addr == before.1.addr
    &&& after.1.sent_in_pass == before.1.sent_in_pass
    &&& after.1.close_after_drain == before.1.close_after_drain
    &&& after.1.inbound() == before.1.inbound()
    &&& match inbound_head(before.1.inbound(), before.1.consumed() as int) {
        InboundHead::Short => {
            &&& step == FrameStep::NotYet
            &&& after.1.consumed() == before.1.consumed()
            &&& after.1.state == before.1.state
            &&& after.1.poll_state == SocketPollState::of(true, before.1.poll_state.writable())
            &&& after.0 == after.1.reregistered(before.0)
        },
        InboundHead::BadLength => {
            &&& step == FrameStep::NotYet
            &&& after.1.consumed() == before.1.consumed() + 8
            &&& after.1.state == SocketState::Closing
            &&& after.1.poll_state == SocketPollState::of(before.1.poll_state.readable(), true)
            &&& after.0 == after.1.reregistered(before.0)
        },
        InboundHead::Partial => {
            &&& step == FrameStep::NotYet
            &&& after.1.consumed() == before.1.consumed()
            &&& after.1.state == before.1.state
            &&& after.1.poll_state == before.1.poll_state
            &&& after.0 == before.0
        },
        InboundHead::Whole(length) => {
            &&& after.1.consumed() == before.1.consumed() + 8 + length
            &&& after.1.state == before.1.state
            &&& after.1.poll_state == before.1.poll_state
            &&& after.0 == before.0
            &&& step == FrameStep::Taken
            &&& payload == before.1.inbound().subrange(
                before.1.consumed() as int + 8,
                before.1.consumed() + 8 + length,
            )
        },
    }
}

/// Takes the next frame off the inbound buffer of `client` and puts its
/// payload into `packet`, rewound. The scratch buffer `packet` has room for
/// the largest frame, so that every frame goes into it.
pub fn take_frame(
    poll: &mut PollRequests,
    client: &mut Client,
    packet: &mut ByteBuffer,
) -> (r: Result<FrameStep, AscendingError>)
    requires
        bb_room(*old(packet)) >= MAX_FRAME_LENGTH,
    ensures
        r matches Ok(step) && frame_taken(
            (old(poll)@, *old(client)),
            (final(poll)@, *final(client)),
            step,
            bb_bytes(*final(packet)),
        ),
        r matches Ok(FrameStep::Taken) ==> bb_cursor(*final(packet)) == 0,
        bb_room(*final(packet)) >= MAX_FRAME_LENGTH,
{
    let length = match get_length(poll, client) {
        Ok(Some(length)) => length,
        Ok(None) => return Ok(FrameStep::NotYet),
        Err(e) => return Err(e),
    };
    let buffered = bb_length(&client.buffer);
    let cursor = bb_cursor_pos(&client.buffer);
    if length > (buffered - cursor) as u64 {
        // The frame has not arrived in full: the header is read again next time.
        match bb_move_cursor(&mut client.buffer, cursor - 8) {
            Ok(()) => {},
            Err(error) => return Err(AscendingError::ByteyError { error }),
        }
        return Ok(FrameStep::NotYet);
    }
    let bytes = match bb_read_slice(&mut client.buffer, length as usize) {
        Ok(bytes) => bytes,
        Err(error) => return Err(AscendingError::ByteyError { error }),
    };
    let _ = bb_truncate(packet, 0);
    proof {
        crate::socket::buffer::lemma_write_at_end(bb_bytes(*packet), bytes@);
    }
    match write_bytes(packet, bytes.as_slice()) {
        Ok(()) => {},
        Err(e) => return Err(e),
    }
    let _ = bb_move_cursor(packet, 0);
    assert(bb_bytes(*packet) =~= bytes@);
    Ok(FrameStep::Taken)
}

/// The most frames of one connection that are handled in one tick.
pub const MAX_PROCESSED_PACKETS: usize = 25;

/// What [`socket_update`] does: the connection is taken off the connections
/// with frames to dispatch, and is set to closing where it is to be closed.
pub open spec fn dropped(
    before: (Storage, Client),
    after: (Storage, Client),
    should_close: bool,
) -> bool {
    &&& after.0.servers == before.0.servers
    &&& after.0.servers_ids == before.0.servers_ids
    &&& after.0.server == before.0.server
    &&& after.0.config == before.0.config
    &&& after.0.keys == before.0.keys
    &&& after.0.client_ids@ == before.0.client_ids.without(before.1.token)
    &&& if should_close {
        &&& before.1.differs_in_state(&after.1)
        &&& after.1.state == SocketState::Closing
        &&& after.1.poll_state == SocketPollState::of(before.1.poll_state.readable(), true)
        &&& after.0.poll@ == after.1.reregistered(before.0.poll@)
    } else {
        &&& after.1 == before.1
        &&& after.0.poll@ == before.0.poll@
    }
}

/// Takes `client` off the connections with frames to dispatch, and sets it
/// to closing where it is to be closed.
pub fn socket_update(storage: &mut Storage, client: &mut Client, should_close: bool)
    requires
        old(storage).wf(),
    ensures
        final(storage).wf(),
        !final(storage).client_ids.has(old(client).token),
        dropped((*old(storage), *old(client)), (*final(storage), *final(client)), should_close),
{
    storage.client_ids.swap_remove(client.token);
    if should_close {
        client.set_to_closing(&mut storage.poll);
    }
}

/// What [`process_client_frame`] does with the next frame of a client;
/// `outcome` is what the handler of the frame needs of the store, or `None`
/// where no frame was handled.
///
/// The frame is taken off the inbound buffer, as [`frame_taken`] says. A
/// frame that was taken goes to the handler of its kind, as
/// [`client_routed`] says; where the handler succeeds, the frame counts as
/// handled. Where no whole frame has arrived, the connection is taken off
/// the connections with frames to dispatch; where the handler fails, it
/// is also set to closing.
pub open spec fn client_frame_processed(
    before: (Storage, Client),
    after: (Storage, Client),
    outcome: Option<ClientStep>,
) -> bool {
    exists|mid: (Storage, Client), step: FrameStep, payload: Seq<u8>|
        {
            &&& #[trigger] frame_taken(
                (before.0.poll@, before.1),
                (mid.0.poll@, mid.1),
                step,
                payload,
            )
            &&& before.0.differs_in_poll(&mid.0)
            &&& match step {
                FrameStep::Taken => exists|done: (Storage, Client), answer: Result<ClientStep, AscendingError>|
                    {
                        &&& #[trigger] client_routed(mid, (payload, 0), done, answer)
                        &&& match answer {
                            Ok(needed) => outcome == Some(needed) && after == done,
                            Err(_) => outcome is None && dropped(done, after, true),
                        }
                    },
                FrameStep::NotYet => outcome is None && dropped(mid, after, false),
            }
        }
}

/// Handles the next frame that `client` has received, if one has arrived in
/// full. Tells what the handler of the frame needs of the store, or `None`
/// where no frame was handled.
pub fn process_client_frame(
    storage: &mut Storage,
    client: &mut Client,
    packet: &mut ByteBuffer,
) -> (outcome: Option<ClientStep>)
    requires
        old(storage).wf(),
        old(client).wf(),
        bb_room(*old(packet)) >= MAX_FRAME_LENGTH,
    ensures
        final(storage).wf(),
        final(client).wf(),
        bb_room(*final(packet)) >= MAX_FRAME_LENGTH,
        outcome is None ==> !final(storage).client_ids.has(old(client).token),
        client_frame_processed(
            (*old(storage), *old(client)),
            (*final(storage), *final(client)),
            outcome,
        ),
{
    let step = match take_frame(&mut storage.poll, client, packet) {
        Ok(step) => step,
        Err(_) => {
            socket_update(storage, client, true);
            return None;
        },
    };
    let ghost mid = (*storage, *client);
    let ghost payload = bb_bytes(*packet);
    proof {
        old(client).lemma_wf_kept(client);
    }
    match step {
        FrameStep::Taken => {},
        FrameStep::NotYet => {
            socket_update(storage, client, false);
            assert(client_frame_processed(
                (*old(storage), *old(client)),
                (*storage, *client),
                None,
            ));
            return None;
        },
    }
    let answer = client_handle_data(storage, packet, client);
    let ghost done = (*storage, *client);
    let ghost answered = answer;
    assert(client_routed(mid, (payload, 0), done, answered));
    match answer {
        Ok(next) => {
            assert(answered == Ok::<ClientStep, AscendingError>(next));
            assert(frame_taken(
                (old(storage).poll@, *old(client)),
                (mid.0.poll@, mid.1),
                FrameStep::Taken,
                payload,
            ));
            assert(client_frame_processed(
                (*old(storage), *old(client)),
                (*storage, *client),
                Some(next),
            ));
            Some(next)
        },
        Err(_) => {
            assert(answered is Err);
            socket_update(storage, client, true);
            proof {
                done.1.lemma_wf_kept(client);
            }
            assert(client_frame_processed(
                (*old(storage), *old(client)),
                (*storage, *client),
                None,
            ));
            None
        },
    }
}

/// `after` is what becomes of `before` when `count` frames of the client
/// are handled one after the other, each as [`client_frame_processed`]
/// says, and none of them needs the store.
pub open spec fn client_frames_handled(
    before: (Storage, Client),
    after: (Storage, Client),
    count: nat,
) -> bool
    decreases count,
{
    if count == 0 {
        after == before
    } else {
        exists|last: (Storage, Client)|
            client_frames_handled(before, last, (count - 1) as nat)
                && #[trigger] client_frame_processed(last, after, Some(ClientStep::Done))
    }
}

/// A frame that is handled after `count` frames makes one frame more.
pub proof fn lemma_one_more_handled(
    before: (Storage, Client),
    last: (Storage, Client),
    after: (Storage, Client),
    count: nat,
)
    requires
        client_frames_handled(before, last, count),
        client_frame_processed(last, after, Some(ClientStep::Done)),
    ensures
        client_frames_handled(before, after, count + 1),
{
    assert(client_frames_handled(before, last, ((count + 1) - 1) as nat));
}

/// What a tick may change of the broker's state while it handles the frames
/// of the client `token`: the requests to the readiness source, the
/// connections with frames to dispatch, as far as `token` goes, and what
/// the game servers hold in their queues. It does not change the directory,
/// the keys, the settings, the free identifiers, or which connections there are.
pub open spec fn client_tick_keeps(before: Storage, after: Storage, token: usize) -> bool {
    &&& after.servers == before.servers
    &&& after.servers_ids == before.servers_ids
    &&& after.config == before.config
    &&& after.keys == before.keys
    &&& after.server.clients == before.server.clients
    &&& after.server.tokens == before.server.tokens
    &&& after.server.game_servers@.dom() == before.server.game_servers@.dom()
    &&& forall|t: usize|
        t != token ==> (after.client_ids.has(t) <==> before.client_ids.has(t))
}

/// One frame keeps what [`client_tick_keeps`] names and the registry of
/// connections, the identity of the connection and what it has received.
pub proof fn lemma_frame_keeps(
    before: (Storage, Client),
    after: (Storage, Client),
    outcome: Option<ClientStep>,
)
    requires
        before.0.client_ids.wf(),
        client_frame_processed(before, after, outcome),
    ensures
        client_tick_keeps(before.0, after.0, before.1.token),
        after.0.server == before.0.server,
        after.1.token == before.1.token,
        after.1.inbound() == before.1.inbound(),
{
    let (mid, step, payload) = choose|mid: (Storage, Client), step: FrameStep, payload: Seq<u8>|
        {
            &&& #[trigger] frame_taken(
                (before.0.poll@, before.1),
                (mid.0.poll@, mid.1),
                step,
                payload,
            )
            &&& before.0.differs_in_poll(&mid.0)
            &&& match step {
                FrameStep::Taken => exists|done: (Storage, Client), answer: Result<ClientStep, AscendingError>|
                    {
                        &&& #[trigger] client_routed(mid, (payload, 0), done, answer)
                        &&& match answer {
                            Ok(needed) => outcome == Some(needed) && after == done,
                            Err(_) => outcome is None && dropped(done, after, true),
                        }
                    },
                FrameStep::NotYet => outcome is None && dropped(mid, after, false),
            }
        };
    let token = before.1.token;
    before.0.client_ids.lemma_without(token);
    if step == FrameStep::Taken {
        let (done, answer) = choose|done: (Storage, Client), answer: Result<ClientStep, AscendingError>|
            {
                &&& #[trigger] client_routed(mid, (payload, 0), done, answer)
                &&& match answer {
                    Ok(needed) => outcome == Some(needed) && after == done,
                    Err(_) => outcome is None && dropped(done, after, true),
                }
            };
        assert(done.1.token == token && done.1.buffer == mid.1.buffer);
        assert(done.0.server == before.0.server && done.0.servers == before.0.servers
            && done.0.config == before.0.config && done.0.keys == before.0.keys
            && done.0.servers_ids == before.0.servers_ids && done.0.client_ids
            == before.0.client_ids);
    }
}

/// What [`process_client_frames`] does, where `handled` frames have been
/// handled in this tick before, and `r` is its answer.
///
/// Where the tick has handled its share of [`MAX_PROCESSED_PACKETS`]
/// frames, nothing happens. Otherwise frames are handled one after the
/// other, none of which needs the store, until the share is reached; or
/// until a frame more is dealt with that is not handled; or until one is
/// handled that needs the store, which the answer names.
pub open spec fn client_frames_run(
    before: (Storage, Client),
    after: (Storage, Client),
    handled: usize,
    r: (usize, ClientStep),
) -> bool {
    if handled >= MAX_PROCESSED_PACKETS {
        r.0 == handled && r.1 is Done && after == before
    } else {
        &&& handled <= r.0 <= MAX_PROCESSED_PACKETS
        &&& exists|last: (Storage, Client), count: nat|
            #[trigger] client_frames_handled(before, last, count) && {
                ||| r.1 is Done && r.0 == handled + count && r.0 == MAX_PROCESSED_PACKETS
                    && after == last
                ||| r.1 is Done && r.0 == handled + count && client_frame_processed(
                    last,
                    after,
                    None,
                )
                ||| !(r.1 is Done) && r.0 == handled + count + 1 && client_frame_processed(
                    last,
                    after,
                    Some(r.1),
                )
            }
    }
}

/// Handles the frames that `client` has received, oldest first, until none
/// is left that has arrived in full, the connection is at fault, a handler
/// needs the player store, or [`MAX_PROCESSED_PACKETS`] frames have been
/// handled in this tick, `handled` of them before this call. Tells how many
/// have been handled now, and what is needed of the store.
///
/// Each frame is dealt with as [`process_client_frame`] does. Where it
/// stops for want of a whole frame or for a fault, the connection is taken
/// off the connections with frames to dispatch.
pub fn process_client_frames(
    storage: &mut Storage,
    client: &mut Client,
    packet: &mut ByteBuffer,
    handled: usize,
) -> (r: (usize, ClientStep))
    requires
        old(storage).wf(),
        old(client).wf(),
        bb_room(*old(packet)) >= MAX_FRAME_LENGTH,
    ensures
        final(storage).wf(),
        final(client).wf(),
        bb_room(*final(packet)) >= MAX_FRAME_LENGTH,
        client_frames_run(
            (*old(storage), *old(client)),
            (*final(storage), *final(client)),
            handled,
            r,
        ),
        r.0 < MAX_PROCESSED_PACKETS && r.1 is Done ==> !final(storage).client_ids.has(
            old(client).token,
        ),
        client_tick_keeps(*old(storage), *final(storage), old(client).token),
        final(storage).server == old(storage).server,
        final(client).token == old(client).token,
        final(client).inbound() == old(client).inbound(),
{
    let mut count: usize = handled;
    if count >= MAX_PROCESSED_PACKETS {
        return (count, ClientStep::Done);
    }
    let ghost start = (*old(storage), *old(client));
    assert(client_frames_handled(start, start, 0));
    loop
        invariant
            storage.wf(),
            client.wf(),
            bb_room(*packet) >= MAX_FRAME_LENGTH,
            handled <= count < MAX_PROCESSED_PACKETS,
            start == (*old(storage), *old(client)),
            client_frames_handled(start, (*storage, *client), (count - handled) as nat),
            client_tick_keeps(*old(storage), *storage, old(client).token),
            storage.server == old(storage).server,
            client.token == old(client).token,
            client.inbound() == old(client).inbound(),
        decreases MAX_PROCESSED_PACKETS - count,
    {
        let ghost last = (*storage, *client);
        let outcome = process_client_frame(storage, client, packet);
        proof {
            lemma_frame_keeps(last, (*storage, *client), outcome);
        }
        match outcome {
            None => {
                return (count, ClientStep::Done);
            },
            Some(ClientStep::Done) => {
                proof {
                    lemma_one_more_handled(
                        start,
                        last,
                        (*storage, *client),
                        (count - handled) as nat,
                    );
                }
                count += 1;
                if count == MAX_PROCESSED_PACKETS {
                    return (count, ClientStep::Done);
                }
            },
            Some(step) => {
                return (count + 1, step);
            },
        }
    }
}

/// `lent` is `before` without the client `token` in its registry.
pub open spec fn client_lent(before: Storage, lent: Storage, token: usize) -> bool {
    &&& lent.servers == before.servers
    &&& lent.client_ids == before.client_ids
    &&& lent.servers_ids == before.servers_ids
    &&& lent.poll == before.poll
    &&& lent.config == before.config
    &&& lent.keys == before.keys
    &&& lent.server.game_servers == before.server.game_servers
    &&& lent.server.tokens == before.server.tokens
    &&& lent.server.clients@ == before.server.clients@.remove(token)
}

/// `after` is `lent` with `client` in its registry under `token`.
pub open spec fn client_returned(lent: Storage, client: Client, after: Storage, token: usize) -> bool {
    &&& after.servers == lent.servers
    &&& after.client_ids == lent.client_ids
    &&& after.servers_ids == lent.servers_ids
    &&& after.poll == lent.poll
    &&& after.config == lent.config
    &&& after.keys == lent.keys
    &&& after.server.game_servers == lent.server.game_servers
    &&& after.server.tokens == lent.server.tokens
    &&& after.server.clients@ == lent.server.clients@.insert(token, client)
}

/// What [`tick_client`] does for the client `token`, where
/// `handled` frames have been handled in this tick before, `resumed` is
/// what it is handed, and `r` is its answer.
///
/// Where no client is connected under `token`, nothing changes. Otherwise
/// the client is out of the registry while this happens: where nothing is
/// resumed, its frames are handled as [`client_frames_run`] says. Where a
/// handler is resumed, it goes on as [`resumed`] says: where it is done, the
/// frames are handled from there; where it needs the store again, the answer
/// names what it needs; where it fails, the connection is taken off the
/// connections with frames to dispatch and is set to closing.
pub open spec fn client_ticked(
    before: Storage,
    after: Storage,
    token: usize,
    handled: usize,
    resume: Option<(ClientStep, StoreReply)>,
    r: (usize, ClientStep),
) -> bool {
    if before.server.clients@.contains_key(token) {
        exists|lent: Storage, run: (Storage, Client)|
            #![trigger client_lent(before, lent, token), client_returned(run.0, run.1, after, token)]
            {
                &&& client_lent(before, lent, token)
                &&& client_returned(run.0, run.1, after, token)
                &&& match resume {
                    None => client_frames_run(
                        (lent, before.server.clients@[token]),
                        run,
                        handled,
                        r,
                    ),
                    Some((step, reply)) => exists|went: (Storage, Client), answer: Result<ClientStep, AscendingError>|
                        {
                            &&& #[trigger] resumed(
                                (lent, before.server.clients@[token]),
                                step,
                                reply,
                                went,
                                answer,
                            )
                            &&& match answer {
                                Ok(needed) => if needed is Done {
                                    client_frames_run(went, run, handled, r)
                                } else {
                                    run == went && r == (handled, needed)
                                },
                                Err(_) => dropped(went, run, true) && r == (
                                    handled,
                                    ClientStep::Done,
                                ),
                            }
                        },
                }
            }
    } else {
        client_lent(before, after, token) && r == (handled, ClientStep::Done)
    }
}

/// Handles the frames of the client `token` in this tick, of which
/// `handled` have been handled so far, up to the point where a handler needs
/// the player store or the tick is over for this client. `packet` is the
/// scratch buffer that the frames are handed to their handlers in; it has
/// room for the largest frame.
///
/// Where `resume` holds what a handler asked of the store and what the
/// store answered, that handler goes on first; where it fails, the
/// connection is at fault. Tells how many frames have been handled now, and
/// what is needed of the store next. Nothing happens where no client is
/// connected under `token`.
pub fn tick_client(
    storage: &mut Storage,
    token: usize,
    handled: usize,
    resume: Option<(ClientStep, StoreReply)>,
    packet: &mut ByteBuffer,
) -> (now: (usize, ClientStep))
    requires
        old(storage).wf(),
        bb_room(*old(packet)) >= MAX_FRAME_LENGTH,
    ensures
        final(storage).wf(),
        bb_room(*final(packet)) >= MAX_FRAME_LENGTH,
        client_ticked(*old(storage), *final(storage), token, handled, resume, now),
        handled <= MAX_PROCESSED_PACKETS ==> handled <= now.0 <= MAX_PROCESSED_PACKETS,
        handled >= MAX_PROCESSED_PACKETS ==> now.0 == handled,
        final(storage).servers == old(storage).servers,
        final(storage).servers_ids == old(storage).servers_ids,
        final(storage).config == old(storage).config,
        final(storage).keys == old(storage).keys,
        final(storage).server.tokens == old(storage).server.tokens,
        final(storage).server.clients@.dom() == old(storage).server.clients@.dom(),
        final(storage).server.game_servers@.dom() == old(storage).server.game_servers@.dom(),
        old(storage).directory_is_live() ==> final(storage).directory_is_live(),
        forall|t: usize|
            t != token && old(storage).server.clients@.contains_key(t)
                ==> #[trigger] final(storage).server.clients@[t] == old(storage).server.clients@[t],
        forall|t: usize|
            t != token ==> (final(storage).client_ids.has(t) <==> old(storage).client_ids.has(t)),
{
    broadcast use vstd::std_specs::hash::group_hash_axioms;

    let ghost held = storage.server.clients@;
    let mut client = match storage.server.clients.remove(&token) {
        Some(client) => client,
        None => {
            assert(storage.server.clients@ =~= held);
            assert(storage.server.clients@ =~= held.remove(token));
            return (handled, ClientStep::Done);
        },
    };
    let ghost lent = *storage;
    let ghost lent_client = client;
    let ghost mut went = (*storage, client);
    let ghost mut answered: Result<ClientStep, AscendingError> = Ok(ClientStep::Done);
    let mut go_on = true;
    let mut next = ClientStep::Done;
    match resume {
        None => {},
        Some((step, reply)) => {
            let answer = resume_client(storage, &mut client, step, reply);
            proof {
                went = (*storage, client);
                answered = answer;
            }
            match answer {
                Ok(ClientStep::Done) => {},
                Ok(step) => {
                    go_on = false;
                    next = step;
                },
                Err(_) => {
                    let ghost at_fault = client;
                    let ghost entered = storage.client_ids;
                    socket_update(storage, &mut client, true);
                    proof {
                        at_fault.lemma_wf_kept(&client);
                        entered.lemma_without(token);
                    }
                    go_on = false;
                },
            }
        },
    }
    let mut count = handled;
    if go_on {
        let now = process_client_frames(storage, &mut client, packet, handled);
        count = now.0;
        next = now.1;
    }
    let ghost run = (*storage, client);
    storage.server.clients.insert(token, client);
    proof {
        assert(client_lent(*old(storage), lent, token));
        assert(client_returned(run.0, run.1, *storage, token));
        assert(lent_client == old(storage).server.clients@[token]);
        if resume is Some {
            let asked = resume->Some_0;
            assert(resumed((lent, lent_client), asked.0, asked.1, went, answered));
        }
        assert(client_ticked(*old(storage), *storage, token, handled, resume, (count, next)));
        assert(storage.server.clients@.dom() =~= old(storage).server.clients@.dom());
        assert forall|k: int| 0 <= k < storage.server.tokens@.len() implies (
        #[trigger] storage.server.tokens@[k]) >= 2 && !storage.server.is_live(
            storage.server.tokens@[k],
        ) by {
            assert(storage.server.tokens@[k] == old(storage).server.tokens@[k]);
            assert(!old(storage).server.is_live(old(storage).server.tokens@[k]));
        }
    }
    (count, next)
}

/// Handles the frames of the client `token` in this tick, as [`tick_client`]
/// does on a scratch buffer of its own. Fails where no scratch buffer can be
/// had; then nothing changes.
pub fn process_client_packets(
    storage: &mut Storage,
    token: usize,
    handled: usize,
    resume: Option<(ClientStep, StoreReply)>,
) -> (r: Result<(usize, ClientStep), AscendingError>)
    requires
        old(storage).wf(),
    ensures
        final(storage).wf(),
        r is Err ==> is_buffer_fault(r) && *final(storage) == *old(storage),
        r matches Ok(now) ==> client_ticked(
            *old(storage),
            *final(storage),
            token,
            handled,
            resume,
            now,
        ),
        r matches Ok(now) ==> (handled <= MAX_PROCESSED_PACKETS ==> handled <= now.0
            <= MAX_PROCESSED_PACKETS),
        r matches Ok(now) ==> (handled >= MAX_PROCESSED_PACKETS ==> now.0 == handled),
        final(storage).servers == old(storage).servers,
        final(storage).servers_ids == old(storage).servers_ids,
        final(storage).config == old(storage).config,
        final(storage).keys == old(storage).keys,
        final(storage).server.tokens == old(storage).server.tokens,
        final(storage).server.clients@.dom() == old(storage).server.clients@.dom(),
        final(storage).server.game_servers@.dom() == old(storage).server.game_servers@.dom(),
        old(storage).directory_is_live() ==> final(storage).directory_is_live(),
        forall|t: usize|
            t != token && old(storage).server.clients@.contains_key(t)
                ==> #[trigger] final(storage).server.clients@[t] == old(storage).server.clients@[t],
        forall|t: usize|
            t != token ==> (final(storage).client_ids.has(t) <==> old(storage).client_ids.has(t)),
{
    let mut packet = match scratch_packet() {
        Ok(packet) => packet,
        Err(e) => return Err(e),
    };
    Ok(tick_client(storage, token, handled, resume, &mut packet))
}

/// Every frame that waits to be written to a well-formed connection has a
/// header that holds the length of its payload, and a payload of at least
/// one and at most [`MAX_FRAME_LENGTH`] bytes.
pub proof fn law_queued_frames_are_frames(connection: Client, i: int)
    requires
        connection.wf(),
        0 <= i < connection.frames().len(),
    ensures
        is_frame(connection.frames()[i]),
        u64_at(connection.frames()[i], 0) == Some((connection.frames()[i].len() - 8) as u64),
        1 <= connection.frames()[i].len() - 8 <= MAX_FRAME_LENGTH,
{
}

} // verus!

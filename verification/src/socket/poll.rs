use crate::socket::game_server::SocketPollState;
use vstd::prelude::*;

verus! {

/// What is asked of the readiness source for one connection.
#[derive(Debug, Copy, Clone, PartialEq, Eq, Structural)]
pub enum PollRequestKind {
    /// Watch the connection's socket for the first time.
    Register,
    /// Change what the socket is watched for.
    Reregister,
    /// Stop watching the socket and shut it down.
    Deregister,
}

/// One request to the readiness source.
#[derive(Debug, Copy, Clone, PartialEq, Eq, Structural)]
pub struct PollRequest {
    pub token: usize,
    pub kind: PollRequestKind,
    pub interest: SocketPollState,
}

/// The requests to the readiness source that are still to be carried out, oldest first.
///
/// The library decides what each socket is watched for; whoever owns the
/// sockets takes the requests from here and carries them out in order.
pub struct PollRequests {
    pub pending: Vec<PollRequest>,
}

impl View for PollRequests {
    type V = Seq<PollRequest>;

    open spec fn view(&self) -> Seq<PollRequest> {
        self.pending@
    }
}

impl PollRequests {
    pub fn new() -> (r: PollRequests)
        ensures
            r@ == Seq::<PollRequest>::empty(),
    {
        PollRequests { pending: Vec::new() }
    }

    /// Asks that `token` be watched for `interest` from now on.
    pub fn register(&mut self, token: usize, interest: SocketPollState)
        ensures
            final(self)@ == old(self)@.push(
                PollRequest { token, kind: PollRequestKind::Register, interest },
            ),
    {
        self.pending.push(PollRequest { token, kind: PollRequestKind::Register, interest });
    }

    /// Asks that `token` be watched for `interest` instead of what it was watched for.
    pub fn reregister(&mut self, token: usize, interest: SocketPollState)
        ensures
            final(self)@ == old(self)@.push(
                PollRequest { token, kind: PollRequestKind::Reregister, interest },
            ),
    {
        self.pending.push(PollRequest { token, kind: PollRequestKind::Reregister, interest });
    }

    /// Asks that `token` be watched no longer and its socket be shut down.
    pub fn deregister(&mut self, token: usize)
        ensures
            final(self)@ == old(self)@.push(
                PollRequest {
                    token,
                    kind: PollRequestKind::Deregister,
                    interest: SocketPollState::Idle,
                },
            ),
    {
        self.pending.push(
            PollRequest {
                token,
                kind: PollRequestKind::Deregister,
                interest: SocketPollState::Idle,
            },
        );
    }

    /// Hands out the pending requests, oldest first, and forgets them.
    pub fn take(&mut self) -> (r: Vec<PollRequest>)
        ensures
            r@ == old(self)@,
            final(self)@ == Seq::<PollRequest>::empty(),
    {
        let mut taken: Vec<PollRequest> = Vec::new();
        taken.append(&mut self.pending);
        assert(taken@ =~= old(self)@);
        taken
    }
}

} // verus!

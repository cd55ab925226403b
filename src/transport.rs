//! The stream session: the decisions of connecting, reading, answering pings,
//! backing off and giving up, as a state machine. Whoever drives it performs
//! each action and reports what happened as the next event.

use vstd::prelude::*;

verus! {

/// Connection attempts allowed in a row before the session gives up.
pub const MAX_CONNECT_ATTEMPTS: u32 = 3;

#[derive(Clone, Copy, Debug, PartialEq, Eq, Structural)]
pub enum Phase {
    Connecting,
    Streaming,
    Backoff,
    /// Ended normally: the server closed, or enough blocks were seen.
    Closed,
    /// Ended because the connection attempts ran out.
    Failed,
}

/// What happened since the last action.
#[derive(Debug)]
pub enum StreamEvent {
    /// The connection is open and the subscription request was sent.
    Connected,
    /// Connecting or subscribing failed.
    ConnectFailed,
    /// A flashblock was decoded and taken in.
    Fragment { initial: bool },
    /// The server pinged with this payload.
    Ping(Vec<u8>),
    /// A frame that needs no answer: a pong, a raw frame, or a message that
    /// was not a flashblock.
    Ignored,
    /// The server closed the stream in an orderly way.
    ServerClosed,
    /// Reading failed: a protocol error or a dropped connection.
    StreamFailed,
    /// The backoff wait is over.
    BackoffElapsed,
}

/// What the driver should do next.
#[derive(Debug)]
pub enum StreamAction {
    Connect,
    Read,
    SendPong(Vec<u8>),
    /// Wait this many milliseconds.
    Sleep(u64),
    /// Close the connection and report success.
    Finish,
    /// Report that the attempts ran out.
    Fail,
}

#[derive(Clone, Copy, Debug)]
pub struct StreamSession {
    pub phase: Phase,
    /// Failed attempts since the last successful connection.
    pub failures: u32,
    /// Initial fragments seen over the whole session.
    pub initial_fragments: u64,
    pub max_attempts: u32,
    /// Stop after this many initial fragments, if set.
    pub max_blocks: Option<u64>,
    /// Milliseconds to wait after a failed attempt.
    pub backoff_ms: u64,
}

impl StreamSession {
    pub open spec fn wf(&self) -> bool {
        &&& self.phase != Phase::Failed ==> self.failures < self.max_attempts
        &&& self.phase == Phase::Streaming ==> self.failures == 0
    }

    /// The action that the phase waits on, when an event does not fit it.
    pub open spec fn awaited(&self) -> StreamAction {
        match self.phase {
            Phase::Connecting => StreamAction::Connect,
            Phase::Streaming => StreamAction::Read,
            Phase::Backoff => StreamAction::Sleep(self.backoff_ms),
            Phase::Closed => StreamAction::Finish,
            Phase::Failed => StreamAction::Fail,
        }
    }

    /// One more failed attempt: back off, or give up when none are left.
    pub open spec fn after_failure(&self) -> (StreamSession, StreamAction) {
        if self.failures + 1 >= self.max_attempts {
            (StreamSession { phase: Phase::Failed, failures: (self.failures + 1) as u32, ..*self }, StreamAction::Fail)
        } else {
            (
                StreamSession { phase: Phase::Backoff, failures: (self.failures + 1) as u32, ..*self },
                StreamAction::Sleep(self.backoff_ms),
            )
        }
    }

    /// The session after an initial fragment or a diff.
    pub open spec fn after_fragment(&self, initial: bool) -> (StreamSession, StreamAction) {
        let count = if initial && self.initial_fragments < u64::MAX {
            (self.initial_fragments + 1) as u64
        } else {
            self.initial_fragments
        };
        let done = initial && match self.max_blocks {
            Some(m) => count >= m,
            None => false,
        };
        if done {
            (StreamSession { phase: Phase::Closed, initial_fragments: count, ..*self }, StreamAction::Finish)
        } else {
            (StreamSession { initial_fragments: count, ..*self }, StreamAction::Read)
        }
    }

    /// The transition on one event.
    pub open spec fn next(self, e: StreamEvent) -> (StreamSession, StreamAction) {
        match (self.phase, e) {
            (Phase::Connecting, StreamEvent::Connected) => (
                StreamSession { phase: Phase::Streaming, failures: 0, ..self },
                StreamAction::Read,
            ),
            (Phase::Connecting, StreamEvent::ConnectFailed) => self.after_failure(),
            (Phase::Streaming, StreamEvent::StreamFailed) => self.after_failure(),
            (Phase::Streaming, StreamEvent::Fragment { initial }) => self.after_fragment(initial),
            (Phase::Streaming, StreamEvent::Ping(payload)) => (self, StreamAction::SendPong(payload)),
            (Phase::Streaming, StreamEvent::Ignored) => (self, StreamAction::Read),
            (Phase::Streaming, StreamEvent::ServerClosed) => (
                StreamSession { phase: Phase::Closed, ..self },
                StreamAction::Finish,
            ),
            (Phase::Backoff, StreamEvent::BackoffElapsed) => (
                StreamSession { phase: Phase::Connecting, ..self },
                StreamAction::Connect,
            ),
            _ => (self, self.awaited()),
        }
    }

    pub open spec fn initial(max_attempts: u32, backoff_ms: u64, max_blocks: Option<u64>) -> StreamSession {
        StreamSession {
            phase: if max_attempts == 0 { Phase::Failed } else { Phase::Connecting },
            failures: 0,
            initial_fragments: 0,
            max_attempts,
            max_blocks,
            backoff_ms,
        }
    }

    /// A session that has not connected yet; with no attempts allowed it has
    /// already failed.
    pub fn new(max_attempts: u32, backoff_ms: u64, max_blocks: Option<u64>) -> (r: StreamSession)
        ensures
            r == StreamSession::initial(max_attempts, backoff_ms, max_blocks),
            r.wf(),
    {
        StreamSession {
            phase: if max_attempts == 0 { Phase::Failed } else { Phase::Connecting },
            failures: 0,
            initial_fragments: 0,
            max_attempts,
            max_blocks,
            backoff_ms,
        }
    }

    /// The first action: connect, or fail at once when no attempt is allowed.
    pub fn first_action(&self) -> (r: StreamAction)
        ensures
            r == self.awaited(),
    {
        match self.phase {
            Phase::Connecting => StreamAction::Connect,
            Phase::Streaming => StreamAction::Read,
            Phase::Backoff => StreamAction::Sleep(self.backoff_ms),
            Phase::Closed => StreamAction::Finish,
            Phase::Failed => StreamAction::Fail,
        }
    }

    fn record_failure(&mut self) -> (r: StreamAction)
        requires
            old(self).wf(),
            old(self).phase != Phase::Failed,
        ensures
            (*final(self), r) == old(self).after_failure(),
    {
        let failures = self.failures + 1;
        self.failures = failures;
        if failures >= self.max_attempts {
            self.phase = Phase::Failed;
            StreamAction::Fail
        } else {
            self.phase = Phase::Backoff;
            StreamAction::Sleep(self.backoff_ms)
        }
    }

    fn record_fragment(&mut self, initial: bool) -> (r: StreamAction)
        ensures
            (*final(self), r) == old(self).after_fragment(initial),
    {
        if initial && self.initial_fragments < u64::MAX {
            self.initial_fragments = self.initial_fragments + 1;
        }
        let done = initial && match self.max_blocks {
            Some(m) => self.initial_fragments >= m,
            None => false,
        };
        if done {
            self.phase = Phase::Closed;
            StreamAction::Finish
        } else {
            StreamAction::Read
        }
    }

    /// Takes the next event and says what to do.
    pub fn step(&mut self, e: StreamEvent) -> (r: StreamAction)
        requires
            old(self).wf(),
        ensures
            (*final(self), r) == old(self).next(e),
            final(self).wf(),
    {
        match (self.phase, e) {
            (Phase::Connecting, StreamEvent::Connected) => {
                self.phase = Phase::Streaming;
                self.failures = 0;
                StreamAction::Read
            },
            (Phase::Connecting, StreamEvent::ConnectFailed) => self.record_failure(),
            (Phase::Streaming, StreamEvent::StreamFailed) => self.record_failure(),
            (Phase::Streaming, StreamEvent::Fragment { initial }) => self.record_fragment(initial),
            (Phase::Streaming, StreamEvent::Ping(payload)) => StreamAction::SendPong(payload),
            (Phase::Streaming, StreamEvent::Ignored) => StreamAction::Read,
            (Phase::Streaming, StreamEvent::ServerClosed) => {
                self.phase = Phase::Closed;
                StreamAction::Finish
            },
            (Phase::Backoff, StreamEvent::BackoffElapsed) => {
                self.phase = Phase::Connecting;
                StreamAction::Connect
            },
            _ => self.first_action(),
        }
    }
}

/// The session after the events, in order.
pub open spec fn run(s: StreamSession, evs: Seq<StreamEvent>) -> StreamSession
    decreases evs.len(),
{
    if evs.len() == 0 {
        s
    } else {
        run(s.next(evs[0]).0, evs.skip(1))
    }
}

/// The action that answers the last of the events.
pub open spec fn last_action(s: StreamSession, evs: Seq<StreamEvent>) -> StreamAction
    decreases evs.len(),
{
    if evs.len() == 0 {
        s.awaited()
    } else if evs.len() == 1 {
        s.next(evs[0]).1
    } else {
        last_action(s.next(evs[0]).0, evs.skip(1))
    }
}

/// `n` failed connection attempts with the waits between them.
pub open spec fn failed_attempts(n: nat) -> Seq<StreamEvent>
    decreases n,
{
    if n <= 1 {
        seq![StreamEvent::ConnectFailed]
    } else {
        seq![StreamEvent::ConnectFailed, StreamEvent::BackoffElapsed] + failed_attempts((n - 1) as nat)
    }
}

/// Bounded retries: while connecting, failed attempts in a row back off until
/// the allowed number is reached; the attempt that reaches it ends the
/// session with a failure.
pub proof fn lemma_attempts_exhausted(s: StreamSession, n: nat)
    requires
        s.wf(),
        s.phase == Phase::Connecting,
        n >= 1,
        s.failures + n <= s.max_attempts,
    ensures
        s.failures + n == s.max_attempts ==> {
            &&& run(s, failed_attempts(n)).phase == Phase::Failed
            &&& last_action(s, failed_attempts(n)) == StreamAction::Fail
        },
        s.failures + n < s.max_attempts ==> {
            &&& run(s, failed_attempts(n)).phase == Phase::Backoff
            &&& run(s, failed_attempts(n)).failures == s.failures + n
            &&& last_action(s, failed_attempts(n)) == StreamAction::Sleep(s.backoff_ms)
        },
    decreases n,
{
    let evs = failed_attempts(n);
    if n > 1 {
        let rest = failed_attempts((n - 1) as nat);
        let s1 = s.next(StreamEvent::ConnectFailed).0;
        let s2 = s1.next(StreamEvent::BackoffElapsed).0;
        assert(evs[0] == StreamEvent::ConnectFailed);
        assert(evs.skip(1) =~= seq![StreamEvent::BackoffElapsed] + rest);
        assert(evs.skip(1).skip(1) =~= rest);
        assert(evs.skip(1)[0] == StreamEvent::BackoffElapsed);
        assert(s2.phase == Phase::Connecting && s2.failures == s.failures + 1);
        lemma_attempts_exhausted(s2, (n - 1) as nat);
        assert(run(s, evs) == run(s1, evs.skip(1)));
        assert(run(s1, evs.skip(1)) == run(s2, evs.skip(1).skip(1)));
        assert(run(s, evs) == run(s2, rest));
        assert(last_action(s, evs) == last_action(s2, rest)) by {
            assert(evs.skip(1).len() > 1);
            assert(last_action(s1, evs.skip(1)) == last_action(s2, evs.skip(1).skip(1)));
        }
    } else {
        assert(evs[0] == StreamEvent::ConnectFailed);
        assert(evs.skip(1) =~= Seq::<StreamEvent>::empty());
        assert(run(s, evs) == run(s.next(StreamEvent::ConnectFailed).0, evs.skip(1)));
    }
}

/// A failed session stays failed and makes no further attempt, whatever
/// happens.
pub proof fn lemma_failure_is_final(s: StreamSession, evs: Seq<StreamEvent>)
    requires
        s.phase == Phase::Failed,
    ensures
        run(s, evs) == s,
        last_action(s, evs) == StreamAction::Fail,
    decreases evs.len(),
{
    if evs.len() > 0 {
        assert(s.next(evs[0]) == (s, StreamAction::Fail));
        lemma_failure_is_final(s, evs.skip(1));
    }
}

/// A successful connection clears the count of failed attempts, so a later
/// failure has the whole allowance again.
pub proof fn lemma_connection_resets_failures(s: StreamSession)
    requires
        s.wf(),
        s.phase == Phase::Connecting,
    ensures
        s.next(StreamEvent::Connected).0.phase == Phase::Streaming,
        s.next(StreamEvent::Connected).0.failures == 0,
        s.next(StreamEvent::Connected).1 == StreamAction::Read,
        s.next(StreamEvent::Connected).0.wf(),
{
}

} // verus!

//! The client side of an agent session: framing, handshake and lifecycle.

use vstd::prelude::*;
use vstd::string::*;
use crate::proto::{Capability, Response};
use crate::text::{spec_trim, string_of, trim};

verus! {

/// The id that the handshake's `Hello` carries.
pub const HELLO_ID: u64 = 1;

/// The agent's answer to the handshake.
#[derive(Debug, Clone)]
pub struct HelloAck {
    pub agent_version: String,
    pub capabilities: Vec<Capability>,
}

/// Why a session operation failed.
#[derive(Debug, Clone, PartialEq, Eq)]
pub enum SessionError {
    /// The session was terminated or its stream ended: nothing more can be
    /// sent or read.
    Closed,
    /// The stream ended in the middle of a line.
    Truncated,
    /// The agent answered the handshake with an error.
    Refused(String),
    /// The agent answered the handshake with something else, or with
    /// another id.
    Unexpected,
    /// No answer came in time.
    TimedOut,
}

/// Lifecycle of a session.
#[derive(Debug, Clone, Copy, PartialEq, Eq, Structural)]
pub enum SessionState {
    /// The transport runs; no handshake yet.
    Spawned,
    /// `Hello` was sent; its answer is awaited.
    Handshaking,
    /// The handshake succeeded.
    Ready,
    /// Terminated or ended: every further request fails.
    Closed,
}

/// The client side of one agent session, without its transport: which
/// requests may still be made.
#[derive(Debug)]
pub struct Session {
    pub state: SessionState,
}

/// What one read of a line gave: the text up to and including the line
/// feed, or less when the stream ended.
pub open spec fn framed(read: Seq<char>) -> Result<Seq<char>, SessionError> {
    if read.len() == 0 {
        Err(SessionError::Closed)
    } else if read.last() != '\n' {
        Err(SessionError::Truncated)
    } else {
        Ok(spec_trim(read))
    }
}

/// Whether a request may go to the transport in state `s`.
pub open spec fn may_use(s: SessionState) -> bool {
    s != SessionState::Closed
}

/// What taking a read line gives in state `s`.
pub open spec fn line_result(s: SessionState, read: Seq<char>) -> Result<Seq<char>, SessionError> {
    if !may_use(s) {
        Err(SessionError::Closed)
    } else {
        framed(read)
    }
}

impl Session {
    pub fn new() -> (r: Session)
        ensures
            r.state == SessionState::Spawned,
    {
        Session { state: SessionState::Spawned }
    }

    pub fn is_closed(&self) -> (r: bool)
        ensures
            r == !may_use(self.state),
    {
        self.state == SessionState::Closed
    }

    /// Asks to send a command or read a response: refused once the session
    /// is closed.
    pub fn begin(&self) -> (r: Result<(), SessionError>)
        ensures
            r is Ok <==> may_use(self.state),
            r is Err ==> r == Err::<(), SessionError>(SessionError::Closed),
    {
        if self.state == SessionState::Closed {
            Err(SessionError::Closed)
        } else {
            Ok(())
        }
    }

    /// Takes one line as the transport read it and returns its content
    /// trimmed; closes the session when the stream ended.
    pub fn take_line(&mut self, read: &str) -> (r: Result<String, SessionError>)
        ensures
            match line_result(old(self).state, read@) {
                Ok(t) => r matches Ok(s) && s@ == t && final(self).state == old(self).state,
                Err(e) => r == Err::<String, SessionError>(e) && final(self).state
                    == SessionState::Closed,
            },
    {
        if self.state == SessionState::Closed {
            return Err(SessionError::Closed);
        }
        let n = read.unicode_len();
        if n == 0 {
            self.state = SessionState::Closed;
            return Err(SessionError::Closed);
        }
        if read.get_char(n - 1) != '\n' {
            self.state = SessionState::Closed;
            return Err(SessionError::Truncated);
        }
        Ok(string_of(trim(read)))
    }

    /// Records that `Hello` was sent.
    pub fn hello_sent(&mut self)
        ensures
            final(self).state == if old(self).state == SessionState::Closed {
                SessionState::Closed
            } else {
                SessionState::Handshaking
            },
    {
        if self.state != SessionState::Closed {
            self.state = SessionState::Handshaking;
        }
    }

    /// Judges the answer to `Hello`: only a `HelloAck` with the handshake's id
    /// completes it; an `Error` with that id is a refusal; anything else (also
    /// a stale answer with another id) is unexpected.
    pub fn hello_answer(&mut self, resp: Response) -> (r: Result<HelloAck, SessionError>)
        ensures
            resp.spec_id() != HELLO_ID ==> r == Err::<HelloAck, SessionError>(
                SessionError::Unexpected,
            ) && final(self).state == old(self).state,
            resp.spec_id() == HELLO_ID ==> match resp {
                Response::HelloAck { agent_version, capabilities, .. } => r matches Ok(a)
                    && a.agent_version@ == agent_version@ && a.capabilities@ == capabilities@
                    && final(self).state == SessionState::Ready,
                Response::Error { message, .. } => r matches Err(SessionError::Refused(m))
                    && m@ == message@ && final(self).state == old(self).state,
                _ => r == Err::<HelloAck, SessionError>(SessionError::Unexpected) && final(self).state
                    == old(self).state,
            },
    {
        if resp.id() != HELLO_ID {
            return Err(SessionError::Unexpected);
        }
        match resp {
            Response::HelloAck { agent_version, capabilities, .. } => {
                self.state = SessionState::Ready;
                Ok(HelloAck { agent_version, capabilities })
            },
            Response::Error { message, .. } => Err(SessionError::Refused(message)),
            _ => Err(SessionError::Unexpected),
        }
    }

    /// Records that the transport failed (a write, flush or read error): the
    /// session closes, so every later request is refused at once instead of
    /// waiting on a dead transport.
    pub fn transport_lost(&mut self)
        ensures
            final(self).state == SessionState::Closed,
    {
        self.state = SessionState::Closed;
    }

    /// Ends the session.
    pub fn terminate(&mut self)
        ensures
            final(self).state == SessionState::Closed,
    {
        self.state = SessionState::Closed;
    }
}

/// Once terminated, or closed after its transport failed or its stream
/// ended, a session refuses every further request before it reaches the
/// transport: sending and reading are refused, and a line taken
/// after the end is refused whatever was read, leaving the session closed.
pub proof fn lemma_terminated_refuses(s: SessionState, read: Seq<char>)
    requires
        s == SessionState::Closed,
    ensures
        !may_use(s),
        line_result(s, read) == Err::<Seq<char>, SessionError>(SessionError::Closed),
{
}

} // verus!

//! One connection to a language server, as a state machine.
//!
//! The connection begins with an `initialize` request, which gets the first
//! identifier: 0, unless the connection was made to count from elsewhere. Its
//! answer makes the connection initialized; once the server has been told so,
//! and which document is open, the connection is ready and carries requests
//! and notifications until it is closed. Whoever owns the streams does the
//! reading and writing; what to do with each message is decided here.

use crate::jsonrpc::FrameKind;
use crate::lsp::{
    issue, pending_wf, resolve, LspRequestData, LspSendRequestKind, PendingModel, PendingRequests,
};
use vstd::prelude::*;

verus! {

/// How far a connection has come.
#[derive(Debug, Clone, Copy, PartialEq, Eq, Structural)]
pub enum Phase {
    /// The server runs; it has not answered `initialize` yet.
    Spawned,
    /// The server has answered `initialize`.
    Initialized,
    /// The server knows the open document: messages flow.
    Ready,
    /// The connection is over.
    Closed,
}

/// Why a connection does not go on.
#[derive(Debug, Clone, Copy, PartialEq, Eq, Structural)]
pub enum SessionError {
    /// The connection is closed.
    Closed,
    /// The step does not belong to the phase that the connection is in.
    WrongPhase,
    /// Something other than the answer to `initialize` came first.
    ExpectedInitializeResult,
    /// An answer came to a request that is not under way.
    UnknownResponse(u32),
    /// Every identifier has been given out.
    OutOfIds,
}

/// What to do with a message of the server.
#[derive(Debug, Clone, Copy, PartialEq, Eq, Structural)]
pub enum Incoming {
    /// Read it as the answer to a request of this kind, and hand it on.
    Result(LspSendRequestKind),
    /// Hand it on as a notification.
    Notification,
    /// Pass over it.
    Ignored,
}

/// How to send what the editor asks for.
#[derive(Debug, Clone, Copy, PartialEq, Eq, Structural)]
pub enum Outgoing {
    /// As a request with this identifier, whose answer is awaited.
    Request { id: u32, kind: LspSendRequestKind },
    /// As a notification, which has no identifier and no answer.
    Notification,
}

/// A connection as mathematics: its phase and the requests under way.
pub struct SessionModel {
    pub phase: Phase,
    pub pending: PendingModel,
}

/// The kind of request that carries `data`, if `data` is a request.
pub open spec fn request_kind(data: LspRequestData) -> Option<LspSendRequestKind> {
    match data {
        LspRequestData::Hover { .. } => Some(LspSendRequestKind::Hover),
        LspRequestData::Completion { .. } => Some(LspSendRequestKind::Completion),
        LspRequestData::DidChange { .. } => None,
    }
}

/// The connection after `initialize` has been given its identifier, and that
/// identifier. It is given once, to a connection that has just been started.
pub open spec fn begin_step(m: SessionModel) -> (SessionModel, Result<u32, SessionError>) {
    if m.phase == Phase::Closed {
        (m, Err(SessionError::Closed))
    } else if m.phase != Phase::Spawned || m.pending.sent.len() != 0 {
        (m, Err(SessionError::WrongPhase))
    } else if m.pending.next >= u32::MAX {
        (m, Err(SessionError::OutOfIds))
    } else {
        (
            SessionModel {
                phase: m.phase,
                pending: issue(m.pending, LspSendRequestKind::Initialize),
            },
            Ok(m.pending.next as u32),
        )
    }
}

/// The connection after a message of the server has been read, and what to do
/// with the message.
///
/// Before the server has answered `initialize`, only that answer is taken; it
/// makes the connection initialized. After that an answer is matched to its
/// request by the identifier alone and takes the request off the table;
/// notifications are handed on; requests of the server and unknown messages
/// are passed over. An answer that matches no request closes the connection.
pub open spec fn receive_step(m: SessionModel, frame: FrameKind) -> (
    SessionModel,
    Result<Incoming, SessionError>,
) {
    let closed = SessionModel { phase: Phase::Closed, pending: m.pending };
    match m.phase {
        Phase::Closed => (m, Err(SessionError::Closed)),
        Phase::Spawned => match frame {
            FrameKind::Response { id } => if m.pending.sent.contains_key(id) && m.pending.sent[id]
                == LspSendRequestKind::Initialize {
                (
                    SessionModel { phase: Phase::Initialized, pending: resolve(m.pending, id) },
                    Ok(Incoming::Result(LspSendRequestKind::Initialize)),
                )
            } else {
                (closed, Err(SessionError::ExpectedInitializeResult))
            },
            _ => (closed, Err(SessionError::ExpectedInitializeResult)),
        },
        _ => match frame {
            FrameKind::Response { id } => if m.pending.sent.contains_key(id) {
                (
                    SessionModel { phase: m.phase, pending: resolve(m.pending, id) },
                    Ok(Incoming::Result(m.pending.sent[id])),
                )
            } else {
                (closed, Err(SessionError::UnknownResponse(id)))
            },
            FrameKind::Notification => (m, Ok(Incoming::Notification)),
            FrameKind::Request { .. } => (m, Ok(Incoming::Ignored)),
            FrameKind::Unknown => (m, Ok(Incoming::Ignored)),
        },
    }
}

/// The connection after the server has been told that it is initialized and
/// which document is open.
pub open spec fn opened_step(m: SessionModel) -> (SessionModel, Result<(), SessionError>) {
    match m.phase {
        Phase::Closed => (m, Err(SessionError::Closed)),
        Phase::Initialized => (SessionModel { phase: Phase::Ready, pending: m.pending }, Ok(())),
        _ => (m, Err(SessionError::WrongPhase)),
    }
}

/// The connection after the editor has asked for `data` to be sent, and how to
/// send it. A request gets the next identifier and is put on the table in the
/// same step; a notification changes nothing.
pub open spec fn send_step(m: SessionModel, data: LspRequestData) -> (
    SessionModel,
    Result<Outgoing, SessionError>,
) {
    match m.phase {
        Phase::Closed => (m, Err(SessionError::Closed)),
        Phase::Ready => match request_kind(data) {
            Some(kind) => if m.pending.next < u32::MAX {
                (
                    SessionModel { phase: m.phase, pending: issue(m.pending, kind) },
                    Ok(Outgoing::Request { id: m.pending.next as u32, kind }),
                )
            } else {
                (m, Err(SessionError::OutOfIds))
            },
            None => (m, Ok(Outgoing::Notification)),
        },
        _ => (m, Err(SessionError::WrongPhase)),
    }
}

/// One connection to a language server.
pub struct Session {
    phase: Phase,
    pending: PendingRequests,
}

impl View for Session {
    type V = SessionModel;

    closed spec fn view(&self) -> SessionModel {
        SessionModel { phase: self.phase, pending: self.pending@ }
    }
}

impl Session {
    /// The identifiers in use are below the next one to give out.
    pub open spec fn wf(&self) -> bool {
        pending_wf(self@.pending)
    }

    /// A connection to a server that has just been started.
    pub fn new() -> (s: Self)
        ensures
            s.wf(),
            s@.phase == Phase::Spawned,
            s@.pending.next == 0,
            s@.pending.sent == Map::<u32, LspSendRequestKind>::empty(),
    {
        Self { phase: Phase::Spawned, pending: PendingRequests::new() }
    }

    /// A connection to a server that has just been started, whose identifiers
    /// count up from `first`.
    pub fn starting_at(first: u32) -> (s: Self)
        ensures
            s.wf(),
            s@.phase == Phase::Spawned,
            s@.pending.next == first,
            s@.pending.sent == Map::<u32, LspSendRequestKind>::empty(),
    {
        Self { phase: Phase::Spawned, pending: PendingRequests::starting_at(first) }
    }

    /// The phase that the connection is in.
    pub fn phase(&self) -> (phase: Phase)
        ensures
            phase == self@.phase,
    {
        self.phase
    }

    /// The number of requests under way.
    pub fn pending_len(&self) -> (n: usize)
        ensures
            n == self@.pending.sent.len(),
    {
        self.pending.len()
    }

    /// The kind of the request `id`, if it is under way.
    pub fn pending_kind(&self, id: u32) -> (kind: Option<LspSendRequestKind>)
        ensures
            kind == if self@.pending.sent.contains_key(id) {
                Some(self@.pending.sent[id])
            } else {
                None
            },
    {
        self.pending.get(id)
    }

    /// Gives the `initialize` request its identifier, the first of the connection.
    pub fn begin(&mut self) -> (r: Result<u32, SessionError>)
        requires
            old(self).wf(),
        ensures
            final(self).wf(),
            (final(self)@, r) == begin_step(old(self)@),
    {
        if self.phase == Phase::Closed {
            return Err(SessionError::Closed);
        }
        if self.phase != Phase::Spawned || self.pending.len() != 0 {
            return Err(SessionError::WrongPhase);
        }
        if !self.pending.has_next() {
            return Err(SessionError::OutOfIds);
        }
        let id = self.pending.next_id(LspSendRequestKind::Initialize);
        Ok(id)
    }

    /// Takes a message of the server and says what to do with it.
    pub fn receive(&mut self, frame: FrameKind) -> (r: Result<Incoming, SessionError>)
        requires
            old(self).wf(),
        ensures
            final(self).wf(),
            (final(self)@, r) == receive_step(old(self)@, frame),
    {
        match self.phase {
            Phase::Closed => Err(SessionError::Closed),
            Phase::Spawned => {
                if let FrameKind::Response { id } = frame {
                    if let Some(LspSendRequestKind::Initialize) = self.pending.get(id) {
                        self.pending.take(id);
                        self.phase = Phase::Initialized;
                        return Ok(Incoming::Result(LspSendRequestKind::Initialize));
                    }
                }
                self.phase = Phase::Closed;
                Err(SessionError::ExpectedInitializeResult)
            },
            _ => match frame {
                FrameKind::Response { id } => match self.pending.take(id) {
                    Some(kind) => Ok(Incoming::Result(kind)),
                    None => {
                        proof {
                            assert(self.pending@.sent =~= old(self)@.pending.sent);
                        }
                        self.phase = Phase::Closed;
                        Err(SessionError::UnknownResponse(id))
                    },
                },
                FrameKind::Notification => Ok(Incoming::Notification),
                FrameKind::Request { .. } => Ok(Incoming::Ignored),
                FrameKind::Unknown => Ok(Incoming::Ignored),
            },
        }
    }

    /// Notes that the server has been told that it is initialized and which
    /// document is open: the connection is ready.
    pub fn opened(&mut self) -> (r: Result<(), SessionError>)
        requires
            old(self).wf(),
        ensures
            final(self).wf(),
            (final(self)@, r) == opened_step(old(self)@),
    {
        match self.phase {
            Phase::Closed => Err(SessionError::Closed),
            Phase::Initialized => {
                self.phase = Phase::Ready;
                Ok(())
            },
            _ => Err(SessionError::WrongPhase),
        }
    }

    /// Says how to send `data`, and gives it an identifier if it is a request.
    pub fn send(&mut self, data: &LspRequestData) -> (r: Result<Outgoing, SessionError>)
        requires
            old(self).wf(),
        ensures
            final(self).wf(),
            (final(self)@, r) == send_step(old(self)@, *data),
    {
        match self.phase {
            Phase::Closed => Err(SessionError::Closed),
            Phase::Ready => {
                let kind = match data {
                    LspRequestData::Hover { .. } => LspSendRequestKind::Hover,
                    LspRequestData::Completion { .. } => LspSendRequestKind::Completion,
                    LspRequestData::DidChange { .. } => {
                        return Ok(Outgoing::Notification);
                    },
                };
                if !self.pending.has_next() {
                    return Err(SessionError::OutOfIds);
                }
                let id = self.pending.next_id(kind);
                Ok(Outgoing::Request { id, kind })
            },
            _ => Err(SessionError::WrongPhase),
        }
    }

    /// Ends the connection. Requests under way stay unanswered.
    pub fn close(&mut self)
        ensures
            final(self)@.phase == Phase::Closed,
            final(self)@.pending == old(self)@.pending,
            final(self).wf() == old(self).wf(),
    {
        self.phase = Phase::Closed;
    }
}

} // verus!

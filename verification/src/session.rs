//! One client connection as a state machine. The machine decides; its caller
//! reads from the connection and writes to it, and reports what happened.

use crate::dispatch::{ends_in_newline, respond, response_to, store_after_request};
use crate::store::Store;
use vstd::prelude::*;
use vstd::utf8::{decode_utf8, valid_utf8};

verus! {

/// Where a session stands.
#[derive(Debug, Clone, Copy, PartialEq, Eq, Structural)]
pub enum SessionState {
    /// Waiting for bytes from the client.
    AwaitingRequest,
    /// A request was run against the store; its reply is being written.
    Processing,
    /// The session is over. Nothing is read or written any more.
    Closed,
}

/// What the connection did since the session last asked for something.
#[derive(Debug, PartialEq, Eq)]
pub enum SessionEvent {
    /// A read returned these bytes. No bytes: the client closed its side.
    Received(Vec<u8>),
    /// A read failed.
    ReadFailed,
    /// The reply was written.
    ReplyWritten,
    /// Writing the reply failed.
    WriteFailed,
}

/// What the session asks of the connection next.
#[derive(Debug, PartialEq, Eq)]
pub enum SessionAction {
    /// Read the next bytes.
    Read,
    /// Write this reply as it is.
    Write(String),
    /// Stop: read and write nothing more.
    Stop,
}

/// A session event with its bytes as a sequence.
pub enum EventView {
    Received(Seq<u8>),
    ReadFailed,
    ReplyWritten,
    WriteFailed,
}

/// A session action with its reply as a sequence of characters.
pub enum ActionView {
    Read,
    Write(Seq<char>),
    Stop,
}

/// A session as contracts see it: its state and the mapping its store holds.
pub struct SessionView {
    pub state: SessionState,
    pub store: Map<Seq<char>, Seq<char>>,
}

impl View for SessionEvent {
    type V = EventView;

    open spec fn view(&self) -> EventView {
        match self {
            SessionEvent::Received(bytes) => EventView::Received(bytes@),
            SessionEvent::ReadFailed => EventView::ReadFailed,
            SessionEvent::ReplyWritten => EventView::ReplyWritten,
            SessionEvent::WriteFailed => EventView::WriteFailed,
        }
    }
}

impl View for SessionAction {
    type V = ActionView;

    open spec fn view(&self) -> ActionView {
        match self {
            SessionAction::Read => ActionView::Read,
            SessionAction::Write(reply) => ActionView::Write(reply@),
            SessionAction::Stop => ActionView::Stop,
        }
    }
}

/// What lossy decoding makes of bytes that are not valid UTF-8: the text that
/// they hold, with the replacement character in place of each part that is
/// not valid.
pub uninterp spec fn lossy_text(bytes: Seq<u8>) -> Seq<char>;

/// The text that bytes from the wire are read as. Valid UTF-8 is read as the
/// text that it encodes; other bytes are decoded with loss.
pub open spec fn wire_text(bytes: Seq<u8>) -> Seq<char> {
    if valid_utf8(bytes) {
        decode_utf8(bytes)
    } else {
        lossy_text(bytes)
    }
}

/// Whether `event` is a read that returned no bytes: the client closed its
/// side of the connection.
pub open spec fn is_end_of_input(event: EventView) -> bool {
    event matches EventView::Received(bytes) && bytes.len() == 0
}

/// Whether a session in `state` takes `event` as a request to run: it waits
/// for one, and bytes came.
pub open spec fn is_request(state: SessionState, event: EventView) -> bool {
    &&& state == SessionState::AwaitingRequest
    &&& event matches EventView::Received(bytes)
    &&& bytes.len() > 0
}

/// The state that follows `state` on `event`. A session that waits for a
/// request goes on to write the reply when bytes came; one that writes goes
/// back to waiting when the reply was written. Everything else closes the
/// session: no bytes, a failed read or write, and an event that the state
/// does not wait for.
pub open spec fn state_after(state: SessionState, event: EventView) -> SessionState {
    match (state, event) {
        (SessionState::AwaitingRequest, EventView::Received(bytes)) => if bytes.len() > 0 {
            SessionState::Processing
        } else {
            SessionState::Closed
        },
        (SessionState::Processing, EventView::ReplyWritten) => SessionState::AwaitingRequest,
        _ => SessionState::Closed,
    }
}

/// The session that follows `pre` on `event`. Only a request touches the store.
pub open spec fn session_after(pre: SessionView, event: EventView) -> SessionView {
    SessionView {
        state: state_after(pre.state, event),
        store: match event {
            EventView::Received(bytes) if is_request(pre.state, event) => store_after_request(
                wire_text(bytes),
                pre.store,
            ),
            _ => pre.store,
        },
    }
}

/// What the session `pre` asks for on `event`: to write the reply to a
/// request, to read again once the reply was written, and to stop otherwise.
pub open spec fn action_on(pre: SessionView, event: EventView) -> ActionView {
    match event {
        EventView::Received(bytes) if is_request(pre.state, event) => ActionView::Write(
            response_to(wire_text(bytes), pre.store),
        ),
        EventView::ReplyWritten if pre.state == SessionState::Processing => ActionView::Read,
        _ => ActionView::Stop,
    }
}

/// Decodes bytes from the wire with `String::from_utf8_lossy`, which never
/// fails. Not proved here: that valid UTF-8 comes back as the text that it
/// encodes, and that what comes back for other bytes depends on the bytes alone.
#[verifier::external_body]
fn decode_lossy(bytes: &[u8]) -> (text: String)
    ensures
        valid_utf8(bytes@) ==> text@ == decode_utf8(bytes@),
        !valid_utf8(bytes@) ==> text@ == lossy_text(bytes@),
{
    String::from_utf8_lossy(bytes).into_owned()
}

/// The state of one client connection, with the store that it owns.
pub struct Session {
    state: SessionState,
    store: Store,
}

impl View for Session {
    type V = SessionView;

    closed spec fn view(&self) -> SessionView {
        SessionView { state: self.state, store: self.store@ }
    }
}

impl Session {
    /// A session for a connection that was just accepted: it waits for the
    /// first request, and its store is empty.
    pub fn new() -> (session: Session)
        ensures
            session@ == (SessionView {
                state: SessionState::AwaitingRequest,
                store: Map::<Seq<char>, Seq<char>>::empty(),
            }),
    {
        Session { state: SessionState::AwaitingRequest, store: Store::new() }
    }

    /// Where the session stands.
    pub fn state(&self) -> (state: SessionState)
        ensures
            state == self@.state,
    {
        self.state
    }

    /// The store that the session owns.
    pub fn store(&self) -> (store: &Store)
        ensures
            store@ == self@.store,
    {
        &self.store
    }

    /// Takes the session one step on: moves to the next state on `event` and
    /// says what to do with the connection next.
    pub fn step(&mut self, event: SessionEvent) -> (action: SessionAction)
        ensures
            final(self)@ == session_after(old(self)@, event@),
            action@ == action_on(old(self)@, event@),
            is_end_of_input(event@) ==> action@ == ActionView::Stop && final(self)@.state
                == SessionState::Closed && final(self)@.store == old(self)@.store,
            action@ matches ActionView::Write(reply) ==> ends_in_newline(reply),
    {
        match (self.state, event) {
            (SessionState::AwaitingRequest, SessionEvent::Received(bytes)) => {
                if bytes.len() == 0 {
                    self.state = SessionState::Closed;
                    SessionAction::Stop
                } else {
                    let request = decode_lossy(bytes.as_slice());
                    let reply = respond(request, &mut self.store);
                    self.state = SessionState::Processing;
                    SessionAction::Write(reply)
                }
            },
            (SessionState::Processing, SessionEvent::ReplyWritten) => {
                self.state = SessionState::AwaitingRequest;
                SessionAction::Read
            },
            _ => {
                self.state = SessionState::Closed;
                SessionAction::Stop
            },
        }
    }
}

} // verus!

//! The life of one connection, seen from either end.
//!
//! A connection is driven by events that its owner reports (the transport
//! opened, bytes arrived, the stream ended, a timer fired) and answers each
//! with the actions that the owner has to carry out. The machines themselves
//! never touch a socket.

use vstd::prelude::*;
use crate::connection::client::{client_on_message, client_on_response, ClientView};
use crate::connection::server::{acceptance_text, greeting_text, server_on_request, ServerView};
use crate::error::ErrorView;
use crate::frame::{frame_of, MAX_FRAME_LEN};
use crate::json::text_view;
use crate::messages::handshake::{AuthRequestView, AuthResponseView};
use crate::messages::server::{GreetingMessageView, ServerMessageKindView, ServerMessageView};

pub mod client;
pub mod server;

verus! {

/// Where a connection stands. A connection only ever moves forward through
/// these states, and `Closed` is final.
#[derive(Clone, Copy, Debug, PartialEq, Eq, Structural)]
pub enum State {
    /// The transport is being opened.
    Connecting,
    /// The authentication exchange is under way.
    Handshaking,
    /// The handshake succeeded; messages flow.
    Active,
    /// The session has ended in good order and the transport is being torn
    /// down.
    Closing,
    /// The transport is gone.
    Closed,
}

/// Something that the operator should see.
#[derive(Clone, Debug, PartialEq, Eq)]
pub enum Notice {
    /// The handshake succeeded under this username.
    Authenticated(String),
    /// The server's welcome text arrived.
    Motd(String),
    /// The peer said goodbye, with this reason if it gave one.
    Disconnected(Option<String>),
}

/// The mathematical value of a [`Notice`].
pub enum NoticeView {
    Authenticated(Seq<char>),
    Motd(Seq<char>),
    Disconnected(Option<Seq<char>>),
}

impl View for Notice {
    type V = NoticeView;

    open spec fn view(&self) -> NoticeView {
        match self {
            Notice::Authenticated(username) => NoticeView::Authenticated(username@),
            Notice::Motd(motd) => NoticeView::Motd(motd@),
            Notice::Disconnected(reason) => NoticeView::Disconnected(text_view(*reason)),
        }
    }
}

/// What the owner of a connection has to do next.
#[derive(Clone, Debug, PartialEq, Eq)]
pub enum Action {
    /// Write these bytes, which are one whole frame, to the transport.
    Send(Vec<u8>),
    /// Show or log this.
    Notify(Notice),
    /// Tear the transport down.
    Close,
}

/// The mathematical value of an [`Action`].
pub enum ActionView {
    Send(Seq<u8>),
    Notify(NoticeView),
    Close,
}

impl View for Action {
    type V = ActionView;

    open spec fn view(&self) -> ActionView {
        match self {
            Action::Send(bytes) => ActionView::Send(bytes@),
            Action::Notify(notice) => ActionView::Notify(notice@),
            Action::Close => ActionView::Close,
        }
    }
}

/// A list of actions, each by its view, in order.
pub open spec fn actions_view(actions: Seq<Action>) -> Seq<ActionView> {
    Seq::new(actions.len(), |i: int| actions[i]@)
}

/// Something that happened to a connection.
#[derive(Clone, Debug, PartialEq, Eq)]
pub enum Event {
    /// The transport is open. Only a client waits for this.
    Connected,
    /// These bytes arrived, after all that arrived before.
    Bytes(Vec<u8>),
    /// The peer closed the stream.
    EndOfStream,
    /// Nothing happened for the length of the idle window. Only a client
    /// keeps such a timer.
    IdleTimeout,
    /// The user of a client wants to leave, with this reason if any.
    Quit(Option<String>),
    /// Opening, reading or writing the transport failed.
    TransportFailed,
    /// The transport has been torn down.
    TransportClosed,
}

/// The mathematical value of an [`Event`].
pub enum EventView {
    Connected,
    Bytes(Seq<u8>),
    EndOfStream,
    IdleTimeout,
    Quit(Option<Seq<char>>),
    TransportFailed,
    TransportClosed,
}

impl View for Event {
    type V = EventView;

    open spec fn view(&self) -> EventView {
        match self {
            Event::Connected => EventView::Connected,
            Event::Bytes(bytes) => EventView::Bytes(bytes@),
            Event::EndOfStream => EventView::EndOfStream,
            Event::IdleTimeout => EventView::IdleTimeout,
            Event::Quit(reason) => EventView::Quit(text_view(*reason)),
            Event::TransportFailed => EventView::TransportFailed,
            Event::TransportClosed => EventView::TransportClosed,
        }
    }
}

/// How far along its life a connection is in this state.
pub open spec fn rank(state: State) -> nat {
    match state {
        State::Connecting => 0,
        State::Handshaking => 1,
        State::Active => 2,
        State::Closing => 3,
        State::Closed => 4,
    }
}

/// What holds of every connection, whichever end it is: there is no
/// authenticated username before the handshake has succeeded, there is one
/// while the session is active or closing, and only a closed connection has
/// an error.
pub open spec fn well_formed(
    state: State,
    username: Option<Seq<char>>,
    error: Option<ErrorView>,
) -> bool {
    &&& (state is Connecting || state is Handshaking) ==> username is None
    &&& (state is Active || state is Closing) ==> username is Some
    &&& error is Some ==> state is Closed
}

/// A handshake seen from both ends. When a client that awaits its answer
/// has asked for a name, and the request reaches a server connection that
/// awaits one, the server accepts under that name, tells its operator, and
/// sends its greeting once; when the answer and the greeting reach the
/// client, the client is authenticated under the same name and shows the
/// greeting. Both ends are then active. (All this if the two messages of the
/// server fit their frames.)
pub proof fn lemma_handshake_succeeds(c: ClientView, s: ServerView)
    requires
        c.state is Handshaking,
        s.state is Handshaking,
    ensures
        ({
            let name = c.requested;
            let served = server_on_request(
                s,
                Ok(AuthRequestView::AuthRequest { username: name }),
            );
            let accepted = client_on_response(
                c,
                Ok(AuthResponseView::AuthResponse { result: Ok(name) }),
            );
            let greeted = client_on_message(
                accepted.next,
                Ok(
                    ServerMessageView::FromServer(
                        ServerMessageKindView::Greeting(GreetingMessageView { motd: s.motd }),
                    ),
                ),
            );
            acceptance_text(name).len() <= MAX_FRAME_LEN && greeting_text(s.motd).len()
                <= MAX_FRAME_LEN ==> {
                &&& served.actions == seq![
                    ActionView::Send(frame_of(acceptance_text(name))),
                    ActionView::Notify(NoticeView::Authenticated(name)),
                    ActionView::Send(frame_of(greeting_text(s.motd))),
                ]
                &&& served.next == (ServerView { state: State::Active, username: Some(name), ..s })
                &&& accepted.actions == seq![ActionView::Notify(NoticeView::Authenticated(name))]
                &&& accepted.next == (ClientView { state: State::Active, username: Some(name), ..c })
                &&& greeted.actions == seq![ActionView::Notify(NoticeView::Motd(s.motd))]
                &&& greeted.next == accepted.next
            }
        }),
{
}

/// Whether frames are read in this state.
pub open spec fn reads_frames(state: State) -> bool {
    state is Handshaking || state is Active
}

} // verus!

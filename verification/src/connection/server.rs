//! The server's end of a connection, one for every connection accepted.

use vstd::prelude::*;
use crate::connection::{
    actions_view, rank, reads_frames, well_formed, Action, ActionView, Event, EventView, Notice,
    NoticeView, State,
};
use crate::error::{option_view, result_view, ErrorView, ProtocolError};
use crate::frame::{
    frame_of, head_of, lemma_head_of_longer, FrameDecoder, Head, MAX_FRAME_LEN,
};
use crate::json::{document_of, text_of, text_view};
use crate::messages::client::{
    client_message_in, ClientMessageKind, ClientMessageKindView, GoodbyeMessageView,
};
use crate::messages::handshake::{
    auth_request_in, auth_response_members, AuthRequest, AuthRequestView, AuthResponse,
    AuthResponseView,
};
use crate::messages::server::{
    server_members, GreetingMessage, GreetingMessageView, ServerMessage, ServerMessageKind,
    ServerMessageKindView, ServerMessageView,
};

verus! {

/// The mathematical value of a [`ServerConnection`].
pub struct ServerView {
    /// Where the connection stands.
    pub state: State,
    /// The welcome text that the server sends after the handshake.
    pub motd: Seq<char>,
    /// The username that the client authenticated with, once it has.
    pub username: Option<Seq<char>>,
    /// Why the connection closed, if it did not close in good order.
    pub error: Option<ErrorView>,
    /// The bytes that arrived and belong to no frame read so far.
    pub pending: Seq<u8>,
}

/// A server connection and the actions that it asks for.
pub struct ServerStep {
    pub next: ServerView,
    pub actions: Seq<ActionView>,
}

/// The connection stays as it is and asks for nothing.
pub open spec fn server_idle(s: ServerView) -> ServerStep {
    ServerStep { next: s, actions: Seq::empty() }
}

/// The connection fails: it is closed with `error`, and the transport is
/// torn down.
pub open spec fn server_failed(s: ServerView, error: ErrorView) -> ServerStep {
    ServerStep {
        next: ServerView { state: State::Closed, error: Some(error), ..s },
        actions: seq![ActionView::Close],
    }
}

/// The text of the answer that accepts `username`.
pub open spec fn acceptance_text(username: Seq<char>) -> Seq<u8> {
    text_of(auth_response_members(AuthResponseView::AuthResponse { result: Ok(username) }))
}

/// The text of the greeting that carries `motd`.
pub open spec fn greeting_text(motd: Seq<char>) -> Seq<u8> {
    text_of(
        server_members(
            ServerMessageView::FromServer(
                ServerMessageKindView::Greeting(GreetingMessageView { motd }),
            ),
        ),
    )
}

/// The authentication request arrived, or what arrived could not be read as
/// one. Every request is accepted under the name it asks for: the server
/// answers, binds the username, and greets the client once. Anything
/// unreadable closes the connection.
pub open spec fn server_on_request(
    s: ServerView,
    request: Result<AuthRequestView, ErrorView>,
) -> ServerStep {
    if !(s.state is Handshaking) {
        server_idle(s)
    } else {
        match request {
            Ok(AuthRequestView::AuthRequest { username }) => {
                let accepted = seq![
                    ActionView::Send(frame_of(acceptance_text(username))),
                    ActionView::Notify(NoticeView::Authenticated(username)),
                ];
                if acceptance_text(username).len() > MAX_FRAME_LEN {
                    server_failed(s, ErrorView::Framing)
                } else if greeting_text(s.motd).len() > MAX_FRAME_LEN {
                    ServerStep {
                        next: ServerView {
                            state: State::Closed,
                            username: Some(username),
                            error: Some(ErrorView::Framing),
                            ..s
                        },
                        actions: accepted.push(ActionView::Close),
                    }
                } else {
                    ServerStep {
                        next: ServerView { state: State::Active, username: Some(username), ..s },
                        actions: accepted.push(ActionView::Send(frame_of(greeting_text(s.motd)))),
                    }
                }
            },
            Err(e) => server_failed(s, e),
        }
    }
}

/// A message arrived on the active connection, or what arrived could not be
/// read as one. A farewell is noted with its reason and the connection
/// closes in good order, with nothing more sent; anything unreadable closes
/// it with the error.
pub open spec fn server_on_message(
    s: ServerView,
    message: Result<ClientMessageKindView, ErrorView>,
) -> ServerStep {
    if !(s.state is Active) {
        server_idle(s)
    } else {
        match message {
            Ok(ClientMessageKindView::Goodbye(goodbye)) => ServerStep {
                next: ServerView { state: State::Closing, ..s },
                actions: seq![
                    ActionView::Notify(NoticeView::Disconnected(goodbye.reason)),
                    ActionView::Close,
                ],
            },
            Err(e) => server_failed(s, e),
        }
    }
}

/// One frame arrived. It is read as the message that the state expects.
pub open spec fn server_on_frame(s: ServerView, payload: Seq<u8>) -> ServerStep {
    match s.state {
        State::Handshaking => server_on_request(s, auth_request_in(document_of(payload))),
        State::Active => server_on_message(s, client_message_in(document_of(payload))),
        _ => server_idle(s),
    }
}

/// Reads the frames that stand whole in the pending bytes, strictly in the
/// order of their arrival, for as long as the connection reads frames.
pub open spec fn server_drain(s: ServerView) -> ServerStep
    decreases s.pending.len(),
{
    if !reads_frames(s.state) {
        server_idle(s)
    } else {
        match head_of(s.pending) {
            Head::Incomplete => server_idle(s),
            Head::Oversized => server_failed(s, ErrorView::Framing),
            Head::Frame { payload, rest } => {
                let first = server_on_frame(ServerView { pending: rest, ..s }, payload);
                let then = server_drain(first.next);
                ServerStep { next: then.next, actions: first.actions + then.actions }
            },
        }
    }
}

/// Bytes arrived.
pub open spec fn server_on_bytes(s: ServerView, bytes: Seq<u8>) -> ServerStep {
    if reads_frames(s.state) {
        server_drain(ServerView { pending: s.pending + bytes, ..s })
    } else {
        server_idle(s)
    }
}

/// The peer closed the stream. Inside a frame that is a framing error;
/// otherwise the server still awaited a request or a farewell, so the close
/// is unexpected.
pub open spec fn server_end_of_stream(s: ServerView) -> ServerStep {
    match s.state {
        State::Handshaking | State::Active => if s.pending.len() > 0 {
            server_failed(s, ErrorView::Framing)
        } else {
            server_failed(s, ErrorView::UnexpectedClose)
        },
        State::Closing => ServerStep {
            next: ServerView { state: State::Closed, ..s },
            actions: Seq::empty(),
        },
        _ => server_idle(s),
    }
}

/// The transport failed.
pub open spec fn server_transport_failed(s: ServerView) -> ServerStep {
    match s.state {
        State::Connecting | State::Handshaking | State::Active => server_failed(
            s,
            ErrorView::Transport,
        ),
        State::Closing => ServerStep {
            next: ServerView { state: State::Closed, ..s },
            actions: Seq::empty(),
        },
        State::Closed => server_idle(s),
    }
}

/// The transport has been torn down.
pub open spec fn server_transport_closed(s: ServerView) -> ServerStep {
    if s.state is Closing {
        ServerStep { next: ServerView { state: State::Closed, ..s }, actions: Seq::empty() }
    } else {
        server_idle(s)
    }
}

/// What a server connection makes of an event: its next value, and the
/// actions it asks for, in the order in which they are to be carried out.
/// The events that only a client knows leave it unmoved.
pub open spec fn server_step(s: ServerView, event: EventView) -> ServerStep {
    match event {
        EventView::Bytes(bytes) => server_on_bytes(s, bytes),
        EventView::EndOfStream => server_end_of_stream(s),
        EventView::TransportFailed => server_transport_failed(s),
        EventView::TransportClosed => server_transport_closed(s),
        EventView::Connected | EventView::IdleTimeout | EventView::Quit(_) => server_idle(s),
    }
}

/// What holds of every server connection that can come about.
pub open spec fn server_wf(s: ServerView) -> bool {
    well_formed(s.state, s.username, s.error)
}

/// How a later value of a server connection relates to an earlier one: the
/// state has not gone back, the welcome text is the same, a username once
/// bound is still bound to the same name, and the connection is still well
/// formed.
pub open spec fn server_follows(before: ServerView, after: ServerView) -> bool {
    &&& rank(after.state) >= rank(before.state)
    &&& after.motd == before.motd
    &&& before.username is Some ==> after.username == before.username
    &&& after.username is Some && before.username is None ==> before.state is Handshaking
    &&& server_wf(after)
}

/// Reading frames keeps a server connection in order.
pub proof fn lemma_server_drain_is_orderly(s: ServerView)
    requires
        server_wf(s),
    ensures
        server_follows(s, server_drain(s).next),
    decreases s.pending.len(),
{
    if reads_frames(s.state) {
        match head_of(s.pending) {
            Head::Frame { payload, rest } => {
                let first = server_on_frame(ServerView { pending: rest, ..s }, payload);
                lemma_server_drain_is_orderly(first.next);
            },
            _ => {},
        }
    }
}

/// Every event keeps a server connection in order: its state never goes
/// back, and the authenticated username is bound at most once, by the
/// handshake, and never changes afterwards.
pub proof fn lemma_server_step_is_orderly(s: ServerView, event: EventView)
    requires
        server_wf(s),
    ensures
        server_follows(s, server_step(s, event).next),
{
    match event {
        EventView::Bytes(bytes) => {
            if reads_frames(s.state) {
                lemma_server_drain_is_orderly(ServerView { pending: s.pending + bytes, ..s });
            }
        },
        _ => {},
    }
}

/// Whether two values of a server agree in all but the bytes that wait.
pub open spec fn server_same_session(a: ServerView, b: ServerView) -> bool {
    &&& a.state == b.state
    &&& a.motd == b.motd
    &&& a.username == b.username
    &&& a.error == b.error
}

/// Reading what has arrived and then taking in more bytes comes to the same
/// as reading all of it at once.
pub proof fn lemma_server_drain_in_two(s: ServerView, more: Seq<u8>)
    ensures
        ({
            let whole = server_drain(ServerView { pending: s.pending + more, ..s });
            let first = server_drain(s);
            let second = server_on_bytes(first.next, more);
            &&& whole.actions == first.actions + second.actions
            &&& server_same_session(whole.next, second.next)
            &&& reads_frames(whole.next.state) ==> whole.next.pending == second.next.pending
        }),
    decreases s.pending.len(),
{
    lemma_head_of_longer(s.pending, more);
    if reads_frames(s.state) {
        match head_of(s.pending) {
            Head::Frame { payload, rest } => {
                let step = server_on_frame(ServerView { pending: rest, ..s }, payload);
                lemma_server_drain_in_two(step.next, more);
            },
            _ => {},
        }
    }
}

/// However the bytes of a stream are cut into reads, a server does the same:
/// taking in two pieces one after the other asks for the same actions, in
/// the same order, and leads to the same session as taking in both at once.
pub proof fn lemma_server_reads_do_not_matter(s: ServerView, a: Seq<u8>, b: Seq<u8>)
    ensures
        ({
            let whole = server_on_bytes(s, a + b);
            let first = server_on_bytes(s, a);
            let second = server_on_bytes(first.next, b);
            &&& whole.actions == first.actions + second.actions
            &&& server_same_session(whole.next, second.next)
            &&& reads_frames(whole.next.state) ==> whole.next.pending == second.next.pending
        }),
{
    if reads_frames(s.state) {
        let taken = ServerView { pending: s.pending + a, ..s };
        assert(s.pending + (a + b) =~= taken.pending + b);
        lemma_server_drain_in_two(taken, b);
    }
}

/// A closed connection stays closed and asks for nothing more, whatever
/// happens.
pub proof fn lemma_server_closed_is_final(s: ServerView, event: EventView)
    requires
        s.state is Closed,
    ensures
        server_step(s, event) == server_idle(s),
{
}

/// After a farewell the server sends nothing: it notes the reason, asks for
/// the transport to be torn down, and is closed once that is done.
pub proof fn lemma_goodbye_ends_the_session(s: ServerView, reason: Option<Seq<char>>)
    requires
        server_wf(s),
        s.state is Active,
    ensures
        ({
            let goodbye = ClientMessageKindView::Goodbye(GoodbyeMessageView { reason });
            let step = server_on_message(s, Ok(goodbye));
            &&& step.actions == seq![
                ActionView::Notify(NoticeView::Disconnected(reason)),
                ActionView::Close,
            ]
            &&& step.next == (ServerView { state: State::Closing, ..s })
            &&& server_step(step.next, EventView::TransportClosed).next.state is Closed
            &&& server_step(step.next, EventView::TransportClosed).next.error is None
        }),
{
}

/// Whether none of the actions sends anything.
pub open spec fn sends_nothing(actions: Seq<ActionView>) -> bool {
    forall|i: int| 0 <= i < actions.len() ==> !(#[trigger] actions[i] is Send)
}

/// Past the handshake, reading frames makes the server send nothing.
pub proof fn lemma_server_drain_sends_nothing(s: ServerView)
    requires
        !(s.state is Connecting),
        !(s.state is Handshaking),
    ensures
        sends_nothing(server_drain(s).actions),
    decreases s.pending.len(),
{
    if reads_frames(s.state) {
        match head_of(s.pending) {
            Head::Frame { payload, rest } => {
                let first = server_on_frame(ServerView { pending: rest, ..s }, payload);
                lemma_server_drain_sends_nothing(first.next);
            },
            _ => {},
        }
    }
}

/// The server speaks during the handshake only: it answers the request and
/// greets the client once, and whatever happens afterwards, it sends nothing
/// more. In particular it sends nothing in answer to a farewell.
pub proof fn lemma_server_greets_once(s: ServerView, event: EventView)
    requires
        !(s.state is Connecting),
        !(s.state is Handshaking),
    ensures
        sends_nothing(server_step(s, event).actions),
{
    match event {
        EventView::Bytes(bytes) => {
            if reads_frames(s.state) {
                lemma_server_drain_sends_nothing(ServerView { pending: s.pending + bytes, ..s });
            }
        },
        _ => {},
    }
}

/// When the stream ends while the server still awaits a request or a
/// farewell, the connection fails: as an unexpected close between frames, as
/// a framing error inside one.
pub proof fn lemma_server_close_is_an_error(s: ServerView)
    requires
        reads_frames(s.state),
    ensures
        server_step(s, EventView::EndOfStream).next.state is Closed,
        server_step(s, EventView::EndOfStream).next.error == Some(
            if s.pending.len() > 0 {
                ErrorView::Framing
            } else {
                ErrorView::UnexpectedClose
            },
        ),
{
}

/// The server's end of one accepted connection: the state of the session,
/// and the bytes that have arrived but not yet made a whole frame.
pub struct ServerConnection {
    state: State,
    motd: String,
    username: Option<String>,
    error: Option<ProtocolError>,
    decoder: FrameDecoder,
}

impl View for ServerConnection {
    type V = ServerView;

    closed spec fn view(&self) -> ServerView {
        ServerView {
            state: self.state,
            motd: self.motd@,
            username: text_view(self.username),
            error: option_view(self.error),
            pending: self.decoder@,
        }
    }
}

impl ServerConnection {
    /// The server's end of a connection that was just accepted; `motd` is
    /// the welcome text to send once the client is authenticated.
    pub fn new(motd: String) -> (s: ServerConnection)
        ensures
            s@ == (ServerView {
                state: State::Handshaking,
                motd: motd@,
                username: None,
                error: None,
                pending: Seq::empty(),
            }),
            server_wf(s@),
    {
        ServerConnection {
            state: State::Handshaking,
            motd,
            username: None,
            error: None,
            decoder: FrameDecoder::new(),
        }
    }

    /// Where the connection stands.
    pub fn state(&self) -> (state: State)
        ensures
            state == self@.state,
    {
        self.state
    }

    /// The username that the client authenticated with, once it has.
    pub fn username(&self) -> (username: Option<&String>)
        ensures
            option_view(username) == self@.username,
    {
        self.username.as_ref()
    }

    /// Why the connection closed, if it did not close in good order.
    pub fn error(&self) -> (error: Option<&ProtocolError>)
        ensures
            option_view(error) == self@.error,
    {
        self.error.as_ref()
    }

    /// Closes the connection with `error`.
    fn fail(&mut self, error: ProtocolError) -> (actions: Vec<Action>)
        ensures
            final(self)@ == server_failed(old(self)@, error@).next,
            actions_view(actions@) == server_failed(old(self)@, error@).actions,
    {
        self.state = State::Closed;
        self.error = Some(error);
        let mut actions: Vec<Action> = Vec::new();
        actions.push(Action::Close);
        actions
    }

    /// Takes in the authentication request, or the error in which reading
    /// it ended. Outside the handshake nothing happens.
    pub fn on_request(&mut self, request: Result<AuthRequest, ProtocolError>) -> (actions: Vec<
        Action,
    >)
        ensures
            final(self)@ == server_on_request(old(self)@, result_view(request)).next,
            actions_view(actions@) == server_on_request(old(self)@, result_view(request)).actions,
            server_wf(old(self)@) ==> server_wf(final(self)@),
    {
        match self.state {
            State::Handshaking => {},
            _ => {
                return Vec::new();
            },
        }
        let username: String = match request {
            Ok(AuthRequest::AuthRequest { username }) => username,
            Err(e) => {
                return self.fail(e);
            },
        };
        let response = AuthResponse::AuthResponse { result: Ok(username.clone()) };
        let response_frame: Vec<u8> = match response.to_frame() {
            Ok(frame) => frame,
            Err(e) => {
                return self.fail(e);
            },
        };
        let greeting = ServerMessage::FromServer(
            ServerMessageKind::Greeting(GreetingMessage { motd: self.motd.clone() }),
        );
        let mut actions: Vec<Action> = Vec::new();
        actions.push(Action::Send(response_frame));
        actions.push(Action::Notify(Notice::Authenticated(username.clone())));
        self.username = Some(username);
        match greeting.to_frame() {
            Ok(frame) => {
                self.state = State::Active;
                actions.push(Action::Send(frame));
            },
            Err(e) => {
                self.state = State::Closed;
                self.error = Some(e);
                actions.push(Action::Close);
            },
        }
        actions
    }

    /// Takes in a message of the active session, or the error in which
    /// reading it ended. Outside the active session nothing happens.
    pub fn on_message(&mut self, message: Result<ClientMessageKind, ProtocolError>) -> (actions:
        Vec<Action>)
        ensures
            final(self)@ == server_on_message(old(self)@, result_view(message)).next,
            actions_view(actions@) == server_on_message(old(self)@, result_view(message)).actions,
            server_wf(old(self)@) ==> server_wf(final(self)@),
    {
        match self.state {
            State::Active => {},
            _ => {
                return Vec::new();
            },
        }
        match message {
            Ok(ClientMessageKind::Goodbye(goodbye)) => {
                self.state = State::Closing;
                let mut actions: Vec<Action> = Vec::new();
                actions.push(Action::Notify(Notice::Disconnected(goodbye.reason)));
                actions.push(Action::Close);
                actions
            },
            Err(e) => self.fail(e),
        }
    }

    /// Takes in the payload of one frame and reads it as the message that
    /// the state expects.
    pub fn on_frame(&mut self, payload: &[u8]) -> (actions: Vec<Action>)
        ensures
            final(self)@ == server_on_frame(old(self)@, payload@).next,
            actions_view(actions@) == server_on_frame(old(self)@, payload@).actions,
            server_wf(old(self)@) ==> server_wf(final(self)@),
    {
        match self.state {
            State::Handshaking => self.on_request(AuthRequest::decode(payload)),
            State::Active => self.on_message(ClientMessageKind::decode(payload)),
            _ => Vec::new(),
        }
    }

    /// Whether frames are read in the present state.
    fn reads(&self) -> (r: bool)
        ensures
            r == reads_frames(self@.state),
    {
        match self.state {
            State::Handshaking => true,
            State::Active => true,
            _ => false,
        }
    }

    /// Takes in bytes that arrived and reads every frame that they complete.
    fn on_bytes(&mut self, bytes: &[u8]) -> (actions: Vec<Action>)
        ensures
            final(self)@ == server_on_bytes(old(self)@, bytes@).next,
            actions_view(actions@) == server_on_bytes(old(self)@, bytes@).actions,
    {
        let mut actions: Vec<Action> = Vec::new();
        if !self.reads() {
            return actions;
        }
        self.decoder.push(bytes);
        let ghost start = self@;
        loop
            invariant
                server_drain(start).next == server_drain(self@).next,
                server_drain(start).actions == actions_view(actions@) + server_drain(
                    self@,
                ).actions,
            ensures
                self@ == server_drain(start).next,
                actions_view(actions@) == server_drain(start).actions,
            decreases self@.pending.len(),
        {
            if !self.reads() {
                break;
            }
            match self.decoder.next_frame() {
                Ok(None) => {
                    break;
                },
                Err(e) => {
                    let mut last = self.fail(e);
                    actions.append(&mut last);
                    break;
                },
                Ok(Some(payload)) => {
                    let mut more = self.on_frame(payload.as_slice());
                    actions.append(&mut more);
                },
            }
        }
        actions
    }

    /// Takes note that the peer closed the stream.
    fn end_of_stream(&mut self) -> (actions: Vec<Action>)
        ensures
            final(self)@ == server_end_of_stream(old(self)@).next,
            actions_view(actions@) == server_end_of_stream(old(self)@).actions,
    {
        match self.state {
            State::Handshaking | State::Active => {
                if self.decoder.pending() > 0 {
                    self.fail(ProtocolError::Framing)
                } else {
                    self.fail(ProtocolError::UnexpectedClose)
                }
            },
            State::Closing => {
                self.state = State::Closed;
                Vec::new()
            },
            _ => Vec::new(),
        }
    }

    /// Takes note that the transport failed.
    fn transport_failed(&mut self) -> (actions: Vec<Action>)
        ensures
            final(self)@ == server_transport_failed(old(self)@).next,
            actions_view(actions@) == server_transport_failed(old(self)@).actions,
    {
        match self.state {
            State::Closing => {
                self.state = State::Closed;
                Vec::new()
            },
            State::Closed => Vec::new(),
            _ => self.fail(ProtocolError::Transport),
        }
    }

    /// Takes note that the transport has been torn down.
    fn transport_closed(&mut self) -> (actions: Vec<Action>)
        ensures
            final(self)@ == server_transport_closed(old(self)@).next,
            actions_view(actions@) == server_transport_closed(old(self)@).actions,
    {
        match self.state {
            State::Closing => {
                self.state = State::Closed;
            },
            _ => {},
        }
        Vec::new()
    }

    /// Takes in an event and answers with the actions to carry out, in
    /// order.
    pub fn handle(&mut self, event: Event) -> (actions: Vec<Action>)
        ensures
            final(self)@ == server_step(old(self)@, event@).next,
            actions_view(actions@) == server_step(old(self)@, event@).actions,
            server_wf(old(self)@) ==> server_wf(final(self)@),
    {
        proof {
            if server_wf(self@) {
                lemma_server_step_is_orderly(self@, event@);
            }
        }
        match event {
            Event::Bytes(bytes) => self.on_bytes(bytes.as_slice()),
            Event::EndOfStream => self.end_of_stream(),
            Event::TransportFailed => self.transport_failed(),
            Event::TransportClosed => self.transport_closed(),
            Event::Connected => Vec::new(),
            Event::IdleTimeout => Vec::new(),
            Event::Quit(_) => Vec::new(),
        }
    }
}

} // verus!

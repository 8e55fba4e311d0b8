//! The client's end of a connection.

use vstd::prelude::*;
use crate::connection::{
    actions_view, rank, reads_frames, well_formed, Action, ActionView, Event, EventView, Notice,
    NoticeView, State,
};
use crate::error::{option_view, result_view, ErrorView, ProtocolError};
use crate::frame::{
    frame_of, head_of, lemma_frame_round_trip, lemma_head_of_longer, FrameDecoder, Head,
    MAX_FRAME_LEN,
};
use crate::json::{document_of, text_of, text_view};
use crate::messages::client::{
    client_members, ClientMessageKind, ClientMessageKindView, GoodbyeMessage, GoodbyeMessageView,
};
use crate::messages::handshake::{
    auth_request_members, auth_response_in, AuthRequest, AuthRequestView, AuthResponse,
    AuthResponseView,
};
use crate::messages::server::{
    server_message_in, ServerMessage, ServerMessageKind, ServerMessageKindView, ServerMessageView,
};

verus! {

/// The mathematical value of a [`ClientConnection`].
pub struct ClientView {
    /// Where the connection stands.
    pub state: State,
    /// The username that the client asks for.
    pub requested: Seq<char>,
    /// The username that the server accepted, once it has.
    pub username: Option<Seq<char>>,
    /// Why the connection closed, if it did not close in good order.
    pub error: Option<ErrorView>,
    /// The bytes that arrived and belong to no frame read so far.
    pub pending: Seq<u8>,
}

/// A client and the actions that it asks for.
pub struct ClientStep {
    pub next: ClientView,
    pub actions: Seq<ActionView>,
}

/// The client stays as it is and asks for nothing.
pub open spec fn client_idle(c: ClientView) -> ClientStep {
    ClientStep { next: c, actions: Seq::empty() }
}

/// The connection fails: it is closed with `error`, and the transport is
/// torn down.
pub open spec fn client_failed(c: ClientView, error: ErrorView) -> ClientStep {
    ClientStep {
        next: ClientView { state: State::Closed, error: Some(error), ..c },
        actions: seq![ActionView::Close],
    }
}

/// The text of the request that opens the handshake.
pub open spec fn request_text(username: Seq<char>) -> Seq<u8> {
    text_of(auth_request_members(AuthRequestView::AuthRequest { username }))
}

/// The text of a farewell.
pub open spec fn goodbye_text(reason: Option<Seq<char>>) -> Seq<u8> {
    text_of(client_members(ClientMessageKindView::Goodbye(GoodbyeMessageView { reason })))
}

/// The transport opened: the client sends its request and awaits the answer.
pub open spec fn client_connected(c: ClientView) -> ClientStep {
    if !(c.state is Connecting) {
        client_idle(c)
    } else if request_text(c.requested).len() > MAX_FRAME_LEN {
        client_failed(c, ErrorView::Framing)
    } else {
        ClientStep {
            next: ClientView { state: State::Handshaking, ..c },
            actions: seq![ActionView::Send(frame_of(request_text(c.requested)))],
        }
    }
}

/// The answer to the request arrived, or what arrived could not be read as
/// one. Acceptance binds the username and makes the connection active; a
/// refusal, or anything else, closes it.
pub open spec fn client_on_response(
    c: ClientView,
    response: Result<AuthResponseView, ErrorView>,
) -> ClientStep {
    if !(c.state is Handshaking) {
        client_idle(c)
    } else {
        match response {
            Ok(AuthResponseView::AuthResponse { result: Ok(username) }) => ClientStep {
                next: ClientView { state: State::Active, username: Some(username), ..c },
                actions: seq![ActionView::Notify(NoticeView::Authenticated(username))],
            },
            Ok(AuthResponseView::AuthResponse { result: Err(reason) }) => client_failed(
                c,
                ErrorView::HandshakeRejected(reason),
            ),
            Err(e) => client_failed(c, e),
        }
    }
}

/// A message arrived on the active connection, or what arrived could not be
/// read as one. A greeting is shown; a message forwarded from another client
/// is not expected and closes the connection, as does anything unreadable.
pub open spec fn client_on_message(
    c: ClientView,
    message: Result<ServerMessageView, ErrorView>,
) -> ClientStep {
    if !(c.state is Active) {
        client_idle(c)
    } else {
        match message {
            Ok(ServerMessageView::FromServer(ServerMessageKindView::Greeting(greeting))) => {
                ClientStep {
                    next: c,
                    actions: seq![ActionView::Notify(NoticeView::Motd(greeting.motd))],
                }
            },
            Ok(ServerMessageView::FromClient { .. }) => client_failed(c, ErrorView::Schema),
            Err(e) => client_failed(c, e),
        }
    }
}

/// One frame arrived. It is read as the message that the state expects.
pub open spec fn client_on_frame(c: ClientView, payload: Seq<u8>) -> ClientStep {
    match c.state {
        State::Handshaking => client_on_response(c, auth_response_in(document_of(payload))),
        State::Active => client_on_message(c, server_message_in(document_of(payload))),
        _ => client_idle(c),
    }
}

/// Reads the frames that stand whole in the pending bytes, strictly in the
/// order of their arrival, for as long as the connection reads frames.
pub open spec fn client_drain(c: ClientView) -> ClientStep
    decreases c.pending.len(),
{
    if !reads_frames(c.state) {
        client_idle(c)
    } else {
        match head_of(c.pending) {
            Head::Incomplete => client_idle(c),
            Head::Oversized => client_failed(c, ErrorView::Framing),
            Head::Frame { payload, rest } => {
                let first = client_on_frame(ClientView { pending: rest, ..c }, payload);
                let then = client_drain(first.next);
                ClientStep { next: then.next, actions: first.actions + then.actions }
            },
        }
    }
}

/// Bytes arrived.
pub open spec fn client_on_bytes(c: ClientView, bytes: Seq<u8>) -> ClientStep {
    if reads_frames(c.state) {
        client_drain(ClientView { pending: c.pending + bytes, ..c })
    } else {
        client_idle(c)
    }
}

/// The peer closed the stream. Inside a frame that is a framing error;
/// during the handshake the answer is still owed, so the close is
/// unexpected; on an active connection the session is simply over.
pub open spec fn client_end_of_stream(c: ClientView) -> ClientStep {
    match c.state {
        State::Handshaking => if c.pending.len() > 0 {
            client_failed(c, ErrorView::Framing)
        } else {
            client_failed(c, ErrorView::UnexpectedClose)
        },
        State::Active => if c.pending.len() > 0 {
            client_failed(c, ErrorView::Framing)
        } else {
            ClientStep {
                next: ClientView { state: State::Closed, ..c },
                actions: seq![ActionView::Close],
            }
        },
        State::Closing => ClientStep {
            next: ClientView { state: State::Closed, ..c },
            actions: Seq::empty(),
        },
        _ => client_idle(c),
    }
}

/// The client leaves: it says goodbye and closes without waiting for an
/// answer.
pub open spec fn client_quit(c: ClientView, reason: Option<Seq<char>>) -> ClientStep {
    if !(c.state is Active) {
        client_idle(c)
    } else if goodbye_text(reason).len() > MAX_FRAME_LEN {
        client_failed(c, ErrorView::Framing)
    } else {
        ClientStep {
            next: ClientView { state: State::Closing, ..c },
            actions: seq![ActionView::Send(frame_of(goodbye_text(reason))), ActionView::Close],
        }
    }
}

/// The transport failed.
pub open spec fn client_transport_failed(c: ClientView) -> ClientStep {
    match c.state {
        State::Connecting => ClientStep {
            next: ClientView { state: State::Closed, error: Some(ErrorView::Transport), ..c },
            actions: Seq::empty(),
        },
        State::Handshaking | State::Active => client_failed(c, ErrorView::Transport),
        State::Closing => ClientStep {
            next: ClientView { state: State::Closed, ..c },
            actions: Seq::empty(),
        },
        State::Closed => client_idle(c),
    }
}

/// The transport has been torn down.
pub open spec fn client_transport_closed(c: ClientView) -> ClientStep {
    if c.state is Closing {
        ClientStep { next: ClientView { state: State::Closed, ..c }, actions: Seq::empty() }
    } else {
        client_idle(c)
    }
}

/// What a client makes of an event: its next value, and the actions it asks
/// for, in the order in which they are to be carried out.
pub open spec fn client_step(c: ClientView, event: EventView) -> ClientStep {
    match event {
        EventView::Connected => client_connected(c),
        EventView::Bytes(bytes) => client_on_bytes(c, bytes),
        EventView::EndOfStream => client_end_of_stream(c),
        EventView::IdleTimeout => client_quit(c, Some("timed out"@)),
        EventView::Quit(reason) => client_quit(c, reason),
        EventView::TransportFailed => client_transport_failed(c),
        EventView::TransportClosed => client_transport_closed(c),
    }
}

/// What holds of every client that can come about.
pub open spec fn client_wf(c: ClientView) -> bool {
    well_formed(c.state, c.username, c.error)
}

/// How a later value of a client relates to an earlier one: the state has
/// not gone back, the requested name is the same, a username once bound is
/// still bound to the same name, and the client is still well formed.
pub open spec fn client_follows(before: ClientView, after: ClientView) -> bool {
    &&& rank(after.state) >= rank(before.state)
    &&& after.requested == before.requested
    &&& before.username is Some ==> after.username == before.username
    &&& after.username is Some && before.username is None ==> before.state is Handshaking
    &&& client_wf(after)
}

/// Reading frames keeps a client in order.
pub proof fn lemma_client_drain_is_orderly(c: ClientView)
    requires
        client_wf(c),
    ensures
        client_follows(c, client_drain(c).next),
    decreases c.pending.len(),
{
    if reads_frames(c.state) {
        match head_of(c.pending) {
            Head::Frame { payload, rest } => {
                let first = client_on_frame(ClientView { pending: rest, ..c }, payload);
                lemma_client_drain_is_orderly(first.next);
            },
            _ => {},
        }
    }
}

/// Every event keeps a client in order: its state never goes back, and the
/// authenticated username is bound at most once, by a handshake that
/// succeeds, and never changes afterwards.
pub proof fn lemma_client_step_is_orderly(c: ClientView, event: EventView)
    requires
        client_wf(c),
    ensures
        client_follows(c, client_step(c, event).next),
{
    match event {
        EventView::Bytes(bytes) => {
            if reads_frames(c.state) {
                lemma_client_drain_is_orderly(ClientView { pending: c.pending + bytes, ..c });
            }
        },
        _ => {},
    }
}

/// Whether two values of a client agree in all but the bytes that wait.
pub open spec fn client_same_session(a: ClientView, b: ClientView) -> bool {
    &&& a.state == b.state
    &&& a.requested == b.requested
    &&& a.username == b.username
    &&& a.error == b.error
}

/// Reading what has arrived and then taking in more bytes comes to the same
/// as reading all of it at once.
pub proof fn lemma_client_drain_in_two(c: ClientView, more: Seq<u8>)
    ensures
        ({
            let whole = client_drain(ClientView { pending: c.pending + more, ..c });
            let first = client_drain(c);
            let second = client_on_bytes(first.next, more);
            &&& whole.actions == first.actions + second.actions
            &&& client_same_session(whole.next, second.next)
            &&& reads_frames(whole.next.state) ==> whole.next.pending == second.next.pending
        }),
    decreases c.pending.len(),
{
    lemma_head_of_longer(c.pending, more);
    if reads_frames(c.state) {
        match head_of(c.pending) {
            Head::Frame { payload, rest } => {
                let step = client_on_frame(ClientView { pending: rest, ..c }, payload);
                lemma_client_drain_in_two(step.next, more);
            },
            _ => {},
        }
    }
}

/// However the bytes of a stream are cut into reads, a client does the same:
/// taking in two pieces one after the other asks for the same actions, in
/// the same order, and leads to the same session as taking in both at once.
pub proof fn lemma_client_reads_do_not_matter(c: ClientView, a: Seq<u8>, b: Seq<u8>)
    ensures
        ({
            let whole = client_on_bytes(c, a + b);
            let first = client_on_bytes(c, a);
            let second = client_on_bytes(first.next, b);
            &&& whole.actions == first.actions + second.actions
            &&& client_same_session(whole.next, second.next)
            &&& reads_frames(whole.next.state) ==> whole.next.pending == second.next.pending
        }),
{
    if reads_frames(c.state) {
        let taken = ClientView { pending: c.pending + a, ..c };
        assert(c.pending + (a + b) =~= taken.pending + b);
        lemma_client_drain_in_two(taken, b);
    }
}

/// A closed client stays closed and asks for nothing more, whatever happens.
pub proof fn lemma_client_closed_is_final(c: ClientView, event: EventView)
    requires
        c.state is Closed,
    ensures
        client_step(c, event) == client_idle(c),
{
}

/// When an active client leaves, it says goodbye with its reason and starts
/// to close: it asks for exactly that frame to be sent and for the transport
/// to be torn down, and is closed, without an error, once that is done. (A
/// farewell too long for a frame cannot be sent; the connection fails
/// instead.)
pub proof fn lemma_leaving_says_goodbye(c: ClientView, reason: Option<Seq<char>>)
    requires
        client_wf(c),
        c.state is Active,
    ensures
        ({
            let text = goodbye_text(reason);
            let step = client_step(c, EventView::Quit(reason));
            if text.len() <= MAX_FRAME_LEN {
                &&& step.actions == seq![ActionView::Send(frame_of(text)), ActionView::Close]
                &&& head_of(frame_of(text)) == (Head::Frame { payload: text, rest: Seq::empty() })
                &&& step.next == (ClientView { state: State::Closing, ..c })
                &&& client_step(step.next, EventView::TransportClosed).next.state is Closed
                &&& client_step(step.next, EventView::TransportClosed).next.error is None
            } else {
                step == client_failed(c, ErrorView::Framing)
            }
        }),
{
    let text = goodbye_text(reason);
    if text.len() <= MAX_FRAME_LEN {
        lemma_frame_round_trip(text, Seq::empty());
    }
}

/// When the idle timer fires, the client leaves on its own with the reason
/// "timed out": an active client then asks for the frame of that farewell to
/// be sent and for the transport to be torn down, and does nothing else.
pub proof fn lemma_idle_timeout_says_goodbye(c: ClientView)
    requires
        client_wf(c),
        c.state is Active,
    ensures
        client_step(c, EventView::IdleTimeout) == client_step(
            c,
            EventView::Quit(Some("timed out"@)),
        ),
        goodbye_text(Some("timed out"@)).len() <= MAX_FRAME_LEN ==> client_step(
            c,
            EventView::IdleTimeout,
        ) == (ClientStep {
            next: ClientView { state: State::Closing, ..c },
            actions: seq![
                ActionView::Send(frame_of(goodbye_text(Some("timed out"@)))),
                ActionView::Close,
            ],
        }),
{
    lemma_leaving_says_goodbye(c, Some("timed out"@));
}

/// When the stream ends while the client still awaits the answer to its
/// request, and no part of a frame has arrived, the handshake fails as an
/// unexpected close, not as a refusal.
pub proof fn lemma_close_during_handshake(c: ClientView)
    requires
        c.state is Handshaking,
        c.pending.len() == 0,
    ensures
        client_step(c, EventView::EndOfStream).next.state is Closed,
        client_step(c, EventView::EndOfStream).next.error == Some(ErrorView::UnexpectedClose),
{
}

/// When the stream ends inside a frame, the client fails with a framing
/// error; it does not take the end for a quiet one.
pub proof fn lemma_client_close_inside_frame(c: ClientView)
    requires
        reads_frames(c.state),
        c.pending.len() > 0,
    ensures
        client_step(c, EventView::EndOfStream).next.state is Closed,
        client_step(c, EventView::EndOfStream).next.error == Some(ErrorView::Framing),
{
}

/// The client's end of one connection: the state of the session, and the
/// bytes that have arrived but not yet made a whole frame.
pub struct ClientConnection {
    state: State,
    requested: String,
    username: Option<String>,
    error: Option<ProtocolError>,
    decoder: FrameDecoder,
}

impl View for ClientConnection {
    type V = ClientView;

    closed spec fn view(&self) -> ClientView {
        ClientView {
            state: self.state,
            requested: self.requested@,
            username: text_view(self.username),
            error: option_view(self.error),
            pending: self.decoder@,
        }
    }
}

impl ClientConnection {
    /// A client that will ask for `username`, before its transport is open.
    pub fn new(username: String) -> (c: ClientConnection)
        ensures
            c@ == (ClientView {
                state: State::Connecting,
                requested: username@,
                username: None,
                error: None,
                pending: Seq::empty(),
            }),
            client_wf(c@),
    {
        ClientConnection {
            state: State::Connecting,
            requested: username,
            username: None,
            error: None,
            decoder: FrameDecoder::new(),
        }
    }

    /// Where the connection stands.
    pub fn state(&self) -> (state: State)
        ensures
            state == self@.state,
    {
        self.state
    }

    /// The username that the server accepted, once it has.
    pub fn username(&self) -> (username: Option<&String>)
        ensures
            option_view(username) == self@.username,
    {
        self.username.as_ref()
    }

    /// Why the connection closed, if it did not close in good order.
    pub fn error(&self) -> (error: Option<&ProtocolError>)
        ensures
            option_view(error) == self@.error,
    {
        self.error.as_ref()
    }

    /// Closes the connection with `error`.
    fn fail(&mut self, error: ProtocolError) -> (actions: Vec<Action>)
        ensures
            final(self)@ == client_failed(old(self)@, error@).next,
            actions_view(actions@) == client_failed(old(self)@, error@).actions,
    {
        self.state = State::Closed;
        self.error = Some(error);
        let mut actions: Vec<Action> = Vec::new();
        actions.push(Action::Close);
        actions
    }

    /// Takes note that the transport is open.
    fn connected(&mut self) -> (actions: Vec<Action>)
        ensures
            final(self)@ == client_connected(old(self)@).next,
            actions_view(actions@) == client_connected(old(self)@).actions,
    {
        match self.state {
            State::Connecting => {},
            _ => {
                return Vec::new();
            },
        }
        let request = AuthRequest::AuthRequest { username: self.requested.clone() };
        match request.to_frame() {
            Ok(frame) => {
                self.state = State::Handshaking;
                let mut actions: Vec<Action> = Vec::new();
                actions.push(Action::Send(frame));
                actions
            },
            Err(e) => self.fail(e),
        }
    }

    /// Takes in the answer to the authentication request, or the error in
    /// which reading it ended. Outside the handshake nothing happens.
    pub fn on_response(&mut self, response: Result<AuthResponse, ProtocolError>) -> (actions: Vec<
        Action,
    >)
        ensures
            final(self)@ == client_on_response(old(self)@, result_view(response)).next,
            actions_view(actions@) == client_on_response(old(self)@, result_view(response)).actions,
            client_wf(old(self)@) ==> client_wf(final(self)@),
    {
        match self.state {
            State::Handshaking => {},
            _ => {
                return Vec::new();
            },
        }
        match response {
            Ok(AuthResponse::AuthResponse { result: Ok(username) }) => {
                self.state = State::Active;
                self.username = Some(username.clone());
                let mut actions: Vec<Action> = Vec::new();
                actions.push(Action::Notify(Notice::Authenticated(username)));
                actions
            },
            Ok(AuthResponse::AuthResponse { result: Err(reason) }) => self.fail(
                ProtocolError::HandshakeRejected(reason),
            ),
            Err(e) => self.fail(e),
        }
    }

    /// Takes in a message of the active session, or the error in which
    /// reading it ended. Outside the active session nothing happens.
    pub fn on_message(&mut self, message: Result<ServerMessage, ProtocolError>) -> (actions: Vec<
        Action,
    >)
        ensures
            final(self)@ == client_on_message(old(self)@, result_view(message)).next,
            actions_view(actions@) == client_on_message(old(self)@, result_view(message)).actions,
            client_wf(old(self)@) ==> client_wf(final(self)@),
    {
        match self.state {
            State::Active => {},
            _ => {
                return Vec::new();
            },
        }
        match message {
            Ok(ServerMessage::FromServer(ServerMessageKind::Greeting(greeting))) => {
                let mut actions: Vec<Action> = Vec::new();
                actions.push(Action::Notify(Notice::Motd(greeting.motd)));
                actions
            },
            Ok(ServerMessage::FromClient { .. }) => self.fail(ProtocolError::Schema),
            Err(e) => self.fail(e),
        }
    }

    /// Takes in the payload of one frame and reads it as the message that
    /// the state expects.
    pub fn on_frame(&mut self, payload: &[u8]) -> (actions: Vec<Action>)
        ensures
            final(self)@ == client_on_frame(old(self)@, payload@).next,
            actions_view(actions@) == client_on_frame(old(self)@, payload@).actions,
            client_wf(old(self)@) ==> client_wf(final(self)@),
    {
        match self.state {
            State::Handshaking => self.on_response(AuthResponse::decode(payload)),
            State::Active => self.on_message(ServerMessage::decode(payload)),
            _ => Vec::new(),
        }
    }

    /// Whether frames are read in the present state.
    fn reads(&self) -> (r: bool)
        ensures
            r == reads_frames(self@.state),
    {
        match self.state {
            State::Handshaking => true,
            State::Active => true,
            _ => false,
        }
    }

    /// Takes in bytes that arrived and reads every frame that they complete.
    fn on_bytes(&mut self, bytes: &[u8]) -> (actions: Vec<Action>)
        ensures
            final(self)@ == client_on_bytes(old(self)@, bytes@).next,
            actions_view(actions@) == client_on_bytes(old(self)@, bytes@).actions,
    {
        let mut actions: Vec<Action> = Vec::new();
        if !self.reads() {
            return actions;
        }
        self.decoder.push(bytes);
        let ghost start = self@;
        loop
            invariant
                client_drain(start).next == client_drain(self@).next,
                client_drain(start).actions == actions_view(actions@) + client_drain(
                    self@,
                ).actions,
            ensures
                self@ == client_drain(start).next,
                actions_view(actions@) == client_drain(start).actions,
            decreases self@.pending.len(),
        {
            if !self.reads() {
                break;
            }
            match self.decoder.next_frame() {
                Ok(None) => {
                    break;
                },
                Err(e) => {
                    let mut last = self.fail(e);
                    actions.append(&mut last);
                    break;
                },
                Ok(Some(payload)) => {
                    let mut more = self.on_frame(payload.as_slice());
                    actions.append(&mut more);
                },
            }
        }
        actions
    }

    /// Takes note that the peer closed the stream.
    fn end_of_stream(&mut self) -> (actions: Vec<Action>)
        ensures
            final(self)@ == client_end_of_stream(old(self)@).next,
            actions_view(actions@) == client_end_of_stream(old(self)@).actions,
    {
        match self.state {
            State::Handshaking => {
                if self.decoder.pending() > 0 {
                    self.fail(ProtocolError::Framing)
                } else {
                    self.fail(ProtocolError::UnexpectedClose)
                }
            },
            State::Active => {
                if self.decoder.pending() > 0 {
                    self.fail(ProtocolError::Framing)
                } else {
                    self.state = State::Closed;
                    let mut actions: Vec<Action> = Vec::new();
                    actions.push(Action::Close);
                    actions
                }
            },
            State::Closing => {
                self.state = State::Closed;
                Vec::new()
            },
            _ => Vec::new(),
        }
    }

    /// Says goodbye and starts to close.
    fn quit(&mut self, reason: Option<String>) -> (actions: Vec<Action>)
        ensures
            final(self)@ == client_quit(old(self)@, text_view(reason)).next,
            actions_view(actions@) == client_quit(old(self)@, text_view(reason)).actions,
    {
        match self.state {
            State::Active => {},
            _ => {
                return Vec::new();
            },
        }
        let goodbye = ClientMessageKind::Goodbye(GoodbyeMessage { reason });
        match goodbye.to_frame() {
            Ok(frame) => {
                self.state = State::Closing;
                let mut actions: Vec<Action> = Vec::new();
                actions.push(Action::Send(frame));
                actions.push(Action::Close);
                actions
            },
            Err(e) => self.fail(e),
        }
    }

    /// Takes note that the transport failed.
    fn transport_failed(&mut self) -> (actions: Vec<Action>)
        ensures
            final(self)@ == client_transport_failed(old(self)@).next,
            actions_view(actions@) == client_transport_failed(old(self)@).actions,
    {
        match self.state {
            State::Connecting => {
                self.state = State::Closed;
                self.error = Some(ProtocolError::Transport);
                Vec::new()
            },
            State::Handshaking => self.fail(ProtocolError::Transport),
            State::Active => self.fail(ProtocolError::Transport),
            State::Closing => {
                self.state = State::Closed;
                Vec::new()
            },
            State::Closed => Vec::new(),
        }
    }

    /// Takes note that the transport has been torn down.
    fn transport_closed(&mut self) -> (actions: Vec<Action>)
        ensures
            final(self)@ == client_transport_closed(old(self)@).next,
            actions_view(actions@) == client_transport_closed(old(self)@).actions,
    {
        match self.state {
            State::Closing => {
                self.state = State::Closed;
            },
            _ => {},
        }
        Vec::new()
    }

    /// Takes in an event and answers with the actions to carry out, in
    /// order.
    pub fn handle(&mut self, event: Event) -> (actions: Vec<Action>)
        ensures
            final(self)@ == client_step(old(self)@, event@).next,
            actions_view(actions@) == client_step(old(self)@, event@).actions,
            client_wf(old(self)@) ==> client_wf(final(self)@),
    {
        proof {
            if client_wf(self@) {
                lemma_client_step_is_orderly(self@, event@);
            }
        }
        match event {
            Event::Connected => self.connected(),
            Event::Bytes(bytes) => self.on_bytes(bytes.as_slice()),
            Event::EndOfStream => self.end_of_stream(),
            Event::IdleTimeout => self.quit(Some("timed out".to_owned())),
            Event::Quit(reason) => self.quit(reason),
            Event::TransportFailed => self.transport_failed(),
            Event::TransportClosed => self.transport_closed(),
        }
    }
}

} // verus!

//! What the server says to a client once the client is authenticated.

use vstd::prelude::*;
use crate::error::{option_view, result_view, schema, ErrorView, ProtocolError};
use crate::frame::{
    encode_frame, frame_of, head_of, lemma_frame_round_trip, Head, MAX_FRAME_LEN,
};
use crate::json::{
    distinct_keys, document_of, find_text, first_among, has_text, members_in, members_view,
    new_text_member, parse_members, text_at, text_member, text_of, writable, write_object,
    DocumentView, Member, MemberView,
};
use crate::messages::client::{
    client_members, client_message_of, lemma_client_members_sound, lemma_client_round_trip,
    ClientMessageKind, ClientMessageKindView,
};
use crate::messages::{lemma_keys_differ, lemma_tags_differ};

verus! {

/// A message from the server. The two variants carry no tag of their own:
/// a forwarded message is known by its `source` member.
#[derive(Clone, Debug, PartialEq, Eq)]
pub enum ServerMessage {
    /// A message that the server forwards from another client.
    FromClient {
        /// The name of the client that sent the message.
        source: String,
        /// The message, whose members stand beside `source` in one object.
        content: ClientMessageKind,
    },
    /// A message of the server's own.
    FromServer(ServerMessageKind),
}

/// A message of the server's own, told apart by the `kind` member of its
/// JSON object.
#[derive(Clone, Debug, PartialEq, Eq)]
pub enum ServerMessageKind {
    /// `"kind": "greeting"`: the welcome sent once after the handshake.
    Greeting(GreetingMessage),
}

/// The welcome text of the server.
#[derive(Clone, Debug, PartialEq, Eq)]
pub struct GreetingMessage {
    pub motd: String,
}

/// The mathematical value of a [`GreetingMessage`].
pub struct GreetingMessageView {
    pub motd: Seq<char>,
}

/// The mathematical value of a [`ServerMessageKind`].
pub enum ServerMessageKindView {
    Greeting(GreetingMessageView),
}

/// The mathematical value of a [`ServerMessage`].
pub enum ServerMessageView {
    FromClient { source: Seq<char>, content: ClientMessageKindView },
    FromServer(ServerMessageKindView),
}

impl View for GreetingMessage {
    type V = GreetingMessageView;

    open spec fn view(&self) -> GreetingMessageView {
        GreetingMessageView { motd: self.motd@ }
    }
}

impl View for ServerMessageKind {
    type V = ServerMessageKindView;

    open spec fn view(&self) -> ServerMessageKindView {
        match self {
            ServerMessageKind::Greeting(greeting) => ServerMessageKindView::Greeting(greeting@),
        }
    }
}

impl View for ServerMessage {
    type V = ServerMessageView;

    open spec fn view(&self) -> ServerMessageView {
        match self {
            ServerMessage::FromClient { source, content } => ServerMessageView::FromClient {
                source: source@,
                content: content@,
            },
            ServerMessage::FromServer(kind) => ServerMessageView::FromServer(kind@),
        }
    }
}

/// The members that a greeting adds to its object.
pub open spec fn greeting_members(m: GreetingMessageView) -> Seq<MemberView> {
    seq![text_member("motd"@, m.motd)]
}

/// The members of the object that carries a message of the server's own.
pub open spec fn server_kind_members(m: ServerMessageKindView) -> Seq<MemberView> {
    match m {
        ServerMessageKindView::Greeting(greeting) => seq![text_member("kind"@, "greeting"@)]
            + greeting_members(greeting),
    }
}

/// The members of the object that carries a server message, in the order in
/// which they are written.
pub open spec fn server_members(m: ServerMessageView) -> Seq<MemberView> {
    match m {
        ServerMessageView::FromClient { source, content } => seq![text_member("source"@, source)]
            + client_members(content),
        ServerMessageView::FromServer(kind) => server_kind_members(kind),
    }
}

/// The greeting that an object's members spell: the welcome text is the
/// string under `motd`, which must be there.
pub open spec fn greeting_of(members: Seq<MemberView>) -> Option<GreetingMessageView> {
    match text_at(members, "motd"@) {
        Some(motd) => Some(GreetingMessageView { motd }),
        None => None,
    }
}

/// The message of the server's own that an object's members spell, if they
/// spell one.
pub open spec fn server_kind_of(members: Seq<MemberView>) -> Option<ServerMessageKindView> {
    if text_at(members, "kind"@) == Some("greeting"@) {
        match greeting_of(members) {
            Some(greeting) => Some(ServerMessageKindView::Greeting(greeting)),
            None => None,
        }
    } else {
        None
    }
}

/// The forwarded message that an object's members spell, if they spell one:
/// a string under `source`, beside the members of a client message.
pub open spec fn forwarded_of(members: Seq<MemberView>) -> Option<ServerMessageView> {
    match text_at(members, "source"@) {
        Some(source) => match client_message_of(members) {
            Some(content) => Some(ServerMessageView::FromClient { source, content }),
            None => None,
        },
        None => None,
    }
}

/// The server message that an object's members spell, if they spell one. A
/// forwarded message is tried first, then a message of the server's own.
pub open spec fn server_message_of(members: Seq<MemberView>) -> Option<ServerMessageView> {
    match forwarded_of(members) {
        Some(m) => Some(m),
        None => match server_kind_of(members) {
            Some(kind) => Some(ServerMessageView::FromServer(kind)),
            None => None,
        },
    }
}

/// The server message that a document carries, or the error that decoding it
/// ends in.
pub open spec fn server_message_in(doc: Option<DocumentView>) -> Result<
    ServerMessageView,
    ErrorView,
> {
    match members_in(doc) {
        Ok(members) => schema(server_message_of(members)),
        Err(e) => Err(e),
    }
}

/// The members written for a server message can be written out, and no key
/// occurs twice among them.
pub proof fn lemma_server_members_sound(m: ServerMessageView)
    ensures
        writable(server_members(m)),
        distinct_keys(server_members(m)),
{
    lemma_keys_differ();
    match m {
        ServerMessageView::FromClient { source, content } => {
            lemma_client_members_sound(content);
        },
        ServerMessageView::FromServer(kind) => {},
    }
}

/// Reading the members written for a server message gives the message back.
pub proof fn lemma_server_round_trip(m: ServerMessageView)
    ensures
        server_message_of(server_members(m)) == Some(m),
{
    lemma_keys_differ();
    lemma_tags_differ();
    reveal_with_fuel(first_among, 4);
    match m {
        ServerMessageView::FromClient { source, content } => {
            lemma_client_round_trip(content);
        },
        ServerMessageView::FromServer(kind) => {},
    }
}

impl GreetingMessage {
    /// The members that a greeting adds to its object.
    pub fn to_members(&self) -> (members: Vec<Member>)
        ensures
            members_view(members@) == greeting_members(self@),
    {
        let mut members: Vec<Member> = Vec::new();
        members.push(new_text_member("motd", self.motd.as_str()));
        members
    }

    /// Reads a greeting from the members of an object.
    pub fn from_members(members: &Vec<Member>) -> (r: Option<GreetingMessage>)
        ensures
            option_view(r) == greeting_of(members_view(members@)),
    {
        match find_text(members, "motd") {
            Some(motd) => Some(GreetingMessage { motd }),
            None => None,
        }
    }
}

impl ServerMessageKind {
    /// The members of the object that carries this message.
    pub fn to_members(&self) -> (members: Vec<Member>)
        ensures
            members_view(members@) == server_kind_members(self@),
    {
        let mut members: Vec<Member> = Vec::new();
        match self {
            ServerMessageKind::Greeting(greeting) => {
                members.push(new_text_member("kind", "greeting"));
                let mut rest = greeting.to_members();
                members.append(&mut rest);
            },
        }
        members
    }

    /// Reads a message from the members of an object; `None` where they do
    /// not spell a message of the server's own.
    pub fn from_members(members: &Vec<Member>) -> (r: Option<ServerMessageKind>)
        ensures
            option_view(r) == server_kind_of(members_view(members@)),
    {
        if has_text(members, "kind", "greeting") {
            match GreetingMessage::from_members(members) {
                Some(greeting) => Some(ServerMessageKind::Greeting(greeting)),
                None => None,
            }
        } else {
            None
        }
    }
}

impl ServerMessage {
    /// The members of the object that carries this message.
    pub fn to_members(&self) -> (members: Vec<Member>)
        ensures
            members_view(members@) == server_members(self@),
    {
        match self {
            ServerMessage::FromClient { source, content } => {
                let mut members: Vec<Member> = Vec::new();
                members.push(new_text_member("source", source.as_str()));
                let mut rest = content.to_members();
                members.append(&mut rest);
                members
            },
            ServerMessage::FromServer(kind) => kind.to_members(),
        }
    }

    /// Reads a message from the members of an object; `None` where they do
    /// not spell a server message.
    pub fn from_members(members: &Vec<Member>) -> (r: Option<ServerMessage>)
        ensures
            option_view(r) == server_message_of(members_view(members@)),
    {
        match find_text(members, "source") {
            Some(source) => match ClientMessageKind::from_members(members) {
                Some(content) => {
                    return Some(ServerMessage::FromClient { source, content });
                },
                None => {},
            },
            None => {},
        }
        match ServerMessageKind::from_members(members) {
            Some(kind) => Some(ServerMessage::FromServer(kind)),
            None => None,
        }
    }

    /// Writes this message as JSON text.
    ///
    /// The text decodes to this very message again.
    pub fn encode(&self) -> (text: Vec<u8>)
        ensures
            text@ == text_of(server_members(self@)),
            server_message_in(document_of(text@)) == Ok::<ServerMessageView, ErrorView>(self@),
    {
        let members = self.to_members();
        proof {
            lemma_server_members_sound(self@);
            lemma_server_round_trip(self@);
        }
        write_object(&members)
    }

    /// Writes this message as one frame, ready to be sent.
    ///
    /// The frame is the JSON text of [`encode`](Self::encode) behind its
    /// length prefix; read back, it yields that text, which decodes to this
    /// very message again. Text of more than [`MAX_FRAME_LEN`] bytes fits
    /// no frame and is refused with [`ProtocolError::Framing`].
    pub fn to_frame(&self) -> (r: Result<Vec<u8>, ProtocolError>)
        ensures
            ({
                let text = text_of(server_members(self@));
                if text.len() <= MAX_FRAME_LEN {
                    &&& r is Ok
                    &&& r->Ok_0@ == frame_of(text)
                    &&& head_of(r->Ok_0@) == (Head::Frame { payload: text, rest: Seq::empty() })
                    &&& server_message_in(document_of(text)) == Ok::<ServerMessageView, ErrorView>(self@)
                } else {
                    r is Err && r->Err_0@ == ErrorView::Framing
                }
            }),
    {
        let text = self.encode();
        proof {
            if text@.len() <= MAX_FRAME_LEN {
                lemma_frame_round_trip(text@, Seq::empty());
            }
        }
        encode_frame(text.as_slice())
    }

    /// Reads a message from JSON text.
    ///
    /// Text that is not JSON is a framing error; JSON that is not the object
    /// of a server message is a schema error.
    pub fn decode(text: &[u8]) -> (r: Result<ServerMessage, ProtocolError>)
        ensures
            result_view(r) == server_message_in(document_of(text@)),
    {
        match parse_members(text) {
            Ok(members) => match ServerMessage::from_members(&members) {
                Some(message) => Ok(message),
                None => Err(ProtocolError::Schema),
            },
            Err(e) => Err(e),
        }
    }
}

} // verus!

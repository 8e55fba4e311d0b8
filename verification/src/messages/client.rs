//! What a client says to the server once it is authenticated.

use vstd::prelude::*;
use crate::error::{option_view, result_view, schema, ErrorView, ProtocolError};
use crate::frame::{
    encode_frame, frame_of, head_of, lemma_frame_round_trip, Head, MAX_FRAME_LEN,
};
use crate::json::{
    distinct_keys, document_of, find, first_among, has_text, member, members_in, members_view,
    new_text_member, parse_members, text_at, text_member, text_of, text_view, writable,
    write_object, DocumentView, JsonValue, JsonValueView, Member, MemberView,
};
use crate::messages::lemma_keys_differ;

verus! {

/// A message from a client, told apart by the `kind` member of its JSON
/// object.
#[derive(Clone, Debug, PartialEq, Eq)]
pub enum ClientMessageKind {
    /// `"kind": "goodbye"`: the client ends the session.
    Goodbye(GoodbyeMessage),
}

/// The farewell that ends a session, with the reason if one is given. A
/// missing reason is left out of the JSON object; it is never written as
/// `null`.
#[derive(Clone, Debug, PartialEq, Eq)]
pub struct GoodbyeMessage {
    pub reason: Option<String>,
}

/// The mathematical value of a [`GoodbyeMessage`].
pub struct GoodbyeMessageView {
    pub reason: Option<Seq<char>>,
}

/// The mathematical value of a [`ClientMessageKind`].
pub enum ClientMessageKindView {
    Goodbye(GoodbyeMessageView),
}

impl View for GoodbyeMessage {
    type V = GoodbyeMessageView;

    open spec fn view(&self) -> GoodbyeMessageView {
        GoodbyeMessageView { reason: text_view(self.reason) }
    }
}

impl View for ClientMessageKind {
    type V = ClientMessageKindView;

    open spec fn view(&self) -> ClientMessageKindView {
        match self {
            ClientMessageKind::Goodbye(goodbye) => ClientMessageKindView::Goodbye(goodbye@),
        }
    }
}

/// The members that a farewell adds to its object.
pub open spec fn goodbye_members(m: GoodbyeMessageView) -> Seq<MemberView> {
    match m.reason {
        Some(reason) => seq![text_member("reason"@, reason)],
        None => Seq::empty(),
    }
}

/// The members of the object that carries a client message, in the order in
/// which they are written.
pub open spec fn client_members(m: ClientMessageKindView) -> Seq<MemberView> {
    match m {
        ClientMessageKindView::Goodbye(goodbye) => seq![text_member("kind"@, "goodbye"@)]
            + goodbye_members(goodbye),
    }
}

/// The farewell that an object's members spell: the reason is the string
/// under `reason`; it may be missing or `null`, and must not be anything
/// else.
pub open spec fn goodbye_of(members: Seq<MemberView>) -> Option<GoodbyeMessageView> {
    match member(members, "reason"@) {
        None => Some(GoodbyeMessageView { reason: None }),
        Some(JsonValueView::Null) => Some(GoodbyeMessageView { reason: None }),
        Some(JsonValueView::Text(reason)) => Some(GoodbyeMessageView { reason: Some(reason) }),
        Some(JsonValueView::Other) => None,
    }
}

/// The client message that an object's members spell, if they spell one.
/// Members that the message does not know are passed over.
pub open spec fn client_message_of(members: Seq<MemberView>) -> Option<ClientMessageKindView> {
    if text_at(members, "kind"@) == Some("goodbye"@) {
        match goodbye_of(members) {
            Some(goodbye) => Some(ClientMessageKindView::Goodbye(goodbye)),
            None => None,
        }
    } else {
        None
    }
}

/// The client message that a document carries, or the error that decoding
/// it ends in.
pub open spec fn client_message_in(doc: Option<DocumentView>) -> Result<
    ClientMessageKindView,
    ErrorView,
> {
    match members_in(doc) {
        Ok(members) => schema(client_message_of(members)),
        Err(e) => Err(e),
    }
}

/// The members written for a client message can be written out, and no key
/// occurs twice among them.
pub proof fn lemma_client_members_sound(m: ClientMessageKindView)
    ensures
        writable(client_members(m)),
        distinct_keys(client_members(m)),
{
    lemma_keys_differ();
}

/// Reading the members written for a client message gives the message back,
/// with a missing reason still missing.
pub proof fn lemma_client_round_trip(m: ClientMessageKindView)
    ensures
        client_message_of(client_members(m)) == Some(m),
{
    lemma_keys_differ();
    reveal_with_fuel(first_among, 3);
}

impl GoodbyeMessage {
    /// The members that this farewell adds to its object.
    pub fn to_members(&self) -> (members: Vec<Member>)
        ensures
            members_view(members@) == goodbye_members(self@),
    {
        let mut members: Vec<Member> = Vec::new();
        match &self.reason {
            Some(reason) => {
                members.push(new_text_member("reason", reason.as_str()));
            },
            None => {},
        }
        members
    }

    /// Reads a farewell from the members of an object.
    pub fn from_members(members: &Vec<Member>) -> (r: Option<GoodbyeMessage>)
        ensures
            option_view(r) == goodbye_of(members_view(members@)),
    {
        match find(members, "reason") {
            None => Some(GoodbyeMessage { reason: None }),
            Some(JsonValue::Null) => Some(GoodbyeMessage { reason: None }),
            Some(JsonValue::Text(reason)) => Some(GoodbyeMessage { reason: Some(reason.clone()) }),
            Some(JsonValue::Other) => None,
        }
    }
}

impl ClientMessageKind {
    /// The members of the object that carries this message.
    pub fn to_members(&self) -> (members: Vec<Member>)
        ensures
            members_view(members@) == client_members(self@),
    {
        let mut members: Vec<Member> = Vec::new();
        match self {
            ClientMessageKind::Goodbye(goodbye) => {
                members.push(new_text_member("kind", "goodbye"));
                let mut rest = goodbye.to_members();
                members.append(&mut rest);
            },
        }
        members
    }

    /// Reads a message from the members of an object; `None` where they do
    /// not spell a client message.
    pub fn from_members(members: &Vec<Member>) -> (r: Option<ClientMessageKind>)
        ensures
            option_view(r) == client_message_of(members_view(members@)),
    {
        if has_text(members, "kind", "goodbye") {
            match GoodbyeMessage::from_members(members) {
                Some(goodbye) => Some(ClientMessageKind::Goodbye(goodbye)),
                None => None,
            }
        } else {
            None
        }
    }

    /// Writes this message as JSON text.
    ///
    /// The text decodes to this very message again.
    pub fn encode(&self) -> (text: Vec<u8>)
        ensures
            text@ == text_of(client_members(self@)),
            client_message_in(document_of(text@)) == Ok::<ClientMessageKindView, ErrorView>(self@),
    {
        let members = self.to_members();
        proof {
            lemma_client_members_sound(self@);
            lemma_client_round_trip(self@);
        }
        write_object(&members)
    }

    /// Writes this message as one frame, ready to be sent.
    ///
    /// The frame is the JSON text of [`encode`](Self::encode) behind its
    /// length prefix; read back, it yields that text, which decodes to this
    /// very message again. Text of more than [`MAX_FRAME_LEN`] bytes fits
    /// no frame and is refused with [`ProtocolError::Framing`].
    pub fn to_frame(&self) -> (r: Result<Vec<u8>, ProtocolError>)
        ensures
            ({
                let text = text_of(client_members(self@));
                if text.len() <= MAX_FRAME_LEN {
                    &&& r is Ok
                    &&& r->Ok_0@ == frame_of(text)
                    &&& head_of(r->Ok_0@) == (Head::Frame { payload: text, rest: Seq::empty() })
                    &&& client_message_in(document_of(text)) == Ok::<ClientMessageKindView, ErrorView>(self@)
                } else {
                    r is Err && r->Err_0@ == ErrorView::Framing
                }
            }),
    {
        let text = self.encode();
        proof {
            if text@.len() <= MAX_FRAME_LEN {
                lemma_frame_round_trip(text@, Seq::empty());
            }
        }
        encode_frame(text.as_slice())
    }

    /// Reads a message from JSON text.
    ///
    /// Text that is not JSON is a framing error; JSON that is not the object
    /// of a client message is a schema error.
    pub fn decode(text: &[u8]) -> (r: Result<ClientMessageKind, ProtocolError>)
        ensures
            result_view(r) == client_message_in(document_of(text@)),
    {
        match parse_members(text) {
            Ok(members) => match ClientMessageKind::from_members(&members) {
                Some(message) => Ok(message),
                None => Err(ProtocolError::Schema),
            },
            Err(e) => Err(e),
        }
    }
}

} // verus!

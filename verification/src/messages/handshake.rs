//! The two messages of the handshake that opens every session.

use vstd::prelude::*;
use crate::error::{option_view, result_view, schema, ErrorView, ProtocolError};
use crate::frame::{
    encode_frame, frame_of, head_of, lemma_frame_round_trip, Head, MAX_FRAME_LEN,
};
use crate::json::{
    distinct_keys, document_of, find_either, find_text, first_among, has_text, members_in,
    members_view, new_text_member, parse_members, text_at, text_member, text_of, writable,
    write_object, DocumentView, JsonValue, JsonValueView, Member, MemberView,
};
use crate::messages::lemma_keys_differ;

verus! {

/// An authentication request: the first message of a session, sent by the
/// client.
#[derive(Clone, Debug, PartialEq, Eq)]
pub enum AuthRequest {
    /// `"kind": "auth_request"`, with the name the client asks for.
    AuthRequest { username: String },
}

/// An authentication response: the server's answer to an [`AuthRequest`].
#[derive(Debug, PartialEq, Eq)]
pub enum AuthResponse {
    /// `"kind": "auth_response"`. The outcome is written as a member `Ok`
    /// that holds the accepted username, or a member `Err` that holds the
    /// reason for the refusal.
    AuthResponse { result: Result<String, String> },
}

/// The mathematical value of an [`AuthRequest`].
pub enum AuthRequestView {
    AuthRequest { username: Seq<char> },
}

/// The mathematical value of an [`AuthResponse`].
pub enum AuthResponseView {
    AuthResponse { result: Result<Seq<char>, Seq<char>> },
}

// Written out by hand, so that the copy is known to have the same value.
impl Clone for AuthResponse {
    fn clone(&self) -> (copy: AuthResponse)
        ensures
            copy@ == self@,
    {
        match self {
            AuthResponse::AuthResponse { result: Ok(username) } => AuthResponse::AuthResponse {
                result: Ok(username.clone()),
            },
            AuthResponse::AuthResponse { result: Err(reason) } => AuthResponse::AuthResponse {
                result: Err(reason.clone()),
            },
        }
    }
}

impl View for AuthRequest {
    type V = AuthRequestView;

    open spec fn view(&self) -> AuthRequestView {
        match self {
            AuthRequest::AuthRequest { username } => AuthRequestView::AuthRequest {
                username: username@,
            },
        }
    }
}

impl View for AuthResponse {
    type V = AuthResponseView;

    open spec fn view(&self) -> AuthResponseView {
        match self {
            AuthResponse::AuthResponse { result } => AuthResponseView::AuthResponse {
                result: match result {
                    Ok(username) => Ok(username@),
                    Err(reason) => Err(reason@),
                },
            },
        }
    }
}

/// The members of the object that carries a request, in the order in which
/// they are written.
pub open spec fn auth_request_members(m: AuthRequestView) -> Seq<MemberView> {
    match m {
        AuthRequestView::AuthRequest { username } => seq![
            text_member("kind"@, "auth_request"@),
            text_member("username"@, username),
        ],
    }
}

/// The members of the object that carries a response, in the order in which
/// they are written.
pub open spec fn auth_response_members(m: AuthResponseView) -> Seq<MemberView> {
    match m {
        AuthResponseView::AuthResponse { result } => seq![
            text_member("kind"@, "auth_response"@),
            match result {
                Ok(username) => text_member("Ok"@, username),
                Err(reason) => text_member("Err"@, reason),
            },
        ],
    }
}

/// The request that an object's members spell, if they spell one. Members
/// that the message does not know are passed over.
pub open spec fn auth_request_of(members: Seq<MemberView>) -> Option<AuthRequestView> {
    if text_at(members, "kind"@) == Some("auth_request"@) {
        match text_at(members, "username"@) {
            Some(username) => Some(AuthRequestView::AuthRequest { username }),
            None => None,
        }
    } else {
        None
    }
}

/// The outcome that an object's members spell: the first member called `Ok`
/// or `Err` decides, and it must hold a string.
pub open spec fn outcome_of(members: Seq<MemberView>) -> Option<Result<Seq<char>, Seq<char>>> {
    match first_among(members, "Ok"@, "Err"@) {
        Some(m) => match m.value {
            JsonValueView::Text(text) => if m.key == "Ok"@ {
                Some(Ok(text))
            } else {
                Some(Err(text))
            },
            _ => None,
        },
        None => None,
    }
}

/// The response that an object's members spell, if they spell one.
pub open spec fn auth_response_of(members: Seq<MemberView>) -> Option<AuthResponseView> {
    if text_at(members, "kind"@) == Some("auth_response"@) {
        match outcome_of(members) {
            Some(result) => Some(AuthResponseView::AuthResponse { result }),
            None => None,
        }
    } else {
        None
    }
}

/// The request that a document carries, or the error that decoding it ends
/// in.
pub open spec fn auth_request_in(doc: Option<DocumentView>) -> Result<AuthRequestView, ErrorView> {
    match members_in(doc) {
        Ok(members) => schema(auth_request_of(members)),
        Err(e) => Err(e),
    }
}

/// The response that a document carries, or the error that decoding it ends
/// in.
pub open spec fn auth_response_in(doc: Option<DocumentView>) -> Result<
    AuthResponseView,
    ErrorView,
> {
    match members_in(doc) {
        Ok(members) => schema(auth_response_of(members)),
        Err(e) => Err(e),
    }
}

/// The members written for a request can be written out, and no key occurs
/// twice among them.
pub proof fn lemma_auth_request_members_sound(m: AuthRequestView)
    ensures
        writable(auth_request_members(m)),
        distinct_keys(auth_request_members(m)),
{
    lemma_keys_differ();
}

/// The members written for a response can be written out, and no key occurs
/// twice among them.
pub proof fn lemma_auth_response_members_sound(m: AuthResponseView)
    ensures
        writable(auth_response_members(m)),
        distinct_keys(auth_response_members(m)),
{
    lemma_keys_differ();
}

/// Reading the members written for a request gives the request back.
pub proof fn lemma_auth_request_round_trip(m: AuthRequestView)
    ensures
        auth_request_of(auth_request_members(m)) == Some(m),
{
    lemma_keys_differ();
    reveal_with_fuel(first_among, 3);
}

/// Reading the members written for a response gives the response back,
/// acceptance as acceptance and refusal as refusal.
pub proof fn lemma_auth_response_round_trip(m: AuthResponseView)
    ensures
        auth_response_of(auth_response_members(m)) == Some(m),
{
    lemma_keys_differ();
    reveal_with_fuel(first_among, 3);
}

impl AuthRequest {
    /// The members of the object that carries this request.
    pub fn to_members(&self) -> (members: Vec<Member>)
        ensures
            members_view(members@) == auth_request_members(self@),
    {
        let mut members: Vec<Member> = Vec::new();
        match self {
            AuthRequest::AuthRequest { username } => {
                members.push(new_text_member("kind", "auth_request"));
                members.push(new_text_member("username", username.as_str()));
            },
        }
        members
    }

    /// Reads a request from the members of an object; `None` where they do
    /// not spell one.
    pub fn from_members(members: &Vec<Member>) -> (r: Option<AuthRequest>)
        ensures
            option_view(r) == auth_request_of(members_view(members@)),
    {
        if has_text(members, "kind", "auth_request") {
            match find_text(members, "username") {
                Some(username) => Some(AuthRequest::AuthRequest { username }),
                None => None,
            }
        } else {
            None
        }
    }

    /// Writes this request as JSON text.
    ///
    /// The text decodes to this very request again.
    pub fn encode(&self) -> (text: Vec<u8>)
        ensures
            text@ == text_of(auth_request_members(self@)),
            auth_request_in(document_of(text@)) == Ok::<AuthRequestView, ErrorView>(self@),
    {
        let members = self.to_members();
        proof {
            lemma_auth_request_members_sound(self@);
            lemma_auth_request_round_trip(self@);
        }
        write_object(&members)
    }

    /// Writes this request as one frame, ready to be sent.
    ///
    /// The frame is the JSON text of [`encode`](Self::encode) behind its
    /// length prefix; read back, it yields that text, which decodes to this
    /// very request again. Text of more than [`MAX_FRAME_LEN`] bytes fits
    /// no frame and is refused with [`ProtocolError::Framing`].
    pub fn to_frame(&self) -> (r: Result<Vec<u8>, ProtocolError>)
        ensures
            ({
                let text = text_of(auth_request_members(self@));
                if text.len() <= MAX_FRAME_LEN {
                    &&& r is Ok
                    &&& r->Ok_0@ == frame_of(text)
                    &&& head_of(r->Ok_0@) == (Head::Frame { payload: text, rest: Seq::empty() })
                    &&& auth_request_in(document_of(text)) == Ok::<AuthRequestView, ErrorView>(self@)
                } else {
                    r is Err && r->Err_0@ == ErrorView::Framing
                }
            }),
    {
        let text = self.encode();
        proof {
            if text@.len() <= MAX_FRAME_LEN {
                lemma_frame_round_trip(text@, Seq::empty());
            }
        }
        encode_frame(text.as_slice())
    }

    /// Reads a request from JSON text.
    ///
    /// Text that is not JSON is a framing error; JSON that is not the object
    /// of a request is a schema error.
    pub fn decode(text: &[u8]) -> (r: Result<AuthRequest, ProtocolError>)
        ensures
            result_view(r) == auth_request_in(document_of(text@)),
    {
        match parse_members(text) {
            Ok(members) => match AuthRequest::from_members(&members) {
                Some(message) => Ok(message),
                None => Err(ProtocolError::Schema),
            },
            Err(e) => Err(e),
        }
    }
}

impl AuthResponse {
    /// The members of the object that carries this response.
    pub fn to_members(&self) -> (members: Vec<Member>)
        ensures
            members_view(members@) == auth_response_members(self@),
    {
        let mut members: Vec<Member> = Vec::new();
        match self {
            AuthResponse::AuthResponse { result } => {
                members.push(new_text_member("kind", "auth_response"));
                match result {
                    Ok(username) => {
                        members.push(new_text_member("Ok", username.as_str()));
                    },
                    Err(reason) => {
                        members.push(new_text_member("Err", reason.as_str()));
                    },
                }
            },
        }
        members
    }

    /// Reads a response from the members of an object; `None` where they do
    /// not spell one.
    pub fn from_members(members: &Vec<Member>) -> (r: Option<AuthResponse>)
        ensures
            option_view(r) == auth_response_of(members_view(members@)),
    {
        if !has_text(members, "kind", "auth_response") {
            return None;
        }
        match find_either(members, "Ok", "Err") {
            Some(m) => match &m.value {
                JsonValue::Text(text) => {
                    let ok: String = "Ok".to_owned();
                    if m.key == ok {
                        Some(AuthResponse::AuthResponse { result: Ok(text.clone()) })
                    } else {
                        Some(AuthResponse::AuthResponse { result: Err(text.clone()) })
                    }
                },
                _ => None,
            },
            None => None,
        }
    }

    /// Writes this response as JSON text.
    ///
    /// The text decodes to this very response again.
    pub fn encode(&self) -> (text: Vec<u8>)
        ensures
            text@ == text_of(auth_response_members(self@)),
            auth_response_in(document_of(text@)) == Ok::<AuthResponseView, ErrorView>(self@),
    {
        let members = self.to_members();
        proof {
            lemma_auth_response_members_sound(self@);
            lemma_auth_response_round_trip(self@);
        }
        write_object(&members)
    }

    /// Writes this response as one frame, ready to be sent.
    ///
    /// The frame is the JSON text of [`encode`](Self::encode) behind its
    /// length prefix; read back, it yields that text, which decodes to this
    /// very response again. Text of more than [`MAX_FRAME_LEN`] bytes fits
    /// no frame and is refused with [`ProtocolError::Framing`].
    pub fn to_frame(&self) -> (r: Result<Vec<u8>, ProtocolError>)
        ensures
            ({
                let text = text_of(auth_response_members(self@));
                if text.len() <= MAX_FRAME_LEN {
                    &&& r is Ok
                    &&& r->Ok_0@ == frame_of(text)
                    &&& head_of(r->Ok_0@) == (Head::Frame { payload: text, rest: Seq::empty() })
                    &&& auth_response_in(document_of(text)) == Ok::<AuthResponseView, ErrorView>(self@)
                } else {
                    r is Err && r->Err_0@ == ErrorView::Framing
                }
            }),
    {
        let text = self.encode();
        proof {
            if text@.len() <= MAX_FRAME_LEN {
                lemma_frame_round_trip(text@, Seq::empty());
            }
        }
        encode_frame(text.as_slice())
    }

    /// Reads a response from JSON text.
    ///
    /// Text that is not JSON is a framing error; JSON that is not the object
    /// of a response is a schema error.
    pub fn decode(text: &[u8]) -> (r: Result<AuthResponse, ProtocolError>)
        ensures
            result_view(r) == auth_response_in(document_of(text@)),
    {
        match parse_members(text) {
            Ok(members) => match AuthResponse::from_members(&members) {
                Some(message) => Ok(message),
                None => Err(ProtocolError::Schema),
            },
            Err(e) => Err(e),
        }
    }
}

} // verus!

//! The messages of the protocol and their JSON shapes.
//!
//! Every message is one JSON object. Its `kind` member names the variant in
//! snake case; a message that the server forwards for a client carries the
//! client's name under `source` beside the members of the client's message.

use vstd::prelude::*;
use crate::error::is_schema_error;
use crate::json::{text_at, DocumentView, MemberView};
use crate::messages::client::{client_message_in, client_message_of};
use crate::messages::handshake::{
    auth_request_in, auth_request_of, auth_response_in, auth_response_of,
};
use crate::messages::server::{server_kind_of, server_message_in};

pub mod client;
pub mod handshake;
pub mod server;

verus! {

/// The keys that messages use are pairwise different.
pub proof fn lemma_keys_differ()
    ensures
        "kind"@ != "reason"@,
        "kind"@ != "username"@,
        "kind"@ != "Ok"@,
        "kind"@ != "Err"@,
        "kind"@ != "motd"@,
        "kind"@ != "source"@,
        "Ok"@ != "Err"@,
        "source"@ != "reason"@,
{
    reveal_strlit("kind");
    reveal_strlit("reason");
    reveal_strlit("username");
    reveal_strlit("Ok");
    reveal_strlit("Err");
    reveal_strlit("motd");
    reveal_strlit("source");
    assert("kind"@.len() == 4);
    assert("reason"@.len() == 6);
    assert("username"@.len() == 8);
    assert("Ok"@.len() == 2);
    assert("Err"@.len() == 3);
    assert("kind"@[0] != "motd"@[0]);
    assert("source"@[0] != "reason"@[0]);
}

/// The tags of the four kinds of message are pairwise different.
pub proof fn lemma_tags_differ()
    ensures
        "goodbye"@ != "greeting"@,
        "goodbye"@ != "auth_request"@,
        "goodbye"@ != "auth_response"@,
        "greeting"@ != "auth_request"@,
        "greeting"@ != "auth_response"@,
        "auth_request"@ != "auth_response"@,
{
    reveal_strlit("goodbye");
    reveal_strlit("greeting");
    reveal_strlit("auth_request");
    reveal_strlit("auth_response");
    assert("goodbye"@.len() == 7);
    assert("greeting"@.len() == 8);
    assert("auth_request"@.len() == 12);
    assert("auth_response"@.len() == 13);
}

/// The tag decides who can read an object: of the four readers (a message
/// from a client, a message of the server's own, a request, a response) at
/// most one accepts any given object.
pub proof fn lemma_readers_do_not_overlap(members: Seq<MemberView>)
    ensures
        client_message_of(members) is Some ==> server_kind_of(members) is None && auth_request_of(
            members,
        ) is None && auth_response_of(members) is None,
        server_kind_of(members) is Some ==> auth_request_of(members) is None && auth_response_of(
            members,
        ) is None,
        auth_request_of(members) is Some ==> auth_response_of(members) is None,
{
    lemma_tags_differ();
}

/// Whether `kind` is the tag of some message.
pub open spec fn known_kind(kind: Seq<char>) -> bool {
    kind == "goodbye"@ || kind == "greeting"@ || kind == "auth_request"@ || kind
        == "auth_response"@
}

/// An object whose `kind` is not the tag of any message is refused with a
/// schema error, whichever message the reader expects: one from a client, one
/// from the server, or either half of the handshake. The same holds of an
/// object without a `kind`, and of one whose `kind` is not a string.
pub proof fn lemma_unknown_kind_is_refused(members: Seq<MemberView>)
    requires
        match text_at(members, "kind"@) {
            Some(kind) => !known_kind(kind),
            None => true,
        },
    ensures
        is_schema_error(client_message_in(Some(DocumentView::Object(members)))),
        is_schema_error(server_message_in(Some(DocumentView::Object(members)))),
        is_schema_error(auth_request_in(Some(DocumentView::Object(members)))),
        is_schema_error(auth_response_in(Some(DocumentView::Object(members)))),
{
}

} // verus!

//! Why a connection ended badly.

use vstd::prelude::*;

verus! {

/// The ways in which a connection can fail. Each of them ends the connection
/// it happens on, and none of them is retried.
#[derive(Clone, Debug, PartialEq, Eq)]
pub enum ProtocolError {
    /// Connecting, accepting, reading or writing failed at the socket.
    Transport,
    /// A length prefix was malformed, a frame was cut short, or a frame did
    /// not carry JSON text.
    Framing,
    /// The payload was JSON but had the shape of no message that was expected
    /// at that point.
    Schema,
    /// The server answered the authentication request with a refusal; the
    /// string is the reason it gave.
    HandshakeRejected(String),
    /// The peer closed the stream while an answer was still awaited.
    UnexpectedClose,
}

/// The mathematical value of a [`ProtocolError`].
pub enum ErrorView {
    Transport,
    Framing,
    Schema,
    HandshakeRejected(Seq<char>),
    UnexpectedClose,
}

impl View for ProtocolError {
    type V = ErrorView;

    open spec fn view(&self) -> ErrorView {
        match self {
            ProtocolError::Transport => ErrorView::Transport,
            ProtocolError::Framing => ErrorView::Framing,
            ProtocolError::Schema => ErrorView::Schema,
            ProtocolError::HandshakeRejected(reason) => ErrorView::HandshakeRejected(reason@),
            ProtocolError::UnexpectedClose => ErrorView::UnexpectedClose,
        }
    }
}

/// The view of a value that may be missing.
pub open spec fn option_view<T: View>(o: Option<T>) -> Option<T::V> {
    match o {
        Some(t) => Some(t@),
        None => None,
    }
}

/// The view of an outcome: of the value, or of the error.
pub open spec fn result_view<T: View>(r: Result<T, ProtocolError>) -> Result<T::V, ErrorView> {
    match r {
        Ok(t) => Ok(t@),
        Err(e) => Err(e@),
    }
}

/// Whether an outcome is the schema error.
pub open spec fn is_schema_error<M>(r: Result<M, ErrorView>) -> bool {
    r is Err && r->Err_0 == ErrorView::Schema
}

/// A shape that did not match is a schema error.
pub open spec fn schema<M>(shape: Option<M>) -> Result<M, ErrorView> {
    match shape {
        Some(m) => Ok(m),
        None => Err(ErrorView::Schema),
    }
}

} // verus!

//! What comes from the server.

use vstd::prelude::*;
use vstd::string::*;

verus! {

/// What arrives over the connection.
#[derive(Clone, Debug)]
pub enum Incoming {
    Text(String),
    Close,
    Ping(Vec<u8>),
    /// Something that the client does not look at.
    Other,
    /// There is no connection any more. The text says so to the user.
    ConnectionClosed(String),
    /// Any other error.
    Failed,
}

/// What arrived.
pub enum IncomingView {
    Text(Seq<char>),
    Close,
    Ping(Seq<u8>),
    Other,
    ConnectionClosed(Seq<char>),
    Failed,
}

impl View for Incoming {
    type V = IncomingView;

    open spec fn view(&self) -> IncomingView {
        match self {
            Incoming::Text(text) => IncomingView::Text(text@),
            Incoming::Close => IncomingView::Close,
            Incoming::Ping(bytes) => IncomingView::Ping(bytes@),
            Incoming::Other => IncomingView::Other,
            Incoming::ConnectionClosed(text) => IncomingView::ConnectionClosed(text@),
            Incoming::Failed => IncomingView::Failed,
        }
    }
}

/// What arrived, if anything.
pub open spec fn message_view(message: Option<Incoming>) -> Option<IncomingView> {
    match message {
        Some(m) => Some(m@),
        None => None,
    }
}

} // verus!

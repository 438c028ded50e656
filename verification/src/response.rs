//! What a handler answers, free of any HTTP framework.

use vstd::prelude::*;

verus! {

/// A response: the status, the text of the body, and where a redirect leads.
#[derive(Debug, Clone, PartialEq, Eq)]
pub struct Response {
    pub status: u16,
    pub body: String,
    pub location: Option<String>,
}

/// A response as a value.
pub struct ResponseView {
    pub status: u16,
    pub body: Seq<char>,
    pub location: Option<Seq<char>>,
}

impl View for Response {
    type V = ResponseView;

    open spec fn view(&self) -> ResponseView {
        ResponseView {
            status: self.status,
            body: self.body@,
            location: match self.location {
                Some(target) => Some(target@),
                None => None,
            },
        }
    }
}

/// The response that reports success in the words `body`.
pub open spec fn success(body: Seq<char>) -> ResponseView {
    ResponseView { status: 200, body, location: None }
}

/// The response with the given status that sends the client to `target`.
pub open spec fn redirection(status: u16, target: Seq<char>) -> ResponseView {
    ResponseView { status, body: Seq::<char>::empty(), location: Some(target) }
}

} // verus!

//! The two redirects that the server answers outside the file operations.

use crate::credentials::{claims_in, extract_claims};
use crate::files::header_view;
use crate::response::{redirection, Response};
use vstd::prelude::*;

verus! {

/// Where the entry page sends a visitor: to the files of one whose token
/// proves claims, and to the sign-in page of anyone else.
pub open spec fn landing(token: Option<Seq<char>>, secret: Seq<u8>, now: u64) -> Seq<char> {
    if token matches Some(text) && claims_in(text, secret, now) is Ok {
        "/static/files.html"@
    } else {
        "/sign_in"@
    }
}

/// Answers a visit of the entry page, given the visitor's token if there is one.
pub fn redirect(token: Option<&str>, secret: &[u8], now: u64) -> (response: Response)
    ensures
        response@ == redirection(302, landing(header_view(token), secret@, now)),
{
    let signed_in = match token {
        Some(text) => extract_claims(text, secret, now).is_ok(),
        None => false,
    };
    let target = if signed_in {
        "/static/files.html"
    } else {
        "/sign_in"
    };
    Response { status: 302, body: String::new(), location: Some(target.to_owned()) }
}

/// Sends the client to where the server's source code is published.
pub fn source_code() -> (response: Response)
    ensures
        response@ == redirection(303, "https://github.com/AaronErhardt/Triox"@),
{
    Response {
        status: 303,
        body: String::new(),
        location: Some("https://github.com/AaronErhardt/Triox".to_owned()),
    }
}

} // verus!

//! Rendering a terminal outcome as a concrete HTTP response value: status
//! code, `Content-Type`, `Location` and `Content-Length` headers, and a body
//! that is either a fixed string or the resolved file streamed from disk.

use vstd::prelude::*;

use crate::respond::mime_of;
use crate::respond::Outcome;

verus! {

/// The decimal digits of a number, most significant first.
pub open spec fn dec_bytes(n: nat) -> Seq<u8>
    decreases n,
{
    if n < 10 {
        seq![(n + 48) as u8]
    } else {
        dec_bytes(n / 10).push((n % 10 + 48) as u8)
    }
}

/// Formats a length as the decimal digits that a `Content-Length` header
/// value carries.
pub fn u64_to_dec(n: u64) -> (r: Vec<u8>)
    ensures
        r@ == dec_bytes(n as nat),
    decreases n,
{
    if n < 10 {
        let mut r: Vec<u8> = Vec::new();
        r.push((n as u8) + 48);
        proof {
            assert(r@ =~= dec_bytes(n as nat));
        }
        r
    } else {
        let mut r = u64_to_dec(n / 10);
        r.push(((n % 10) as u8) + 48);
        proof {
            assert(r@ =~= dec_bytes(n as nat));
        }
        r
    }
}

/// A response body: a fixed string, or the named file streamed lazily with
/// the length that `stat` reported.
#[derive(Debug)]
pub enum ResponseBody {
    Text(String),
    FileStream { path: Vec<u8>, len: u64 },
}

/// A concrete HTTP response: the status code, the headers this handler sets,
/// and the body.
#[derive(Debug)]
pub struct HttpResponse {
    pub status: u16,
    pub content_type: Option<String>,
    pub location: Option<Vec<u8>>,
    pub content_length: Option<Vec<u8>>,
    pub body: ResponseBody,
}

/// Relies on `http::StatusCode::NOT_FOUND`: its `as_u16` is the code 404.
#[verifier::external_body]
fn status_not_found() -> (r: u16)
    ensures
        r == 404,
{
    http::StatusCode::NOT_FOUND.as_u16()
}

/// Relies on `http::StatusCode::INTERNAL_SERVER_ERROR`: its `as_u16` is the
/// code 500.
#[verifier::external_body]
fn status_internal_server_error() -> (r: u16)
    ensures
        r == 500,
{
    http::StatusCode::INTERNAL_SERVER_ERROR.as_u16()
}

/// Relies on `http::StatusCode::MOVED_PERMANENTLY`: its `as_u16` is the code
/// 301.
#[verifier::external_body]
fn status_moved_permanently() -> (r: u16)
    ensures
        r == 301,
{
    http::StatusCode::MOVED_PERMANENTLY.as_u16()
}

/// Relies on `http::StatusCode::OK`: its `as_u16` is the code 200.
#[verifier::external_body]
fn status_ok() -> (r: u16)
    ensures
        r == 200,
{
    http::StatusCode::OK.as_u16()
}

/// Relies on `mime::TEXT_HTML`: it is the media type `text/html`.
#[verifier::external_body]
fn text_html() -> (r: String)
    ensures
        r@ == "text/html"@,
{
    mime::TEXT_HTML.as_ref().to_string()
}

/// Exactly the response rendered for each outcome, with the fixed bodies of
/// the error responses.
pub open spec fn render_post(o: Outcome, r: HttpResponse) -> bool {
    match o {
        Outcome::NotFound => {
            &&& r.status == 404
            &&& r.content_type matches Some(ct) && ct@ == "text/html"@
            &&& r.location is None
            &&& r.content_length is None
            &&& r.body matches ResponseBody::Text(b) && b@
                == "Oops! I can't find what you're looking for..."@
        },
        Outcome::InternalError => {
            &&& r.status == 500
            &&& r.content_type matches Some(ct) && ct@ == "text/html"@
            &&& r.location is None
            &&& r.content_length is None
            &&& r.body matches ResponseBody::Text(b) && b@ == "I'm broken, apparently."@
        },
        Outcome::Redirect { location } => {
            &&& r.status == 301
            &&& r.content_type is None
            &&& r.location matches Some(l) && l@ == location@
            &&& r.content_length is None
            &&& r.body matches ResponseBody::Text(b) && b@ == Seq::<char>::empty()
        },
        Outcome::StreamFile { path, len, mime } => {
            &&& r.status == 200
            &&& r.content_type matches Some(ct) && ct@ == mime@
            &&& r.location is None
            &&& r.content_length matches Some(cl) && cl@ == dec_bytes(len as nat)
            &&& r.body matches ResponseBody::FileStream { path: p, len: l } && p@ == path@ && l
                == len
        },
    }
}

/// Renders a terminal outcome as the concrete HTTP response.
pub fn render(o: Outcome) -> (r: HttpResponse)
    ensures
        render_post(o, r),
{
    match o {
        Outcome::NotFound => HttpResponse {
            status: status_not_found(),
            content_type: Some(text_html()),
            location: None,
            content_length: None,
            body: ResponseBody::Text("Oops! I can't find what you're looking for...".to_owned()),
        },
        Outcome::InternalError => HttpResponse {
            status: status_internal_server_error(),
            content_type: Some(text_html()),
            location: None,
            content_length: None,
            body: ResponseBody::Text("I'm broken, apparently.".to_owned()),
        },
        Outcome::Redirect { location } => HttpResponse {
            status: status_moved_permanently(),
            content_type: None,
            location: Some(location),
            content_length: None,
            body: ResponseBody::Text(String::new()),
        },
        Outcome::StreamFile { path, len, mime } => HttpResponse {
            status: status_ok(),
            content_type: Some(mime),
            location: None,
            content_length: Some(u64_to_dec(len)),
            body: ResponseBody::FileStream { path, len },
        },
    }
}

} // verus!

//! HTTP responses of the webhook receiver and the request route check.

use vstd::prelude::*;
use crate::text::str_eq;

verus! {

/// An HTTP response: a status code and a body text.
pub struct HttpResponse {
    pub status: u16,
    pub body: String,
}

/// The response carries the given status and body.
pub open spec fn responds(r: &HttpResponse, status: u16, body: Seq<char>) -> bool {
    r.status == status && r.body@ == body
}

/// The `404 Not Found` response: empty body.
pub fn not_found() -> (r: HttpResponse)
    ensures
        responds(&r, 404, Seq::<char>::empty()),
{
    HttpResponse { status: 404, body: String::new() }
}

/// The `200 OK` response: empty body.
pub fn ok_empty() -> (r: HttpResponse)
    ensures
        responds(&r, 200, Seq::<char>::empty()),
{
    HttpResponse { status: 200, body: String::new() }
}

/// The `500 Internal Server Error` response carrying a diagnostic text.
pub fn server_err(msg: String) -> (r: HttpResponse)
    ensures
        responds(&r, 500, msg@),
{
    HttpResponse { status: 500, body: msg }
}

/// Only `POST /webhook` reaches the webhook pipeline.
pub open spec fn route_matches_spec(method: Seq<char>, path: Seq<char>) -> bool {
    method == "POST"@ && path == "/webhook"@
}

pub fn route_matches(method: &str, path: &str) -> (r: bool)
    ensures
        r == route_matches_spec(method@, path@),
{
    str_eq(method, "POST") && str_eq(path, "/webhook")
}

} // verus!

//! The closed error taxonomy of the publish pipeline and the wire responses
//! it produces.
//!
//! Every failure a publish can surface is one of these variants; each knows
//! its HTTP-style status and its JSON error envelope, so no error is ever
//! swallowed or reshaped on the way out.

use vstd::prelude::*;

use crate::datetime::{http_date, http_date_of, DateTime};
use crate::json::{json_str_of, push_json_str};
use crate::text::{chars_to_string, push_str_chars};

verus! {

/// An HTTP-style response: a status code, response headers, and a body.
#[derive(Debug)]
pub struct Response {
    pub status: u16,
    pub headers: Vec<(String, String)>,
    pub body: String,
}

/// What a publish can fail with.
#[derive(Debug)]
pub enum PublishError {
    /// Malformed input, missing fields, an oversize upload or invalid
    /// license syntax; the message is surfaced verbatim.
    BadRequest(String),
    /// Insufficient ownership rights, or a write attempted in a read-only
    /// operating mode; the message is fixed descriptive text.
    Forbidden(String),
    /// The version is already uploaded; carries the offending version
    /// string.
    Conflict(String),
    /// The publish quota for the time window is exceeded; carries the time
    /// the window resets.
    RateLimited(DateTime),
    /// An unexpected failure in the blob store or the index log; the message
    /// is kept for internal logging and surfaced generically.
    ServerError(String),
}

/// The error envelope: one `errors` array holding one detail object.
pub open spec fn error_body_of(detail: Seq<char>) -> Seq<char> {
    "{\"errors\":[{\"detail\":"@ + json_str_of(detail) + "}]}"@
}

/// The status code of each error class.
pub open spec fn status_of(e: PublishError) -> u16 {
    match e {
        PublishError::BadRequest(_) => 400u16,
        PublishError::Forbidden(_) => 403u16,
        PublishError::Conflict(_) => 409u16,
        PublishError::RateLimited(_) => 429u16,
        PublishError::ServerError(_) => 500u16,
    }
}

/// The human-readable detail of each error class. A conflict names the
/// offending version; a rate limit names the time to retry after; a server
/// error is surfaced generically.
pub open spec fn detail_of(e: PublishError) -> Seq<char> {
    match e {
        PublishError::BadRequest(m) => m@,
        PublishError::Forbidden(m) => m@,
        PublishError::Conflict(v) => "crate version `"@ + v@ + "` is already uploaded"@,
        PublishError::RateLimited(t) => "You have published too many crates in a short period of time. Please try again after "@
            + http_date_of(t) + " or email help@crates.io to have your limit increased."@,
        PublishError::ServerError(_) => "internal server error"@,
    }
}

/// A rate-limit error must carry a plausible timestamp; nothing is asked of
/// the other variants.
pub open spec fn error_wf(e: PublishError) -> bool {
    match e {
        PublishError::RateLimited(t) => t.wf(),
        _ => true,
    }
}

/// A response with the given status whose body is the error envelope around
/// `detail`.
pub fn json_error(detail: &str, status: u16) -> (r: Response)
    ensures
        r.status == status,
        r.body@ == error_body_of(detail@),
        r.headers@.len() == 0,
{
    let mut body: Vec<char> = Vec::new();
    push_str_chars(&mut body, "{\"errors\":[{\"detail\":");
    push_json_str(&mut body, detail);
    push_str_chars(&mut body, "}]}");
    assert(body@ =~= error_body_of(detail@));
    Response { status, headers: Vec::new(), body: chars_to_string(&body) }
}

impl PublishError {
    /// The detail text of this error, as the response will carry it.
    pub fn detail(&self) -> (r: String)
        requires
            error_wf(*self),
        ensures
            r@ == detail_of(*self),
    {
        match self {
            PublishError::BadRequest(m) => m.clone(),
            PublishError::Forbidden(m) => m.clone(),
            PublishError::Conflict(v) => {
                let mut out: Vec<char> = Vec::new();
                push_str_chars(&mut out, "crate version `");
                push_str_chars(&mut out, v.as_str());
                push_str_chars(&mut out, "` is already uploaded");
                assert(out@ =~= detail_of(*self));
                chars_to_string(&out)
            },
            PublishError::RateLimited(t) => {
                let mut out: Vec<char> = Vec::new();
                push_str_chars(
                    &mut out,
                    "You have published too many crates in a short period of time. Please try again after ",
                );
                let date = http_date(t);
                push_str_chars(&mut out, date.as_str());
                push_str_chars(&mut out, " or email help@crates.io to have your limit increased.");
                assert(out@ =~= detail_of(*self));
                chars_to_string(&out)
            },
            PublishError::ServerError(_) => {
                let mut out: Vec<char> = Vec::new();
                push_str_chars(&mut out, "internal server error");
                assert(out@ =~= detail_of(*self));
                chars_to_string(&out)
            },
        }
    }

    /// The wire response for this error: its status, the error envelope
    /// around its detail, and — for a rate limit — a `Retry-After` header
    /// naming when to try again.
    pub fn response(&self) -> (r: Response)
        requires
            error_wf(*self),
        ensures
            r.status == status_of(*self),
            r.body@ == error_body_of(detail_of(*self)),
            match self {
                PublishError::RateLimited(t) => r.headers@.len() == 1 && r.headers@[0].0@
                    == "Retry-After"@ && r.headers@[0].1@ == http_date_of(*t),
                _ => r.headers@.len() == 0,
            },
    {
        let detail = self.detail();
        let status: u16 = match self {
            PublishError::BadRequest(_) => 400,
            PublishError::Forbidden(_) => 403,
            PublishError::Conflict(_) => 409,
            PublishError::RateLimited(_) => 429,
            PublishError::ServerError(_) => 500,
        };
        let mut r = json_error(detail.as_str(), status);
        if let PublishError::RateLimited(t) = self {
            let mut name: Vec<char> = Vec::new();
            push_str_chars(&mut name, "Retry-After");
            r.headers.push((chars_to_string(&name), http_date(t)));
        }
        r
    }
}

} // verus!

//! Answers of the API: statuses, refusals and addresses of peers.

use vstd::prelude::*;
use vstd::string::*;

use crate::text::{decimal, decimal_text};

verus! {

/// Status of an answer.
#[derive(Debug, Clone, Copy, PartialEq, Eq, Structural)]
pub enum Status {
    /// Done.
    Success,
    /// Done, and something was made.
    Created,
    /// Taken on, not done yet.
    Accepted,
    /// Done, with nothing to say.
    NoContent,
    /// The request is malformed.
    BadRequest,
    /// The caller is not known.
    Unauthorized,
    /// The caller may not do this.
    Forbidden,
    /// There is no such thing.
    NotFound,
    /// The request conflicts with the state.
    Conflict,
    /// The request cannot be carried out.
    UnprocessableEntity,
    /// There are too many requests.
    TooManyRequests,
    /// Something failed here.
    InternalServerError,
    /// Something failed at a peer.
    BadGateway,
    /// A subsystem is missing or not ready.
    ServiceUnavailable,
    /// A peer did not answer in time.
    GatewayTimeout,
}

impl Status {
    /// The number of the status on the wire.
    pub open spec fn number(self) -> u16 {
        match self {
            Status::Success => 200,
            Status::Created => 201,
            Status::Accepted => 202,
            Status::NoContent => 204,
            Status::BadRequest => 400,
            Status::Unauthorized => 401,
            Status::Forbidden => 403,
            Status::NotFound => 404,
            Status::Conflict => 409,
            Status::UnprocessableEntity => 422,
            Status::TooManyRequests => 429,
            Status::InternalServerError => 500,
            Status::BadGateway => 502,
            Status::ServiceUnavailable => 503,
            Status::GatewayTimeout => 504,
        }
    }

    /// The number of the status on the wire.
    pub fn code(self) -> (r: u16)
        ensures
            r == self.number(),
    {
        match self {
            Status::Success => 200,
            Status::Created => 201,
            Status::Accepted => 202,
            Status::NoContent => 204,
            Status::BadRequest => 400,
            Status::Unauthorized => 401,
            Status::Forbidden => 403,
            Status::NotFound => 404,
            Status::Conflict => 409,
            Status::UnprocessableEntity => 422,
            Status::TooManyRequests => 429,
            Status::InternalServerError => 500,
            Status::BadGateway => 502,
            Status::ServiceUnavailable => 503,
            Status::GatewayTimeout => 504,
        }
    }
}

/// A refused request.
#[derive(Debug)]
pub struct Refusal {
    /// Status of the answer.
    pub status: Status,
    /// What is wrong.
    pub error: String,
}

impl View for Refusal {
    type V = (Status, Seq<char>);

    open spec fn view(&self) -> (Status, Seq<char>) {
        (self.status, self.error@)
    }
}

/// Refuse with a status and fixed words.
pub fn refuse(status: Status, error: &str) -> (r: Refusal)
    ensures
        r@ == (status, error@),
{
    Refusal { status, error: error.to_owned() }
}

/// Refuse with a status and fixed words followed by a reason.
pub fn refuse_because(status: Status, error: &str, reason: &str) -> (r: Refusal)
    ensures
        r@ == (status, error@ + reason@),
{
    let mut text: String = error.to_owned();
    text.append(reason);
    Refusal { status, error: text }
}

/// Whether a result is the refusal with a status and words.
pub open spec fn refused<T>(r: Result<T, Refusal>, status: Status, error: Seq<char>) -> bool {
    r is Err && r->Err_0@ == (status, error)
}

/// The status that a peer's status is passed on as: itself where it is one of
/// HTTP, else a bad gateway.
pub fn proxied_status(code: u16) -> (r: u16)
    ensures
        r == if 100 <= code <= 999 {
            code
        } else {
            502
        },
{
    if 100 <= code && code <= 999 {
        code
    } else {
        502
    }
}

/// How nodes address each other.
#[derive(Debug, Clone, Copy, PartialEq, Eq, Structural)]
pub struct ClusterHttp {
    /// Whether nodes talk over TLS.
    pub tls: bool,
}

impl ClusterHttp {
    /// Plain HTTP between nodes.
    pub fn plaintext() -> (r: Self)
        ensures
            !r.tls,
    {
        ClusterHttp { tls: false }
    }

    /// The URL of a path at an address.
    pub open spec fn url_text(self, address: Seq<char>, path: Seq<char>) -> Seq<char> {
        if self.tls {
            "https://"@ + address + path
        } else {
            "http://"@ + address + path
        }
    }

    /// The URL of a path at an address.
    pub fn url(&self, address: &str, path: &str) -> (r: String)
        ensures
            r@ == self.url_text(address@, path@),
    {
        let mut out: String = if self.tls {
            "https://".to_owned()
        } else {
            "http://".to_owned()
        };
        out.append(address);
        out.append(path);
        out
    }
}

/// A word and a number.
pub fn with_number(before: &str, number: u64) -> (r: String)
    ensures
        r@ == before@ + decimal_text(number as nat),
{
    let mut out: String = before.to_owned();
    out.append(decimal(number).as_str());
    out
}

/// A word, a number and another word.
pub fn numbered(before: &str, number: u64, after: &str) -> (r: String)
    ensures
        r@ == before@ + decimal_text(number as nat) + after@,
{
    let mut out: String = before.to_owned();
    out.append(decimal(number).as_str());
    out.append(after);
    out
}

} // verus!

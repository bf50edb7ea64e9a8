//! Passing a request on to another node, and its answer back.

use vstd::prelude::*;
use vstd::string::*;

use crate::reply::{proxied_status, refuse, refuse_because, refused, Refusal, Status};

verus! {

/// Longest answer of another node that is passed on, in bytes.
pub const MAX_FORWARD_RESPONSE_BYTES: usize = 65_536;

/// What came of passing a request on.
#[derive(Debug)]
pub enum Forwarded {
    /// It could not be sent.
    SendFailed(String),
    /// No answer began in time.
    SendTimedOut,
    /// The answer is too long.
    TooLong,
    /// The answer broke off.
    ReadFailed(String),
    /// The answer did not end in time.
    ReadTimedOut,
    /// The answer, of which this is the status.
    Answered(u16),
}

/// Whether another chunk of an answer may be kept.
pub fn chunk_fits(kept: usize, chunk: usize) -> (r: bool)
    ensures
        r == (kept + chunk <= MAX_FORWARD_RESPONSE_BYTES),
{
    kept.saturating_add(chunk) <= MAX_FORWARD_RESPONSE_BYTES
}

/// Whether an answer of an announced length is read.
pub fn announced_length_fits(length: Option<u64>) -> (r: bool)
    ensures
        r == (length is None || length->0 <= MAX_FORWARD_RESPONSE_BYTES),
{
    match length {
        Some(length) => length <= MAX_FORWARD_RESPONSE_BYTES as u64,
        None => true,
    }
}

fn sentence(a: &str, operation: &str, b: &str, node: &str, c: &str) -> (r: String)
    ensures
        r@ == a@ + operation@ + b@ + node@ + c@,
{
    let mut out: String = a.to_owned();
    out.append(operation);
    out.append(b);
    out.append(node);
    out.append(c);
    out
}

/// The refusal that a failed passing of a node operation is answered with, if
/// it failed.
pub open spec fn node_forward_refusal(
    operation: Seq<char>,
    node: Seq<char>,
    forwarded: Forwarded,
) -> Option<(Status, Seq<char>)> {
    match forwarded {
        Forwarded::SendFailed(error) => Some(
            (
                Status::BadGateway,
                "failed to forward node "@ + operation + " to "@ + node + ": "@ + error@,
            ),
        ),
        Forwarded::SendTimedOut => Some(
            (
                Status::GatewayTimeout,
                "node "@ + operation + " request to "@ + node + " timed out"@,
            ),
        ),
        Forwarded::TooLong => Some(
            (Status::BadGateway, "target node response exceeded the 64 KiB limit"@),
        ),
        Forwarded::ReadFailed(error) => Some(
            (
                Status::BadGateway,
                "failed to read node "@ + operation + " response from "@ + node + ": "@ + error@,
            ),
        ),
        Forwarded::ReadTimedOut => Some(
            (
                Status::GatewayTimeout,
                "node "@ + operation + " response from "@ + node + " timed out"@,
            ),
        ),
        Forwarded::Answered(_) => None,
    }
}

/// The status that an answer is passed back with.
pub open spec fn passed_status(forwarded: Forwarded) -> u16 {
    match forwarded {
        Forwarded::Answered(code) => if 100 <= code <= 999 {
            code
        } else {
            502
        },
        _ => 502,
    }
}

/// Answer the passing of a node operation: with the other node's status, or
/// with why there is none.
pub fn send_node_request(target_node: &str, operation: &str, forwarded: Forwarded) -> (r: Result<
    u16,
    Refusal,
>)
    ensures
        match node_forward_refusal(operation@, target_node@, forwarded) {
            Some((status, error)) => refused(r, status, error),
            None => r == Ok::<u16, Refusal>(passed_status(forwarded)),
        },
{
    match forwarded {
        Forwarded::SendFailed(error) => {
            let mut text: String = sentence(
                "failed to forward node ",
                operation,
                " to ",
                target_node,
                ": ",
            );
            text.append(error.as_str());
            Err(Refusal { status: Status::BadGateway, error: text })
        },
        Forwarded::SendTimedOut => Err(
            Refusal {
                status: Status::GatewayTimeout,
                error: sentence("node ", operation, " request to ", target_node, " timed out"),
            },
        ),
        Forwarded::TooLong => Err(
            refuse(Status::BadGateway, "target node response exceeded the 64 KiB limit"),
        ),
        Forwarded::ReadFailed(error) => {
            let mut text: String = sentence(
                "failed to read node ",
                operation,
                " response from ",
                target_node,
                ": ",
            );
            text.append(error.as_str());
            Err(Refusal { status: Status::BadGateway, error: text })
        },
        Forwarded::ReadTimedOut => Err(
            Refusal {
                status: Status::GatewayTimeout,
                error: sentence("node ", operation, " response from ", target_node, " timed out"),
            },
        ),
        Forwarded::Answered(code) => Ok(proxied_status(code)),
    }
}

/// The refusal that a failed passing of a lease request is answered with, if
/// it failed.
pub open spec fn lease_forward_refusal(forwarded: Forwarded) -> Option<(Status, Seq<char>)> {
    match forwarded {
        Forwarded::SendFailed(error) => Some(
            (
                Status::BadGateway,
                "failed to forward lease request to the leader: "@ + error@,
            ),
        ),
        Forwarded::SendTimedOut => Some((Status::GatewayTimeout, "leader request timed out"@)),
        Forwarded::TooLong => Some(
            (Status::BadGateway, "leader lease response exceeded 64 KiB"@),
        ),
        Forwarded::ReadFailed(error) => Some(
            (Status::BadGateway, "failed to read leader lease response: "@ + error@),
        ),
        Forwarded::ReadTimedOut => Some((Status::GatewayTimeout, "leader response timed out"@)),
        Forwarded::Answered(_) => None,
    }
}

/// Answer the passing of a lease request to the leader: with the leader's
/// status, or with why there is none.
pub fn forward_test_lease_request(forwarded: Forwarded) -> (r: Result<u16, Refusal>)
    ensures
        match lease_forward_refusal(forwarded) {
            Some((status, error)) => refused(r, status, error),
            None => r == Ok::<u16, Refusal>(passed_status(forwarded)),
        },
{
    match forwarded {
        Forwarded::SendFailed(error) => Err(
            refuse_because(
                Status::BadGateway,
                "failed to forward lease request to the leader: ",
                error.as_str(),
            ),
        ),
        Forwarded::SendTimedOut => Err(refuse(Status::GatewayTimeout, "leader request timed out")),
        Forwarded::TooLong => Err(
            refuse(Status::BadGateway, "leader lease response exceeded 64 KiB"),
        ),
        Forwarded::ReadFailed(error) => Err(
            refuse_because(
                Status::BadGateway,
                "failed to read leader lease response: ",
                error.as_str(),
            ),
        ),
        Forwarded::ReadTimedOut => Err(
            refuse(Status::GatewayTimeout, "leader response timed out"),
        ),
        Forwarded::Answered(code) => Ok(proxied_status(code)),
    }
}

/// The bytes that are kept of a run of chunks: reading stops at the first one
/// that does not fit.
pub open spec fn kept_bytes(kept: nat, chunks: Seq<nat>) -> nat
    decreases chunks.len(),
{
    if chunks.len() == 0 || kept + chunks[0] > MAX_FORWARD_RESPONSE_BYTES {
        kept
    } else {
        kept_bytes(kept + chunks[0], chunks.skip(1))
    }
}

/// However many chunks come, the kept answer never exceeds its bound.
pub proof fn kept_answers_are_bounded(kept: nat, chunks: Seq<nat>)
    requires
        kept <= MAX_FORWARD_RESPONSE_BYTES,
    ensures
        kept_bytes(kept, chunks) <= MAX_FORWARD_RESPONSE_BYTES,
    decreases chunks.len(),
{
    if chunks.len() > 0 && kept + chunks[0] <= MAX_FORWARD_RESPONSE_BYTES {
        kept_answers_are_bounded(kept + chunks[0], chunks.skip(1));
    }
}

/// Answer an apply that was sent to the leader: its events are streamed on with
/// success, whatever its status.
pub fn forward_apply(sent: Result<u16, String>) -> (r: Result<u16, Refusal>)
    ensures
        match sent {
            Ok(_) => r == Ok::<u16, Refusal>(200),
            Err(error) => refused(
                r,
                Status::BadGateway,
                "failed to forward apply to the leader: "@ + error@,
            ),
        },
{
    match sent {
        Ok(_) => Ok(200),
        Err(error) => Err(
            refuse_because(
                Status::BadGateway,
                "failed to forward apply to the leader: ",
                error.as_str(),
            ),
        ),
    }
}

/// Whether a forwarded request is answered with the peer's status, or refused
/// with a reason.
pub open spec fn is_proxied(
    r: Result<u16, Refusal>,
    sent: Result<u16, String>,
    words: Seq<char>,
) -> bool {
    match sent {
        Ok(code) => r == Ok::<u16, Refusal>(passed_status(Forwarded::Answered(code))),
        Err(error) => refused(r, Status::BadGateway, words + error@),
    }
}

fn proxied(sent: Result<u16, String>, words: &str) -> (r: Result<u16, Refusal>)
    ensures
        is_proxied(r, sent, words@),
{
    match sent {
        Ok(code) => Ok(proxied_status(code)),
        Err(error) => Err(refuse_because(Status::BadGateway, words, error.as_str())),
    }
}

/// Answer a stop that was sent to the leader.
pub fn forward_stop(sent: Result<u16, String>) -> (r: Result<u16, Refusal>)
    ensures
        is_proxied(r, sent, "failed to forward stop to the leader: "@),
{
    proxied(sent, "failed to forward stop to the leader: ")
}

/// Answer a batch request that was sent to the leader.
pub fn forward_batch(sent: Result<u16, String>) -> (r: Result<u16, Refusal>)
    ensures
        is_proxied(r, sent, "leader forward failed: "@),
{
    proxied(sent, "leader forward failed: ")
}

/// Answer a question for a delegated build that was sent to its builder.
pub fn forward_build_status(sent: Result<u16, String>) -> (r: Result<u16, Refusal>)
    ensures
        is_proxied(r, sent, "builder unreachable: "@),
{
    proxied(sent, "builder unreachable: ")
}

} // verus!

//! Webhooks of git hosts, which trigger a sync.

use vstd::prelude::*;
use vstd::string::*;

use crate::reply::{refuse, refused, Refusal, Status};
use crate::text::{contains_text, occurs};

verus! {

/// A header of a request.
#[derive(Debug)]
pub enum Header {
    /// The header is not there.
    Missing,
    /// The header is no text.
    Unreadable,
    /// The header's text.
    Text(String),
}

/// The text of a header, if it has one.
pub open spec fn header_text(header: Header) -> Option<String> {
    match header {
        Header::Text(text) => Some(text),
        _ => None,
    }
}

/// Take the text of a header, if it has one.
pub fn take_text(header: Header) -> (r: Option<String>)
    ensures
        r == header_text(header),
{
    match header {
        Header::Text(text) => Some(text),
        _ => None,
    }
}

/// Choose a delivery's identifier: GitHub's header where it is there, readable
/// or not, else GitLab's.
pub fn header_delivery_id(github: Header, gitlab: Header) -> (r: Option<String>)
    ensures
        r == if github is Missing {
            header_text(gitlab)
        } else {
            header_text(github)
        },
{
    match github {
        Header::Missing => take_text(gitlab),
        other => take_text(other),
    }
}

/// Choose the branch of a push: that of the header, or `main`.
pub fn header_branch(branch: Header) -> (r: String)
    ensures
        r@ == match branch {
            Header::Text(text) => text@,
            _ => "main"@,
        },
{
    match branch {
        Header::Text(text) => text,
        _ => "main".to_owned(),
    }
}

/// How a delivery proves itself.
#[derive(Debug)]
pub enum Proof {
    /// By a shared secret, sent as it is.
    SharedSecret(String),
    /// By a signature over its body, if it has one.
    Signature(Option<String>),
}

/// What a delivery is checked by.
#[derive(Debug)]
pub struct Delivery {
    /// How it proves itself.
    pub proof_of_origin: Proof,
    /// Its identifier, if it has one.
    pub delivery_id: Option<String>,
    /// The branch that it is for.
    pub branch: String,
}

/// Read a delivery. Without a listener, or a secret to check deliveries by,
/// there is nothing to do: anyone can send one.
pub fn read_delivery(
    listening: bool,
    secret: bool,
    gitlab_token: Header,
    signature: Header,
    delivery_id: Option<String>,
    branch: String,
) -> (r: Result<Delivery, Refusal>)
    ensures
        if !listening {
            refused(r, Status::ServiceUnavailable, "gitops not configured"@)
        } else if !secret {
            refused(r, Status::ServiceUnavailable, "webhook secret not configured"@)
        } else {
            r == Ok::<Delivery, Refusal>(
                Delivery {
                    proof_of_origin: match gitlab_token {
                        Header::Text(token) => Proof::SharedSecret(token),
                        _ => Proof::Signature(header_text(signature)),
                    },
                    delivery_id,
                    branch,
                },
            )
        },
{
    if !listening {
        return Err(refuse(Status::ServiceUnavailable, "gitops not configured"));
    }
    if !secret {
        return Err(refuse(Status::ServiceUnavailable, "webhook secret not configured"));
    }
    let proof_of_origin = match gitlab_token {
        Header::Text(token) => Proof::SharedSecret(token),
        _ => Proof::Signature(take_text(signature)),
    };
    Ok(Delivery { proof_of_origin, delivery_id, branch })
}

/// The status of a rejected delivery: too many requests where the words speak
/// of the rate limit, else unauthorised.
pub open spec fn rejection_status(words: Seq<char>) -> Status {
    if occurs("rate limit"@, words) {
        Status::TooManyRequests
    } else {
        Status::Unauthorized
    }
}

/// Answer a delivery that was checked: only a valid one triggers a sync.
pub fn answer_delivery(checked: Result<(), String>) -> (r: Result<Status, Refusal>)
    ensures
        match checked {
            Ok(()) => r == Ok::<Status, Refusal>(Status::Accepted),
            Err(words) => refused(r, rejection_status(words@), words@),
        },
{
    match checked {
        Ok(()) => Ok(Status::Accepted),
        Err(words) => {
            let status = if contains_text(words.as_str(), "rate limit") {
                Status::TooManyRequests
            } else {
                Status::Unauthorized
            };
            Err(refuse(status, words.as_str()))
        },
    }
}

} // verus!

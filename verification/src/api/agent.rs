//! Answers to what the agent replied.

use vstd::prelude::*;

use crate::reply::{refuse, refused, Refusal, Status};

verus! {

/// What came of a command to the agent.
#[derive(Debug)]
pub enum AgentReply<T> {
    /// The agent did not take it.
    Unavailable,
    /// The agent gave no answer.
    Dropped,
    /// The agent refused it or failed.
    Failed(String),
    /// The agent's answer.
    Done(T),
}

/// Answer a command whose failure is told by a status: a missing or silent
/// agent is an internal error.
pub fn answer_command<T>(reply: AgentReply<T>, failure: Status) -> (r: Result<T, Refusal>)
    ensures
        match reply {
            AgentReply::Unavailable => refused(
                r,
                Status::InternalServerError,
                "agent unavailable"@,
            ),
            AgentReply::Dropped => refused(
                r,
                Status::InternalServerError,
                "agent dropped response"@,
            ),
            AgentReply::Failed(error) => refused(r, failure, error@),
            AgentReply::Done(value) => r == Ok::<T, Refusal>(value),
        },
{
    match reply {
        AgentReply::Unavailable => Err(refuse(Status::InternalServerError, "agent unavailable")),
        AgentReply::Dropped => Err(refuse(Status::InternalServerError, "agent dropped response")),
        AgentReply::Failed(error) => Err(refuse(failure, error.as_str())),
        AgentReply::Done(value) => Ok(value),
    }
}

/// Refuse because the agent cannot be reached.
pub fn agent_unavailable() -> (r: Refusal)
    ensures
        r@ == (Status::ServiceUnavailable, "agent unavailable"@),
{
    refuse(Status::ServiceUnavailable, "agent unavailable")
}

/// Answer a question for the apps that the agent should run: a missing and a
/// silent agent are outages, told apart.
pub fn answer_desired_apps<T>(reply: AgentReply<T>) -> (r: Result<T, Refusal>)
    ensures
        match reply {
            AgentReply::Unavailable => refused(
                r,
                Status::ServiceUnavailable,
                "agent unavailable"@,
            ),
            AgentReply::Dropped => refused(
                r,
                Status::ServiceUnavailable,
                "agent dropped response"@,
            ),
            AgentReply::Failed(error) => refused(r, Status::ServiceUnavailable, error@),
            AgentReply::Done(value) => r == Ok::<T, Refusal>(value),
        },
{
    match reply {
        AgentReply::Unavailable => Err(agent_unavailable()),
        AgentReply::Dropped => Err(refuse(Status::ServiceUnavailable, "agent dropped response")),
        AgentReply::Failed(error) => Err(refuse(Status::ServiceUnavailable, error.as_str())),
        AgentReply::Done(value) => Ok(value),
    }
}

/// Answer a command of which a missing or silent agent is an outage.
pub fn answer_or_outage<T>(reply: AgentReply<T>, failure: Status) -> (r: Result<T, Refusal>)
    ensures
        match reply {
            AgentReply::Unavailable => refused(
                r,
                Status::ServiceUnavailable,
                "agent unavailable"@,
            ),
            AgentReply::Dropped => refused(r, Status::ServiceUnavailable, "agent unavailable"@),
            AgentReply::Failed(error) => refused(r, failure, error@),
            AgentReply::Done(value) => r == Ok::<T, Refusal>(value),
        },
{
    match reply {
        AgentReply::Unavailable => Err(agent_unavailable()),
        AgentReply::Dropped => Err(agent_unavailable()),
        AgentReply::Failed(error) => Err(refuse(failure, error.as_str())),
        AgentReply::Done(value) => Ok(value),
    }
}

/// The status of a node's readiness: it is fenced while not every critical
/// subsystem is ready.
pub fn readiness_status(ready: bool) -> (r: Status)
    ensures
        r == if ready {
            Status::Success
        } else {
            Status::ServiceUnavailable
        },
{
    if ready {
        Status::Success
    } else {
        Status::ServiceUnavailable
    }
}

/// Require that the agent took a command whose answer is streamed.
pub fn require_taken(taken: bool) -> (r: Result<(), Refusal>)
    ensures
        if taken {
            r is Ok
        } else {
            refused(r, Status::InternalServerError, "agent unavailable"@)
        },
{
    if taken {
        Ok(())
    } else {
        Err(refuse(Status::InternalServerError, "agent unavailable"))
    }
}

} // verus!

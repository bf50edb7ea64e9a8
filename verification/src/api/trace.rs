//! Fixed DNS and TCP probes from a local source workload.

use vstd::prelude::*;

use crate::access::{authorize, authorize_scoped, caller, has_role, may_touch, AuthContext, Denial};
use crate::policy::ApiRole;
use crate::reply::{refuse, refused, Refusal, Status};
use crate::text::{same_text, to_chars};

verus! {

/// A probe that is asked for.
#[derive(Debug)]
pub struct TraceRequest {
    /// App that probes.
    pub source: String,
    /// Namespace of that app.
    pub source_namespace: String,
    /// What is probed: an app or a host.
    pub destination: String,
    /// Namespace of a probed app.
    pub destination_namespace: String,
    /// Port that is probed.
    pub port: Option<u16>,
}

/// Whether a character may begin and end a label.
pub open spec fn is_label_edge(c: char) -> bool {
    ('a' <= c && c <= 'z') || ('0' <= c && c <= '9')
}

/// Whether a text is a single DNS label: one to sixty-three lower-case
/// letters, digits and hyphens, with no hyphen at either end.
pub open spec fn is_label(s: Seq<char>) -> bool {
    &&& 0 < s.len() <= 63
    &&& is_label_edge(s[0])
    &&& is_label_edge(s.last())
    &&& forall|i: int| 0 <= i < s.len() ==> is_label_edge(#[trigger] s[i]) || s[i] == '-'
}

fn label_edge(c: char) -> (r: bool)
    ensures
        r == is_label_edge(c),
{
    ('a' <= c && c <= 'z') || ('0' <= c && c <= '9')
}

/// Whether a text is a single DNS label.
pub fn valid_trace_label(value: &str) -> (r: bool)
    ensures
        r == is_label(value@),
{
    let chars = to_chars(value);
    if chars.len() == 0 || chars.len() > 63 || !label_edge(chars[0]) || !label_edge(
        chars[chars.len() - 1],
    ) {
        return false;
    }
    let mut i: usize = 0;
    while i < chars.len()
        invariant
            chars@ == value@,
            i <= chars.len(),
            forall|j: int| 0 <= j < i ==> is_label_edge(#[trigger] value@[j]) || value@[j] == '-',
        decreases chars.len() - i,
    {
        if !label_edge(chars[i]) && chars[i] != '-' {
            proof {
                assert(!is_label_edge(value@[i as int]));
            }
            return false;
        }
        i = i + 1;
    }
    true
}

/// What kind of destination is probed.
#[derive(Debug, Clone, Copy, PartialEq, Eq, Structural)]
pub enum TraceKind {
    /// A service of the cluster.
    Internal,
    /// A host outside.
    External,
}

/// Why a probe is refused before anything is looked up, if it is.
///
/// `policy` is what the server's policy says of probing outside, and
/// `allowlisted` whether the very destination and port are listed.
pub open spec fn trace_refusal(
    auth: Option<AuthContext>,
    request: TraceRequest,
    policy: Result<(), String>,
    allowlisted: bool,
) -> Option<(Status, Seq<char>)> {
    if !has_role(auth, ApiRole::ReadOnly) {
        Some((Status::Forbidden, Denial::Role.text()))
    } else if request.port == Some(0u16) {
        Some((Status::BadRequest, "trace destination port must be between 1 and 65535"@))
    } else if !is_label(request.source@) || !is_label(request.source_namespace@) {
        Some((Status::BadRequest, "trace source and namespace must be DNS labels"@))
    } else if !may_touch(auth, request.source@, request.source_namespace@) {
        Some((Status::Forbidden, Denial::Scope.text()))
    } else if is_label(request.destination@) {
        if !is_label(request.destination_namespace@) {
            Some((Status::BadRequest, "internal destination namespace must be a DNS label"@))
        } else if !may_touch(auth, request.destination@, request.destination_namespace@) {
            Some((Status::Forbidden, Denial::Scope.text()))
        } else {
            None
        }
    } else if request.port is None {
        Some((Status::BadRequest, "external trace destination requires --port"@))
    } else if auth is None {
        Some((Status::Forbidden, "external trace requires an authenticated Admin credential"@))
    } else if policy is Err {
        Some((Status::Forbidden, policy->Err_0@))
    } else if !allowlisted {
        Some(
            (
                Status::Forbidden,
                "external trace destination is not exactly allowlisted as host:port"@,
            ),
        )
    } else {
        None
    }
}

/// Decide whether a probe is admitted, and of which kind it is.
pub fn admit_trace(
    auth: Option<&AuthContext>,
    request: &TraceRequest,
    policy: &Result<(), String>,
    allowlisted: bool,
) -> (r: Result<TraceKind, Refusal>)
    ensures
        match trace_refusal(caller(auth), *request, *policy, allowlisted) {
            Some((status, error)) => refused(r, status, error),
            None => r == Ok::<TraceKind, Refusal>(
                if is_label(request.destination@) {
                    TraceKind::Internal
                } else {
                    TraceKind::External
                },
            ),
        },
{
    match authorize(auth, ApiRole::ReadOnly) {
        Err(denial) => {
            return Err(denial.refusal());
        },
        Ok(()) => {},
    }
    match request.port {
        Some(port) => {
            if port == 0 {
                return Err(
                    refuse(
                        Status::BadRequest,
                        "trace destination port must be between 1 and 65535",
                    ),
                );
            }
        },
        None => {},
    }
    if !valid_trace_label(request.source.as_str()) || !valid_trace_label(
        request.source_namespace.as_str(),
    ) {
        return Err(
            refuse(Status::BadRequest, "trace source and namespace must be DNS labels"),
        );
    }
    match authorize_scoped(auth, request.source.as_str(), request.source_namespace.as_str()) {
        Err(denial) => {
            return Err(denial.refusal());
        },
        Ok(()) => {},
    }
    if valid_trace_label(request.destination.as_str()) {
        if !valid_trace_label(request.destination_namespace.as_str()) {
            return Err(
                refuse(Status::BadRequest, "internal destination namespace must be a DNS label"),
            );
        }
        match authorize_scoped(
            auth,
            request.destination.as_str(),
            request.destination_namespace.as_str(),
        ) {
            Err(denial) => {
                return Err(denial.refusal());
            },
            Ok(()) => {},
        }
        return Ok(TraceKind::Internal);
    }
    if request.port.is_none() {
        return Err(refuse(Status::BadRequest, "external trace destination requires --port"));
    }
    if auth.is_none() {
        return Err(
            refuse(
                Status::Forbidden,
                "external trace requires an authenticated Admin credential",
            ),
        );
    }
    match policy {
        Err(error) => {
            return Err(refuse(Status::Forbidden, error.as_str()));
        },
        Ok(()) => {},
    }
    if !allowlisted {
        return Err(
            refuse(
                Status::Forbidden,
                "external trace destination is not exactly allowlisted as host:port",
            ),
        );
    }
    Ok(TraceKind::External)
}

/// A service of the live service map.
#[derive(Debug)]
pub struct LiveService {
    /// Name of the service.
    pub app_name: String,
    /// Namespace of the service.
    pub namespace: String,
    /// Port of the service.
    pub port: u16,
}

/// The port of the first service of a name, if there is one.
pub open spec fn live_port(
    services: Seq<LiveService>,
    name: Seq<char>,
    namespace: Seq<char>,
) -> Option<u16>
    decreases services.len(),
{
    if services.len() == 0 {
        None
    } else if services[0].app_name@ == name && services[0].namespace@ == namespace {
        Some(services[0].port)
    } else {
        live_port(services.skip(1), name, namespace)
    }
}

/// Find the port that an internal probe goes to: the asked one, or that of the
/// service, which must be in the live service map in any case.
pub fn internal_port(request: &TraceRequest, services: &Vec<LiveService>) -> (r: Result<
    u16,
    Refusal,
>)
    ensures
        match live_port(services@, request.destination@, request.destination_namespace@) {
            None => refused(
                r,
                Status::NotFound,
                "internal destination is absent from the live service map"@,
            ),
            Some(port) => r == Ok::<u16, Refusal>(
                match request.port {
                    Some(asked) => asked,
                    None => port,
                },
            ),
        },
{
    let mut i: usize = 0;
    proof {
        assert(services@.skip(0) =~= services@);
    }
    while i < services.len()
        invariant
            i <= services.len(),
            live_port(services@, request.destination@, request.destination_namespace@)
                == live_port(
                services@.skip(i as int),
                request.destination@,
                request.destination_namespace@,
            ),
        decreases services.len() - i,
    {
        proof {
            assert(services@.skip(i as int).skip(1) =~= services@.skip(i as int + 1));
        }
        if same_text(services[i].app_name.as_str(), request.destination.as_str()) && same_text(
            services[i].namespace.as_str(),
            request.destination_namespace.as_str(),
        ) {
            return Ok(
                match request.port {
                    Some(asked) => asked,
                    None => services[i].port,
                },
            );
        }
        i = i + 1;
    }
    Err(refuse(Status::NotFound, "internal destination is absent from the live service map"))
}

/// What came of the question for the live service map.
#[derive(Debug)]
pub enum ServiceMapReply {
    /// The agent did not take it.
    Unavailable,
    /// The agent gave no answer.
    Dropped,
    /// The services.
    Services(Vec<LiveService>),
}

/// Find the port that an internal probe goes to from the agent's reply. An
/// agent that is missing and one that is silent are told apart.
pub fn probe_port(request: &TraceRequest, reply: &ServiceMapReply) -> (r: Result<u16, Refusal>)
    ensures
        match *reply {
            ServiceMapReply::Unavailable => refused(
                r,
                Status::ServiceUnavailable,
                "agent unavailable"@,
            ),
            ServiceMapReply::Dropped => refused(
                r,
                Status::ServiceUnavailable,
                "agent dropped service-map response"@,
            ),
            ServiceMapReply::Services(services) => match live_port(
                services@,
                request.destination@,
                request.destination_namespace@,
            ) {
                None => refused(
                    r,
                    Status::NotFound,
                    "internal destination is absent from the live service map"@,
                ),
                Some(port) => r == Ok::<u16, Refusal>(
                    match request.port {
                        Some(asked) => asked,
                        None => port,
                    },
                ),
            },
        },
{
    match reply {
        ServiceMapReply::Unavailable => Err(
            refuse(Status::ServiceUnavailable, "agent unavailable"),
        ),
        ServiceMapReply::Dropped => Err(
            refuse(Status::ServiceUnavailable, "agent dropped service-map response"),
        ),
        ServiceMapReply::Services(services) => internal_port(request, services),
    }
}

/// What came of a probe.
#[derive(Debug)]
pub enum TraceOutcome {
    /// The agent did not take it.
    AgentUnavailable,
    /// It gave a result.
    Done,
    /// The source app does not run here.
    SourceNotFound,
    /// Too many probes are running.
    Busy,
    /// It failed.
    Failed(String),
    /// The agent gave no answer.
    Dropped,
    /// It took too long.
    TimedOut,
}

/// The refusal that the outcome of a probe is answered with, if it is one.
pub open spec fn outcome_refusal(outcome: TraceOutcome) -> Option<(Status, Seq<char>)> {
    match outcome {
        TraceOutcome::AgentUnavailable => Some((Status::ServiceUnavailable, "agent unavailable"@)),
        TraceOutcome::Done => None,
        TraceOutcome::SourceNotFound => Some(
            (Status::NotFound, "source app has no running instance on this node"@),
        ),
        TraceOutcome::Busy => Some(
            (
                Status::TooManyRequests,
                "too many connectivity traces are already running on this node"@,
            ),
        ),
        TraceOutcome::Failed(error) => Some((Status::UnprocessableEntity, error@)),
        TraceOutcome::Dropped => Some((Status::ServiceUnavailable, "agent dropped response"@)),
        TraceOutcome::TimedOut => Some(
            (Status::GatewayTimeout, "trace timed out after 20 seconds"@),
        ),
    }
}

/// Answer the outcome of a probe.
pub fn answer_trace(outcome: TraceOutcome) -> (r: Result<(), Refusal>)
    ensures
        match outcome_refusal(outcome) {
            Some((status, error)) => refused(r, status, error),
            None => r is Ok,
        },
{
    match outcome {
        TraceOutcome::AgentUnavailable => Err(
            refuse(Status::ServiceUnavailable, "agent unavailable"),
        ),
        TraceOutcome::Done => Ok(()),
        TraceOutcome::SourceNotFound => Err(
            refuse(Status::NotFound, "source app has no running instance on this node"),
        ),
        TraceOutcome::Busy => Err(
            refuse(
                Status::TooManyRequests,
                "too many connectivity traces are already running on this node",
            ),
        ),
        TraceOutcome::Failed(error) => Err(refuse(Status::UnprocessableEntity, error.as_str())),
        TraceOutcome::Dropped => Err(
            refuse(Status::ServiceUnavailable, "agent dropped response"),
        ),
        TraceOutcome::TimedOut => Err(
            refuse(Status::GatewayTimeout, "trace timed out after 20 seconds"),
        ),
    }
}

/// A host outside is probed only for an authenticated caller whom the policy
/// allows it, at exactly a listed destination and port.
pub proof fn external_probes_need_every_permission(
    auth: Option<AuthContext>,
    request: TraceRequest,
    policy: Result<(), String>,
    allowlisted: bool,
)
    requires
        trace_refusal(auth, request, policy, allowlisted) is None,
        !is_label(request.destination@),
    ensures
        auth is Some,
        policy is Ok,
        allowlisted,
        request.port is Some && request.port->0 != 0,
{
}

/// A probe never starts from, nor goes to, an app out of the caller's scope.
pub proof fn probes_stay_in_scope(
    auth: Option<AuthContext>,
    request: TraceRequest,
    policy: Result<(), String>,
    allowlisted: bool,
)
    requires
        trace_refusal(auth, request, policy, allowlisted) is None,
    ensures
        may_touch(auth, request.source@, request.source_namespace@),
        is_label(request.destination@) ==> may_touch(
            auth,
            request.destination@,
            request.destination_namespace@,
        ),
{
}

} // verus!

//! Reading, stopping and entering workloads.

use vstd::prelude::*;
use vstd::string::*;

use crate::access::{
    authorize, authorize_scoped, caller, has_role, in_scope, may_touch, AuthContext, Denial,
};
use crate::api::agent::{answer_command, AgentReply};
use crate::api::leases::CouncilWrite;
use crate::instances::{instances_of, pick_instances, InstanceStatus};
use crate::policy::ApiRole;
use crate::reply::{refuse, refuse_because, refused, Refusal, Status};
use crate::text::{debug_text, in_quotes};

verus! {

/// Why an operation on an app is refused, if it is.
///
/// `required` is the role that it asks for, if any, and `permission` what the
/// caller's permissions say of it.
pub open spec fn app_operation_refusal(
    auth: Option<AuthContext>,
    required: Option<ApiRole>,
    app: Seq<char>,
    namespace: Seq<char>,
    permission: Result<(), String>,
) -> Option<(Status, Seq<char>)> {
    if required is Some && !has_role(auth, required->0) {
        Some((Status::Forbidden, Denial::Role.text()))
    } else if !may_touch(auth, app, namespace) {
        Some((Status::Forbidden, Denial::Scope.text()))
    } else if permission is Err {
        Some((Status::Forbidden, permission->Err_0@))
    } else {
        None
    }
}

/// Decide whether a caller may carry out an operation on an app: by role, then
/// by scope, then by permission.
pub fn admit_app_operation(
    auth: Option<&AuthContext>,
    required: Option<ApiRole>,
    app: &str,
    namespace: &str,
    permission: &Result<(), String>,
) -> (r: Result<(), Refusal>)
    ensures
        match app_operation_refusal(caller(auth), required, app@, namespace@, *permission) {
            Some((status, error)) => refused(r, status, error),
            None => r is Ok,
        },
{
    match required {
        Some(role) => match authorize(auth, role) {
            Err(denial) => {
                return Err(denial.refusal());
            },
            Ok(()) => {},
        },
        None => {},
    }
    match authorize_scoped(auth, app, namespace) {
        Err(denial) => {
            return Err(denial.refusal());
        },
        Ok(()) => {},
    }
    match permission {
        Err(error) => Err(refuse(Status::Forbidden, error.as_str())),
        Ok(()) => Ok(()),
    }
}

/// No operation, read or write, reaches an app out of the caller's scope.
pub proof fn operations_stay_in_scope(
    auth: Option<AuthContext>,
    required: Option<ApiRole>,
    app: Seq<char>,
    namespace: Seq<char>,
    permission: Result<(), String>,
)
    requires
        app_operation_refusal(auth, required, app, namespace, permission) is None,
    ensures
        may_touch(auth, app, namespace),
{
}

/// Show the instances of an app, if it has any.
pub fn app_status(statuses: &Vec<InstanceStatus>, app: &str, namespace: &str) -> (r: Result<
    Vec<InstanceStatus>,
    Refusal,
>)
    ensures
        if instances_of(statuses@, app@, namespace@).len() == 0 {
            refused(
                r,
                Status::NotFound,
                "app "@ + app@ + " not found in "@ + namespace@,
            )
        } else {
            r is Ok && r->Ok_0@ == instances_of(statuses@, app@, namespace@)
        },
{
    let list = pick_instances(statuses, app, namespace);
    if list.len() == 0 {
        let mut error: String = "app ".to_owned();
        error.append(app);
        error.append(" not found in ");
        error.append(namespace);
        return Err(Refusal { status: Status::NotFound, error });
    }
    Ok(list)
}

/// How an app is stopped.
#[derive(Debug)]
pub enum StopRoute {
    /// Its instances on this node are stopped.
    Local,
    /// The leader at this URL is asked to stop it.
    Forward(String),
    /// Its desired state is cleared through the council, and then its
    /// instances here are stopped if there are any.
    ClearDesired,
}

/// Decide how an app is stopped. In a cluster a stop changes desired state, so
/// that nothing brings the app back; only the leader can write it.
pub fn stop_route(
    is_leader: Option<bool>,
    leader_url: Option<String>,
    app: &str,
    namespace: &str,
) -> (r: Result<StopRoute, Refusal>)
    ensures
        match is_leader {
            None => r matches Ok(StopRoute::Local),
            Some(true) => r matches Ok(StopRoute::ClearDesired),
            Some(false) => match leader_url {
                None => refused(
                    r,
                    Status::ServiceUnavailable,
                    "no cluster leader known yet; retry shortly"@,
                ),
                Some(url) => r matches Ok(StopRoute::Forward(at)) && at@ == url@ + "/v1/stop/"@
                    + app@ + "/"@ + namespace@,
            },
        },
{
    match is_leader {
        None => Ok(StopRoute::Local),
        Some(true) => Ok(StopRoute::ClearDesired),
        Some(false) => match leader_url {
            None => Err(
                refuse(Status::ServiceUnavailable, "no cluster leader known yet; retry shortly"),
            ),
            Some(url) => {
                let mut at: String = url;
                at.append("/v1/stop/");
                at.append(app);
                at.append("/");
                at.append(namespace);
                Ok(StopRoute::Forward(at))
            },
        },
    }
}

/// Answer the clearing of an app's desired state.
pub fn answer_clear_desired(write: CouncilWrite) -> (r: Result<(), Refusal>)
    ensures
        match write {
            CouncilWrite::Failed(error) => refused(
                r,
                Status::InternalServerError,
                "failed to clear desired state: "@ + error@,
            ),
            _ => r is Ok,
        },
{
    match write {
        CouncilWrite::Failed(error) => Err(
            refuse_because(
                Status::InternalServerError,
                "failed to clear desired state: ",
                error.as_str(),
            ),
        ),
        _ => Ok(()),
    }
}

/// Why a snapshot failed, as far as its status goes.
#[derive(Debug, Clone, Copy, PartialEq, Eq, Structural)]
pub enum SnapshotFailure {
    /// The app runs.
    AppRunning,
    /// There is no such snapshot.
    NotFound,
    /// The app has no volumes.
    NoVolumes,
    /// The volume's file system has no snapshots.
    UnsupportedFilesystem,
    /// Anything else.
    Other,
}

/// The status of a failed snapshot: a running app is a conflict, missing
/// things are not found, an unfit volume is the caller's affair, and anything
/// else is ours.
pub open spec fn snapshot_status(failure: SnapshotFailure) -> Status {
    match failure {
        SnapshotFailure::AppRunning => Status::Conflict,
        SnapshotFailure::NotFound | SnapshotFailure::NoVolumes => Status::NotFound,
        SnapshotFailure::UnsupportedFilesystem => Status::BadRequest,
        SnapshotFailure::Other => Status::InternalServerError,
    }
}

/// Answer a failed snapshot.
pub fn snapshot_error_response(failure: SnapshotFailure, words: &str) -> (r: Refusal)
    ensures
        r@ == (snapshot_status(failure), words@),
{
    let status = match failure {
        SnapshotFailure::AppRunning => Status::Conflict,
        SnapshotFailure::NotFound | SnapshotFailure::NoVolumes => Status::NotFound,
        SnapshotFailure::UnsupportedFilesystem => Status::BadRequest,
        SnapshotFailure::Other => Status::InternalServerError,
    };
    refuse(status, words)
}

/// Answer a question for a service by its name.
pub fn answer_resolve<T>(reply: AgentReply<Option<T>>, name: &str) -> (r: Result<T, Refusal>)
    ensures
        match reply {
            AgentReply::Unavailable => refused(
                r,
                Status::InternalServerError,
                "agent unavailable"@,
            ),
            AgentReply::Dropped => refused(
                r,
                Status::InternalServerError,
                "agent dropped response"@,
            ),
            AgentReply::Failed(error) => refused(r, Status::InternalServerError, error@),
            AgentReply::Done(Some(info)) => r == Ok::<T, Refusal>(info),
            AgentReply::Done(None) => refused(
                r,
                Status::NotFound,
                "service "@ + debug_text(name@) + " not found"@,
            ),
        },
{
    match answer_command(reply, Status::InternalServerError) {
        Err(refusal) => Err(refusal),
        Ok(Some(info)) => Ok(info),
        Ok(None) => {
            let mut error: String = "service ".to_owned();
            error.append(in_quotes(name).as_str());
            error.append(" not found");
            Err(Refusal { status: Status::NotFound, error })
        },
    }
}

/// Answer a question for an app's environment.
pub fn answer_app_env<T>(reply: AgentReply<Option<T>>) -> (r: Result<T, Refusal>)
    ensures
        match reply {
            AgentReply::Done(Some(spec)) => r == Ok::<T, Refusal>(spec),
            AgentReply::Done(None) => refused(r, Status::NotFound, "app not found"@),
            _ => refused(r, Status::InternalServerError, "agent unavailable"@),
        },
{
    match reply {
        AgentReply::Done(Some(spec)) => Ok(spec),
        AgentReply::Done(None) => Err(refuse(Status::NotFound, "app not found")),
        _ => Err(refuse(Status::InternalServerError, "agent unavailable")),
    }
}

/// Who a session is for, and what it is confined to.
#[derive(Debug)]
pub struct SessionIdentity {
    /// Name of the session's owner.
    pub name: String,
    /// Apps that it is confined to, if it is.
    pub apps: Option<Vec<String>>,
    /// Namespaces that it is confined to, if it is.
    pub namespaces: Option<Vec<String>>,
}

/// Decide who a session is for that a token is exchanged for.
///
/// The service token gives an unconfined session of the cluster's principal. A
/// user's token gives a session with the token's own scope. Anything else
/// gives none.
pub fn session_identity(
    service_token: bool,
    system_principal: &str,
    user: Option<AuthContext>,
) -> (r: Result<SessionIdentity, Refusal>)
    ensures
        if service_token {
            r matches Ok(identity) && identity.name@ == system_principal@ && identity.apps is None
                && identity.namespaces is None
        } else {
            match user {
                Some(context) => r == Ok::<SessionIdentity, Refusal>(
                    SessionIdentity {
                        name: context.token_name,
                        apps: context.scoped_apps,
                        namespaces: context.scoped_namespaces,
                    },
                ),
                None => refused(r, Status::Unauthorized, "invalid or expired token"@),
            }
        },
{
    if service_token {
        return Ok(
            SessionIdentity { name: system_principal.to_owned(), apps: None, namespaces: None },
        );
    }
    match user {
        Some(context) => Ok(
            SessionIdentity {
                name: context.token_name,
                apps: context.scoped_apps,
                namespaces: context.scoped_namespaces,
            },
        ),
        None => Err(refuse(Status::Unauthorized, "invalid or expired token")),
    }
}

/// A session made of a user's token reaches no app that the token does not.
pub proof fn sessions_do_not_widen_scope(
    context: AuthContext,
    identity: SessionIdentity,
    app: Seq<char>,
    namespace: Seq<char>,
)
    requires
        !context.system,
        identity.apps == context.scoped_apps,
        identity.namespaces == context.scoped_namespaces,
        in_scope(identity.apps, app) && in_scope(identity.namespaces, namespace),
    ensures
        may_touch(Some(context), app, namespace),
{
}

/// The cookie of a session: kept from scripts, sent to this site alone, and
/// lasting half a day.
pub fn session_cookie(cookie: &str, id: &str) -> (r: String)
    ensures
        r@ == cookie@ + "="@ + id@ + "; HttpOnly; SameSite=Strict; Path=/; Max-Age=43200"@,
{
    let mut out: String = cookie.to_owned();
    out.append("=");
    out.append(id);
    out.append("; HttpOnly; SameSite=Strict; Path=/; Max-Age=43200");
    out
}

/// The cookie that ends a session.
pub fn cleared_cookie(cookie: &str) -> (r: String)
    ensures
        r@ == cookie@ + "=; HttpOnly; SameSite=Strict; Path=/; Max-Age=0"@,
{
    let mut out: String = cookie.to_owned();
    out.append("=; HttpOnly; SameSite=Strict; Path=/; Max-Age=0");
    out
}

} // verus!

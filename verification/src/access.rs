//! Who may do what: roles and scopes of API credentials.

use vstd::prelude::*;
use vstd::string::*;

use crate::policy::ApiRole;
use crate::reply::{refuse, Refusal, Status};
use crate::text::{contains_string, strings};

verus! {

/// An authenticated caller.
#[derive(Debug)]
pub struct AuthContext {
    /// Name of the caller's token.
    pub token_name: String,
    /// Identity of the caller's credential.
    pub principal_id: String,
    /// Role of the credential.
    pub role: ApiRole,
    /// Apps that the credential is confined to, if it is.
    pub scoped_apps: Option<Vec<String>>,
    /// Namespaces that the credential is confined to, if it is.
    pub scoped_namespaces: Option<Vec<String>>,
    /// Whether the caller is the cluster itself.
    pub system: bool,
}

/// Roles in ascending authority.
pub open spec fn authority(role: ApiRole) -> int {
    match role {
        ApiRole::ReadOnly => 0,
        ApiRole::Deployer => 1,
        ApiRole::Admin => 2,
    }
}

/// Whether a role has at least the authority of another.
pub fn reaches(role: ApiRole, required: ApiRole) -> (r: bool)
    ensures
        r == (authority(role) >= authority(required)),
{
    match (role, required) {
        (ApiRole::Admin, _) => true,
        (ApiRole::Deployer, ApiRole::Admin) => false,
        (ApiRole::Deployer, _) => true,
        (ApiRole::ReadOnly, ApiRole::ReadOnly) => true,
        (ApiRole::ReadOnly, _) => false,
    }
}

/// Why a caller is denied.
#[derive(Debug, Clone, Copy, PartialEq, Eq, Structural)]
pub enum Denial {
    /// The role is too low.
    Role,
    /// The cluster itself may not do what users do.
    ServicePrincipal,
    /// The app or namespace is out of scope.
    Scope,
    /// A confined credential may not act on the whole cluster.
    Confined,
}

impl Denial {
    /// The denial in words.
    pub open spec fn text(self) -> Seq<char> {
        match self {
            Denial::Role => "role does not permit this operation"@,
            Denial::ServicePrincipal => "service principal may not perform user operations"@,
            Denial::Scope => "token scope does not allow this app or namespace"@,
            Denial::Confined => "token scope does not allow cluster-wide access"@,
        }
    }

    /// The refusal that a denial is answered with.
    pub fn refusal(self) -> (r: Refusal)
        ensures
            r@ == (Status::Forbidden, self.text()),
    {
        match self {
            Denial::Role => refuse(Status::Forbidden, "role does not permit this operation"),
            Denial::ServicePrincipal => refuse(
                Status::Forbidden,
                "service principal may not perform user operations",
            ),
            Denial::Scope => refuse(
                Status::Forbidden,
                "token scope does not allow this app or namespace",
            ),
            Denial::Confined => refuse(
                Status::Forbidden,
                "token scope does not allow cluster-wide access",
            ),
        }
    }
}

/// Whether a list, if there is one, has a name.
pub open spec fn in_scope(scope: Option<Vec<String>>, name: Seq<char>) -> bool {
    scope is None || strings(scope->0@).contains(name)
}

/// Whether a caller may touch an app in a namespace. Without authentication
/// there is no confinement, and the cluster itself is not confined.
pub open spec fn may_touch(
    auth: Option<AuthContext>,
    app: Seq<char>,
    namespace: Seq<char>,
) -> bool {
    match auth {
        None => true,
        Some(caller) => caller.system || (in_scope(caller.scoped_apps, app) && in_scope(
            caller.scoped_namespaces,
            namespace,
        )),
    }
}

/// Whether a caller has a role.
pub open spec fn has_role(auth: Option<AuthContext>, required: ApiRole) -> bool {
    auth is None || authority(auth->0.role) >= authority(required)
}

/// Whether a caller is not confined to apps or namespaces.
pub open spec fn is_unconfined(auth: Option<AuthContext>) -> bool {
    match auth {
        None => true,
        Some(caller) => caller.system || (caller.scoped_apps is None && caller.scoped_namespaces
            is None),
    }
}

/// The caller by value, if there is one.
pub open spec fn caller(auth: Option<&AuthContext>) -> Option<AuthContext> {
    match auth {
        Some(context) => Some(*context),
        None => None,
    }
}

/// Require a role.
pub fn authorize(auth: Option<&AuthContext>, required: ApiRole) -> (r: Result<(), Denial>)
    ensures
        r == if has_role(caller(auth), required) {
            Ok::<(), Denial>(())
        } else {
            Err(Denial::Role)
        },
{
    match auth {
        None => Ok(()),
        Some(context) => if reaches(context.role, required) {
            Ok(())
        } else {
            Err(Denial::Role)
        },
    }
}

/// Require a role of a user; the cluster itself is denied.
pub fn authorize_user(auth: Option<&AuthContext>, required: ApiRole) -> (r: Result<(), Denial>)
    ensures
        r == if auth is Some && auth->0.system {
            Err(Denial::ServicePrincipal)
        } else if has_role(caller(auth), required) {
            Ok::<(), Denial>(())
        } else {
            Err(Denial::Role)
        },
{
    match auth {
        Some(context) => if context.system {
            Err(Denial::ServicePrincipal)
        } else {
            authorize(auth, required)
        },
        None => Ok(()),
    }
}

fn is_in_scope(scope: &Option<Vec<String>>, name: &str) -> (r: bool)
    ensures
        r == in_scope(*scope, name@),
{
    match scope {
        None => true,
        Some(list) => contains_string(list, name),
    }
}

/// Require that an app and its namespace are in the caller's scope.
pub fn authorize_scoped(auth: Option<&AuthContext>, app: &str, namespace: &str) -> (r: Result<
    (),
    Denial,
>)
    ensures
        r == if may_touch(caller(auth), app@, namespace@) {
            Ok::<(), Denial>(())
        } else {
            Err(Denial::Scope)
        },
{
    match auth {
        None => Ok(()),
        Some(context) => if context.system || (is_in_scope(&context.scoped_apps, app)
            && is_in_scope(&context.scoped_namespaces, namespace)) {
            Ok(())
        } else {
            Err(Denial::Scope)
        },
    }
}

/// Require a caller that is not confined.
pub fn require_unscoped(auth: Option<&AuthContext>) -> (r: Result<(), Denial>)
    ensures
        r == if is_unconfined(caller(auth)) {
            Ok::<(), Denial>(())
        } else {
            Err(Denial::Confined)
        },
{
    match auth {
        None => Ok(()),
        Some(context) => if context.system || (context.scoped_apps.is_none()
            && context.scoped_namespaces.is_none()) {
            Ok(())
        } else {
            Err(Denial::Confined)
        },
    }
}

/// A caller that is not confined may touch every app.
pub proof fn the_unconfined_may_touch_everything(
    auth: Option<AuthContext>,
    app: Seq<char>,
    namespace: Seq<char>,
)
    requires
        is_unconfined(auth),
    ensures
        may_touch(auth, app, namespace),
{
}

/// A caller confined to namespaces may touch nothing in another namespace.
pub proof fn the_confined_stay_in_their_namespaces(
    context: AuthContext,
    app: Seq<char>,
    namespace: Seq<char>,
)
    requires
        !context.system,
        context.scoped_namespaces is Some,
        !strings(context.scoped_namespaces->0@).contains(namespace),
    ensures
        !may_touch(Some(context), app, namespace),
{
}

} // verus!

//! Deploying a manifest, on this node or through the council.

use vstd::prelude::*;
use vstd::string::*;

use crate::access::{authorize, authorize_scoped, caller, has_role, may_touch, AuthContext, Denial};
use crate::api::leases::LeaseError;
use crate::policy::ApiRole;
use crate::reply::{refuse, refused, Refusal, Status};
use crate::text::{optional_text, same_text};

verus! {

/// An app of a manifest, of which admission reads its name, namespace and
/// whether it runs a host process.
#[derive(Debug)]
pub struct ManifestApp {
    /// Name of the app.
    pub name: String,
    /// Namespace of the app, if it names one.
    pub namespace: Option<String>,
    /// Whether the namespace that it deploys into is reserved for tests.
    pub reserved: bool,
    /// Whether it runs an inline script on the host.
    pub script: bool,
}

/// A namespace that a manifest declares.
#[derive(Debug)]
pub struct ManifestNamespace {
    /// Its name.
    pub name: String,
    /// Whether it is reserved for tests.
    pub reserved: bool,
}

/// A manifest, of which admission reads its apps and namespaces and how much
/// else it declares.
#[derive(Debug)]
pub struct Manifest {
    /// The apps.
    pub apps: Vec<ManifestApp>,
    /// The namespaces.
    pub namespaces: Vec<ManifestNamespace>,
    /// Number of jobs.
    pub jobs: usize,
    /// Number of permissions.
    pub permissions: usize,
    /// Number of builds.
    pub builds: usize,
}

/// The lease header of a request.
#[derive(Debug)]
pub enum LeaseHeader {
    /// There is none.
    Absent,
    /// It is not text.
    Malformed,
    /// Its text.
    Text(String),
}

/// The capacity header of a request.
#[derive(Debug, Clone, Copy, PartialEq, Eq, Structural)]
pub enum CapacityHeader {
    /// There is none.
    Absent,
    /// It says `acknowledged`.
    Acknowledged,
    /// It says something else.
    Other,
}

/// A lease that a request names.
#[derive(Debug)]
pub struct NamedLease {
    /// Credential that owns it.
    pub owner_id: String,
    /// Namespace that it covers.
    pub namespace: String,
    /// Whether it is active now.
    pub active: bool,
}

/// Why a manifest is not admitted.
#[derive(Debug)]
pub enum ApplyRefusal {
    /// With a status and words.
    Refused(Refusal),
    /// With a lease error.
    Lease(LeaseError),
}

/// A refusal of a manifest as its facts.
pub ghost enum Rejection {
    /// With a status and words.
    Said(Status, Seq<char>),
    /// With a lease error.
    Lease(LeaseError),
}

impl View for ApplyRefusal {
    type V = Rejection;

    open spec fn view(&self) -> Rejection {
        match *self {
            ApplyRefusal::Refused(refusal) => Rejection::Said(refusal.status, refusal.error@),
            ApplyRefusal::Lease(error) => Rejection::Lease(error),
        }
    }
}

/// Why the headers of a request are refused, if they are.
pub open spec fn header_rejection(
    lease: LeaseHeader,
    capacity: CapacityHeader,
    auth: Option<AuthContext>,
    policy: Result<(), String>,
) -> Option<Rejection> {
    if lease is Malformed || (lease is Text && lease->Text_0@.len() == 0) {
        Some(
            Rejection::Said(
                Status::BadRequest,
                "x-reliaburger-test-lease must contain a lease id"@,
            ),
        )
    } else if capacity == CapacityHeader::Other {
        Some(
            Rejection::Said(
                Status::BadRequest,
                "x-reliaburger-capacity-probe must equal acknowledged"@,
            ),
        )
    } else if capacity == CapacityHeader::Acknowledged && lease is Absent {
        Some(
            Rejection::Said(
                Status::BadRequest,
                "capacity probe requires x-reliaburger-test-lease"@,
            ),
        )
    } else if capacity == CapacityHeader::Acknowledged && auth is None {
        Some(Rejection::Said(Status::Unauthorized, "authentication required"@))
    } else if capacity == CapacityHeader::Acknowledged && policy is Err {
        Some(Rejection::Said(Status::Forbidden, policy->Err_0@))
    } else {
        None
    }
}

/// Whether an app names another namespace than a lease's.
pub open spec fn outside_lease(app: ManifestApp, namespace: Seq<char>) -> bool {
    app.namespace is Some && app.namespace->0@ != namespace
}

/// Why a manifest is refused under a lease, if it is.
pub open spec fn leased_rejection(
    manifest: Manifest,
    auth: Option<AuthContext>,
    lease: Option<NamedLease>,
) -> Option<Rejection> {
    if manifest.jobs > 0 || manifest.permissions > 0 || manifest.builds > 0 {
        Some(
            Rejection::Said(
                Status::BadRequest,
                "leased apply currently accepts apps and their namespace declaration only"@,
            ),
        )
    } else if auth is None {
        Some(Rejection::Said(Status::Unauthorized, "authentication required"@))
    } else if lease is None {
        Some(Rejection::Lease(LeaseError::NotFound))
    } else if !auth->0.system && lease->0.owner_id@ != auth->0.principal_id@ {
        Some(Rejection::Lease(LeaseError::WrongOwner))
    } else if !lease->0.active {
        Some(Rejection::Lease(LeaseError::NotActive))
    } else if exists|i: int|
        0 <= i < manifest.namespaces@.len() && (#[trigger] manifest.namespaces@[i]).name@
            != lease->0.namespace@ {
        Some(Rejection::Lease(LeaseError::NamespaceMismatch))
    } else if exists|i: int|
        0 <= i < manifest.apps@.len() && outside_lease(
            #[trigger] manifest.apps@[i],
            lease->0.namespace@,
        ) {
        Some(Rejection::Lease(LeaseError::NamespaceMismatch))
    } else {
        None
    }
}

/// Whether a manifest touches a namespace that is reserved for tests.
pub open spec fn touches_reserved(manifest: Manifest) -> bool {
    (exists|i: int|
        0 <= i < manifest.namespaces@.len() && (#[trigger] manifest.namespaces@[i]).reserved) || (
    exists|i: int| 0 <= i < manifest.apps@.len() && (#[trigger] manifest.apps@[i]).reserved)
}

/// Why a manifest is refused, if it is.
///
/// `validity` is what the manifest's own validation says, `policy` what the
/// server's policy says of saturating capacity, and `lease` the lease that the
/// request names, if it exists.
pub open spec fn apply_rejection(
    auth: Option<AuthContext>,
    manifest: Manifest,
    validity: Result<(), String>,
    header: LeaseHeader,
    capacity: CapacityHeader,
    policy: Result<(), String>,
    lease: Option<NamedLease>,
) -> Option<Rejection> {
    if !has_role(auth, ApiRole::Deployer) {
        Some(Rejection::Said(Status::Forbidden, Denial::Role.text()))
    } else if validity is Err {
        Some(Rejection::Said(Status::BadRequest, validity->Err_0@))
    } else if header_rejection(header, capacity, auth, policy) is Some {
        header_rejection(header, capacity, auth, policy)
    } else if header is Text {
        leased_rejection(manifest, auth, lease)
    } else if touches_reserved(manifest) {
        Some(
            Rejection::Said(
                Status::Conflict,
                "test lease namespace requires x-reliaburger-test-lease"@,
            ),
        )
    } else {
        None
    }
}

/// The namespace that an app deploys into, under a lease if there is one.
pub open spec fn admitted_namespace(app: ManifestApp, lease: Option<Seq<char>>) -> Option<
    Seq<char>,
> {
    match app.namespace {
        Some(namespace) => Some(namespace@),
        None => lease,
    }
}

fn say(status: Status, error: &str) -> (r: ApplyRefusal)
    ensures
        r@ == Rejection::Said(status, error@),
{
    ApplyRefusal::Refused(refuse(status, error))
}

fn check_headers(
    lease: &LeaseHeader,
    capacity: CapacityHeader,
    auth: Option<&AuthContext>,
    policy: &Result<(), String>,
) -> (r: Result<(), ApplyRefusal>)
    ensures
        match header_rejection(*lease, capacity, caller(auth), *policy) {
            Some(rejection) => r is Err && r->Err_0@ == rejection,
            None => r is Ok,
        },
{
    let named: bool = match lease {
        LeaseHeader::Absent => false,
        LeaseHeader::Malformed => {
            return Err(
                say(Status::BadRequest, "x-reliaburger-test-lease must contain a lease id"),
            );
        },
        LeaseHeader::Text(id) => {
            if id.as_str().is_empty() {
                return Err(
                    say(Status::BadRequest, "x-reliaburger-test-lease must contain a lease id"),
                );
            }
            true
        },
    };
    match capacity {
        CapacityHeader::Absent => {
            return Ok(());
        },
        CapacityHeader::Other => {
            return Err(
                say(Status::BadRequest, "x-reliaburger-capacity-probe must equal acknowledged"),
            );
        },
        CapacityHeader::Acknowledged => {},
    }
    if !named {
        return Err(
            say(Status::BadRequest, "capacity probe requires x-reliaburger-test-lease"),
        );
    }
    if auth.is_none() {
        return Err(say(Status::Unauthorized, "authentication required"));
    }
    match policy {
        Err(error) => Err(say(Status::Forbidden, error.as_str())),
        Ok(()) => Ok(()),
    }
}

fn check_leased(
    manifest: &Manifest,
    auth: Option<&AuthContext>,
    lease: Option<&NamedLease>,
) -> (r: Result<(), ApplyRefusal>)
    ensures
        match leased_rejection(*manifest, caller(auth), lease_by_value(lease)) {
            Some(rejection) => r is Err && r->Err_0@ == rejection,
            None => r is Ok && auth is Some && lease is Some,
        },
{
    if manifest.jobs > 0 || manifest.permissions > 0 || manifest.builds > 0 {
        return Err(
            say(
                Status::BadRequest,
                "leased apply currently accepts apps and their namespace declaration only",
            ),
        );
    }
    let context = match auth {
        None => {
            return Err(say(Status::Unauthorized, "authentication required"));
        },
        Some(context) => context,
    };
    let held = match lease {
        None => {
            return Err(ApplyRefusal::Lease(LeaseError::NotFound));
        },
        Some(held) => held,
    };
    if !context.system && !same_text(held.owner_id.as_str(), context.principal_id.as_str()) {
        return Err(ApplyRefusal::Lease(LeaseError::WrongOwner));
    }
    if !held.active {
        return Err(ApplyRefusal::Lease(LeaseError::NotActive));
    }
    let mut i: usize = 0;
    while i < manifest.namespaces.len()
        invariant
            i <= manifest.namespaces.len(),
            auth == Some(context),
            lease == Some(held),
            !(manifest.jobs > 0 || manifest.permissions > 0 || manifest.builds > 0),
            context.system || held.owner_id@ == context.principal_id@,
            held.active,
            forall|j: int|
                0 <= j < i ==> (#[trigger] manifest.namespaces@[j]).name@ == held.namespace@,
        decreases manifest.namespaces.len() - i,
    {
        if !same_text(manifest.namespaces[i].name.as_str(), held.namespace.as_str()) {
            return Err(ApplyRefusal::Lease(LeaseError::NamespaceMismatch));
        }
        i = i + 1;
    }
    let mut k: usize = 0;
    while k < manifest.apps.len()
        invariant
            k <= manifest.apps.len(),
            auth == Some(context),
            lease == Some(held),
            !(manifest.jobs > 0 || manifest.permissions > 0 || manifest.builds > 0),
            context.system || held.owner_id@ == context.principal_id@,
            held.active,
            forall|j: int|
                0 <= j < manifest.namespaces@.len() ==> (#[trigger] manifest.namespaces@[j]).name@
                    == held.namespace@,
            forall|j: int|
                0 <= j < k ==> !outside_lease(#[trigger] manifest.apps@[j], held.namespace@),
        decreases manifest.apps.len() - k,
    {
        match &manifest.apps[k].namespace {
            Some(namespace) => {
                if !same_text(namespace.as_str(), held.namespace.as_str()) {
                    return Err(ApplyRefusal::Lease(LeaseError::NamespaceMismatch));
                }
            },
            None => {},
        }
        k = k + 1;
    }
    Ok(())
}

/// A lease by value, if there is one.
pub open spec fn lease_by_value(lease: Option<&NamedLease>) -> Option<NamedLease> {
    match lease {
        Some(lease) => Some(*lease),
        None => None,
    }
}

fn is_reserved(manifest: &Manifest) -> (r: bool)
    ensures
        r == touches_reserved(*manifest),
{
    let mut i: usize = 0;
    while i < manifest.namespaces.len()
        invariant
            i <= manifest.namespaces.len(),
            forall|j: int| 0 <= j < i ==> !(#[trigger] manifest.namespaces@[j]).reserved,
        decreases manifest.namespaces.len() - i,
    {
        if manifest.namespaces[i].reserved {
            return true;
        }
        i = i + 1;
    }
    let mut k: usize = 0;
    while k < manifest.apps.len()
        invariant
            k <= manifest.apps.len(),
            forall|j: int|
                0 <= j < manifest.namespaces@.len() ==> !(
                #[trigger] manifest.namespaces@[j]).reserved,
            forall|j: int| 0 <= j < k ==> !(#[trigger] manifest.apps@[j]).reserved,
        decreases manifest.apps.len() - k,
    {
        if manifest.apps[k].reserved {
            return true;
        }
        k = k + 1;
    }
    false
}

/// Decide whether a manifest is admitted, before scopes and permissions of its
/// apps are looked at. Under a lease, an app without a namespace gets the
/// lease's.
pub fn admit_apply(
    auth: Option<&AuthContext>,
    manifest: &mut Manifest,
    validity: &Result<(), String>,
    header: &LeaseHeader,
    capacity: CapacityHeader,
    policy: &Result<(), String>,
    lease: Option<&NamedLease>,
) -> (r: Result<(), ApplyRefusal>)
    ensures
        match apply_rejection(
            caller(auth),
            *old(manifest),
            *validity,
            *header,
            capacity,
            *policy,
            lease_by_value(lease),
        ) {
            Some(rejection) => r is Err && r->Err_0@ == rejection && *final(manifest) == *old(
                manifest,
            ),
            None => {
                &&& r is Ok
                &&& header is Text ==> lease is Some
                &&& final(manifest).namespaces == old(manifest).namespaces
                &&& final(manifest).jobs == old(manifest).jobs
                &&& final(manifest).permissions == old(manifest).permissions
                &&& final(manifest).builds == old(manifest).builds
                &&& final(manifest).apps@.len() == old(manifest).apps@.len()
                &&& forall|i: int|
                    0 <= i < old(manifest).apps@.len() ==> {
                        let before = old(manifest).apps@[i];
                        let after = #[trigger] final(manifest).apps@[i];
                        &&& after.name == before.name
                        &&& after.reserved == before.reserved
                        &&& after.script == before.script
                        &&& optional_text(after.namespace) == admitted_namespace(
                            before,
                            if header is Text {
                                Some(lease->0.namespace@)
                            } else {
                                None
                            },
                        )
                    }
            },
        },
{
    match authorize(auth, ApiRole::Deployer) {
        Err(denial) => {
            return Err(ApplyRefusal::Refused(denial.refusal()));
        },
        Ok(()) => {},
    }
    match validity {
        Err(error) => {
            return Err(say(Status::BadRequest, error.as_str()));
        },
        Ok(()) => {},
    }
    match check_headers(header, capacity, auth, policy) {
        Err(refusal) => {
            return Err(refusal);
        },
        Ok(()) => {},
    }
    let leased: bool = match header {
        LeaseHeader::Text(_) => true,
        _ => false,
    };
    if !leased {
        if is_reserved(manifest) {
            return Err(
                say(Status::Conflict, "test lease namespace requires x-reliaburger-test-lease"),
            );
        }
        return Ok(());
    }
    match check_leased(manifest, auth, lease) {
        Err(refusal) => {
            return Err(refusal);
        },
        Ok(()) => {},
    }
    let lease = match lease {
        Some(lease) => lease,
        None => {
            return Ok(());
        },
    };
    let mut apps: Vec<ManifestApp> = Vec::new();
    let mut i: usize = 0;
    while i < manifest.apps.len()
        invariant
            i <= manifest.apps.len(),
            *manifest == *old(manifest),
            apps@.len() == i,
            forall|j: int|
                0 <= j < i ==> {
                    let before = old(manifest).apps@[j];
                    let after = #[trigger] apps@[j];
                    &&& after.name == before.name
                    &&& after.reserved == before.reserved
                    &&& after.script == before.script
                    &&& optional_text(after.namespace) == admitted_namespace(
                        before,
                        Some(lease.namespace@),
                    )
                },
        decreases manifest.apps.len() - i,
    {
        let app = &manifest.apps[i];
        let namespace: Option<String> = match &app.namespace {
            Some(namespace) => Some(namespace.clone()),
            None => Some(lease.namespace.clone()),
        };
        apps.push(
            ManifestApp {
                name: app.name.clone(),
                namespace,
                reserved: app.reserved,
                script: app.script,
            },
        );
        i = i + 1;
    }
    manifest.apps = apps;
    Ok(())
}

/// What the caller's permissions say of an app.
#[derive(Debug)]
pub struct AppPermissions {
    /// Whether it may be deployed; else the refusal's words.
    pub deploy: Result<(), String>,
    /// Whether it may run on the host; else the refusal's words.
    pub host_exec: Result<(), String>,
}

/// The namespace that an app deploys into.
pub open spec fn effective_namespace(app: ManifestApp) -> Seq<char> {
    match app.namespace {
        Some(namespace) => namespace@,
        None => "default"@,
    }
}

/// Why one app is not in the caller's hands, if it is not.
pub open spec fn app_refusal(
    auth: Option<AuthContext>,
    app: ManifestApp,
    permissions: AppPermissions,
) -> Option<(Status, Seq<char>)> {
    if !may_touch(auth, app.name@, effective_namespace(app)) {
        Some((Status::Forbidden, Denial::Scope.text()))
    } else if permissions.deploy is Err {
        Some((Status::Forbidden, permissions.deploy->Err_0@))
    } else if app.script && permissions.host_exec is Err {
        Some((Status::Forbidden, permissions.host_exec->Err_0@))
    } else {
        None
    }
}

/// Why a list of apps is refused: because of the first that is not in the
/// caller's hands.
pub open spec fn apps_refusal(
    auth: Option<AuthContext>,
    apps: Seq<ManifestApp>,
    permissions: Seq<AppPermissions>,
) -> Option<(Status, Seq<char>)>
    decreases apps.len(),
{
    if apps.len() == 0 {
        None
    } else {
        match apps_refusal(auth, apps.drop_last(), permissions) {
            Some(refusal) => Some(refusal),
            None => app_refusal(auth, apps.last(), permissions[apps.len() - 1]),
        }
    }
}

proof fn apps_refusal_stays(
    auth: Option<AuthContext>,
    apps: Seq<ManifestApp>,
    permissions: Seq<AppPermissions>,
    i: int,
)
    requires
        0 <= i <= apps.len(),
        apps_refusal(auth, apps.take(i), permissions) is Some,
    ensures
        apps_refusal(auth, apps, permissions) == apps_refusal(auth, apps.take(i), permissions),
    decreases apps.len() - i,
{
    if i < apps.len() {
        assert(apps.take(i + 1).drop_last() =~= apps.take(i));
        apps_refusal_stays(auth, apps, permissions, i + 1);
    } else {
        assert(apps.take(i) =~= apps);
    }
}

fn check_app(
    auth: Option<&AuthContext>,
    app: &ManifestApp,
    permissions: &AppPermissions,
) -> (r: Result<(), Refusal>)
    ensures
        match app_refusal(caller(auth), *app, *permissions) {
            Some((status, error)) => r is Err && r->Err_0@ == (status, error),
            None => r is Ok,
        },
{
    let scoped = match &app.namespace {
        Some(namespace) => authorize_scoped(auth, app.name.as_str(), namespace.as_str()),
        None => authorize_scoped(auth, app.name.as_str(), "default"),
    };
    match scoped {
        Err(denial) => {
            return Err(denial.refusal());
        },
        Ok(()) => {},
    }
    match &permissions.deploy {
        Err(error) => {
            return Err(refuse(Status::Forbidden, error.as_str()));
        },
        Ok(()) => {},
    }
    if app.script {
        match &permissions.host_exec {
            Err(error) => {
                return Err(refuse(Status::Forbidden, error.as_str()));
            },
            Ok(()) => {},
        }
    }
    Ok(())
}

/// Where an admitted manifest is deployed.
#[derive(Debug, Clone, Copy, PartialEq, Eq, Structural)]
pub enum ApplyRoute {
    /// Through the council.
    Cluster,
    /// On this node.
    Local,
}

/// Check every app of a manifest, so that one app out of the caller's hands
/// refuses the whole, and decide where it is deployed: apps, namespaces and
/// permissions go through the council, if there is one.
pub fn authorise_apply(
    auth: Option<&AuthContext>,
    manifest: &Manifest,
    permissions: &Vec<AppPermissions>,
    council: bool,
) -> (r: Result<ApplyRoute, Refusal>)
    requires
        permissions@.len() == manifest.apps@.len(),
    ensures
        match apps_refusal(caller(auth), manifest.apps@, permissions@) {
            Some((status, error)) => r is Err && r->Err_0@ == (status, error),
            None => r == Ok::<ApplyRoute, Refusal>(
                if council && (manifest.apps@.len() > 0 || manifest.namespaces@.len() > 0
                    || manifest.permissions > 0) {
                    ApplyRoute::Cluster
                } else {
                    ApplyRoute::Local
                },
            ),
        },
{
    let ghost all = manifest.apps@;
    let mut i: usize = 0;
    proof {
        assert(all.take(0) =~= Seq::<ManifestApp>::empty());
    }
    while i < manifest.apps.len()
        invariant
            permissions@.len() == manifest.apps@.len(),
            i <= manifest.apps.len(),
            all == manifest.apps@,
            apps_refusal(caller(auth), all.take(i as int), permissions@) is None,
        decreases manifest.apps.len() - i,
    {
        proof {
            assert(all.take(i as int + 1).drop_last() =~= all.take(i as int));
            assert(all.take(i as int + 1).last() == all[i as int]);
            if apps_refusal(caller(auth), all.take(i as int + 1), permissions@) is Some {
                apps_refusal_stays(caller(auth), all, permissions@, i as int + 1);
            }
        }
        match check_app(auth, &manifest.apps[i], &permissions[i]) {
            Err(refusal) => {
                return Err(refusal);
            },
            Ok(()) => {},
        }
        i = i + 1;
    }
    proof {
        assert(all.take(all.len() as int) =~= all);
    }
    if council && (manifest.apps.len() > 0 || manifest.namespaces.len() > 0 || manifest.permissions
        > 0) {
        Ok(ApplyRoute::Cluster)
    } else {
        Ok(ApplyRoute::Local)
    }
}

/// An admitted manifest holds no app out of the caller's scope, and none that
/// its permissions forbid.
pub proof fn deployed_apps_are_in_the_callers_hands(
    auth: Option<AuthContext>,
    apps: Seq<ManifestApp>,
    permissions: Seq<AppPermissions>,
    i: int,
)
    requires
        apps_refusal(auth, apps, permissions) is None,
        0 <= i < apps.len(),
    ensures
        may_touch(auth, apps[i].name@, effective_namespace(apps[i])),
        permissions[i].deploy is Ok,
        apps[i].script ==> permissions[i].host_exec is Ok,
    decreases apps.len(),
{
    if i < apps.len() - 1 {
        deployed_apps_are_in_the_callers_hands(auth, apps.drop_last(), permissions, i);
    }
}

/// A namespace that is reserved for tests is touched only under an active
/// lease which the caller owns, or the cluster acts for.
pub proof fn reserved_namespaces_need_a_lease(
    auth: Option<AuthContext>,
    manifest: Manifest,
    validity: Result<(), String>,
    header: LeaseHeader,
    capacity: CapacityHeader,
    policy: Result<(), String>,
    lease: Option<NamedLease>,
)
    requires
        apply_rejection(auth, manifest, validity, header, capacity, policy, lease) is None,
        touches_reserved(manifest),
    ensures
        auth is Some,
        lease is Some && lease->0.active,
        auth->0.system || lease->0.owner_id@ == auth->0.principal_id@,
{
}

/// Take a manifest that was read for a caller, who must be allowed to deploy
/// before it is told what is wrong with the manifest.
pub fn take_manifest<T>(auth: Option<&AuthContext>, parsed: Result<T, String>) -> (r: Result<
    T,
    Refusal,
>)
    ensures
        if !has_role(caller(auth), ApiRole::Deployer) {
            refused(r, Status::Forbidden, Denial::Role.text())
        } else {
            match parsed {
                Err(error) => refused(r, Status::BadRequest, error@),
                Ok(manifest) => r == Ok::<T, Refusal>(manifest),
            }
        },
{
    match authorize(auth, ApiRole::Deployer) {
        Err(denial) => {
            return Err(denial.refusal());
        },
        Ok(()) => {},
    }
    match parsed {
        Err(error) => Err(refuse(Status::BadRequest, error.as_str())),
        Ok(manifest) => Ok(manifest),
    }
}

} // verus!

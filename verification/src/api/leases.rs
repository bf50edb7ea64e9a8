//! Leases of isolated test resources.

use vstd::prelude::*;
use vstd::string::*;

use crate::access::{authorize_user, caller, has_role, in_scope, AuthContext, Denial};
use crate::codec::{encode_hex, hex_text, hex_text_length, random16};
use crate::policy::ApiRole;
use crate::reply::{refuse, refused, with_number, Refusal, Status};
use crate::text::{contains_string, decimal_text, optional_text, same_text};

verus! {

/// A lease of test resources, of which access reads its owner.
#[derive(Debug)]
pub struct TestLease {
    /// Identifier of the lease.
    pub id: String,
    /// Credential that owns it.
    pub owner_id: String,
    /// Name of the owner's token.
    pub owner_name: String,
    /// Namespace that it covers.
    pub namespace: String,
    /// When it was made, in Unix milliseconds.
    pub created_at_unix_ms: u64,
    /// When it expires, in Unix milliseconds.
    pub expires_at_unix_ms: u64,
}

/// Why an operation on a lease failed.
#[derive(Debug)]
pub enum LeaseError {
    /// There is no such lease.
    NotFound,
    /// The lease belongs to another credential.
    WrongOwner,
    /// The lease is not active.
    NotActive,
    /// The identifier is taken.
    AlreadyExists,
    /// Another lease covers the namespace.
    NamespaceOwned,
    /// The lease covers another namespace.
    NamespaceMismatch,
    /// The lease covers too many resources.
    ResourceLimit,
    /// There are too many leases.
    TooManyLeases,
    /// The identifier is malformed.
    InvalidId,
    /// The owner is malformed.
    InvalidOwner,
    /// The namespace is not one for tests.
    InvalidNamespace,
    /// The expiry is not after the start.
    InvalidExpiry,
    /// The record has another format.
    UnsupportedSchema,
    /// The store could not be written.
    Persistence,
    /// The store could not be read.
    Malformed,
    /// The store is too large.
    StoreTooLarge,
    /// The resources could not be removed.
    Cleanup,
    /// The council could not be reached.
    Consensus,
}

/// The status that a lease error is answered with.
pub open spec fn lease_status(error: LeaseError) -> Status {
    match error {
        LeaseError::NotFound => Status::NotFound,
        LeaseError::WrongOwner => Status::Forbidden,
        LeaseError::NotActive | LeaseError::AlreadyExists | LeaseError::NamespaceOwned
        | LeaseError::NamespaceMismatch | LeaseError::ResourceLimit => Status::Conflict,
        LeaseError::TooManyLeases => Status::TooManyRequests,
        LeaseError::InvalidId | LeaseError::InvalidOwner | LeaseError::InvalidNamespace
        | LeaseError::InvalidExpiry | LeaseError::UnsupportedSchema => Status::BadRequest,
        LeaseError::Persistence | LeaseError::Malformed | LeaseError::StoreTooLarge
        | LeaseError::Cleanup | LeaseError::Consensus => Status::InternalServerError,
    }
}

/// Answer a lease error with its status and words.
pub fn lease_error_response(error: LeaseError, words: &str) -> (r: Refusal)
    ensures
        r@ == (lease_status(error), words@),
{
    let status = match error {
        LeaseError::NotFound => Status::NotFound,
        LeaseError::WrongOwner => Status::Forbidden,
        LeaseError::NotActive | LeaseError::AlreadyExists | LeaseError::NamespaceOwned
        | LeaseError::NamespaceMismatch | LeaseError::ResourceLimit => Status::Conflict,
        LeaseError::TooManyLeases => Status::TooManyRequests,
        LeaseError::InvalidId | LeaseError::InvalidOwner | LeaseError::InvalidNamespace
        | LeaseError::InvalidExpiry | LeaseError::UnsupportedSchema => Status::BadRequest,
        LeaseError::Persistence | LeaseError::Malformed | LeaseError::StoreTooLarge
        | LeaseError::Cleanup | LeaseError::Consensus => Status::InternalServerError,
    };
    refuse(status, words)
}

/// Why a caller is no authenticated user of a role, if it is none.
pub open spec fn user_refusal(
    auth: Option<AuthContext>,
    required: ApiRole,
) -> Option<(Status, Seq<char>)> {
    if auth is None {
        Some((Status::Unauthorized, "authentication required"@))
    } else if auth->0.system {
        Some((Status::Forbidden, Denial::ServicePrincipal.text()))
    } else if !has_role(auth, required) {
        Some((Status::Forbidden, Denial::Role.text()))
    } else {
        None
    }
}

/// Require an authenticated user of a role.
pub fn authenticated_test_user(auth: Option<&AuthContext>, required: ApiRole) -> (r: Result<
    &AuthContext,
    Refusal,
>)
    ensures
        match user_refusal(caller(auth), required) {
            Some((status, error)) => refused(r, status, error),
            None => r is Ok && auth is Some && *r->Ok_0 == *auth->0,
        },
{
    match auth {
        None => Err(refuse(Status::Unauthorized, "authentication required")),
        Some(context) => match authorize_user(auth, required) {
            Err(denial) => Err(denial.refusal()),
            Ok(()) => Ok(context),
        },
    }
}

/// A number of seconds in milliseconds, or the largest number.
pub open spec fn seconds_in_millis(seconds: u64) -> u64 {
    if seconds * 1000 > u64::MAX {
        u64::MAX
    } else {
        (seconds * 1000) as u64
    }
}

/// Whether a lease may last so long.
pub open spec fn is_lease_ttl(ttl_seconds: u64, max_lease_seconds: u64) -> bool {
    0 < ttl_seconds <= max_lease_seconds
}

/// Check how long a lease may last, and give the time in milliseconds.
pub fn validate_lease_ttl(max_lease_seconds: u64, ttl_seconds: u64) -> (r: Result<u64, Refusal>)
    ensures
        if is_lease_ttl(ttl_seconds, max_lease_seconds) {
            r == Ok::<u64, Refusal>(seconds_in_millis(ttl_seconds))
        } else {
            refused(
                r,
                Status::BadRequest,
                "ttl_seconds must be between 1 and "@ + decimal_text(max_lease_seconds as nat),
            )
        },
{
    if ttl_seconds == 0 || ttl_seconds > max_lease_seconds {
        return Err(
            Refusal {
                status: Status::BadRequest,
                error: with_number("ttl_seconds must be between 1 and ", max_lease_seconds),
            },
        );
    }
    match ttl_seconds.checked_mul(1_000) {
        Some(millis) => Ok(millis),
        None => Ok(u64::MAX),
    }
}

/// What is done with a request for a lease.
#[derive(Debug, Clone, Copy, PartialEq, Eq, Structural)]
pub enum LeaseRoute {
    /// The leader gets it, with the caller's own credentials.
    Forward,
    /// It is carried out here, with this time to live in milliseconds.
    Proceed(u64),
}

/// Why a request for a lease is refused at once, if it is.
pub open spec fn lease_refusal(
    auth: Option<AuthContext>,
    policy: Result<(), String>,
    max_lease_seconds: u64,
    ttl_seconds: u64,
) -> Option<(Status, Seq<char>)> {
    if user_refusal(auth, ApiRole::Deployer) is Some {
        user_refusal(auth, ApiRole::Deployer)
    } else if policy is Err {
        Some((Status::Forbidden, policy->Err_0@))
    } else if !is_lease_ttl(ttl_seconds, max_lease_seconds) {
        Some(
            (
                Status::BadRequest,
                "ttl_seconds must be between 1 and "@ + decimal_text(max_lease_seconds as nat),
            ),
        )
    } else {
        None
    }
}

/// Decide what is done with a request to make or renew a lease.
///
/// The caller must be an authenticated user who deploys, the policy must allow
/// isolated workloads, and the time to live is bounded by the server. A
/// follower forwards.
pub fn admit_lease(
    auth: Option<&AuthContext>,
    policy: &Result<(), String>,
    max_lease_seconds: u64,
    ttl_seconds: u64,
    follower: bool,
) -> (r: Result<LeaseRoute, Refusal>)
    ensures
        match lease_refusal(caller(auth), *policy, max_lease_seconds, ttl_seconds) {
            Some((status, error)) => refused(r, status, error),
            None => r == Ok::<LeaseRoute, Refusal>(
                if follower {
                    LeaseRoute::Forward
                } else {
                    LeaseRoute::Proceed(seconds_in_millis(ttl_seconds))
                },
            ),
        },
{
    match authenticated_test_user(auth, ApiRole::Deployer) {
        Err(refusal) => {
            return Err(refusal);
        },
        Ok(_) => {},
    }
    match policy {
        Err(error) => {
            return Err(refuse(Status::Forbidden, error.as_str()));
        },
        Ok(()) => {},
    }
    match validate_lease_ttl(max_lease_seconds, ttl_seconds) {
        Err(refusal) => Err(refusal),
        Ok(millis) => if follower {
            Ok(LeaseRoute::Forward)
        } else {
            Ok(LeaseRoute::Proceed(millis))
        },
    }
}

/// Write sixteen bytes as the identifier of a lease.
pub fn lease_id_of(bytes: &[u8; 16]) -> (r: String)
    ensures
        r@ == hex_text(bytes@),
        r@.len() == 32,
{
    proof {
        hex_text_length(bytes@);
    }
    encode_hex(bytes.as_slice())
}

/// Draw the identifier of a new lease at random, if the system has randomness.
pub fn new_lease_id() -> (r: Result<String, Refusal>)
    ensures
        r is Ok ==> exists|bytes: Seq<u8>|
            bytes.len() == 16 && r->Ok_0@ == #[trigger] hex_text(bytes),
        r is Err ==> r->Err_0@ == (Status::InternalServerError, "failed to generate lease id"@),
{
    match random16() {
        Some(bytes) => {
            let id = lease_id_of(&bytes);
            proof {
                assert(bytes@.len() == 16);
            }
            Ok(id)
        },
        None => Err(refuse(Status::InternalServerError, "failed to generate lease id")),
    }
}

/// The namespace of a lease: the asked one, or one named after the lease.
pub open spec fn lease_namespace_text(
    lease_id: Seq<char>,
    requested: Option<Seq<char>>,
) -> Seq<char> {
    match requested {
        Some(namespace) => namespace,
        None => "rbtest-"@ + lease_id.take(12),
    }
}

/// Choose the namespace of a lease.
pub fn lease_namespace(lease_id: &str, requested: Option<String>) -> (r: String)
    requires
        lease_id@.len() >= 12,
    ensures
        r@ == lease_namespace_text(lease_id@, optional_text(requested)),
{
    match requested {
        Some(namespace) => namespace,
        None => {
            let mut out: String = "rbtest-".to_owned();
            out.append(lease_id.substring_char(0, 12));
            proof {
                assert(lease_id@.subrange(0, 12) =~= lease_id@.take(12));
            }
            out
        },
    }
}

/// Check the namespace of a new lease: it must be one for tests, which `valid`
/// tells with the error's words, and in the scope of the caller's token.
pub fn check_lease_namespace(
    valid: &Result<(), String>,
    auth: &AuthContext,
    namespace: &str,
) -> (r: Result<(), Refusal>)
    ensures
        match *valid {
            Err(words) => refused(r, Status::BadRequest, words@),
            Ok(()) => if !in_scope(auth.scoped_namespaces, namespace@) {
                refused(
                    r,
                    Status::Forbidden,
                    "token scope does not allow the requested test namespace"@,
                )
            } else {
                r is Ok
            },
        },
{
    match valid {
        Err(words) => {
            return Err(refuse(Status::BadRequest, words.as_str()));
        },
        Ok(()) => {},
    }
    let allowed: bool = match &auth.scoped_namespaces {
        None => true,
        Some(namespaces) => contains_string(namespaces, namespace),
    };
    if !allowed {
        return Err(
            refuse(
                Status::Forbidden,
                "token scope does not allow the requested test namespace",
            ),
        );
    }
    Ok(())
}

/// When a lease that starts now expires: after its time to live, or at the end
/// of time.
pub open spec fn lease_expiry(now: u64, ttl_millis: u64) -> u64 {
    if now + ttl_millis > u64::MAX {
        u64::MAX
    } else {
        (now + ttl_millis) as u64
    }
}

/// Make the record of a new lease.
pub fn make_lease(
    lease_id: String,
    auth: &AuthContext,
    namespace: String,
    now: u64,
    ttl_millis: u64,
) -> (r: TestLease)
    ensures
        r == (TestLease {
            id: lease_id,
            owner_id: auth.principal_id,
            owner_name: auth.token_name,
            namespace,
            created_at_unix_ms: now,
            expires_at_unix_ms: lease_expiry(now, ttl_millis),
        }),
{
    TestLease {
        id: lease_id,
        owner_id: auth.principal_id.clone(),
        owner_name: auth.token_name.clone(),
        namespace,
        created_at_unix_ms: now,
        expires_at_unix_ms: now.saturating_add(ttl_millis),
    }
}

/// Tell when a lease that is renewed now expires.
pub fn renewed_expiry(now: u64, ttl_millis: u64) -> (r: u64)
    ensures
        r == lease_expiry(now, ttl_millis),
{
    now.saturating_add(ttl_millis)
}

/// Decide whether a caller may read a lease: its owner may, and an
/// administrator.
pub fn may_read_lease(auth: &AuthContext, lease: Option<&TestLease>) -> (r: Result<(), LeaseError>)
    ensures
        match lease {
            None => r == Err::<(), LeaseError>(LeaseError::NotFound),
            Some(lease) => if lease.owner_id@ == auth.principal_id@ || auth.role
                == ApiRole::Admin {
                r is Ok
            } else {
                r == Err::<(), LeaseError>(LeaseError::WrongOwner)
            },
        },
{
    match lease {
        None => Err(LeaseError::NotFound),
        Some(lease) => if same_text(lease.owner_id.as_str(), auth.principal_id.as_str())
            || auth.role == ApiRole::Admin {
            Ok(())
        } else {
            Err(LeaseError::WrongOwner)
        },
    }
}

/// Decide whether a caller may renew a lease: only the very credential that
/// owns it may, while it is active. An administrator may not either.
pub fn may_renew_lease(auth: &AuthContext, lease: Option<&TestLease>, active: bool) -> (r: Result<
    (),
    LeaseError,
>)
    ensures
        match lease {
            None => r == Err::<(), LeaseError>(LeaseError::NotFound),
            Some(lease) => if lease.owner_id@ != auth.principal_id@ {
                r == Err::<(), LeaseError>(LeaseError::WrongOwner)
            } else if !active {
                r == Err::<(), LeaseError>(LeaseError::NotActive)
            } else {
                r is Ok
            },
        },
{
    match lease {
        None => Err(LeaseError::NotFound),
        Some(lease) => if !same_text(lease.owner_id.as_str(), auth.principal_id.as_str()) {
            Err(LeaseError::WrongOwner)
        } else if !active {
            Err(LeaseError::NotActive)
        } else {
            Ok(())
        },
    }
}

/// As whom a lease is released.
#[derive(Debug, Clone, Copy, PartialEq, Eq, Structural)]
pub enum ReleaseAs {
    /// As its owner.
    Owner,
    /// As an administrator, whoever owns it.
    Administrator,
}

/// Decide as whom a caller releases a lease: the owner as itself, an
/// administrator as one; anyone else may not.
pub fn release_as(auth: &AuthContext, lease: Option<&TestLease>) -> (r: Result<
    ReleaseAs,
    LeaseError,
>)
    ensures
        match lease {
            None => r == Err::<ReleaseAs, LeaseError>(LeaseError::NotFound),
            Some(lease) => if lease.owner_id@ == auth.principal_id@ {
                r == Ok::<ReleaseAs, LeaseError>(ReleaseAs::Owner)
            } else if auth.role == ApiRole::Admin {
                r == Ok::<ReleaseAs, LeaseError>(ReleaseAs::Administrator)
            } else {
                r == Err::<ReleaseAs, LeaseError>(LeaseError::WrongOwner)
            },
        },
{
    match lease {
        None => Err(LeaseError::NotFound),
        Some(lease) => if same_text(lease.owner_id.as_str(), auth.principal_id.as_str()) {
            Ok(ReleaseAs::Owner)
        } else if auth.role == ApiRole::Admin {
            Ok(ReleaseAs::Administrator)
        } else {
            Err(LeaseError::WrongOwner)
        },
    }
}

/// Answer the removal of a lease's resources: a lease that is gone already is
/// released.
pub fn answer_release(result: Result<(), (LeaseError, String)>) -> (r: Result<(), Refusal>)
    ensures
        match result {
            Ok(()) => r is Ok,
            Err((error, words)) => if error is NotFound {
                r is Ok
            } else {
                refused(r, lease_status(error), words@)
            },
        },
{
    match result {
        Ok(()) => Ok(()),
        Err((LeaseError::NotFound, _)) => Ok(()),
        Err((error, words)) => Err(lease_error_response(error, words.as_str())),
    }
}

/// What the council answered to a write.
#[derive(Debug)]
pub enum CouncilWrite {
    /// It was committed.
    Committed,
    /// The state machine refused it.
    Refused(String),
    /// It could not be committed.
    Failed(String),
}

/// Answer a write of a lease.
pub fn write_lease_request(write: CouncilWrite) -> (r: Result<(), Refusal>)
    ensures
        match write {
            CouncilWrite::Committed => r is Ok,
            CouncilWrite::Refused(reason) => refused(r, Status::Conflict, reason@),
            CouncilWrite::Failed(error) => refused(r, Status::ServiceUnavailable, error@),
        },
{
    match write {
        CouncilWrite::Committed => Ok(()),
        CouncilWrite::Refused(reason) => Err(refuse(Status::Conflict, reason.as_str())),
        CouncilWrite::Failed(error) => Err(refuse(Status::ServiceUnavailable, error.as_str())),
    }
}

/// No lease outlasts the server's bound, and an admitted one lasts a while.
pub proof fn leases_are_bounded(
    auth: Option<AuthContext>,
    policy: Result<(), String>,
    max_lease_seconds: u64,
    ttl_seconds: u64,
    now: u64,
)
    requires
        lease_refusal(auth, policy, max_lease_seconds, ttl_seconds) is None,
    ensures
        lease_expiry(now, seconds_in_millis(ttl_seconds)) <= now + max_lease_seconds * 1000,
        now < u64::MAX ==> lease_expiry(now, seconds_in_millis(ttl_seconds)) > now,
        auth is Some,
        policy is Ok,
{
}

/// Find where a lease request goes that only the leader can answer.
pub fn lease_leader_url(leader_url: Option<String>, path: &str) -> (r: Result<String, Refusal>)
    ensures
        match leader_url {
            None => refused(
                r,
                Status::ServiceUnavailable,
                "no cluster leader known yet; retry shortly"@,
            ),
            Some(url) => r is Ok && r->Ok_0@ == url@ + path@,
        },
{
    match leader_url {
        None => Err(
            refuse(Status::ServiceUnavailable, "no cluster leader known yet; retry shortly"),
        ),
        Some(url) => {
            let mut url = url;
            url.append(path);
            Ok(url)
        },
    }
}

} // verus!

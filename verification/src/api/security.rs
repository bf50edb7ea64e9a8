//! Tokens, secret keys, joining nodes and certificates.

use vstd::prelude::*;
use vstd::string::*;

use crate::access::{authorize_user, caller, has_role, AuthContext, Denial};
use crate::api::agent::AgentReply;
use crate::api::leases::CouncilWrite;
use crate::codec::{
    base64_complaint, base64_text, base64_text_is_injective, decode_base64, encode_base64,
};
use crate::policy::ApiRole;
use crate::reply::{numbered, refuse, refuse_because, refused, with_number, Refusal, Status};
use crate::text::{
    debug_text, decimal, decimal_text, in_quotes, same_text, to_chars, trim, trimmed,
};

verus! {

/// Why a caller may not manage tokens and keys, if it may not: it must be an
/// administrator, and not the cluster itself.
pub open spec fn manager_refusal(auth: Option<AuthContext>) -> Option<(Status, Seq<char>)> {
    if auth is Some && auth->0.system {
        Some((Status::Forbidden, Denial::ServicePrincipal.text()))
    } else if !has_role(auth, ApiRole::Admin) {
        Some((Status::Forbidden, Denial::Role.text()))
    } else {
        None
    }
}

/// Require a caller that may manage tokens and keys.
pub fn require_manager(auth: Option<&AuthContext>) -> (r: Result<(), Refusal>)
    ensures
        match manager_refusal(caller(auth)) {
            Some((status, error)) => refused(r, status, error),
            None => r is Ok,
        },
{
    match authorize_user(auth, ApiRole::Admin) {
        Err(denial) => Err(denial.refusal()),
        Ok(()) => Ok(()),
    }
}

/// The cluster's own principal manages neither tokens nor keys, whatever its
/// role.
pub proof fn the_cluster_manages_no_tokens(context: AuthContext)
    requires
        context.system,
    ensures
        manager_refusal(Some(context)) is Some,
{
}

/// Why a request to the council by a manager is refused, if it is: by who
/// asks, by what cannot be parsed, or for want of a council.
pub open spec fn managed_refusal(
    auth: Option<AuthContext>,
    parsed: Result<(), String>,
    council: bool,
) -> Option<(Status, Seq<char>)> {
    if manager_refusal(auth) is Some {
        manager_refusal(auth)
    } else if parsed is Err {
        Some((Status::BadRequest, "invalid JSON: "@ + parsed->Err_0@))
    } else if !council {
        Some((Status::ServiceUnavailable, "no council available"@))
    } else {
        None
    }
}

/// Admit a manager's request to the council.
pub fn admit_managed(
    auth: Option<&AuthContext>,
    parsed: &Result<(), String>,
    council: bool,
) -> (r: Result<(), Refusal>)
    ensures
        match managed_refusal(caller(auth), *parsed, council) {
            Some((status, error)) => refused(r, status, error),
            None => r is Ok,
        },
{
    match require_manager(auth) {
        Err(refusal) => {
            return Err(refusal);
        },
        Ok(()) => {},
    }
    match parsed {
        Err(error) => {
            return Err(refuse_because(Status::BadRequest, "invalid JSON: ", error.as_str()));
        },
        Ok(()) => {},
    }
    if !council {
        return Err(refuse(Status::ServiceUnavailable, "no council available"));
    }
    Ok(())
}

/// A request for a token.
#[derive(Debug)]
pub struct TokenRequest {
    /// Name of the token.
    pub name: String,
    /// Role in words.
    pub role: String,
    /// Apps to confine it to, if any.
    pub apps: Option<Vec<String>>,
    /// Namespaces to confine it to, if any.
    pub namespaces: Option<Vec<String>>,
    /// Days that it lasts, if not forever.
    pub ttl_days: Option<u64>,
}

/// A token to make.
#[derive(Debug)]
pub struct TokenPlan {
    /// Name of the token.
    pub name: String,
    /// Role of the token.
    pub role: ApiRole,
    /// Apps that it is confined to, if any.
    pub apps: Option<Vec<String>>,
    /// Namespaces that it is confined to, if any.
    pub namespaces: Option<Vec<String>>,
    /// Seconds that it lasts, if not forever.
    pub ttl_seconds: Option<u64>,
}

/// The role that a word stands for, if it is one.
pub open spec fn role_named(word: Seq<char>) -> Option<ApiRole> {
    if word == "admin"@ {
        Some(ApiRole::Admin)
    } else if word == "deployer"@ {
        Some(ApiRole::Deployer)
    } else if word == "read-only"@ || word == "readonly"@ {
        Some(ApiRole::ReadOnly)
    } else {
        None
    }
}

/// Read a role.
pub fn parse_role(word: &str) -> (r: Option<ApiRole>)
    ensures
        r == role_named(word@),
{
    if same_text(word, "admin") {
        Some(ApiRole::Admin)
    } else if same_text(word, "deployer") {
        Some(ApiRole::Deployer)
    } else if same_text(word, "read-only") || same_text(word, "readonly") {
        Some(ApiRole::ReadOnly)
    } else {
        None
    }
}

/// Why a token is not made, if it is not.
///
/// The name of the cluster's own principal is reserved: a user's token of that
/// name would not be confined to its scope.
pub open spec fn token_refusal(
    auth: Option<AuthContext>,
    request: Result<TokenRequest, String>,
    system_principal: Seq<char>,
    council: bool,
) -> Option<(Status, Seq<char>)> {
    if manager_refusal(auth) is Some {
        manager_refusal(auth)
    } else {
        match request {
            Err(error) => Some((Status::BadRequest, "invalid JSON: "@ + error@)),
            Ok(request) => if request.name@ == system_principal {
                Some(
                    (
                        Status::BadRequest,
                        "token name "@ + debug_text(request.name@) + " is reserved"@,
                    ),
                )
            } else if role_named(request.role@) is None {
                Some(
                    (
                        Status::BadRequest,
                        "unknown role: "@ + request.role@
                            + " (expected admin, deployer, or read-only)"@,
                    ),
                )
            } else if !council {
                Some((Status::ServiceUnavailable, "no council available"@))
            } else {
                None
            },
        }
    }
}

/// The seconds of some days.
pub open spec fn days_in_seconds(days: Option<u64>) -> Option<u64> {
    match days {
        Some(days) => Some((days * 86400) as u64),
        None => None,
    }
}

/// Plan a token: by whom it is asked for, what it is called, its role, and
/// whether there is a council to keep it.
pub fn plan_token(
    auth: Option<&AuthContext>,
    request: Result<TokenRequest, String>,
    system_principal: &str,
    council: bool,
) -> (r: Result<TokenPlan, Refusal>)
    requires
        request is Ok && request->Ok_0.ttl_days is Some ==> request->Ok_0.ttl_days->0 * 86400
            <= u64::MAX,
    ensures
        match token_refusal(caller(auth), request, system_principal@, council) {
            Some((status, error)) => refused(r, status, error),
            None => r == Ok::<TokenPlan, Refusal>(
                TokenPlan {
                    name: request->Ok_0.name,
                    role: role_named(request->Ok_0.role@)->0,
                    apps: request->Ok_0.apps,
                    namespaces: request->Ok_0.namespaces,
                    ttl_seconds: days_in_seconds(request->Ok_0.ttl_days),
                },
            ),
        },
{
    match require_manager(auth) {
        Err(refusal) => {
            return Err(refusal);
        },
        Ok(()) => {},
    }
    let wanted = match request {
        Err(error) => {
            return Err(refuse_because(Status::BadRequest, "invalid JSON: ", error.as_str()));
        },
        Ok(wanted) => wanted,
    };
    if same_text(wanted.name.as_str(), system_principal) {
        let mut error: String = "token name ".to_owned();
        error.append(in_quotes(wanted.name.as_str()).as_str());
        error.append(" is reserved");
        return Err(Refusal { status: Status::BadRequest, error });
    }
    let role = match parse_role(wanted.role.as_str()) {
        None => {
            let mut error: String = "unknown role: ".to_owned();
            error.append(wanted.role.as_str());
            error.append(" (expected admin, deployer, or read-only)");
            return Err(Refusal { status: Status::BadRequest, error });
        },
        Some(role) => role,
    };
    if !council {
        return Err(refuse(Status::ServiceUnavailable, "no council available"));
    }
    let ttl_seconds: Option<u64> = match wanted.ttl_days {
        Some(days) => Some(days * 86400),
        None => None,
    };
    Ok(
        TokenPlan {
            name: wanted.name,
            role,
            apps: wanted.apps,
            namespaces: wanted.namespaces,
            ttl_seconds,
        },
    )
}

/// No token is made under the name of the cluster's own principal.
pub proof fn the_principals_name_is_reserved(
    auth: Option<AuthContext>,
    request: TokenRequest,
    system_principal: Seq<char>,
    council: bool,
)
    requires
        request.name@ == system_principal,
    ensures
        token_refusal(
            auth,
            Ok::<TokenRequest, String>(request),
            system_principal,
            council,
        ) is Some,
{
}

/// Answer the write of a new token: the council's answer does not matter, only
/// that it came.
pub fn answer_token_write(write: CouncilWrite) -> (r: Result<(), Refusal>)
    ensures
        match write {
            CouncilWrite::Failed(error) => refused(r, Status::InternalServerError, error@),
            _ => r is Ok,
        },
{
    match write {
        CouncilWrite::Failed(error) => Err(refuse(Status::InternalServerError, error.as_str())),
        _ => Ok(()),
    }
}

/// Answer a write that the council may refuse, and say what was done.
pub fn answer_managed_write(write: CouncilWrite, done: String) -> (r: Result<String, Refusal>)
    ensures
        match write {
            CouncilWrite::Committed => r == Ok::<String, Refusal>(done),
            CouncilWrite::Refused(reason) => refused(r, Status::Conflict, reason@),
            CouncilWrite::Failed(error) => refused(r, Status::InternalServerError, error@),
        },
{
    match write {
        CouncilWrite::Committed => Ok(done),
        CouncilWrite::Refused(reason) => Err(refuse(Status::Conflict, reason.as_str())),
        CouncilWrite::Failed(error) => Err(refuse(Status::InternalServerError, error.as_str())),
    }
}

/// Answer the revocation of a token.
pub fn answer_revocation(name: &str, write: CouncilWrite) -> (r: Result<String, Refusal>)
    ensures
        match write {
            CouncilWrite::Committed => r is Ok && r->Ok_0@ == "token "@ + name@ + " revoked"@,
            CouncilWrite::Refused(reason) => refused(r, Status::Conflict, reason@),
            CouncilWrite::Failed(error) => refused(r, Status::InternalServerError, error@),
        },
{
    let mut done: String = "token ".to_owned();
    done.append(name);
    done.append(" revoked");
    answer_managed_write(write, done)
}

/// Why a join token could not be made.
#[derive(Debug)]
pub enum JoinTokenError {
    /// It names no node.
    EmptyNodeId,
    /// It would last too short or too long.
    InvalidTtl,
    /// Anything else.
    Other(String),
}

/// Answer a join token that could not be made.
pub fn join_token_refusal(
    error: JoinTokenError,
    min_ttl_seconds: u64,
    max_ttl_seconds: u64,
) -> (r: Refusal)
    ensures
        r@ == match error {
            JoinTokenError::EmptyNodeId => (Status::BadRequest, "node_id is required"@),
            JoinTokenError::InvalidTtl => (
                Status::BadRequest,
                "ttl_seconds must be between "@ + decimal_text(min_ttl_seconds as nat) + " and "@
                    + decimal_text(max_ttl_seconds as nat),
            ),
            JoinTokenError::Other(error) => (Status::InternalServerError, error@),
        },
{
    match error {
        JoinTokenError::EmptyNodeId => refuse(Status::BadRequest, "node_id is required"),
        JoinTokenError::InvalidTtl => {
            let mut text: String = numbered(
                "ttl_seconds must be between ",
                min_ttl_seconds,
                " and ",
            );
            text.append(decimal(max_ttl_seconds).as_str());
            Refusal { status: Status::BadRequest, error: text }
        },
        JoinTokenError::Other(error) => refuse(Status::InternalServerError, error.as_str()),
    }
}

/// Answer the write of a join token.
pub fn answer_join_token_write(write: CouncilWrite) -> (r: Result<(), Refusal>)
    ensures
        match write {
            CouncilWrite::Failed(error) => refused(
                r,
                Status::ServiceUnavailable,
                "failed to commit join token (try the cluster leader): "@ + error@,
            ),
            _ => r is Ok,
        },
{
    match write {
        CouncilWrite::Failed(error) => Err(
            refuse_because(
                Status::ServiceUnavailable,
                "failed to commit join token (try the cluster leader): ",
                error.as_str(),
            ),
        ),
        _ => Ok(()),
    }
}

/// Whether the body of a request is empty but for white space.
pub fn is_blank(body: &str) -> (r: bool)
    ensures
        r == (trimmed(body@).len() == 0),
{
    let chars = to_chars(body);
    trim(&chars).len() == 0
}

/// What a request for a rotation asks for, if it can be told: an empty one
/// asks for a new key, any other says whether the old keys go.
pub open spec fn finalises(
    body: Seq<char>,
    parsed: Result<bool, String>,
) -> Result<bool, String> {
    if trimmed(body).len() == 0 {
        Ok(false)
    } else {
        parsed
    }
}

/// The newest of some generations, or none.
pub open spec fn newest_generation(generations: Seq<u64>) -> u64
    decreases generations.len(),
{
    if generations.len() == 0 {
        0
    } else {
        let before = newest_generation(generations.drop_last());
        if generations.last() > before {
            generations.last()
        } else {
            before
        }
    }
}

fn find_newest_generation(generations: &Vec<u64>) -> (r: u64)
    ensures
        r == newest_generation(generations@),
{
    let mut newest: u64 = 0;
    let mut i: usize = 0;
    proof {
        assert(generations@.take(0) =~= Seq::<u64>::empty());
    }
    while i < generations.len()
        invariant
            i <= generations.len(),
            newest == newest_generation(generations@.take(i as int)),
        decreases generations.len() - i,
    {
        proof {
            assert(generations@.take(i as int + 1).drop_last() =~= generations@.take(i as int));
            assert(generations@.take(i as int + 1).last() == generations@[i as int]);
        }
        if generations[i] > newest {
            newest = generations[i];
        }
        i = i + 1;
    }
    proof {
        assert(generations@.take(generations@.len() as int) =~= generations@);
    }
    newest
}

/// What a rotation of the secret key does.
#[derive(Debug, Clone, Copy, PartialEq, Eq, Structural)]
pub enum Rotation {
    /// The old keys go.
    Finalise,
    /// A key of this generation is made.
    NewKey(u64),
}

/// Why a rotation is refused, if it is.
pub open spec fn rotation_refusal(
    auth: Option<AuthContext>,
    body: Seq<char>,
    parsed: Result<bool, String>,
    council: bool,
    wrapping_key: bool,
) -> Option<(Status, Seq<char>)> {
    if manager_refusal(auth) is Some {
        manager_refusal(auth)
    } else {
        match finalises(body, parsed) {
            Err(error) => Some((Status::BadRequest, "invalid rotate request: "@ + error@)),
            Ok(finalise) => if !council {
                Some((Status::ServiceUnavailable, "no council available"@))
            } else if !finalise && !wrapping_key {
                Some((Status::ServiceUnavailable, "no wrapping IKM"@))
            } else {
                None
            },
        }
    }
}

/// Plan a rotation of the secret key.
///
/// `parsed` is what the body says, of a body that is not blank, `generations`
/// those of the cluster-wide keys, and `wrapping_key` whether there is a key
/// to seal a new one under. A body that cannot be parsed rotates nothing.
pub fn plan_rotation(
    auth: Option<&AuthContext>,
    body: &str,
    parsed: Result<bool, String>,
    council: bool,
    wrapping_key: bool,
    generations: &Vec<u64>,
) -> (r: Result<Rotation, Refusal>)
    requires
        newest_generation(generations@) < u64::MAX,
    ensures
        match rotation_refusal(caller(auth), body@, parsed, council, wrapping_key) {
            Some((status, error)) => refused(r, status, error),
            None => r == Ok::<Rotation, Refusal>(
                if finalises(body@, parsed)->Ok_0 {
                    Rotation::Finalise
                } else {
                    Rotation::NewKey((newest_generation(generations@) + 1) as u64)
                },
            ),
        },
{
    match require_manager(auth) {
        Err(refusal) => {
            return Err(refusal);
        },
        Ok(()) => {},
    }
    let finalise: bool = if is_blank(body) {
        false
    } else {
        match parsed {
            Ok(finalise) => finalise,
            Err(error) => {
                return Err(
                    refuse_because(
                        Status::BadRequest,
                        "invalid rotate request: ",
                        error.as_str(),
                    ),
                );
            },
        }
    };
    if !council {
        return Err(refuse(Status::ServiceUnavailable, "no council available"));
    }
    if finalise {
        return Ok(Rotation::Finalise);
    }
    if !wrapping_key {
        return Err(refuse(Status::ServiceUnavailable, "no wrapping IKM"));
    }
    Ok(Rotation::NewKey(find_newest_generation(generations) + 1))
}

/// A new key is of a later generation than every key before it.
pub proof fn new_keys_are_newest(generations: Seq<u64>, i: int)
    requires
        0 <= i < generations.len(),
    ensures
        generations[i] < newest_generation(generations) + 1,
    decreases generations.len(),
{
    if i < generations.len() - 1 {
        assert(generations.drop_last()[i] == generations[i]);
        new_keys_are_newest(generations.drop_last(), i);
    }
}

/// A body that cannot be parsed rotates no key, unless it is blank.
pub proof fn malformed_bodies_rotate_nothing(
    auth: Option<AuthContext>,
    body: Seq<char>,
    error: String,
    council: bool,
    wrapping_key: bool,
)
    requires
        trimmed(body).len() > 0,
    ensures
        rotation_refusal(
            auth,
            body,
            Err::<bool, String>(error),
            council,
            wrapping_key,
        ) is Some,
{
}

/// Answer a rotation: while secrets are sealed under an old key, or a rotation
/// is under way, the council refuses.
pub fn answer_rotation(rotation: Rotation, write: CouncilWrite) -> (r: Result<String, Refusal>)
    ensures
        match write {
            CouncilWrite::Committed => r is Ok && r->Ok_0@ == match rotation {
                Rotation::Finalise => "secret rotation finalised, old keys removed"@,
                Rotation::NewKey(generation) => "secret key rotated to generation "@
                    + decimal_text(generation as nat),
            },
            CouncilWrite::Refused(reason) => refused(r, Status::Conflict, reason@),
            CouncilWrite::Failed(error) => refused(r, Status::InternalServerError, error@),
        },
{
    let done: String = match rotation {
        Rotation::Finalise => "secret rotation finalised, old keys removed".to_owned(),
        Rotation::NewKey(generation) => with_number(
            "secret key rotated to generation ",
            generation,
        ),
    };
    answer_managed_write(write, done)
}

/// Answer the making of a secret key.
pub fn answer_keypair<T>(made: Result<T, String>) -> (r: Result<T, Refusal>)
    ensures
        match made {
            Ok(keypair) => r == Ok::<T, Refusal>(keypair),
            Err(error) => refused(
                r,
                Status::InternalServerError,
                "keypair generation failed: "@ + error@,
            ),
        },
{
    match made {
        Ok(keypair) => Ok(keypair),
        Err(error) => Err(
            refuse_because(
                Status::InternalServerError,
                "keypair generation failed: ",
                error.as_str(),
            ),
        ),
    }
}

/// Take the digest of an image that a caller wants signed.
pub fn take_signing<T>(auth: Option<&AuthContext>, parsed: Result<T, String>) -> (r: Result<
    T,
    Refusal,
>)
    ensures
        match manager_refusal(caller(auth)) {
            Some((status, error)) => refused(r, status, error),
            None => match parsed {
                Err(error) => refused(r, Status::BadRequest, "invalid JSON: "@ + error@),
                Ok(digest) => r == Ok::<T, Refusal>(digest),
            },
        },
{
    match require_manager(auth) {
        Err(refusal) => {
            return Err(refusal);
        },
        Ok(()) => {},
    }
    match parsed {
        Err(error) => Err(refuse_because(Status::BadRequest, "invalid JSON: ", error.as_str())),
        Ok(digest) => Ok(digest),
    }
}

/// Answer the signing of an image.
pub fn answer_signing(reply: AgentReply<String>) -> (r: Result<String, Refusal>)
    ensures
        match reply {
            AgentReply::Unavailable | AgentReply::Dropped => refused(
                r,
                Status::InternalServerError,
                "agent channel closed"@,
            ),
            AgentReply::Failed(error) => refused(r, Status::InternalServerError, error@),
            AgentReply::Done(message) => r == Ok::<String, Refusal>(message),
        },
{
    match reply {
        AgentReply::Unavailable | AgentReply::Dropped => Err(
            refuse(Status::InternalServerError, "agent channel closed"),
        ),
        AgentReply::Failed(error) => Err(refuse(Status::InternalServerError, error.as_str())),
        AgentReply::Done(message) => Ok(message),
    }
}

/// Require the key that identities are signed with.
pub fn require_signing_key(council: bool, signing_key: bool) -> (r: Result<(), Refusal>)
    ensures
        if !council {
            refused(r, Status::ServiceUnavailable, "no council available"@)
        } else if !signing_key {
            refused(r, Status::ServiceUnavailable, "no OIDC signing config"@)
        } else {
            r is Ok
        },
{
    if !council {
        Err(refuse(Status::ServiceUnavailable, "no council available"))
    } else if !signing_key {
        Err(refuse(Status::ServiceUnavailable, "no OIDC signing config"))
    } else {
        Ok(())
    }
}

/// The cluster's public certificates in base64.
#[derive(Debug)]
pub struct ClusterCa {
    /// Certificate of the authority for nodes.
    pub node_ca_b64: String,
    /// Certificate of the root authority.
    pub root_ca_b64: String,
}

/// Publish the cluster's certificates, which a joining node compares before it
/// sends its token.
pub fn cluster_ca(council: bool, node_ca: Option<&Vec<u8>>, root_ca: Option<&Vec<u8>>) -> (r: Result<
    ClusterCa,
    Refusal,
>)
    requires
        node_ca is Some ==> node_ca->0@.len() <= usize::MAX / 4,
        root_ca is Some ==> root_ca->0@.len() <= usize::MAX / 4,
    ensures
        if !council {
            refused(r, Status::ServiceUnavailable, "no council available"@)
        } else if node_ca is None || root_ca is None {
            refused(r, Status::ServiceUnavailable, "cluster CA not initialised"@)
        } else {
            r is Ok && r->Ok_0.node_ca_b64@ == base64_text(node_ca->0@)
                && r->Ok_0.root_ca_b64@ == base64_text(root_ca->0@)
        },
{
    if !council {
        return Err(refuse(Status::ServiceUnavailable, "no council available"));
    }
    match (node_ca, root_ca) {
        (Some(node), Some(root)) => Ok(
            ClusterCa {
                node_ca_b64: encode_base64(node.as_slice()),
                root_ca_b64: encode_base64(root.as_slice()),
            },
        ),
        _ => Err(refuse(Status::ServiceUnavailable, "cluster CA not initialised")),
    }
}

/// Take a signing request that was decoded, or refuse it by the decoder's
/// complaint.
pub fn take_csr(decoded: Result<Vec<u8>, String>) -> (r: Result<Vec<u8>, Refusal>)
    ensures
        match decoded {
            Ok(der) => r == Ok::<Vec<u8>, Refusal>(der),
            Err(complaint) => refused(r, Status::BadRequest, "invalid CSR: "@ + complaint@),
        },
{
    match decoded {
        Ok(der) => Ok(der),
        Err(complaint) => Err(
            refuse_because(Status::BadRequest, "invalid CSR: ", complaint.as_str()),
        ),
    }
}

/// Decode the signing request of a joining node.
pub fn decode_csr(csr_b64: &str) -> (r: Result<Vec<u8>, Refusal>)
    ensures
        r is Ok <==> exists|der: Seq<u8>| #[trigger] base64_text(der) == csr_b64@,
        r is Ok ==> base64_text(r->Ok_0@) == csr_b64@,
        r is Err ==> refused(
            r,
            Status::BadRequest,
            "invalid CSR: "@ + base64_complaint(csr_b64@),
        ),
{
    take_csr(decode_base64(csr_b64))
}

/// What is encoded is decoded to the same bytes: a decoded text can stand for
/// no other bytes than those it was encoded from.
pub proof fn certificates_survive_encoding(sent: Seq<u8>, received: Seq<u8>)
    requires
        base64_text(received) == base64_text(sent),
    ensures
        received == sent,
{
    base64_text_is_injective(received, sent);
}

} // verus!

//! Which routes need a token.

use vstd::prelude::*;

use crate::text::same_text;

verus! {

/// What a route asks of a caller.
#[derive(Debug, Clone, Copy, PartialEq, Eq, Structural)]
pub enum Access {
    /// Nothing: what it gives is public, or the request proves itself.
    Public,
    /// Nothing, since a browser logs in or out by it.
    Login,
    /// A token or a session.
    Protected,
}

/// Whether a route is open to everyone: liveness, the version, public keys and
/// certificates, static files, joining, which takes a token of its own, and
/// webhooks, which are signed.
pub open spec fn is_public(path: Seq<char>) -> bool {
    path == "/v1/health"@ || path == "/v1/version"@ || path == "/v1/identity/jwks"@ || path
        == "/ui/static/{*path}"@ || path == "/v1/cluster/join"@ || path == "/v1/cluster/ca"@ || path
        == "/v1/gitops/webhook"@
}

/// Whether a route serves to log in or out.
pub open spec fn is_login(path: Seq<char>) -> bool {
    path == "/ui/login"@ || path == "/ui/session"@ || path == "/ui/logout"@
}

/// What a route asks of a caller. Whatever is not listed is protected.
pub fn route_access(path: &str) -> (r: Access)
    ensures
        r == if is_public(path@) {
            Access::Public
        } else if is_login(path@) {
            Access::Login
        } else {
            Access::Protected
        },
{
    if same_text(path, "/v1/health") || same_text(path, "/v1/version") || same_text(
        path,
        "/v1/identity/jwks",
    ) || same_text(path, "/ui/static/{*path}") || same_text(path, "/v1/cluster/join")
        || same_text(path, "/v1/cluster/ca") || same_text(path, "/v1/gitops/webhook") {
        Access::Public
    } else if same_text(path, "/ui/login") || same_text(path, "/ui/session") || same_text(
        path,
        "/ui/logout",
    ) {
        Access::Login
    } else {
        Access::Protected
    }
}

} // verus!

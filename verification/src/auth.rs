//! Who may call the API: the bearer-token check that guards every route.

use vstd::prelude::*;

use crate::db::opt_view;
use crate::text::{chars_eq, chars_of, has_prefix, starts_with, sub_chars};

verus! {

/// The token that an `Authorization` header carries: what follows `"Bearer "`.
pub open spec fn bearer_token(header: Seq<char>) -> Option<Seq<char>> {
    if has_prefix(header, "Bearer "@) {
        Some(header.skip("Bearer "@.len() as int))
    } else {
        None
    }
}

/// Whether a request passes: always where no key is configured; otherwise for the
/// health check, and for a bearer token equal to the key. Every method is guarded
/// alike.
pub open spec fn request_allowed(
    api_key: Option<Seq<char>>,
    path: Seq<char>,
    authorization: Option<Seq<char>>,
) -> bool {
    match api_key {
        None => true,
        Some(key) => {
            ||| path == "/health"@
            ||| (authorization matches Some(h) && bearer_token(h) == Some(key))
        },
    }
}

/// The token of a bearer `Authorization` header.
pub fn bearer_token_of(header: &str) -> (r: Option<Vec<char>>)
    ensures
        match r {
            Some(t) => bearer_token(header@) == Some(t@),
            None => bearer_token(header@) is None,
        },
{
    let h = chars_of(header);
    let p = chars_of("Bearer ");
    if starts_with(&h, &p) {
        let t = sub_chars(&h, p.len(), h.len());
        assert(t@ =~= h@.skip(p@.len() as int));
        Some(t)
    } else {
        None
    }
}

/// Whether the request to `path` with this `Authorization` header (where it has one
/// that is visible ASCII) passes, given the configured API key.
pub fn authorize(api_key: Option<&str>, path: &str, authorization: Option<&str>) -> (r: bool)
    ensures
        r == request_allowed(opt_view(api_key), path@, opt_view(authorization)),
{
    let key = match api_key {
        None => {
            return true;
        },
        Some(k) => k,
    };
    if chars_eq(&chars_of(path), &chars_of("/health")) {
        return true;
    }
    match authorization {
        None => false,
        Some(h) => match bearer_token_of(h) {
            None => false,
            Some(t) => chars_eq(&t, &chars_of(key)),
        },
    }
}

/// Without a configured key, every request passes.
pub proof fn lemma_no_key_allows_all(path: Seq<char>, authorization: Option<Seq<char>>)
    ensures
        request_allowed(None, path, authorization),
{
}

/// With a key, a request to a guarded route passes exactly when its header is
/// `"Bearer "` followed by the key.
pub proof fn lemma_key_needs_exact_bearer(
    key: Seq<char>,
    path: Seq<char>,
    authorization: Option<Seq<char>>,
)
    requires
        path != "/health"@,
    ensures
        request_allowed(Some(key), path, authorization) <==> authorization == Some(
            "Bearer "@ + key,
        ),
{
    if let Some(h) = authorization {
        if bearer_token(h) == Some(key) {
            assert(h =~= "Bearer "@ + key);
        }
        if h == "Bearer "@ + key {
            assert(h.take("Bearer "@.len() as int) =~= "Bearer "@);
            assert(h.skip("Bearer "@.len() as int) =~= key);
        }
    }
}

/// The health check passes whatever the key and header.
pub proof fn lemma_health_passes(api_key: Option<Seq<char>>, authorization: Option<Seq<char>>)
    ensures
        request_allowed(api_key, "/health"@, authorization),
{
}

} // verus!

//! Token claims, secret generation and the authorisation rule for HTTP requests.
use vstd::prelude::*;
use rand::rngs::ThreadRng;
use rand::RngExt;
use crate::config::AuthConfig;
use crate::text::{comma_fields, split_trimmed, trim_white, copy_strings, owned, push_char, strip_prefix, starts_with, has_prefix, views_of};

verus! {

/// Seconds in a day.
pub const SECONDS_PER_DAY: u64 = 86400;

/// The claims carried by an access token.
#[derive(Debug, Clone, PartialEq, Eq)]
pub struct Claims {
    /// Account name or "*" for all accounts
    pub sub: String,
    /// Scopes: "mail:read", "mail:modify", "mail:send"
    pub scopes: Vec<String>,
    /// Expiry (seconds since epoch)
    pub exp: u64,
    /// Issued at (seconds since epoch)
    pub iat: u64,
}

impl Claims {
    /// Some scope in the list is `scope` itself or the wildcard `*`.
    pub open spec fn grants(&self, scope: Seq<char>) -> bool {
        exists|i: int| 0 <= i < self.scopes@.len()
            && (#[trigger] self.scopes@[i]@ == scope || self.scopes@[i]@ == "*"@)
    }

    /// Whether the token grants `scope`: a scope equal to it, or `*`.
    pub fn has_scope(&self, scope: &str) -> (r: bool)
        ensures
            r == self.grants(scope@),
    {
        let mut i: usize = 0;
        while i < self.scopes.len()
            invariant
                i <= self.scopes@.len(),
                forall|j: int| 0 <= j < i ==> !(#[trigger] self.scopes@[j]@ == scope@ || self.scopes@[j]@ == "*"@),
            decreases self.scopes.len() - i,
        {
            let s = self.scopes[i].as_str();
            if crate::text::str_eq(s, scope) || crate::text::str_eq(s, "*") {
                return true;
            }
            i = i + 1;
        }
        false
    }

    /// The claims of a token issued at `now` (seconds since the epoch) for
    /// `account` with `scopes`, valid for `expires_in_days` days.
    pub fn issue(account: &str, scopes: &[String], expires_in_days: u64, now: u64) -> (c: Claims)
        requires
            now + expires_in_days * 86400 <= u64::MAX,
        ensures
            c.sub@ == account@,
            views_of(c.scopes@) == views_of(scopes@),
            c.iat == now,
            c.exp == now + expires_in_days * 86400,
    {
        Claims {
            sub: owned(account),
            scopes: copy_strings(scopes),
            exp: now + expires_in_days * SECONDS_PER_DAY,
            iat: now,
        }
    }
}

/// Number of characters in a generated secret.
pub const SECRET_LEN: usize = 64;

/// The secret character for a draw `d < 36`: a digit, then a lower-case letter.
pub open spec fn secret_char(d: u8) -> char {
    if d < 10 {
        (48 + d) as char
    } else {
        (97 + d - 10) as char
    }
}

/// A character that a secret may hold: an ASCII digit or lower-case letter.
pub open spec fn is_secret_char(c: char) -> bool {
    ('0' <= c && c <= '9') || ('a' <= c && c <= 'z')
}

/// `rand::rngs::ThreadRng`, the thread-local random generator, held opaque.
#[verifier::external_type_specification]
#[verifier::external_body]
pub struct ExThreadRng(ThreadRng);

/// The thread-local random generator (`rand::rng`).
#[verifier::external_body]
fn thread_rng() -> ThreadRng {
    rand::rng()
}

/// A uniformly drawn number below `bound` (`RngExt::random_range` on
/// `0..bound`, which panics on an empty range).  Only the bound is stated;
/// the value is random.
#[verifier::external_body]
fn random_below(rng: &mut ThreadRng, bound: u8) -> (r: u8)
    requires
        bound > 0,
    ensures
        r < bound,
{
    rng.random_range(0..bound)
}

fn secret_char_exec(d: u8) -> (c: char)
    requires
        d < 36,
    ensures
        c == secret_char(d),
        is_secret_char(c),
{
    if d < 10 {
        (48u8 + d) as char
    } else {
        (97u8 + d - 10) as char
    }
}

/// The secret spelled by a list of draws, each below 36.
pub fn secret_from_draws(draws: &[u8]) -> (s: String)
    requires
        forall|i: int| 0 <= i < draws@.len() ==> #[trigger] draws@[i] < 36,
    ensures
        s@ == draws@.map_values(|d: u8| secret_char(d)),
        forall|i: int| 0 <= i < s@.len() ==> is_secret_char(#[trigger] s@[i]),
{
    let mut s = String::new();
    let mut i: usize = 0;
    while i < draws.len()
        invariant
            i <= draws@.len(),
            forall|k: int| 0 <= k < draws@.len() ==> #[trigger] draws@[k] < 36,
            s@ == draws@.take(i as int).map_values(|d: u8| secret_char(d)),
            forall|k: int| 0 <= k < s@.len() ==> is_secret_char(#[trigger] s@[k]),
        decreases draws.len() - i,
    {
        let c = secret_char_exec(draws[i]);
        push_char(&mut s, c);
        i = i + 1;
        assert(s@ =~= draws@.take(i as int).map_values(|d: u8| secret_char(d)));
    }
    assert(draws@.take(draws.len() as int) =~= draws@);
    s
}

/// A fresh random secret for signing tokens: 64 characters, each an ASCII
/// digit or lower-case letter.
pub fn generate_secret() -> (s: String)
    ensures
        s@.len() == SECRET_LEN,
        forall|i: int| 0 <= i < s@.len() ==> is_secret_char(#[trigger] s@[i]),
{
    let mut rng = thread_rng();
    let mut draws: Vec<u8> = Vec::new();
    let mut i: usize = 0;
    while i < SECRET_LEN
        invariant
            i <= SECRET_LEN,
            draws@.len() == i,
            forall|k: int| 0 <= k < draws@.len() ==> #[trigger] draws@[k] < 36,
        decreases SECRET_LEN - i,
    {
        draws.push(random_below(&mut rng, 36));
        i = i + 1;
    }
    secret_from_draws(draws.as_slice())
}

/// Wrapper to pass the token secret through request extensions.
#[derive(Debug, Clone, PartialEq, Eq)]
pub struct AuthSecret(pub String);

/// What to do with an HTTP request.
#[derive(Debug, Clone, PartialEq, Eq)]
pub enum AuthDecision {
    /// Serve it without a token.
    Allow,
    /// Answer 401 Unauthorized.
    Reject,
    /// Serve it only if this bearer token is valid for the secret.
    VerifyToken(String),
}

/// The rule for an HTTP request: requests from the loopback interface need no
/// token; with no secret configured every remote request is refused; a
/// remote request must carry an `authorization` header of the form
/// `Bearer <token>`, whose token is then to be checked.
pub fn authorize(from_loopback: bool, secret: &str, authorization: Option<&str>) -> (d: AuthDecision)
    ensures
        from_loopback ==> d == AuthDecision::Allow,
        !from_loopback ==> d != AuthDecision::Allow,
        !from_loopback && secret@.len() == 0 ==> d == AuthDecision::Reject,
        !from_loopback && secret@.len() > 0 ==> match authorization {
            None => d == AuthDecision::Reject,
            Some(h) => if has_prefix(h@, "Bearer "@) {
                d matches AuthDecision::VerifyToken(t) && t@ == h@.skip("Bearer "@.len() as int)
            } else {
                d == AuthDecision::Reject
            },
        },
{
    if from_loopback {
        return AuthDecision::Allow;
    }
    if secret.is_empty() {
        return AuthDecision::Reject;
    }
    match authorization {
        None => AuthDecision::Reject,
        Some(h) => match strip_prefix(h, "Bearer ") {
            Some(token) => AuthDecision::VerifyToken(token),
            None => AuthDecision::Reject,
        },
    }
}

/// Whether an HTTP bind address is local (served without requiring tokens).
pub fn bind_is_local(addr: &str) -> (r: bool)
    ensures
        r == (has_prefix(addr@, "127.0.0.1"@) || has_prefix(addr@, "localhost"@)),
{
    starts_with(addr, "127.0.0.1") || starts_with(addr, "localhost")
}


/// The scopes of a `token create` command line: the comma-separated list,
/// each entry trimmed of white space.
pub fn parse_scopes(scopes: &str) -> (r: Vec<String>)
    ensures
        views_of(r@) == comma_fields(scopes@).map_values(|f: Seq<char>| trim_white(f)),
{
    split_trimmed(scopes)
}

/// The secret that signs new tokens: the configured one, or a freshly
/// generated one (then `true` is returned with it, and the caller tells the
/// user to put it in the configuration).
pub fn token_secret(auth: &AuthConfig) -> (r: (String, bool))
    ensures
        match auth.secret {
            Some(s) => r.0@ == s@ && !r.1,
            None => r.1 && r.0@.len() == SECRET_LEN
                && forall|i: int| 0 <= i < r.0@.len() ==> is_secret_char(#[trigger] r.0@[i]),
        },
{
    match &auth.secret {
        Some(s) => (s.clone(), false),
        None => (generate_secret(), true),
    }
}

/// The wildcard scope grants every scope.
pub proof fn lemma_wildcard_grants_all(c: Claims, scope: Seq<char>)
    requires
        exists|i: int| 0 <= i < c.scopes@.len() && #[trigger] c.scopes@[i]@ == "*"@,
    ensures
        c.grants(scope),
{
}


} // verus!

//! The request guard: every request to a protected route either carries a
//! valid bearer token, is a pre-flight request, or is turned away with 401.
//!
//! A request is inspected first (`AuthMiddleware::inspect`); a bearer token
//! is then opened (`AuthMiddleware::open`), its payload decoded into claims
//! by the caller, and the claims judged against the payload and the clock
//! (`AuthMiddleware::decide_now`).

use vstd::prelude::*;
use vstd::utf8::encode_utf8;

use crate::clock::latest_timestamp;
use crate::text::{has_prefix, is_prefix, join2, lemma_index_from};
use crate::token::{
    accept_claims, accept_claims_now, claims_payload, open_token, opened, token_text, Claims,
    TokenError,
};

verus! {

/// The `Authorization` header of a request, as far as the guard cares.
pub enum AuthorizationHeader {
    /// The request has no such header.
    Absent,
    /// The header's value is not visible ASCII text.
    Unreadable,
    /// The header's value.
    Text(String),
}

/// Why the guard turned a request away.
#[derive(PartialEq, Eq, Structural, Clone, Copy, Debug)]
pub enum Rejection {
    MissingHeader,
    InvalidHeader,
    InvalidFormat,
    InvalidToken(TokenError),
}

/// The operator behind an admitted request.
pub struct AuthenticatedUser {
    /// The identifier as a 128-bit UUID value; zero when the token's subject
    /// is not a UUID.
    pub id: u128,
    pub name: String,
    pub email: String,
    pub roles: Vec<String>,
}

/// What the guard makes of a request before any token is checked.
pub enum RequestStep {
    /// Let the request through with no user attached.
    Pass,
    /// Turn the request away.
    Reject(Rejection),
    /// Check this bearer token.
    Verify(String),
}

/// The guard's verdict on a request that carried a bearer token.
pub enum Verdict {
    Allowed(AuthenticatedUser),
    Rejected(Rejection),
}

/// The guard in front of protected routes, holding the secret that tokens
/// are signed with.
pub struct AuthMiddleware {
    pub jwt_secret: String,
}

/// The prefix of a bearer credential.
pub open spec fn bearer_prefix() -> Seq<char> {
    "Bearer "@
}

/// `step` is what the guard makes of a request with the given pre-flight
/// status and header.
pub open spec fn inspects(preflight: bool, header: AuthorizationHeader, step: RequestStep) -> bool {
    if preflight {
        step is Pass
    } else {
        match header {
            AuthorizationHeader::Absent => step == RequestStep::Reject(Rejection::MissingHeader),
            AuthorizationHeader::Unreadable => step == RequestStep::Reject(
                Rejection::InvalidHeader,
            ),
            AuthorizationHeader::Text(t) => if is_prefix(bearer_prefix(), t@) {
                step matches RequestStep::Verify(token) && token@ == t@.subrange(
                    bearer_prefix().len() as int,
                    t@.len() as int,
                )
            } else {
                step == RequestStep::Reject(Rejection::InvalidFormat)
            },
        }
    }
}

/// The value parsed from a UUID's text, when the text is a UUID.
pub uninterp spec fn uuid_value(s: Seq<char>) -> Option<u128>;

/// Relies on `uuid::Uuid::parse_str`, whose result depends on the text
/// alone, and `Uuid::as_u128`.
#[verifier::external_body]
fn parse_uuid(s: &str) -> (r: Option<u128>)
    ensures
        r == uuid_value(s@),
{
    match uuid::Uuid::parse_str(s) {
        Ok(u) => Some(u.as_u128()),
        Err(_) => None,
    }
}

/// `user` is the operator that `claims` describe, with `id` taken from the
/// parsed subject or zero.
pub open spec fn user_from(user: AuthenticatedUser, claims: Claims, parsed: Option<u128>) -> bool {
    &&& user.id == match parsed {
        Some(v) => v,
        None => 0,
    }
    &&& user.name == claims.name
    &&& user.email == claims.email
    &&& user.roles == claims.roles
}

/// The operator that `claims` describe, given the parsed subject.
pub fn user_with_id(claims: Claims, parsed: Option<u128>) -> (r: AuthenticatedUser)
    ensures
        user_from(r, claims, parsed),
{
    let id = match parsed {
        Some(v) => v,
        None => 0,
    };
    AuthenticatedUser { id, name: claims.name, email: claims.email, roles: claims.roles }
}

/// The operator that `claims` describe. A subject that is not a UUID gives
/// the nil identifier.
pub fn user_from_claims(claims: Claims) -> (r: AuthenticatedUser)
    ensures
        user_from(r, claims, uuid_value(claims.sub@)),
{
    let parsed = parse_uuid(claims.sub.as_str());
    user_with_id(claims, parsed)
}

/// The verdict on claims decoded from a token, or on the reason the token
/// was refused.
pub fn decide(outcome: Result<Claims, TokenError>) -> (r: Verdict)
    ensures
        outcome is Ok ==> (r matches Verdict::Allowed(u) && user_from(
            u,
            outcome->Ok_0,
            uuid_value(outcome->Ok_0.sub@),
        )),
        outcome is Err ==> r == Verdict::Rejected(
            Rejection::InvalidToken(outcome->Err_0),
        ),
{
    match outcome {
        Ok(claims) => Verdict::Allowed(user_from_claims(claims)),
        Err(e) => Verdict::Rejected(Rejection::InvalidToken(e)),
    }
}

impl AuthMiddleware {
    /// A guard for tokens signed with `jwt_secret`.
    pub fn new(jwt_secret: String) -> (r: AuthMiddleware)
        ensures
            r.jwt_secret == jwt_secret,
    {
        AuthMiddleware { jwt_secret }
    }

    /// What the guard makes of a request: pre-flight requests pass with no
    /// user; otherwise the header must hold a bearer credential.
    pub fn inspect(&self, preflight: bool, header: &AuthorizationHeader) -> (r: RequestStep)
        ensures
            inspects(preflight, *header, r),
    {
        if preflight {
            return RequestStep::Pass;
        }
        match header {
            AuthorizationHeader::Absent => RequestStep::Reject(Rejection::MissingHeader),
            AuthorizationHeader::Unreadable => RequestStep::Reject(Rejection::InvalidHeader),
            AuthorizationHeader::Text(t) => {
                proof {
                    reveal_strlit("Bearer ");
                }
                if has_prefix(t.as_str(), "Bearer ") {
                    let n = t.as_str().unicode_len();
                    RequestStep::Verify(String::from_str(t.as_str().substring_char(7, n)))
                } else {
                    RequestStep::Reject(Rejection::InvalidFormat)
                }
            },
        }
    }

    /// Checks a bearer token against the guard's secret and hands back its
    /// payload bytes.
    pub fn open(&self, token: &str) -> (r: Result<Vec<u8>, TokenError>)
        ensures
            r is Ok ==> opened(token@, encode_utf8(self.jwt_secret@)) == Ok::<
                Seq<u8>,
                TokenError,
            >(r->Ok_0@),
            r is Err ==> opened(token@, encode_utf8(self.jwt_secret@)) == Err::<
                Seq<u8>,
                TokenError,
            >(r->Err_0),
            forall|p: Seq<u8>|
                #[trigger] token_text(p, encode_utf8(self.jwt_secret@)) == token@ ==> (r is Ok
                    && r->Ok_0@ == p),
    {
        open_token(token, self.jwt_secret.as_str())
    }

    /// The verdict on claims decoded from an opened token's payload at
    /// time `now`: claims that are not exactly the payload are malformed,
    /// expired claims are refused, others admitted.
    pub fn decide_at(&self, payload: &[u8], claims: Claims, now: i64) -> (r: Verdict)
        ensures
            payload@ != claims_payload(claims) ==> r == Verdict::Rejected(
                Rejection::InvalidToken(TokenError::Malformed),
            ),
            payload@ == claims_payload(claims) && now > claims.exp ==> r == Verdict::Rejected(
                Rejection::InvalidToken(TokenError::Expired),
            ),
            payload@ == claims_payload(claims) && now <= claims.exp ==> (r matches Verdict::Allowed(
                u,
            ) && user_from(u, claims, uuid_value(claims.sub@))),
    {
        decide(accept_claims(payload, claims, now))
    }

    /// The verdict on claims decoded from an opened token's payload at the
    /// current time.
    pub fn decide_now(&self, payload: &[u8], claims: Claims) -> (r: Verdict)
        ensures
            payload@ != claims_payload(claims) ==> r is Rejected,
            r == Verdict::Rejected(Rejection::InvalidToken(TokenError::Malformed)) ==> payload@
                != claims_payload(claims),
            payload@ == claims_payload(claims) ==> (r matches Verdict::Allowed(u) && user_from(
                u,
                claims,
                uuid_value(claims.sub@),
            )) || r == Verdict::Rejected(Rejection::InvalidToken(TokenError::Expired)) || r
                == Verdict::Rejected(Rejection::InvalidToken(TokenError::NoClock)),
            payload@ == claims_payload(claims) && claims.exp >= latest_timestamp() ==> (
            r matches Verdict::Allowed(u) && user_from(u, claims, uuid_value(claims.sub@))) || r
                == Verdict::Rejected(Rejection::InvalidToken(TokenError::NoClock)),
            r matches Verdict::Allowed(u) ==> user_from(u, claims, uuid_value(claims.sub@)),
    {
        decide(accept_claims_now(payload, claims))
    }
}

impl Rejection {
    /// HTTP status of a turned-away request.
    pub fn status_code(&self) -> (r: u16)
        ensures
            r == 401,
    {
        401
    }

    /// The reason given to the client.
    pub fn message(&self) -> (r: String)
        ensures
            r@ == rejection_message(*self),
    {
        match self {
            Rejection::MissingHeader => String::from_str("Missing authorization header"),
            Rejection::InvalidHeader => String::from_str("Invalid authorization header"),
            Rejection::InvalidFormat => String::from_str(
                "Invalid authorization header format",
            ),
            Rejection::InvalidToken(e) => join2("Invalid token: ", token_problem(*e)),
        }
    }
}

/// A short description of a token problem.
pub open spec fn token_problem_text(e: TokenError) -> Seq<char> {
    match e {
        TokenError::Malformed => "malformed token"@,
        TokenError::InvalidSignature => "invalid signature"@,
        TokenError::Expired => "token expired"@,
        TokenError::InvalidLifetime => "invalid lifetime"@,
        TokenError::Oversized => "oversized claims"@,
        TokenError::NoClock => "clock unavailable"@,
    }
}

/// The reason given to the client for a rejection.
pub open spec fn rejection_message(r: Rejection) -> Seq<char> {
    match r {
        Rejection::MissingHeader => "Missing authorization header"@,
        Rejection::InvalidHeader => "Invalid authorization header"@,
        Rejection::InvalidFormat => "Invalid authorization header format"@,
        Rejection::InvalidToken(e) => "Invalid token: "@ + token_problem_text(e),
    }
}

fn token_problem(e: TokenError) -> (r: &'static str)
    ensures
        r@ == token_problem_text(e),
{
    match e {
        TokenError::Malformed => "malformed token",
        TokenError::InvalidSignature => "invalid signature",
        TokenError::Expired => "token expired",
        TokenError::InvalidLifetime => "invalid lifetime",
        TokenError::Oversized => "oversized claims",
        TokenError::NoClock => "clock unavailable",
    }
}

/// Pre-flight requests pass, whatever their headers.
pub proof fn lemma_preflight_passes(header: AuthorizationHeader, step: RequestStep)
    requires
        inspects(true, header, step),
    ensures
        step is Pass,
{
}

/// An empty token is malformed under any key.
pub proof fn lemma_empty_token_malformed(key: Seq<u8>)
    ensures
        opened(Seq::<char>::empty(), key) == Err::<Seq<u8>, TokenError>(TokenError::Malformed),
{
    lemma_index_from(Seq::<char>::empty(), "."@, 0);
    reveal_strlit(".");
}

/// A request that is not pre-flight is turned away when its header is
/// missing, unreadable or not a bearer credential; a bearer credential
/// whose token is empty, or any token that does not open under the key,
/// goes to a check that refuses it.
pub proof fn lemma_gate_rejections(header: AuthorizationHeader, step: RequestStep, key: Seq<u8>)
    requires
        inspects(false, header, step),
    ensures
        header is Absent ==> step == RequestStep::Reject(Rejection::MissingHeader),
        header is Unreadable ==> step == RequestStep::Reject(Rejection::InvalidHeader),
        header matches AuthorizationHeader::Text(t) && !is_prefix(bearer_prefix(), t@) ==> step
            == RequestStep::Reject(Rejection::InvalidFormat),
        header matches AuthorizationHeader::Text(t) && t@ == bearer_prefix() ==> (step matches RequestStep::Verify(token)
            && opened(token@, key) == Err::<Seq<u8>, TokenError>(TokenError::Malformed)),
{
    lemma_empty_token_malformed(key);
    if let AuthorizationHeader::Text(t) = header {
        if t@ == bearer_prefix() {
            assert(t@.subrange(0, t@.len() as int) =~= t@);
            assert(t@.subrange(bearer_prefix().len() as int, t@.len() as int) =~= Seq::<
                char,
            >::empty());
        }
    }
}

} // verus!

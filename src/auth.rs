//! The credential verifier: development accounts, the mapping of directory
//! outcomes to login results, and the cache of resolved users.

use vstd::prelude::*;

use crate::directory::{
    advances, started, success_code, DirectoryEntry, DirectoryError, DirectoryEvent,
    DirectorySession, DirectorySettings, DirectoryStep, SessionPhase, UfdsUser,
};
use crate::clock::{current_time, latest_timestamp};
use crate::text::{copy_texts, same_text};
use crate::token::{
    accepted, claims_for, claims_payload, issue_token, lemma_issued_claims_verify, lifetime_ok,
    opened, small_claims, token_text, Claims, TokenError,
};
use vstd::utf8::encode_utf8;

verus! {

/// An authenticated operator as the rest of the gateway sees it.
pub struct UserInfo {
    /// Stable unique identifier (a UUID in text form).
    pub id: String,
    /// Display name.
    pub name: String,
    /// Contact address.
    pub email: String,
    /// Role labels; membership matters, not order.
    pub roles: Vec<String>,
}

/// The body of a login request.
pub struct LoginRequest {
    pub username: String,
    pub password: String,
}

/// The body of a successful login response.
pub struct LoginResponse {
    pub token: String,
    pub user: UserInfo,
}

/// The fixed development accounts: login name and password, and the user
/// they resolve to (identifier, name, email, roles).
pub open spec fn development_user(username: Seq<char>, password: Seq<char>) -> Option<
    (Seq<char>, Seq<char>, Seq<char>, Seq<Seq<char>>),
> {
    if username == "admin"@ && password == "admin"@ {
        Some(
            (
                "00000000-0000-0000-0000-000000000000"@,
                "Administrator"@,
                "admin@example.com"@,
                seq!["admin"@],
            ),
        )
    } else if username == "operator"@ && password == "operator"@ {
        Some(
            (
                "11111111-1111-1111-1111-111111111111"@,
                "System Operator"@,
                "operator@example.com"@,
                seq!["operator"@],
            ),
        )
    } else {
        None
    }
}

/// `info` holds the given identifier, name, email and roles.
pub open spec fn describes(
    info: UserInfo,
    user: (Seq<char>, Seq<char>, Seq<char>, Seq<Seq<char>>),
) -> bool {
    &&& info.id@ == user.0
    &&& info.name@ == user.1
    &&& info.email@ == user.2
    &&& info.roles.deep_view() == user.3
}

/// `info` presents the directory record `u`.
pub open spec fn presents(info: UserInfo, u: UfdsUser) -> bool {
    describes(info, (u.uuid@, u.name@, u.email@, u.roles.deep_view()))
}

/// How a login proceeds.
pub enum LoginStep {
    /// The credentials resolved without the directory.
    Resolved(UserInfo),
    /// The directory decides: drive the session from its first step.
    Directory(DirectorySession, DirectoryStep),
}

fn user_of(id: &str, name: &str, email: &str, role: &str) -> (r: UserInfo)
    ensures
        describes(r, (id@, name@, email@, seq![role@])),
{
    let mut roles: Vec<String> = Vec::new();
    roles.push(String::from_str(role));
    assert(roles.deep_view() =~= seq![role@]);
    UserInfo {
        id: String::from_str(id),
        name: String::from_str(name),
        email: String::from_str(email),
        roles,
    }
}

/// Starts the login of `username` with `password`. The development accounts
/// resolve at once, without any network step, when `development_accounts`
/// is set; every other login goes to the directory.
pub fn authenticate(
    settings: &DirectorySettings,
    username: &str,
    password: &str,
    development_accounts: bool,
) -> (r: LoginStep)
    ensures
        development_accounts && development_user(username@, password@) is Some ==> (r matches LoginStep::Resolved(info) && describes(info, development_user(username@, password@)->0)),
        !(development_accounts && development_user(username@, password@) is Some) ==> (r matches LoginStep::Directory(session, step) && started(*settings, username@, password@, session, step)),
{
    if development_accounts {
        if same_text(username, "admin") && same_text(password, "admin") {
            return LoginStep::Resolved(
                user_of(
                    "00000000-0000-0000-0000-000000000000",
                    "Administrator",
                    "admin@example.com",
                    "admin",
                ),
            );
        }
        if same_text(username, "operator") && same_text(password, "operator") {
            return LoginStep::Resolved(
                user_of(
                    "11111111-1111-1111-1111-111111111111",
                    "System Operator",
                    "operator@example.com",
                    "operator",
                ),
            );
        }
    }
    let (session, step) = DirectorySession::start(settings, username, password);
    LoginStep::Directory(session, step)
}

/// A failed login. The cause is kept for the server's diagnostics; what a
/// client is shown is the same for every cause.
#[derive(PartialEq, Eq, Structural, Clone, Copy, Debug)]
pub struct AuthError {
    pub cause: DirectoryError,
}

/// What a client is told of a failed login: status and message.
pub open spec fn client_view(e: AuthError) -> (u16, Seq<char>) {
    (401, "Invalid credentials"@)
}

/// How the server's logs describe a failed login's cause.
pub open spec fn cause_text(e: DirectoryError) -> Seq<char> {
    match e {
        DirectoryError::ConnectionFailed => "directory unreachable"@,
        DirectoryError::TlsFailed => "transport security negotiation failed"@,
        DirectoryError::AuthenticationFailed => "bind rejected"@,
        DirectoryError::IdentityNotFound => "no person entry for the login name"@,
        DirectoryError::SearchFailed => "profile search failed"@,
        DirectoryError::IncompleteRecord => "person entry lacks required attributes"@,
        DirectoryError::UnexpectedEvent => "directory session out of order"@,
    }
}

impl AuthError {
    /// HTTP status of a failed login.
    pub fn status_code(&self) -> (r: u16)
        ensures
            r == client_view(*self).0,
    {
        401
    }

    /// The message a client is shown.
    pub fn client_message(&self) -> (r: String)
        ensures
            r@ == client_view(*self).1,
    {
        String::from_str("Invalid credentials")
    }

    /// The cause, for the server's own logs.
    pub fn log_detail(&self) -> (r: String)
        ensures
            r@ == cause_text(self.cause),
    {
        let s = match self.cause {
            DirectoryError::ConnectionFailed => "directory unreachable",
            DirectoryError::TlsFailed => "transport security negotiation failed",
            DirectoryError::AuthenticationFailed => "bind rejected",
            DirectoryError::IdentityNotFound => "no person entry for the login name",
            DirectoryError::SearchFailed => "profile search failed",
            DirectoryError::IncompleteRecord => "person entry lacks required attributes",
            DirectoryError::UnexpectedEvent => "directory session out of order",
        };
        String::from_str(s)
    }
}

/// The failed login that a finished lookup step leads to, if it failed.
pub open spec fn failure_of(step: DirectoryStep) -> Option<AuthError> {
    match step {
        DirectoryStep::Finished(Err(e)) => Some(AuthError { cause: e }),
        _ => None,
    }
}

/// A rejected bind and a missing person entry end a lookup with different
/// causes, and a client sees the same status and message for both.
pub proof fn lemma_failures_look_alike(
    binding: DirectorySession,
    after_bind: DirectorySession,
    bind_step: DirectoryStep,
    code: u32,
    searching: DirectorySession,
    after_search: DirectorySession,
    search_step: DirectoryStep,
    no_entries: Vec<DirectoryEntry>,
)
    requires
        binding.phase == SessionPhase::Binding,
        code != success_code(),
        advances(binding, DirectoryEvent::BindAnswered(code), after_bind, bind_step),
        searching.phase == SessionPhase::Searching,
        no_entries.len() == 0,
        advances(
            searching,
            DirectoryEvent::SearchAnswered(success_code(), no_entries),
            after_search,
            search_step,
        ),
    ensures
        failure_of(bind_step) is Some,
        failure_of(search_step) is Some,
        failure_of(bind_step)->Some_0.cause == DirectoryError::AuthenticationFailed,
        failure_of(search_step)->Some_0.cause == DirectoryError::IdentityNotFound,
        failure_of(bind_step) != failure_of(search_step),
        client_view(failure_of(bind_step)->Some_0) == client_view(failure_of(search_step)->Some_0),
{
}

/// Logging in as `admin`/`admin` with the development accounts on resolves,
/// without the directory, to the fixed administrator. Claims issued for it
/// are small enough to be signed, carry the nil UUID as subject and the one
/// role `admin`, and their token opens to a payload that accepts them at any
/// time up to their expiry.
pub proof fn lemma_admin_login(
    info: UserInfo,
    c: Claims,
    issued_at: i64,
    hours: i64,
    key: Seq<u8>,
    now: i64,
)
    requires
        describes(info, development_user("admin"@, "admin"@)->0),
        claims_for(c, info, issued_at, hours),
        now <= c.exp,
    ensures
        development_user("admin"@, "admin"@) is Some,
        small_claims(c),
        c.sub@ == "00000000-0000-0000-0000-000000000000"@,
        c.roles.deep_view() == seq!["admin"@],
        opened(token_text(claims_payload(c), key), key) == Ok::<Seq<u8>, TokenError>(
            claims_payload(c),
        ),
        accepted(claims_payload(c), c, now) == Ok::<Claims, TokenError>(c),
{
    reveal_strlit("00000000-0000-0000-0000-000000000000");
    reveal_strlit("Administrator");
    reveal_strlit("admin@example.com");
    reveal_strlit("admin");
    assert(c.roles.len() == c.roles.deep_view().len());
    lemma_issued_claims_verify(c, key, now);
}

/// The most recently resolved record of each directory user, by identifier,
/// with the time it was stored. A record older than `ttl` seconds is no
/// longer served.
pub struct DirectoryCache {
    pub entries: Vec<UfdsUser>,
    /// When each record was stored, in seconds since the epoch.
    pub stored_at: Vec<i64>,
    /// How long a record is served after it was stored, in seconds.
    pub ttl: i64,
}

/// No two records share an identifier.
pub open spec fn keys_unique(s: Seq<UfdsUser>) -> bool {
    forall|i: int, j: int|
        0 <= i < s.len() && 0 <= j < s.len() && i != j ==> s[i].uuid@ != s[j].uuid@
}

/// Some record has identifier `id`.
pub open spec fn has_key(s: Seq<UfdsUser>, id: Seq<char>) -> bool {
    exists|i: int| 0 <= i < s.len() && s[i].uuid@ == id
}

/// Where a record with identifier `id` stands.
pub open spec fn key_index(s: Seq<UfdsUser>, id: Seq<char>) -> int {
    choose|i: int| 0 <= i < s.len() && s[i].uuid@ == id
}

/// The record with identifier `id`, if any.
pub open spec fn cached(s: Seq<UfdsUser>, id: Seq<char>) -> Option<UfdsUser> {
    if has_key(s, id) {
        Some(s[key_index(s, id)])
    } else {
        None
    }
}

/// When the record with identifier `id` was stored, if there is one.
pub open spec fn stored_time(s: Seq<UfdsUser>, times: Seq<i64>, id: Seq<char>) -> Option<i64> {
    if has_key(s, id) {
        Some(times[key_index(s, id)])
    } else {
        None
    }
}

/// A record stored at `stored` is still served at `now`.
pub open spec fn fresh(stored: i64, now: i64, ttl: i64) -> bool {
    now - stored <= ttl
}

proof fn lemma_key_index(s: Seq<UfdsUser>, i: int)
    requires
        keys_unique(s),
        0 <= i < s.len(),
    ensures
        has_key(s, s[i].uuid@),
        key_index(s, s[i].uuid@) == i,
{
    assert(has_key(s, s[i].uuid@));
}

/// Where the record with the identifier `key` stands.
fn position_of(entries: &Vec<UfdsUser>, key: &String) -> (r: Option<usize>)
    ensures
        r is Some ==> r->Some_0 < entries.len() && entries@[r->Some_0 as int].uuid@ == key@,
        r is None ==> !has_key(entries@, key@),
{
    let mut i: usize = 0;
    while i < entries.len()
        invariant
            i <= entries.len(),
            forall|k: int| 0 <= k < i ==> entries@[k].uuid@ != key@,
        decreases entries.len() - i,
    {
        if entries[i].uuid == *key {
            return Some(i);
        }
        i = i + 1;
    }
    None
}

impl DirectoryCache {
    /// The cache's invariant: one record per identifier, each with its time.
    pub open spec fn wf(&self) -> bool {
        &&& keys_unique(self.entries@)
        &&& self.entries.len() == self.stored_at.len()
        &&& self.ttl >= 0
    }

    /// An empty cache whose records are served for `ttl` seconds.
    pub fn new(ttl: i64) -> (r: DirectoryCache)
        requires
            ttl >= 0,
        ensures
            r.wf(),
            r.ttl == ttl,
            forall|id: Seq<char>| cached(r.entries@, id) is None,
    {
        DirectoryCache { entries: Vec::new(), stored_at: Vec::new(), ttl }
    }

    /// Whether the cache holds one record per identifier, each with its time.
    pub fn is_well_formed(&self) -> (r: bool)
        ensures
            r == self.wf(),
    {
        if self.entries.len() != self.stored_at.len() || self.ttl < 0 {
            return false;
        }
        let n = self.entries.len();
        let mut i: usize = 0;
        while i < n
            invariant
                n == self.entries.len(),
                i <= n,
                forall|a: int, b: int|
                    0 <= a < i && 0 <= b < n && a != b ==> self.entries@[a].uuid@
                        != self.entries@[b].uuid@,
            decreases n - i,
        {
            let mut j: usize = 0;
            while j < n
                invariant
                    n == self.entries.len(),
                    i < n,
                    j <= n,
                    forall|a: int, b: int|
                        0 <= a < i && 0 <= b < n && a != b ==> self.entries@[a].uuid@
                            != self.entries@[b].uuid@,
                    forall|b: int|
                        0 <= b < j && b != i ==> self.entries@[i as int].uuid@
                            != self.entries@[b].uuid@,
                decreases n - j,
            {
                if j != i && self.entries[i].uuid == self.entries[j].uuid {
                    return false;
                }
                j = j + 1;
            }
            i = i + 1;
        }
        true
    }

    /// The record cached for `id`, if it is still served at `now`.
    pub fn get(&self, id: &str, now: i64) -> (r: Option<&UfdsUser>)
        requires
            self.wf(),
        ensures
            r is Some <==> (cached(self.entries@, id@) is Some && fresh(
                stored_time(self.entries@, self.stored_at@, id@)->Some_0,
                now,
                self.ttl,
            )),
            r is Some ==> cached(self.entries@, id@) == Some(*r->Some_0),
    {
        let key = String::from_str(id);
        match position_of(&self.entries, &key) {
            Some(i) => {
                proof {
                    lemma_key_index(self.entries@, i as int);
                }
                if (now as i128) - (self.stored_at[i] as i128) <= self.ttl as i128 {
                    Some(&self.entries[i])
                } else {
                    None
                }
            },
            None => None,
        }
    }

    /// Stores `u` at time `now`, replacing any record with its identifier.
    pub fn store(&mut self, u: UfdsUser, now: i64)
        requires
            old(self).wf(),
        ensures
            final(self).wf(),
            final(self).ttl == old(self).ttl,
            forall|id: Seq<char>|
                #[trigger] cached(final(self).entries@, id) == if id == u.uuid@ {
                    Some(u)
                } else {
                    cached(old(self).entries@, id)
                },
            forall|id: Seq<char>|
                #[trigger] stored_time(final(self).entries@, final(self).stored_at@, id) == if id
                    == u.uuid@ {
                    Some(now)
                } else {
                    stored_time(old(self).entries@, old(self).stored_at@, id)
                },
    {
        let ghost pre = self.entries@;
        let ghost pre_t = self.stored_at@;
        let ghost key = u.uuid@;
        let found = position_of(&self.entries, &u.uuid);
        let ghost i: int = match found {
            Some(i) => i as int,
            None => pre.len() as int,
        };
        match found {
            Some(i) => {
                self.entries.set(i, u);
                self.stored_at.set(i, now);
            },
            None => {
                self.entries.push(u);
                self.stored_at.push(now);
            },
        }
        let ghost post = self.entries@;
        let ghost post_t = self.stored_at@;
        proof {
            assert(post[i] == u);
            assert(post_t[i] == now);
            assert forall|k: int| 0 <= k < pre.len() && k != i implies post[k] == pre[k] && post_t[k]
                == pre_t[k] by {}
            assert(keys_unique(post));
            assert forall|id: Seq<char>|
                #[trigger] cached(post, id) == (if id == key {
                    Some(u)
                } else {
                    cached(pre, id)
                }) && stored_time(post, post_t, id) == (if id == key {
                    Some(now)
                } else {
                    stored_time(pre, pre_t, id)
                }) by {
                if id == key {
                    lemma_key_index(post, i);
                } else if has_key(pre, id) {
                    let k = key_index(pre, id);
                    lemma_key_index(pre, k);
                    lemma_key_index(post, k);
                } else if has_key(post, id) {
                    let k = key_index(post, id);
                    assert(k != i);
                    assert(pre[k].uuid@ == id);
                }
            }
        }
    }
}

/// Finishes a directory login at time `now`: the user on success, stored in
/// the cache; otherwise one opaque failure that keeps the cause.
pub fn conclude_at(
    outcome: Result<UfdsUser, DirectoryError>,
    cache: &mut DirectoryCache,
    now: i64,
) -> (r: Result<UserInfo, AuthError>)
    requires
        old(cache).wf(),
    ensures
        final(cache).wf(),
        outcome is Err ==> r == Err::<UserInfo, AuthError>(AuthError { cause: outcome->Err_0 })
            && *final(cache) == *old(cache),
        outcome is Ok ==> r is Ok && presents(r->Ok_0, outcome->Ok_0) && forall|id: Seq<char>|
            #[trigger] cached(final(cache).entries@, id) == if id == outcome->Ok_0.uuid@ {
                Some(outcome->Ok_0)
            } else {
                cached(old(cache).entries@, id)
            },
        outcome is Ok ==> stored_time(
            final(cache).entries@,
            final(cache).stored_at@,
            outcome->Ok_0.uuid@,
        ) == Some(now),
{
    match outcome {
        Err(e) => Err(AuthError { cause: e }),
        Ok(u) => {
            let info = UserInfo {
                id: u.uuid.clone(),
                name: u.name.clone(),
                email: u.email.clone(),
                roles: copy_texts(&u.roles),
            };
            let ghost id = u.uuid@;
            cache.store(u, now);
            assert(stored_time(cache.entries@, cache.stored_at@, id) == Some(now));
            Ok(info)
        },
    }
}

/// `post` is `pre` with `u` stored at some time the clock can give.
pub open spec fn stored_after(pre: DirectoryCache, post: DirectoryCache, u: UfdsUser) -> bool {
    &&& forall|id: Seq<char>|
        #[trigger] cached(post.entries@, id) == if id == u.uuid@ {
            Some(u)
        } else {
            cached(pre.entries@, id)
        }
    &&& stored_time(post.entries@, post.stored_at@, u.uuid@) is Some
    &&& 0 <= stored_time(post.entries@, post.stored_at@, u.uuid@)->Some_0 <= latest_timestamp()
}

/// Finishes a directory login at the current time. When the clock cannot be
/// read the user is still returned, but not cached.
pub fn conclude(outcome: Result<UfdsUser, DirectoryError>, cache: &mut DirectoryCache) -> (r: Result<
    UserInfo,
    AuthError,
>)
    requires
        old(cache).wf(),
    ensures
        final(cache).wf(),
        outcome is Err ==> r == Err::<UserInfo, AuthError>(AuthError { cause: outcome->Err_0 })
            && *final(cache) == *old(cache),
        outcome is Ok ==> r is Ok && presents(r->Ok_0, outcome->Ok_0),
        outcome is Ok ==> *final(cache) == *old(cache) || (stored_after(
            *old(cache),
            *final(cache),
            outcome->Ok_0,
        )),
{
    match current_time() {
        Some(now) => conclude_at(outcome, cache, now),
        None => match outcome {
            Err(e) => Err(AuthError { cause: e }),
            Ok(u) => Ok(
                UserInfo {
                    id: u.uuid.clone(),
                    name: u.name.clone(),
                    email: u.email.clone(),
                    roles: copy_texts(&u.roles),
                },
            ),
        },
    }
}

/// The user's texts, and number of roles, are within the limit that makes
/// their claims sure to be signed.
pub open spec fn small_user(u: UserInfo) -> bool {
    &&& u.id@.len() <= 1000
    &&& u.name@.len() <= 1000
    &&& u.email@.len() <= 1000
    &&& u.roles.len() <= 1000
    &&& forall|i: int| 0 <= i < u.roles.len() ==> #[trigger] u.roles.deep_view()[i].len() <= 1000
}

/// `resp` answers a login of `user` at `issued_at` for `hours` hours with a
/// token signed by `key`: the response's user is `user`, and its token
/// carries exactly the claims issued for `user`.
pub open spec fn answers_login(
    resp: LoginResponse,
    user: UserInfo,
    issued_at: i64,
    hours: i64,
    key: Seq<u8>,
) -> bool {
    &&& resp.user.id@ == user.id@
    &&& resp.user.name@ == user.name@
    &&& resp.user.email@ == user.email@
    &&& resp.user.roles.deep_view() == user.roles.deep_view()
    &&& exists|c: Claims|
        claims_for(c, user, issued_at, hours) && #[trigger] token_text(claims_payload(c), key)
            == resp.token@
}

/// The response to a login of `user` at time `now`: claims for `hours` hours
/// signed with `secret`, and the user.
pub fn login_response_at(user: UserInfo, secret: &str, hours: i64, now: i64) -> (r: Result<
    LoginResponse,
    TokenError,
>)
    ensures
        !lifetime_ok(now, hours) ==> r == Err::<LoginResponse, TokenError>(
            TokenError::InvalidLifetime,
        ),
        lifetime_ok(now, hours) && small_user(user) ==> r is Ok,
        r is Ok ==> answers_login(r->Ok_0, user, now, hours, encode_utf8(secret@)),
        r is Err ==> r->Err_0 == TokenError::InvalidLifetime || r->Err_0 == TokenError::Oversized,
{
    let claims = match Claims::issue(&user, now, hours) {
        Ok(c) => c,
        Err(e) => return Err(e),
    };
    proof {
        if small_user(user) {
            assert(claims.roles.len() == claims.roles.deep_view().len());
            assert(user.roles.len() == user.roles.deep_view().len());
            assert(small_claims(claims));
        }
    }
    let token = match issue_token(&claims, secret) {
        Ok(t) => t,
        Err(e) => return Err(e),
    };
    Ok(LoginResponse { token, user })
}

/// The response to a login of `user` now. Fails with `NoClock` when the
/// clock cannot be read.
pub fn login_response(user: UserInfo, secret: &str, hours: i64) -> (r: Result<
    LoginResponse,
    TokenError,
>)
    ensures
        hours <= 0 ==> r is Err,
        0 < hours <= 1_000_000_000_000 && small_user(user) ==> (r is Ok || r->Err_0
            == TokenError::NoClock),
        r is Ok ==> exists|t: i64|
            0 <= t <= latest_timestamp() && answers_login(
                r->Ok_0,
                user,
                t,
                hours,
                encode_utf8(secret@),
            ),
        r is Err ==> r->Err_0 == TokenError::InvalidLifetime || r->Err_0 == TokenError::Oversized
            || r->Err_0 == TokenError::NoClock,
{
    match current_time() {
        Some(now) => login_response_at(user, secret, hours, now),
        None => Err(TokenError::NoClock),
    }
}

} // verus!

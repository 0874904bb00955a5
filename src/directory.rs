//! The directory client: where the directory is reached, how a login name
//! becomes a bind identity and a search, and how the entry that the search
//! returns becomes a normalized user record.

use vstd::prelude::*;

use crate::text::{
    after, before, fill, fill_placeholder, find, has_prefix, index_of, is_prefix, join2, join3,
    same_text, text_after, text_before, trim, trim_text,
};

verus! {

/// Base of the directory tree used when the endpoint names none.
pub open spec fn default_base_dn() -> Seq<char> {
    "o=smartdc"@
}

/// Where and how the directory is reached.
pub struct DirectorySettings {
    /// Endpoint, with an `ldap://` or `ldaps://` scheme.
    pub url: String,
    /// Base of the subtree that user searches run under.
    pub base_dn: String,
    /// Distinguished-name template; `{}` stands for the login name.
    pub user_dn_format: String,
    /// Reject certificate chains that do not validate.
    pub verify_certificates: bool,
}

/// The endpoint without an `http://` or `https://` scheme.
pub open spec fn without_http_scheme(url: Seq<char>) -> Seq<char> {
    if is_prefix("http://"@, url) {
        url.subrange(7, url.len() as int)
    } else if is_prefix("https://"@, url) {
        url.subrange(8, url.len() as int)
    } else {
        url
    }
}

/// Whether the endpoint names a directory scheme.
pub open spec fn is_directory_url(url: Seq<char>) -> bool {
    is_prefix("ldaps://"@, url) || is_prefix("ldap://"@, url)
}

/// The base DN named by a directory endpoint: what follows the third `/`.
pub open spec fn base_dn_of(url: Seq<char>) -> Seq<char> {
    match after(url, "/"@) {
        Some(a) => match after(a, "/"@) {
            Some(b) => match after(b, "/"@) {
                Some(c) => c,
                None => default_base_dn(),
            },
            None => default_base_dn(),
        },
        None => default_base_dn(),
    }
}

/// The endpoint that the directory is reached at, given the configured URL:
/// a directory URL as it is, otherwise the secured port of the URL's host.
pub open spec fn endpoint_of(url: Seq<char>) -> Seq<char> {
    if is_directory_url(url) {
        url
    } else {
        "ldaps://"@ + before(without_http_scheme(url), "/"@) + ":636"@
    }
}

/// The base DN for the configured URL.
pub open spec fn settings_base_dn(url: Seq<char>) -> Seq<char> {
    if is_directory_url(url) {
        base_dn_of(url)
    } else {
        default_base_dn()
    }
}

impl DirectorySettings {
    /// Settings for the configured directory URL.
    pub fn from_url(url: &str, verify_certificates: bool) -> (r: DirectorySettings)
        ensures
            r.url@ == endpoint_of(url@),
            r.base_dn@ == settings_base_dn(url@),
            r.user_dn_format@ == "cn={},ou=users,"@ + settings_base_dn(url@),
            r.verify_certificates == verify_certificates,
    {
        let directory = has_prefix(url, "ldaps://") || has_prefix(url, "ldap://");
        let (endpoint, base_dn) = if directory {
            let base = match text_after(url, "/") {
                Some(a) => match text_after(a, "/") {
                    Some(b) => match text_after(b, "/") {
                        Some(c) => String::from_str(c),
                        None => String::from_str("o=smartdc"),
                    },
                    None => String::from_str("o=smartdc"),
                },
                None => String::from_str("o=smartdc"),
            };
            (String::from_str(url), base)
        } else {
            proof {
                reveal_strlit("http://");
                reveal_strlit("https://");
            }
            let bare = if has_prefix(url, "http://") {
                url.substring_char(7, url.unicode_len())
            } else if has_prefix(url, "https://") {
                url.substring_char(8, url.unicode_len())
            } else {
                url
            };
            let host = text_before(bare, "/");
            (join3("ldaps://", host, ":636"), String::from_str("o=smartdc"))
        };
        let user_dn_format = join2("cn={},ou=users,", base_dn.as_str());
        DirectorySettings { url: endpoint, base_dn, user_dn_format, verify_certificates }
    }
}

/// The distinguished name that a login name binds as.
pub open spec fn user_dn(format: Seq<char>, username: Seq<char>) -> Seq<char> {
    fill(format, username)
}

/// The search filter that selects the person entry of a login name.
pub open spec fn search_filter(username: Seq<char>) -> Seq<char> {
    "(&(objectClass=sdcPerson)(cn="@ + username + "))"@
}

/// The endpoint as it is dialled: a scheme is added when it has none.
pub open spec fn dial_url(url: Seq<char>) -> Seq<char> {
    if index_of(url, "://"@) is Some {
        url
    } else {
        "ldap://"@ + url
    }
}

/// The attributes that the profile search asks for, in order.
pub open spec fn profile_attributes() -> Seq<Seq<char>> {
    seq!["uuid"@, "email"@, "cn"@, "sn"@, "givenName"@, "memberof"@, "isAdmin"@]
}

impl DirectorySettings {
    /// The distinguished name that `username` binds as.
    pub fn user_dn(&self, username: &str) -> (r: String)
        ensures
            r@ == user_dn(self.user_dn_format@, username@),
    {
        fill_placeholder(self.user_dn_format.as_str(), username)
    }
}

/// The search filter that selects the person entry of `username`.
pub fn search_filter_for(username: &str) -> (r: String)
    ensures
        r@ == search_filter(username@),
{
    join3("(&(objectClass=sdcPerson)(cn=", username, "))")
}

/// The endpoint as it is dialled.
pub fn dial_url_for(url: &str) -> (r: String)
    ensures
        r@ == dial_url(url@),
{
    match find(url, "://") {
        Some(_) => String::from_str(url),
        None => join2("ldap://", url),
    }
}

/// The attributes that the profile search asks for.
pub fn profile_attribute_names() -> (r: Vec<String>)
    ensures
        r.deep_view() == profile_attributes(),
{
    let mut r: Vec<String> = Vec::new();
    r.push(String::from_str("uuid"));
    r.push(String::from_str("email"));
    r.push(String::from_str("cn"));
    r.push(String::from_str("sn"));
    r.push(String::from_str("givenName"));
    r.push(String::from_str("memberof"));
    r.push(String::from_str("isAdmin"));
    assert(r.deep_view() =~= profile_attributes());
    r
}

/// Why a directory lookup failed. Each kind is kept apart for the server's
/// own diagnostics; callers outside see one generic failure.
#[derive(PartialEq, Eq, Structural, Clone, Copy, Debug)]
pub enum DirectoryError {
    /// The endpoint could not be reached (refused, unresolvable, dropped).
    ConnectionFailed,
    /// Transport security could not be negotiated.
    TlsFailed,
    /// The directory rejected the bind credentials.
    AuthenticationFailed,
    /// The bind succeeded, but no person entry matched the login name.
    IdentityNotFound,
    /// The bind succeeded, but the search itself failed.
    SearchFailed,
    /// The entry lacks an attribute that a user record needs.
    IncompleteRecord,
    /// An event arrived that the session was not waiting for.
    UnexpectedEvent,
}

/// The attribute values of one directory entry, each in the order the
/// directory returned them.
pub struct DirectoryEntry {
    pub uuid: Vec<String>,
    pub email: Vec<String>,
    pub cn: Vec<String>,
    pub sn: Vec<String>,
    pub given_name: Vec<String>,
    pub member_of: Vec<String>,
    pub is_admin: Vec<String>,
}

/// The normalized record of a directory user.
pub struct UfdsUser {
    pub uuid: String,
    pub login: String,
    pub email: String,
    pub name: String,
    pub is_admin: bool,
    pub roles: Vec<String>,
}

/// The first value of an attribute, if it has one.
pub open spec fn first_value(values: Seq<Seq<char>>) -> Option<Seq<char>> {
    if values.len() > 0 {
        Some(values[0])
    } else {
        None
    }
}

/// The first value of an attribute, or empty text.
pub open spec fn first_or_empty(values: Seq<Seq<char>>) -> Seq<char> {
    match first_value(values) {
        Some(v) => v,
        None => Seq::empty(),
    }
}

/// The role that a group-membership value names: the text after its first
/// `cn=`, up to the next `cn=` and then up to the first comma.
pub open spec fn group_role(group_dn: Seq<char>) -> Option<Seq<char>> {
    match after(group_dn, "cn="@) {
        Some(rest) => Some(before(before(rest, "cn="@), ","@)),
        None => None,
    }
}

/// The roles named by the group-membership values, in order.
pub open spec fn roles_of(groups: Seq<Seq<char>>) -> Seq<Seq<char>>
    decreases groups.len(),
{
    if groups.len() == 0 {
        Seq::empty()
    } else {
        let init = roles_of(groups.drop_last());
        match group_role(groups.last()) {
            Some(r) => init.push(r),
            None => init,
        }
    }
}

/// The roles, with `admin` appended for an administrator who lacks it.
pub open spec fn with_admin(roles: Seq<Seq<char>>, is_admin: bool) -> Seq<Seq<char>> {
    if is_admin && !roles.contains("admin"@) {
        roles.push("admin"@)
    } else {
        roles
    }
}

/// The display name: given name and surname joined by a space and trimmed,
/// or the canonical name when both are missing or empty.
pub open spec fn display_name(
    given: Seq<Seq<char>>,
    sn: Seq<Seq<char>>,
    cn: Seq<Seq<char>>,
) -> Option<Seq<char>> {
    let first = first_or_empty(given);
    let last = first_or_empty(sn);
    if first.len() > 0 || last.len() > 0 {
        Some(trim(first + " "@ + last))
    } else {
        first_value(cn)
    }
}

/// Whether the entry's administrator flag is set.
pub open spec fn admin_flag(values: Seq<Seq<char>>) -> bool {
    first_value(values) == Some("true"@)
}

/// The entry has what a user record needs: a non-empty identifier, an
/// email address and a display name.
pub open spec fn entry_complete(e: DirectoryEntry) -> bool {
    &&& first_value(e.uuid.deep_view()) matches Some(id) && id.len() > 0
    &&& first_value(e.email.deep_view()) is Some
    &&& display_name(e.given_name.deep_view(), e.sn.deep_view(), e.cn.deep_view()) is Some
}

/// The record is the normalization of `e` for the login name `username`.
pub open spec fn normalized(u: UfdsUser, username: Seq<char>, e: DirectoryEntry) -> bool {
    &&& u.uuid@ == first_or_empty(e.uuid.deep_view())
    &&& u.login@ == username
    &&& u.email@ == first_or_empty(e.email.deep_view())
    &&& Some(u.name@) == display_name(
        e.given_name.deep_view(),
        e.sn.deep_view(),
        e.cn.deep_view(),
    )
    &&& u.is_admin == admin_flag(e.is_admin.deep_view())
    &&& u.roles.deep_view() == with_admin(roles_of(e.member_of.deep_view()), u.is_admin)
}

/// The first value of an attribute, if it has one.
fn first_of(values: &Vec<String>) -> (r: Option<&str>)
    ensures
        r matches Some(v) ==> first_value(values.deep_view()) == Some(v@),
        r is None ==> first_value(values.deep_view()) is None,
{
    if values.len() > 0 {
        Some(values[0].as_str())
    } else {
        None
    }
}

/// The role that a group-membership value names.
pub fn role_of_group(group_dn: &str) -> (r: Option<String>)
    ensures
        r matches Some(v) ==> group_role(group_dn@) == Some(v@),
        r is None ==> group_role(group_dn@) is None,
{
    match text_after(group_dn, "cn=") {
        Some(rest) => {
            let role = text_before(text_before(rest, "cn="), ",");
            Some(String::from_str(role))
        },
        None => None,
    }
}

/// Whether `roles` holds `role`.
fn holds_role(roles: &Vec<String>, role: &str) -> (r: bool)
    ensures
        r == roles.deep_view().contains(role@),
{
    let mut i: usize = 0;
    while i < roles.len()
        invariant
            i <= roles.len(),
            forall|k: int| 0 <= k < i ==> roles.deep_view()[k] != role@,
        decreases roles.len() - i,
    {
        if same_text(roles[i].as_str(), role) {
            assert(roles.deep_view()[i as int] == role@);
            return true;
        }
        i = i + 1;
    }
    false
}

/// The roles named by the group-membership values, with `admin` added for
/// an administrator.
pub fn derive_roles(groups: &Vec<String>, is_admin: bool) -> (r: Vec<String>)
    ensures
        r.deep_view() == with_admin(roles_of(groups.deep_view()), is_admin),
{
    let mut roles: Vec<String> = Vec::new();
    let mut i: usize = 0;
    while i < groups.len()
        invariant
            i <= groups.len(),
            roles.deep_view() == roles_of(groups.deep_view().subrange(0, i as int)),
        decreases groups.len() - i,
    {
        let ghost prefix = groups.deep_view().subrange(0, i as int + 1);
        assert(prefix.drop_last() =~= groups.deep_view().subrange(0, i as int));
        assert(prefix.last() == groups.deep_view()[i as int]);
        match role_of_group(groups[i].as_str()) {
            Some(role) => {
                roles.push(role);
                assert(roles.deep_view() =~= roles_of(prefix));
            },
            None => {},
        }
        i = i + 1;
    }
    assert(groups.deep_view().subrange(0, groups.len() as int) =~= groups.deep_view());
    if is_admin && !holds_role(&roles, "admin") {
        roles.push(String::from_str("admin"));
        assert(roles.deep_view() =~= with_admin(roles_of(groups.deep_view()), is_admin));
    }
    roles
}

impl UfdsUser {
    /// The user record for the entry that the search for `username` found.
    /// Fails with `IncompleteRecord` when the entry lacks an identifier, an
    /// email address or any name.
    pub fn from_entry(username: &str, e: &DirectoryEntry) -> (r: Result<UfdsUser, DirectoryError>)
        ensures
            r matches Ok(u) ==> entry_complete(*e) && normalized(u, username@, *e),
            r is Err ==> !entry_complete(*e) && r == Err::<UfdsUser, DirectoryError>(
                DirectoryError::IncompleteRecord,
            ),
    {
        let uuid = match first_of(&e.uuid) {
            Some(v) => v,
            None => return Err(DirectoryError::IncompleteRecord),
        };
        if uuid.unicode_len() == 0 {
            return Err(DirectoryError::IncompleteRecord);
        }
        let email = match first_of(&e.email) {
            Some(v) => v,
            None => return Err(DirectoryError::IncompleteRecord),
        };
        let first = match first_of(&e.given_name) {
            Some(v) => v,
            None => "",
        };
        let last = match first_of(&e.sn) {
            Some(v) => v,
            None => "",
        };
        proof {
            reveal_strlit("");
        }
        let name = if first.unicode_len() > 0 || last.unicode_len() > 0 {
            let joined = join3(first, " ", last);
            String::from_str(trim_text(joined.as_str()))
        } else {
            match first_of(&e.cn) {
                Some(v) => String::from_str(v),
                None => return Err(DirectoryError::IncompleteRecord),
            }
        };
        let is_admin = match first_of(&e.is_admin) {
            Some(v) => same_text(v, "true"),
            None => false,
        };
        let roles = derive_roles(&e.member_of, is_admin);
        Ok(
            UfdsUser {
                uuid: String::from_str(uuid),
                login: String::from_str(username),
                email: String::from_str(email),
                name,
                is_admin,
                roles,
            },
        )
    }
}

/// What the driver of a directory session is asked to do next.
pub enum DirectoryStep {
    /// Open a connection; `secure` asks for transport security, checked
    /// against trusted roots when `verify_certificates` is set.
    Connect { url: String, secure: bool, verify_certificates: bool },
    /// Bind as `dn` with `password`.
    Bind { dn: String, password: String },
    /// Search the subtree under `base` with `filter` for `attributes`.
    Search { base: String, filter: String, attributes: Vec<String> },
    /// The lookup is over.
    Finished(Result<UfdsUser, DirectoryError>),
}

/// What the driver observed after carrying out a step.
pub enum DirectoryEvent {
    Connected,
    /// The endpoint could not be reached.
    ConnectFailed,
    /// Transport security could not be negotiated.
    TlsFailed,
    /// The connection broke or timed out while waiting for an answer.
    ConnectionLost,
    /// The directory answered the bind with this result code.
    BindAnswered(u32),
    /// The directory answered the search with this result code and these
    /// entries, in order.
    SearchAnswered(u32, Vec<DirectoryEntry>),
}

/// The result code of a successful directory operation.
pub open spec fn success_code() -> u32 {
    0
}

/// Where a directory session stands.
#[derive(PartialEq, Eq, Structural, Clone, Copy, Debug)]
pub enum SessionPhase {
    Connecting,
    Binding,
    Searching,
    Done,
}

/// One bind-and-fetch lookup of a login name: a single connection, a bind,
/// then a profile search. No step is retried.
pub struct DirectorySession {
    pub username: String,
    pub password: String,
    pub dn: String,
    pub base: String,
    pub filter: String,
    pub phase: SessionPhase,
}

/// The outcome carried by a finished step is the user record of `e`, or the
/// refusal of an incomplete entry.
pub open spec fn record_outcome(
    r: Result<UfdsUser, DirectoryError>,
    username: Seq<char>,
    e: DirectoryEntry,
) -> bool {
    &&& r is Ok ==> entry_complete(e) && normalized(r->Ok_0, username, e)
    &&& r is Err ==> !entry_complete(e) && r->Err_0 == DirectoryError::IncompleteRecord
}

/// The step is `Finished` with the error `err`.
pub open spec fn finished_with(step: DirectoryStep, err: DirectoryError) -> bool {
    step matches DirectoryStep::Finished(r) && r is Err && r->Err_0 == err
}

/// The session answers `event` in `pre` with `step`, moving to `post`.
pub open spec fn advances(
    pre: DirectorySession,
    event: DirectoryEvent,
    post: DirectorySession,
    step: DirectoryStep,
) -> bool {
    &&& post.username == pre.username
    &&& post.password == pre.password
    &&& post.dn == pre.dn
    &&& post.base == pre.base
    &&& post.filter == pre.filter
    &&& match (pre.phase, event) {
        (SessionPhase::Done, _) => post.phase == SessionPhase::Done && finished_with(
            step,
            DirectoryError::UnexpectedEvent,
        ),
        (_, DirectoryEvent::ConnectionLost) => {
            post.phase == SessionPhase::Done && finished_with(
                step,
                DirectoryError::ConnectionFailed,
            )
        },
        (SessionPhase::Connecting, DirectoryEvent::Connected) => {
            &&& post.phase == SessionPhase::Binding
            &&& step matches DirectoryStep::Bind { dn, password } && dn@ == pre.dn@
                && password@ == pre.password@
        },
        (SessionPhase::Connecting, DirectoryEvent::ConnectFailed) => {
            post.phase == SessionPhase::Done && finished_with(
                step,
                DirectoryError::ConnectionFailed,
            )
        },
        (SessionPhase::Connecting, DirectoryEvent::TlsFailed) => {
            post.phase == SessionPhase::Done && finished_with(step, DirectoryError::TlsFailed)
        },
        (SessionPhase::Binding, DirectoryEvent::BindAnswered(code)) => if code == success_code() {
            &&& post.phase == SessionPhase::Searching
            &&& step matches DirectoryStep::Search { base, filter, attributes } && base@
                == pre.base@ && filter@ == pre.filter@ && attributes.deep_view()
                == profile_attributes()
        } else {
            post.phase == SessionPhase::Done && finished_with(
                step,
                DirectoryError::AuthenticationFailed,
            )
        },
        (SessionPhase::Searching, DirectoryEvent::SearchAnswered(code, entries)) => {
            &&& post.phase == SessionPhase::Done
            &&& code != success_code() ==> finished_with(step, DirectoryError::SearchFailed)
            &&& code == success_code() && entries.len() == 0 ==> finished_with(
                step,
                DirectoryError::IdentityNotFound,
            )
            &&& code == success_code() && entries.len() > 0 ==> (step matches DirectoryStep::Finished(r)
                && record_outcome(r, pre.username@, entries[0]))
        },
        _ => post.phase == SessionPhase::Done && finished_with(
            step,
            DirectoryError::UnexpectedEvent,
        ),
    }
}

/// `session` and `step` open a lookup of `username` with `password`: the
/// session waits for its connection, and the step asks for it.
pub open spec fn started(
    settings: DirectorySettings,
    username: Seq<char>,
    password: Seq<char>,
    session: DirectorySession,
    step: DirectoryStep,
) -> bool {
    &&& session.username@ == username
    &&& session.password@ == password
    &&& session.dn@ == user_dn(settings.user_dn_format@, username)
    &&& session.base@ == settings.base_dn@
    &&& session.filter@ == search_filter(username)
    &&& session.phase == SessionPhase::Connecting
    &&& step matches DirectoryStep::Connect { url, secure, verify_certificates } && url@
        == dial_url(settings.url@) && secure == is_prefix("ldaps://"@, dial_url(settings.url@))
        && verify_certificates == settings.verify_certificates
}

impl DirectorySession {
    /// Opens a lookup of `username` with `password`, and asks for the
    /// connection that starts it.
    pub fn start(settings: &DirectorySettings, username: &str, password: &str) -> (r: (
        DirectorySession,
        DirectoryStep,
    ))
        ensures
            started(*settings, username@, password@, r.0, r.1),
    {
        let url = dial_url_for(settings.url.as_str());
        let secure = has_prefix(url.as_str(), "ldaps://");
        let session = DirectorySession {
            username: String::from_str(username),
            password: String::from_str(password),
            dn: settings.user_dn(username),
            base: settings.base_dn.clone(),
            filter: search_filter_for(username),
            phase: SessionPhase::Connecting,
        };
        let step = DirectoryStep::Connect {
            url,
            secure,
            verify_certificates: settings.verify_certificates,
        };
        (session, step)
    }

    /// Takes in what the driver observed and says what to do next.
    pub fn advance(&mut self, event: DirectoryEvent) -> (step: DirectoryStep)
        ensures
            advances(*old(self), event, *final(self), step),
    {
        let phase = self.phase;
        self.phase = SessionPhase::Done;
        match (phase, event) {
            (SessionPhase::Done, _) => DirectoryStep::Finished(Err(DirectoryError::UnexpectedEvent)),
            (_, DirectoryEvent::ConnectionLost) => {
                DirectoryStep::Finished(Err(DirectoryError::ConnectionFailed))
            },
            (SessionPhase::Connecting, DirectoryEvent::Connected) => {
                self.phase = SessionPhase::Binding;
                DirectoryStep::Bind { dn: self.dn.clone(), password: self.password.clone() }
            },
            (SessionPhase::Connecting, DirectoryEvent::ConnectFailed) => {
                DirectoryStep::Finished(Err(DirectoryError::ConnectionFailed))
            },
            (SessionPhase::Connecting, DirectoryEvent::TlsFailed) => {
                DirectoryStep::Finished(Err(DirectoryError::TlsFailed))
            },
            (SessionPhase::Binding, DirectoryEvent::BindAnswered(code)) => {
                if code == 0 {
                    self.phase = SessionPhase::Searching;
                    DirectoryStep::Search {
                        base: self.base.clone(),
                        filter: self.filter.clone(),
                        attributes: profile_attribute_names(),
                    }
                } else {
                    DirectoryStep::Finished(Err(DirectoryError::AuthenticationFailed))
                }
            },
            (SessionPhase::Searching, DirectoryEvent::SearchAnswered(code, entries)) => {
                if code != 0 {
                    DirectoryStep::Finished(Err(DirectoryError::SearchFailed))
                } else if entries.len() == 0 {
                    DirectoryStep::Finished(Err(DirectoryError::IdentityNotFound))
                } else {
                    DirectoryStep::Finished(UfdsUser::from_entry(self.username.as_str(), &entries[0]))
                }
            },
            _ => DirectoryStep::Finished(Err(DirectoryError::UnexpectedEvent)),
        }
    }
}

} // verus!

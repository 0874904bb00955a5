//! Gateway configuration and the switches read from the environment.

use vstd::prelude::*;

use crate::text::same_text;

verus! {

/// Process-wide configuration, fixed at startup.
pub struct Config {
    pub host: String,
    pub port: u16,
    pub database_url: String,
    /// Secret that session tokens are signed with.
    pub jwt_secret: String,
    /// Lifetime of a session token, in hours.
    pub jwt_expiration: i64,
    pub log_level: String,
    pub triton_datacenter: String,
    pub vmapi_url: String,
    pub cnapi_url: String,
    pub napi_url: String,
    pub imgapi_url: String,
    pub amon_url: String,
    /// Directory endpoint.
    pub ufds_url: String,
    pub sapi_url: String,
    pub fwapi_url: String,
    pub papi_url: String,
    pub mahi_url: String,
    /// Check the directory's certificate chain; on unless switched off.
    pub ldap_verify_certificates: bool,
    /// Accept the fixed development accounts; off unless switched on.
    pub development_accounts: bool,
    /// How long a cached directory record is served, in seconds.
    pub directory_cache_ttl: i64,
}

/// The lower-case form of a text.
pub uninterp spec fn lower_of(s: Seq<char>) -> Seq<char>;

/// Relies on `str::to_lowercase`, whose result depends on the text alone.
#[verifier::external_body]
fn lowercase(s: &str) -> (r: String)
    ensures
        r@ == lower_of(s@),
{
    s.to_lowercase()
}

/// A switch that is on unless its lower-cased value is `false`.
pub open spec fn on_unless_false(lowered: Option<Seq<char>>) -> bool {
    match lowered {
        Some(v) => v != "false"@,
        None => true,
    }
}

/// A switch that is off unless its lower-cased value is `true`.
pub open spec fn off_unless_true(lowered: Option<Seq<char>>) -> bool {
    match lowered {
        Some(v) => v == "true"@,
        None => false,
    }
}

/// The view of an optional text.
pub open spec fn opt_view(v: Option<&str>) -> Option<Seq<char>> {
    match v {
        Some(s) => Some(s@),
        None => None,
    }
}

/// The lower-cased view of an optional text.
pub open spec fn lowered_view(v: Option<&str>) -> Option<Seq<char>> {
    match v {
        Some(s) => Some(lower_of(s@)),
        None => None,
    }
}

/// A default-on switch, given its lower-cased value if it is set.
pub fn switch_on_unless_false(lowered: Option<&str>) -> (r: bool)
    ensures
        r == on_unless_false(opt_view(lowered)),
{
    match lowered {
        Some(v) => !same_text(v, "false"),
        None => true,
    }
}

/// A default-off switch, given its lower-cased value if it is set.
pub fn switch_off_unless_true(lowered: Option<&str>) -> (r: bool)
    ensures
        r == off_unless_true(opt_view(lowered)),
{
    match lowered {
        Some(v) => same_text(v, "true"),
        None => false,
    }
}

/// Whether directory certificates are checked, given the setting's value
/// if it is set: on unless the value is `false` in any case.
pub fn certificate_check(value: Option<&str>) -> (r: bool)
    ensures
        r == on_unless_false(lowered_view(value)),
{
    match value {
        Some(v) => {
            let low = lowercase(v);
            switch_on_unless_false(Some(low.as_str()))
        },
        None => switch_on_unless_false(None),
    }
}

/// Whether the development accounts are accepted, given the setting's value
/// if it is set: off unless the value is `true` in any case.
pub fn development_accounts_enabled(value: Option<&str>) -> (r: bool)
    ensures
        r == off_unless_true(lowered_view(value)),
{
    match value {
        Some(v) => {
            let low = lowercase(v);
            switch_off_unless_true(Some(low.as_str()))
        },
        None => switch_off_unless_true(None),
    }
}

} // verus!

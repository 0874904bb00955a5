use triton_gateway::auth::{authenticate, conclude, AuthError, DirectoryCache, LoginStep};
use triton_gateway::config::{certificate_check, development_accounts_enabled};
use triton_gateway::directory::{
    DirectoryError, DirectoryEvent, DirectorySession, DirectorySettings, DirectoryStep, UfdsUser,
};
use triton_gateway::token::{issue_token, open_token, Claims};

fn settings() -> DirectorySettings {
    DirectorySettings::from_url("ldaps://ufds.example.com:636/o=smartdc", true)
}

fn record(uuid: &str, name: &str) -> UfdsUser {
    UfdsUser {
        uuid: uuid.to_string(),
        login: "jane".to_string(),
        email: "jane@example.com".to_string(),
        name: name.to_string(),
        is_admin: false,
        roles: vec!["operators".to_string()],
    }
}

#[test]
fn development_admin_resolves_without_directory() {
    match authenticate(&settings(), "admin", "admin", true) {
        LoginStep::Resolved(u) => {
            assert_eq!(u.id, "00000000-0000-0000-0000-000000000000");
            assert_eq!(u.name, "Administrator");
            assert_eq!(u.email, "admin@example.com");
            assert_eq!(u.roles, vec!["admin".to_string()]);
        }
        LoginStep::Directory(..) => panic!("the development account needs no directory"),
    }
}

#[test]
fn development_operator_resolves() {
    match authenticate(&settings(), "operator", "operator", true) {
        LoginStep::Resolved(u) => {
            assert_eq!(u.id, "11111111-1111-1111-1111-111111111111");
            assert_eq!(u.name, "System Operator");
            assert_eq!(u.roles, vec!["operator".to_string()]);
        }
        LoginStep::Directory(..) => panic!("the development account needs no directory"),
    }
}

#[test]
fn development_accounts_off_go_to_directory() {
    match authenticate(&settings(), "admin", "admin", false) {
        LoginStep::Directory(s, DirectoryStep::Connect { .. }) => {
            assert_eq!(s.dn, "cn=admin,ou=users,o=smartdc");
        }
        _ => panic!("expected a directory lookup"),
    }
}

#[test]
fn wrong_password_goes_to_directory() {
    assert!(matches!(authenticate(&settings(), "admin", "nope", true), LoginStep::Directory(..)));
}

#[test]
fn login_scenario_admin_token() {
    let user = match authenticate(&settings(), "admin", "admin", true) {
        LoginStep::Resolved(u) => u,
        LoginStep::Directory(..) => panic!("expected the development account"),
    };
    let claims = Claims::issue_now(&user, 60).unwrap();
    let token = issue_token(&claims, "jwt-secret").unwrap();
    let opened = open_token(&token, "jwt-secret").unwrap();
    let value: serde_json::Value = serde_json::from_slice(&opened).unwrap();
    assert_eq!(value["sub"], "00000000-0000-0000-0000-000000000000");
    assert_eq!(value["roles"][0], "admin");
    assert_eq!(value["roles"].as_array().unwrap().len(), 1);
}

#[test]
fn bind_failure_and_missing_identity_look_alike() {
    let mut cache = DirectoryCache::new(900);
    let a = conclude(Err(DirectoryError::AuthenticationFailed), &mut cache);
    let b = conclude(Err(DirectoryError::IdentityNotFound), &mut cache);
    let (a, b) = match (a, b) {
        (Err(a), Err(b)) => (a, b),
        _ => panic!("both logins must fail"),
    };
    assert_ne!(a, b);
    assert_eq!(a.cause, DirectoryError::AuthenticationFailed);
    assert_eq!(b.cause, DirectoryError::IdentityNotFound);
    assert_eq!(a.status_code(), b.status_code());
    assert_eq!(a.client_message(), b.client_message());
    assert_eq!(a.client_message(), "Invalid credentials");
    assert_ne!(a.log_detail(), b.log_detail());
    assert!(cache.entries.is_empty());
}

#[test]
fn unreachable_directory_is_401() {
    let (mut s, _) = DirectorySession::start(&settings(), "jane", "pw");
    let outcome = match s.advance(DirectoryEvent::ConnectFailed) {
        DirectoryStep::Finished(r) => r,
        _ => panic!("expected the lookup to end"),
    };
    let mut cache = DirectoryCache::new(900);
    let err: AuthError = match conclude(outcome, &mut cache) {
        Err(e) => e,
        Ok(_) => panic!("expected a failed login"),
    };
    assert_eq!(err.cause, DirectoryError::ConnectionFailed);
    assert_eq!(err.status_code(), 401);
    assert_eq!(err.client_message(), "Invalid credentials");
}

#[test]
fn successful_lookup_is_cached() {
    let mut cache = DirectoryCache::new(900);
    let info = match conclude(Ok(record("u-1", "Jane Doe")), &mut cache) {
        Ok(i) => i,
        Err(_) => panic!("expected a user"),
    };
    assert_eq!(info.id, "u-1");
    assert_eq!(info.name, "Jane Doe");
    assert_eq!(info.email, "jane@example.com");
    assert_eq!(info.roles, vec!["operators".to_string()]);
    let now = cache.stored_at[0];
    assert_eq!(cache.get("u-1", now).unwrap().name, "Jane Doe");
    assert!(cache.get("u-2", now).is_none());
}

#[test]
fn cache_overwrites_same_identity() {
    let mut cache = DirectoryCache::new(900);
    cache.store(record("u-1", "First"), 100);
    cache.store(record("u-2", "Other"), 200);
    cache.store(record("u-1", "Second"), 300);
    assert_eq!(cache.entries.len(), 2);
    assert_eq!(cache.get("u-1", 300).unwrap().name, "Second");
    assert_eq!(cache.get("u-2", 300).unwrap().name, "Other");
    assert!(cache.is_well_formed());
}

#[test]
fn cache_records_expire() {
    let mut cache = DirectoryCache::new(900);
    cache.store(record("u-1", "Jane"), 1000);
    assert!(cache.get("u-1", 1900).is_some());
    assert!(cache.get("u-1", 1901).is_none());
    cache.store(record("u-1", "Jane again"), 1901);
    assert_eq!(cache.get("u-1", 2000).unwrap().name, "Jane again");
}

#[test]
fn certificate_check_switch() {
    assert!(certificate_check(None));
    assert!(!certificate_check(Some("false")));
    assert!(!certificate_check(Some("FALSE")));
    assert!(certificate_check(Some("no")));
    assert!(certificate_check(Some("true")));
}

#[test]
fn development_accounts_switch() {
    assert!(!development_accounts_enabled(None));
    assert!(development_accounts_enabled(Some("true")));
    assert!(development_accounts_enabled(Some("True")));
    assert!(!development_accounts_enabled(Some("yes")));
}

#[test]
fn conclude_at_records_the_time() {
    let mut cache = DirectoryCache::new(60);
    let info = match triton_gateway::auth::conclude_at(Ok(record("u-9", "Nine")), &mut cache, 5000) {
        Ok(i) => i,
        Err(_) => panic!("expected a user"),
    };
    assert_eq!(info.id, "u-9");
    assert_eq!(cache.stored_at, vec![5000]);
    assert!(cache.get("u-9", 5060).is_some());
    assert!(cache.get("u-9", 5061).is_none());
}

#[test]
fn login_response_carries_signed_claims() {
    let user = match authenticate(&settings(), "admin", "admin", true) {
        LoginStep::Resolved(u) => u,
        LoginStep::Directory(..) => panic!("expected the development account"),
    };
    let resp = triton_gateway::auth::login_response_at(user, "jwt-secret", 2, 1_700_000_000).unwrap();
    assert_eq!(resp.user.id, "00000000-0000-0000-0000-000000000000");
    assert_eq!(resp.user.roles, vec!["admin".to_string()]);
    let payload = open_token(&resp.token, "jwt-secret").unwrap();
    let v: serde_json::Value = serde_json::from_slice(&payload).unwrap();
    assert_eq!(v["sub"], "00000000-0000-0000-0000-000000000000");
    assert_eq!(v["iat"], 1_700_000_000i64);
    assert_eq!(v["exp"], 1_700_000_000i64 + 7200);
}

#[test]
fn login_response_rejects_bad_lifetime() {
    let user = match authenticate(&settings(), "admin", "admin", true) {
        LoginStep::Resolved(u) => u,
        LoginStep::Directory(..) => panic!("expected the development account"),
    };
    assert!(matches!(
        triton_gateway::auth::login_response(user, "s", 0),
        Err(triton_gateway::token::TokenError::InvalidLifetime)
    ));
}

#[test]
fn clock_reads_after_epoch() {
    let t = triton_gateway::clock::current_time().unwrap();
    assert!(t > 1_600_000_000);
}

use triton_gateway::directory::{
    dial_url_for, derive_roles, profile_attribute_names, role_of_group, search_filter_for,
    DirectoryEntry, DirectoryError, DirectoryEvent, DirectorySession, DirectorySettings,
    DirectoryStep, SessionPhase, UfdsUser,
};

fn strings(v: &[&str]) -> Vec<String> {
    v.iter().map(|s| s.to_string()).collect()
}

fn entry() -> DirectoryEntry {
    DirectoryEntry {
        uuid: strings(&["930896af-bf8c-48d4-885c-6573a94b1853"]),
        email: strings(&["jane@example.com"]),
        cn: strings(&["jane"]),
        sn: strings(&["Doe"]),
        given_name: strings(&["Jane"]),
        member_of: strings(&[
            "cn=operators,ou=groups,o=smartdc",
            "ou=people,o=smartdc",
            "cn=readers,ou=groups,o=smartdc",
        ]),
        is_admin: strings(&["false"]),
    }
}

fn settings() -> DirectorySettings {
    DirectorySettings::from_url("ldaps://ufds.example.com:636/o=smartdc", true)
}

#[test]
fn settings_from_secure_url() {
    let s = DirectorySettings::from_url("ldaps://ufds.example.com:636/o=smartdc", false);
    assert_eq!(s.url, "ldaps://ufds.example.com:636/o=smartdc");
    assert_eq!(s.base_dn, "o=smartdc");
    assert_eq!(s.user_dn_format, "cn={},ou=users,o=smartdc");
    assert!(!s.verify_certificates);
}

#[test]
fn settings_default_base() {
    let s = DirectorySettings::from_url("ldap://10.0.0.5:389", true);
    assert_eq!(s.url, "ldap://10.0.0.5:389");
    assert_eq!(s.base_dn, "o=smartdc");
    assert_eq!(s.user_dn_format, "cn={},ou=users,o=smartdc");
}

#[test]
fn settings_nested_base() {
    let s = DirectorySettings::from_url("ldap://host/ou=a/o=b", true);
    assert_eq!(s.base_dn, "ou=a/o=b");
}

#[test]
fn settings_from_http_url() {
    let s = DirectorySettings::from_url("http://ufds.local:3000/auth", true);
    assert_eq!(s.url, "ldaps://ufds.local:3000:636");
    assert_eq!(s.base_dn, "o=smartdc");
    let s = DirectorySettings::from_url("https://ufds.local/x", true);
    assert_eq!(s.url, "ldaps://ufds.local:636");
}

#[test]
fn user_dn_and_filter() {
    let s = settings();
    assert_eq!(s.user_dn("jane"), "cn=jane,ou=users,o=smartdc");
    assert_eq!(search_filter_for("jane"), "(&(objectClass=sdcPerson)(cn=jane))");
}

#[test]
fn dial_url_adds_scheme() {
    assert_eq!(dial_url_for("host:389"), "ldap://host:389");
    assert_eq!(dial_url_for("ldaps://host:636"), "ldaps://host:636");
}

#[test]
fn profile_attributes_listed() {
    assert_eq!(
        profile_attribute_names(),
        strings(&["uuid", "email", "cn", "sn", "givenName", "memberof", "isAdmin"])
    );
}

#[test]
fn role_from_group_dn() {
    assert_eq!(role_of_group("cn=operators,ou=groups,o=smartdc"), Some("operators".to_string()));
    assert_eq!(role_of_group("cn=solo"), Some("solo".to_string()));
    assert_eq!(role_of_group("ou=groups,o=smartdc"), None);
    assert_eq!(role_of_group("xcn=odd,o=x"), Some("odd".to_string()));
}

#[test]
fn roles_with_admin_flag() {
    let groups = strings(&["cn=operators,ou=groups", "o=none", "cn=admin,ou=groups"]);
    assert_eq!(derive_roles(&groups, false), strings(&["operators", "admin"]));
    assert_eq!(derive_roles(&groups, true), strings(&["operators", "admin"]));
    let groups = strings(&["cn=operators,ou=groups"]);
    assert_eq!(derive_roles(&groups, true), strings(&["operators", "admin"]));
    assert_eq!(derive_roles(&Vec::new(), false), Vec::<String>::new());
}

#[test]
fn normalizes_entry() {
    let u = UfdsUser::from_entry("jane", &entry()).unwrap();
    assert_eq!(u.uuid, "930896af-bf8c-48d4-885c-6573a94b1853");
    assert_eq!(u.login, "jane");
    assert_eq!(u.email, "jane@example.com");
    assert_eq!(u.name, "Jane Doe");
    assert!(!u.is_admin);
    assert_eq!(u.roles, strings(&["operators", "readers"]));
}

#[test]
fn admin_flag_adds_role() {
    let mut e = entry();
    e.is_admin = strings(&["true"]);
    let u = UfdsUser::from_entry("jane", &e).unwrap();
    assert!(u.is_admin);
    assert_eq!(u.roles, strings(&["operators", "readers", "admin"]));
}

#[test]
fn display_name_fallbacks() {
    let mut e = entry();
    e.sn = Vec::new();
    e.given_name = strings(&["  Jane "]);
    assert_eq!(UfdsUser::from_entry("jane", &e).unwrap().name, "Jane");
    e.given_name = Vec::new();
    assert_eq!(UfdsUser::from_entry("jane", &e).unwrap().name, "jane");
    e.given_name = strings(&[""]);
    e.sn = strings(&[""]);
    assert_eq!(UfdsUser::from_entry("jane", &e).unwrap().name, "jane");
}

#[test]
fn incomplete_entries_are_refused() {
    let mut e = entry();
    e.uuid = Vec::new();
    assert!(matches!(UfdsUser::from_entry("jane", &e), Err(DirectoryError::IncompleteRecord)));
    let mut e = entry();
    e.uuid = strings(&[""]);
    assert!(matches!(UfdsUser::from_entry("jane", &e), Err(DirectoryError::IncompleteRecord)));
    let mut e = entry();
    e.email = Vec::new();
    assert!(matches!(UfdsUser::from_entry("jane", &e), Err(DirectoryError::IncompleteRecord)));
    let mut e = entry();
    e.given_name = Vec::new();
    e.sn = Vec::new();
    e.cn = Vec::new();
    assert!(matches!(UfdsUser::from_entry("jane", &e), Err(DirectoryError::IncompleteRecord)));
}

#[test]
fn session_happy_path() {
    let (mut s, step) = DirectorySession::start(&settings(), "jane", "pw");
    match step {
        DirectoryStep::Connect { url, secure, verify_certificates } => {
            assert_eq!(url, "ldaps://ufds.example.com:636/o=smartdc");
            assert!(secure);
            assert!(verify_certificates);
        }
        _ => panic!("expected a connection step"),
    }
    match s.advance(DirectoryEvent::Connected) {
        DirectoryStep::Bind { dn, password } => {
            assert_eq!(dn, "cn=jane,ou=users,o=smartdc");
            assert_eq!(password, "pw");
        }
        _ => panic!("expected a bind step"),
    }
    match s.advance(DirectoryEvent::BindAnswered(0)) {
        DirectoryStep::Search { base, filter, attributes } => {
            assert_eq!(base, "o=smartdc");
            assert_eq!(filter, "(&(objectClass=sdcPerson)(cn=jane))");
            assert_eq!(attributes.len(), 7);
        }
        _ => panic!("expected a search step"),
    }
    match s.advance(DirectoryEvent::SearchAnswered(0, vec![entry()])) {
        DirectoryStep::Finished(Ok(u)) => assert_eq!(u.name, "Jane Doe"),
        _ => panic!("expected a record"),
    }
    assert_eq!(s.phase, SessionPhase::Done);
}

#[test]
fn plain_transport_is_not_secure() {
    let st = DirectorySettings::from_url("ldap://10.0.0.5:389", true);
    let (_, step) = DirectorySession::start(&st, "jane", "pw");
    assert!(matches!(step, DirectoryStep::Connect { secure: false, .. }));
}

fn finish(events: Vec<DirectoryEvent>) -> DirectoryStep {
    let (mut s, _) = DirectorySession::start(&settings(), "jane", "pw");
    let mut last = None;
    for e in events {
        last = Some(s.advance(e));
    }
    last.unwrap()
}

fn error_of(step: DirectoryStep) -> DirectoryError {
    match step {
        DirectoryStep::Finished(Err(e)) => e,
        _ => panic!("expected a failure"),
    }
}

#[test]
fn session_failures() {
    assert_eq!(error_of(finish(vec![DirectoryEvent::ConnectFailed])), DirectoryError::ConnectionFailed);
    assert_eq!(error_of(finish(vec![DirectoryEvent::TlsFailed])), DirectoryError::TlsFailed);
    assert_eq!(
        error_of(finish(vec![DirectoryEvent::Connected, DirectoryEvent::BindAnswered(49)])),
        DirectoryError::AuthenticationFailed
    );
    assert_eq!(
        error_of(finish(vec![
            DirectoryEvent::Connected,
            DirectoryEvent::BindAnswered(0),
            DirectoryEvent::SearchAnswered(0, Vec::new()),
        ])),
        DirectoryError::IdentityNotFound
    );
    assert_eq!(
        error_of(finish(vec![
            DirectoryEvent::Connected,
            DirectoryEvent::BindAnswered(0),
            DirectoryEvent::SearchAnswered(32, vec![entry()]),
        ])),
        DirectoryError::SearchFailed
    );
    assert_eq!(error_of(finish(vec![DirectoryEvent::BindAnswered(0)])), DirectoryError::UnexpectedEvent);
    assert_eq!(
        error_of(finish(vec![DirectoryEvent::Connected, DirectoryEvent::ConnectionLost])),
        DirectoryError::ConnectionFailed
    );
    assert_eq!(
        error_of(finish(vec![
            DirectoryEvent::Connected,
            DirectoryEvent::BindAnswered(0),
            DirectoryEvent::ConnectionLost,
        ])),
        DirectoryError::ConnectionFailed
    );
    assert_eq!(
        error_of(finish(vec![DirectoryEvent::TlsFailed, DirectoryEvent::ConnectionLost])),
        DirectoryError::UnexpectedEvent
    );
    assert_eq!(
        error_of(finish(vec![DirectoryEvent::ConnectFailed, DirectoryEvent::Connected])),
        DirectoryError::UnexpectedEvent
    );
}

use triton_gateway::auth::UserInfo;
use triton_gateway::guard::{
    decide, user_with_id, AuthMiddleware, AuthorizationHeader, Rejection, RequestStep, Verdict,
};
use triton_gateway::token::{encode_claims, issue_token, sign_token, Claims, TokenError};

fn guard() -> AuthMiddleware {
    AuthMiddleware::new("secret".to_string())
}

fn claims(sub: &str, iat: i64) -> Claims {
    let u = UserInfo {
        id: sub.to_string(),
        name: "Jane".to_string(),
        email: "jane@example.com".to_string(),
        roles: vec!["operators".to_string()],
    };
    Claims::issue(&u, iat, 1).unwrap()
}

fn rejection(step: RequestStep) -> Rejection {
    match step {
        RequestStep::Reject(r) => r,
        _ => panic!("expected a rejection"),
    }
}

#[test]
fn preflight_passes_without_header() {
    assert!(matches!(guard().inspect(true, &AuthorizationHeader::Absent), RequestStep::Pass));
    let h = AuthorizationHeader::Text("Basic abc".to_string());
    assert!(matches!(guard().inspect(true, &h), RequestStep::Pass));
}

#[test]
fn missing_header_rejected() {
    let r = rejection(guard().inspect(false, &AuthorizationHeader::Absent));
    assert_eq!(r, Rejection::MissingHeader);
    assert_eq!(r.status_code(), 401);
    assert_eq!(r.message(), "Missing authorization header");
}

#[test]
fn unreadable_header_rejected() {
    let r = rejection(guard().inspect(false, &AuthorizationHeader::Unreadable));
    assert_eq!(r, Rejection::InvalidHeader);
    assert_eq!(r.message(), "Invalid authorization header");
}

#[test]
fn non_bearer_header_rejected() {
    let h = AuthorizationHeader::Text("Basic dXNlcjpwdw==".to_string());
    let r = rejection(guard().inspect(false, &h));
    assert_eq!(r, Rejection::InvalidFormat);
    assert_eq!(r.message(), "Invalid authorization header format");
    let h = AuthorizationHeader::Text("bearer abc".to_string());
    assert_eq!(rejection(guard().inspect(false, &h)), Rejection::InvalidFormat);
}

#[test]
fn empty_and_garbage_bearer_tokens_rejected() {
    for text in ["Bearer ", "Bearer garbage", "Bearer a.b.c"] {
        let h = AuthorizationHeader::Text(text.to_string());
        let token = match guard().inspect(false, &h) {
            RequestStep::Verify(t) => t,
            _ => panic!("expected a token to check"),
        };
        assert_eq!(token, &text[7..]);
        let e = guard().open(&token).unwrap_err();
        let r = match decide(Err(e)) {
            Verdict::Rejected(r) => r,
            Verdict::Allowed(_) => panic!("a bad token must not pass"),
        };
        assert_eq!(r.status_code(), 401);
        assert!(r.message().starts_with("Invalid token: "));
    }
}

#[test]
fn valid_token_is_allowed() {
    let token = sign_token(b"{}", "secret");
    let h = AuthorizationHeader::Text(format!("Bearer {}", token));
    let t = match guard().inspect(false, &h) {
        RequestStep::Verify(t) => t,
        _ => panic!("expected a token to check"),
    };
    assert_eq!(guard().open(&t), Ok(b"{}".to_vec()));
    let c = claims("930896af-bf8c-48d4-885c-6573a94b1853", 1000);
    let token = issue_token(&c, "secret").unwrap();
    let payload = guard().open(&token).unwrap();
    match guard().decide_at(&payload, c, 1000) {
        Verdict::Allowed(u) => {
            assert_eq!(u.id, 0x930896af_bf8c_48d4_885c_6573a94b1853);
            assert_eq!(u.name, "Jane");
            assert_eq!(u.roles, vec!["operators".to_string()]);
        }
        Verdict::Rejected(_) => panic!("expected the request to pass"),
    }
}

#[test]
fn expired_token_rejected_with_reason() {
    let c = claims("930896af-bf8c-48d4-885c-6573a94b1853", 1000);
    let payload = encode_claims(&c).into_bytes();
    match guard().decide_at(&payload, c, 1000 + 3601) {
        Verdict::Rejected(r) => {
            assert_eq!(r, Rejection::InvalidToken(TokenError::Expired));
            assert_eq!(r.status_code(), 401);
            assert_eq!(r.message(), "Invalid token: token expired");
        }
        Verdict::Allowed(_) => panic!("an expired token must not pass"),
    }
}

#[test]
fn non_uuid_subject_gives_nil_identity() {
    let c = claims("not-a-uuid", 1000);
    let payload = encode_claims(&c).into_bytes();
    match guard().decide_at(&payload, c, 1000) {
        Verdict::Allowed(u) => assert_eq!(u.id, 0),
        Verdict::Rejected(_) => panic!("expected the request to pass"),
    }
    let u = user_with_id(claims("x", 0), Some(42));
    assert_eq!(u.id, 42);
    let u = user_with_id(claims("x", 0), None);
    assert_eq!(u.id, 0);
}

#[test]
fn claims_not_matching_payload_rejected() {
    let c = claims("930896af-bf8c-48d4-885c-6573a94b1853", 1000);
    match guard().decide_at(b"{}", c, 1000) {
        Verdict::Rejected(r) => assert_eq!(r, Rejection::InvalidToken(TokenError::Malformed)),
        Verdict::Allowed(_) => panic!("claims must match the signed payload"),
    }
}

#[test]
fn rejection_messages() {
    assert_eq!(Rejection::InvalidToken(TokenError::Malformed).message(), "Invalid token: malformed token");
    assert_eq!(
        Rejection::InvalidToken(TokenError::InvalidSignature).message(),
        "Invalid token: invalid signature"
    );
}


use jwt_auth_delegate::claims::derive_identity;
use jwt_auth_delegate::delegate::{
    conclude_auth, locate_credential, remote_accepts, AuthConfig, Located, RemoteEvent,
};
use jwt_auth_delegate::identity::{UserId, UserId32};

// A token whose claims decode with subject "42".
const TOKEN_SUB_42: &str = "eyJhbGciOiJub25lIn0.eyJzdWIiOiI0MiJ9.";
// A token whose claims decode with subject "9".
const TOKEN_SUB_9: &str = "eyJhbGciOiJub25lIn0.eyJzdWIiOiI5In0.";
// A token that decodes but carries no subject claim.
const TOKEN_NO_SUB: &str = "eyJhbGciOiJub25lIn0.e30.";

fn config(name: &str) -> AuthConfig {
    AuthConfig::new(name.as_bytes().to_vec()).expect("cookie name must not be empty")
}

fn rejected_status(r: Located) -> u16 {
    match r {
        Located::Reject { status } => status,
        Located::Found { .. } => panic!("expected a rejection"),
    }
}

fn found(r: Located) -> (Vec<u8>, Vec<u8>) {
    match r {
        Located::Reject { status } => panic!("expected a match, got status {}", status),
        Located::Found { segment, token } => (segment, token),
    }
}

#[test]
fn missing_header_is_unauthorized() {
    let r = locate_credential(&config("auth"), None);
    assert_eq!(rejected_status(r), 401);
}

#[test]
fn undecodable_header_is_bad_request() {
    let header = vec![b'a', b'u', b't', b'h', b'=', 0xFFu8, b'x'];
    let r = locate_credential(&config("auth"), Some(&header));
    assert_eq!(rejected_status(r), 400);

    let control = b"auth=ab\x00cd".to_vec();
    let r = locate_credential(&config("auth"), Some(&control));
    assert_eq!(rejected_status(r), 400);
}

#[test]
fn no_matching_pair_is_unauthorized() {
    let header = b"sid=abc; flavour=plain".to_vec();
    let r = locate_credential(&config("auth"), Some(&header));
    assert_eq!(rejected_status(r), 401);
}

#[test]
fn matched_pair_is_forwarded_verbatim() {
    let header = b"sid=abc;auth=tok123".to_vec();
    let (segment, token) = found(locate_credential(&config("auth"), Some(&header)));
    assert_eq!(segment, b"auth=tok123".to_vec());
    assert_eq!(token, b"tok123".to_vec());
}

#[test]
fn first_matching_pair_wins() {
    let header = b"auth=first;auth=second".to_vec();
    let (segment, token) = found(locate_credential(&config("auth"), Some(&header)));
    assert_eq!(segment, b"auth=first".to_vec());
    assert_eq!(token, b"first".to_vec());
}

#[test]
fn value_may_contain_equals_signs() {
    let header = b"auth=a=b=c".to_vec();
    let (segment, token) = found(locate_credential(&config("auth"), Some(&header)));
    assert_eq!(segment, b"auth=a=b=c".to_vec());
    assert_eq!(token, b"a=b=c".to_vec());
}

#[test]
fn name_matching_is_literal_and_untrimmed() {
    // After "; " the next name starts with a space: " auth" is not "auth".
    let header = b"sid=abc; auth=tok".to_vec();
    let r = locate_credential(&config("auth"), Some(&header));
    assert_eq!(rejected_status(r), 401);
}

#[test]
fn empty_header_value_is_unauthorized() {
    let header = Vec::new();
    let r = locate_credential(&config("auth"), Some(&header));
    assert_eq!(rejected_status(r), 401);
}

#[test]
fn empty_cookie_value_matches_with_empty_token() {
    let header = b"auth=".to_vec();
    let (segment, token) = found(locate_credential(&config("auth"), Some(&header)));
    assert_eq!(segment, b"auth=".to_vec());
    assert_eq!(token, Vec::<u8>::new());
}

#[test]
fn empty_cookie_name_is_refused_at_construction() {
    assert!(AuthConfig::new(Vec::new()).is_none());
    assert!(AuthConfig::new(b"auth".to_vec()).is_some());
}

#[test]
fn accepted_token_with_integer_subject_authorizes() {
    let token = TOKEN_SUB_42.as_bytes().to_vec();
    let event = RemoteEvent::Response { status: 200 };
    let r: Result<UserId32, u16> = conclude_auth(&event, &token);
    assert_eq!(r.expect("must authorize").0, 42);
}

#[test]
fn accepted_token_without_subject_is_bad_request() {
    let token = TOKEN_NO_SUB.as_bytes().to_vec();
    let event = RemoteEvent::Response { status: 200 };
    let r: Result<UserId, u16> = conclude_auth(&event, &token);
    assert_eq!(r.err(), Some(400));
}

#[test]
fn malformed_token_is_bad_request() {
    let token = b"not-a-token".to_vec();
    let event = RemoteEvent::Response { status: 200 };
    let r: Result<UserId, u16> = conclude_auth(&event, &token);
    assert_eq!(r.err(), Some(400));
}

#[test]
fn rejecting_verdict_is_forbidden_whatever_the_token() {
    let event = RemoteEvent::Response { status: 403 };
    let good: Result<UserId, u16> = conclude_auth(&event, &TOKEN_SUB_9.as_bytes().to_vec());
    assert_eq!(good.err(), Some(403));
    let bad: Result<UserId, u16> = conclude_auth(&event, &b"garbage".to_vec());
    assert_eq!(bad.err(), Some(403));
    let teapot = RemoteEvent::Response { status: 418 };
    let r: Result<UserId, u16> = conclude_auth(&teapot, &TOKEN_SUB_9.as_bytes().to_vec());
    assert_eq!(r.err(), Some(403));
}

#[test]
fn transport_failure_is_bad_gateway() {
    let event = RemoteEvent::TransportFailure;
    let r: Result<UserId, u16> = conclude_auth(&event, &TOKEN_SUB_9.as_bytes().to_vec());
    assert_eq!(r.err(), Some(502));
}

#[test]
fn verdict_accepts_exactly_on_200() {
    assert!(remote_accepts(200));
    assert!(!remote_accepts(201));
    assert!(!remote_accepts(403));
    assert!(!remote_accepts(500));
}

#[test]
fn repeated_identical_request_yields_identical_outcome() {
    let header = format!("sid=abc;auth={}", TOKEN_SUB_42).into_bytes();
    let cfg = config("auth");
    let mut outcomes: Vec<Result<i32, u16>> = Vec::new();
    for _ in 0..2 {
        let (_, token) = found(locate_credential(&cfg, Some(&header)));
        let event = RemoteEvent::Response { status: 200 };
        let r: Result<UserId32, u16> = conclude_auth(&event, &token);
        outcomes.push(r.map(|u| u.0));
    }
    assert_eq!(outcomes[0], outcomes[1]);
    assert_eq!(outcomes[0], Ok(42));
}

#[test]
fn concrete_scenario_default_mapper() {
    // The authority accepts the forwarded pair; the subject claim is "9".
    let header = format!("sid=abc;auth={}", TOKEN_SUB_9).into_bytes();
    let (segment, token) = found(locate_credential(&config("auth"), Some(&header)));
    assert_eq!(segment, format!("auth={}", TOKEN_SUB_9).into_bytes());
    let event = RemoteEvent::Response { status: 200 };
    let r: Result<UserId, u16> = conclude_auth(&event, &token);
    assert_eq!(r.expect("must authorize").0, "9");
}

#[test]
fn derive_identity_decodes_the_token() {
    // Fails if claim extraction handed the raw bytes through unchanged.
    let token = TOKEN_SUB_42.as_bytes().to_vec();
    let r: Result<UserId, u16> = derive_identity(&token);
    assert_eq!(r.expect("must decode").0, "42");
}

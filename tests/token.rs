use greatway::role::Role;
use greatway::token::{
    claims_from_decoded, encode, issue, role_texts, roles_from_texts, verify, Claims, DecodeFailure,
    VerificationError, TOKEN_TTL,
};

const SECRET: &str = "s3cret";

#[test]
fn issued_token_round_trips() {
    let token = issue("alice", &vec![Role::Admin, Role::User], 1000, SECRET);
    let claims = verify(&token, SECRET, 1000).expect("token verifies");
    assert_eq!(claims.sub, "alice");
    assert_eq!(claims.exp, 1000 + TOKEN_TTL);
    assert_eq!(claims.roles, vec![Role::Admin, Role::User]);
}

#[test]
fn issued_token_is_a_jwt() {
    let token = issue("alice", &vec![Role::Admin], 1000, SECRET);
    assert!(token.starts_with("eyJ"));
    assert_eq!(token.split('.').count(), 3);
    assert!(token.chars().all(|c| c.is_ascii_alphanumeric() || c == '-' || c == '_' || c == '.'));
}

#[test]
fn subject_with_blanks_and_dots_round_trips() {
    let token = issue("a b.\tc \"é\"", &vec![], 7, SECRET);
    let claims = verify(&token, SECRET, 8).expect("token verifies");
    assert_eq!(claims.sub, "a b.\tc \"é\"");
    assert!(claims.roles.is_empty());
}

#[test]
fn other_secret_gives_signature_error() {
    let token = issue("alice", &vec![Role::Admin], 1000, "another secret");
    assert_eq!(verify(&token, SECRET, 1000).err(), Some(VerificationError::SignatureInvalid));
}

#[test]
fn secrets_change_the_signature() {
    let a = issue("alice", &vec![Role::User], 1000, "one");
    let b = issue("alice", &vec![Role::User], 1000, "two");
    assert_ne!(a, b);
}

#[test]
fn expired_token_gives_expiry_error() {
    let token = issue("alice", &vec![Role::Admin], 1000, SECRET);
    assert_eq!(verify(&token, SECRET, 1000 + TOKEN_TTL).err(), Some(VerificationError::Expired));
    assert_eq!(verify(&token, SECRET, 999_999).err(), Some(VerificationError::Expired));
    assert!(verify(&token, SECRET, 1000 + TOKEN_TTL - 1).is_ok());
}

#[test]
fn tampered_claims_break_the_signature() {
    let user = issue("alice", &vec![Role::User], 1000, SECRET);
    let admin = issue("alice", &vec![Role::Admin], 1000, SECRET);
    let u: Vec<&str> = user.split('.').collect();
    let a: Vec<&str> = admin.split('.').collect();
    let forged = format!("{}.{}.{}", u[0], a[1], u[2]);
    assert_eq!(verify(&forged, SECRET, 1000).err(), Some(VerificationError::SignatureInvalid));
}

#[test]
fn garbage_is_malformed() {
    for text in ["", "abc", "a.b.c", "HS256.4600.A.5.alice.c2ln", "eyJ.eyJ.sig"] {
        assert_eq!(verify(text, SECRET, 0).err(), Some(VerificationError::Malformed), "{}", text);
    }
}

#[test]
fn encode_matches_issue() {
    let claims = Claims { sub: "bob".to_string(), exp: 4600, roles: vec![Role::Guest] };
    assert_eq!(encode(&claims, SECRET), issue("bob", &vec![Role::Guest], 1000, SECRET));
}

#[test]
fn role_names_round_trip() {
    let roles = vec![Role::Admin, Role::User, Role::Guest];
    let names = role_texts(&roles);
    assert_eq!(names, vec!["Admin".to_string(), "User".to_string(), "Guest".to_string()]);
    assert_eq!(roles_from_texts(&names), Some(roles));
    assert_eq!(roles_from_texts(&vec!["Admin".to_string(), "admin".to_string()]), None);
}

#[test]
fn decoded_claims_are_read_strictly() {
    let ok = claims_from_decoded(Ok(("bob".to_string(), 50, vec!["Guest".to_string()])), 49).expect("valid");
    assert_eq!((ok.sub.as_str(), ok.exp), ("bob", 50));
    assert_eq!(ok.roles, vec![Role::Guest]);
    let at_expiry = claims_from_decoded(Ok(("bob".to_string(), 50, vec![])), 50);
    assert_eq!(at_expiry.err(), Some(VerificationError::Expired));
    let unknown = claims_from_decoded(Ok(("bob".to_string(), 50, vec!["Root".to_string()])), 0);
    assert_eq!(unknown.err(), Some(VerificationError::Malformed));
    assert_eq!(claims_from_decoded(Err(DecodeFailure::BadSignature), 0).err(), Some(VerificationError::SignatureInvalid));
    assert_eq!(claims_from_decoded(Err(DecodeFailure::Malformed), 0).err(), Some(VerificationError::Malformed));
}

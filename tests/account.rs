use greatway::account::{login, login_with, new_user, register, register_with, LoginRequest, User};
use greatway::error::GatewayError;
use greatway::role::Role;
use greatway::token::verify;

const SECRET: &str = "s3cret";

fn request(username: &str, password: &str) -> LoginRequest {
    LoginRequest { username: username.to_string(), password: password.to_string() }
}

#[test]
fn register_then_login_gives_token_for_alice() {
    let user = register(&request("alice", "secret123"), false).expect("registered");
    assert_eq!(user.username, "alice");
    assert_eq!(user.id.len(), 36);
    assert_eq!(user.roles, vec![Role::User]);
    assert_ne!(user.password, "secret123");
    assert!(user.password.starts_with("$2"));
    let resp = login(Some(&user), &request("alice", "secret123"), SECRET, 1000).expect("logged in");
    let claims = verify(&resp.token, SECRET, 1000).expect("token verifies");
    assert_eq!(claims.sub, "alice");
    assert_eq!(claims.roles, vec![Role::User]);
}

#[test]
fn wrong_password_is_invalid_credentials() {
    let user = register(&request("alice", "secret123"), false).expect("registered");
    let r = login(Some(&user), &request("alice", "wrong"), SECRET, 1000);
    assert_eq!(r.err(), Some(GatewayError::CredentialInvalid));
    assert_eq!(GatewayError::CredentialInvalid.status(), 401);
}

#[test]
fn unknown_user_is_invalid_credentials() {
    assert_eq!(login(None, &request("nobody", "x"), SECRET, 1000).err(), Some(GatewayError::CredentialInvalid));
}

#[test]
fn taken_username_conflicts() {
    assert_eq!(register(&request("alice", "pw"), true).err(), Some(GatewayError::CredentialConflict));
    assert_eq!(register_with(&request("alice", "pw"), true, "id", "h").err(), Some(GatewayError::CredentialConflict));
    assert_eq!(GatewayError::CredentialConflict.status(), 409);
}

#[test]
fn register_with_keeps_given_values() {
    let u = register_with(&request("carol", "pw"), false, "id-1", "hash").expect("registered");
    assert_eq!((u.id.as_str(), u.username.as_str(), u.password.as_str()), ("id-1", "carol", "hash"));
    assert_eq!(u.roles, vec![Role::User]);
}

#[test]
fn login_with_decides_on_the_check() {
    let u = new_user("id", "dave", "hash");
    assert!(login_with(Some(&u), &request("dave", "pw"), true, SECRET, 0).is_ok());
    assert_eq!(login_with(Some(&u), &request("dave", "pw"), false, SECRET, 0).err(), Some(GatewayError::CredentialInvalid));
    assert_eq!(login_with(Some(&u), &request("erin", "pw"), true, SECRET, 0).err(), Some(GatewayError::CredentialInvalid));
    assert_eq!(login_with(None, &request("dave", "pw"), true, SECRET, 0).err(), Some(GatewayError::CredentialInvalid));
}

#[test]
fn assigning_a_role_twice_keeps_one_record() {
    let mut u: User = new_user("id", "frank", "hash");
    u.add_role(Role::Admin);
    u.add_role(Role::Admin);
    assert_eq!(u.roles, vec![Role::User, Role::Admin]);
    u.add_role(Role::User);
    assert_eq!(u.roles, vec![Role::User, Role::Admin]);
}

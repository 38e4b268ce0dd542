use greatway::account::{generate_token, new_user};
use greatway::auth::{extract_bearer, Auth};
use greatway::error::GatewayError;
use greatway::guard::RoleGuard;
use greatway::role::Role;
use greatway::token::{issue, Claims};

const SECRET: &str = "s3cret";

fn claims_with(roles: Vec<Role>) -> Claims {
    Claims { sub: "alice".to_string(), exp: 10, roles }
}

#[test]
fn admin_route_rejects_user_role() {
    let guard = RoleGuard(vec![Role::Admin]);
    assert!(!guard.check(Some(&claims_with(vec![Role::User]))));
}

#[test]
fn admin_route_admits_user_and_admin() {
    let guard = RoleGuard(vec![Role::Admin]);
    assert!(guard.check(Some(&claims_with(vec![Role::User, Role::Admin]))));
}

#[test]
fn admin_route_rejects_empty_roles() {
    let guard = RoleGuard(vec![Role::Admin]);
    assert!(!guard.check(Some(&claims_with(vec![]))));
}

#[test]
fn guard_without_claims_rejects() {
    let guard = RoleGuard(vec![Role::Admin, Role::User, Role::Guest]);
    assert!(!guard.check(None));
}

#[test]
fn bearer_is_second_word() {
    assert_eq!(extract_bearer("Bearer abc.def"), Some("abc.def".to_string()));
    assert_eq!(extract_bearer(" \tBearer   xyz  tail"), Some("xyz".to_string()));
    assert_eq!(extract_bearer("Bearer"), None);
    assert_eq!(extract_bearer("Bearer   "), None);
    assert_eq!(extract_bearer(""), None);
}

#[test]
fn missing_header_is_unauthenticated() {
    let auth = Auth::new(SECRET);
    assert_eq!(auth.authenticate(None, 0).err(), Some(GatewayError::Unauthenticated));
    let guard = RoleGuard(vec![Role::Admin]);
    assert_eq!(auth.gate(None, &guard, 0).err(), Some(GatewayError::Unauthenticated));
    assert_eq!(GatewayError::Unauthenticated.status(), 401);
}

#[test]
fn invalid_tokens_are_unauthenticated() {
    let auth = Auth::new(SECRET);
    let foreign = format!("Bearer {}", issue("alice", &vec![Role::Admin], 1000, "other"));
    let expired = format!("Bearer {}", issue("alice", &vec![Role::Admin], 1000, SECRET));
    assert_eq!(auth.authenticate(Some("Bearer junk"), 1000).err(), Some(GatewayError::Unauthenticated));
    assert_eq!(auth.authenticate(Some(&foreign), 1000).err(), Some(GatewayError::Unauthenticated));
    assert_eq!(auth.authenticate(Some(&expired), 5000).err(), Some(GatewayError::Unauthenticated));
    assert_eq!(auth.authenticate(Some("Bearer"), 1000).err(), Some(GatewayError::Unauthenticated));
}

#[test]
fn valid_token_authenticates() {
    let auth = Auth::new(SECRET);
    let header = format!("Bearer {}", issue("alice", &vec![Role::Admin], 1000, SECRET));
    let claims = auth.authenticate(Some(&header), 2000).expect("authenticated");
    assert_eq!(claims.sub, "alice");
    assert_eq!(claims.roles, vec![Role::Admin]);
}

#[test]
fn username_with_blanks_authenticates() {
    let auth = Auth::new(SECRET);
    let user = new_user("id", "a b\tc", "hash");
    let header = format!("Bearer {}", generate_token(&user, SECRET, 1000));
    let claims = auth.authenticate(Some(&header), 1000).expect("authenticated");
    assert_eq!(claims.sub, "a b\tc");
    assert_eq!(claims.exp, 4600);
    assert_eq!(claims.roles, vec![Role::User]);
}

#[test]
fn gate_separates_identity_and_role() {
    let auth = Auth::new(SECRET);
    let guard = RoleGuard(vec![Role::Admin]);
    let user = format!("Bearer {}", issue("bob", &vec![Role::User], 1000, SECRET));
    let admin = format!("Bearer {}", issue("root", &vec![Role::Admin], 1000, SECRET));
    assert_eq!(auth.gate(Some(&user), &guard, 1000).err(), Some(GatewayError::Unauthorized));
    assert_eq!(GatewayError::Unauthorized.status(), 403);
    assert_eq!(auth.gate(Some(&admin), &guard, 1000).expect("admitted").sub, "root");
}

use vstd::prelude::*;

use crate::error::GatewayError;
use crate::role::Role;
use crate::auth::{authentication_result, bearer_header, is_blank, lemma_bearer_header};
use crate::token::{
    is_token_char, issue, signed_token, ClaimsModel, TOKEN_TTL,
};

verus! {

/// A registered user: opaque id, unique username, password hash and held roles.
pub struct User {
    pub id: String,
    pub username: String,
    pub password: String,
    pub roles: Vec<Role>,
}

/// The credentials of a register or login request.
pub struct LoginRequest {
    pub username: String,
    pub password: String,
}

/// The answer to a successful login.
pub struct LoginResponse {
    pub token: String,
}

/// The roles `rs` once `r` is assigned: unchanged if already held, else `r` added last.
pub open spec fn with_role(rs: Seq<Role>, r: Role) -> Seq<Role> {
    if rs.contains(r) {
        rs
    } else {
        rs.push(r)
    }
}

impl User {
    /// A user holds each role at most once.
    pub open spec fn wf(&self) -> bool {
        self.roles@.no_duplicates()
    }

    /// Assigns `role`; assigning a role already held changes nothing.
    pub fn add_role(&mut self, role: Role)
        requires
            old(self).wf(),
        ensures
            final(self).wf(),
            final(self).roles@ == with_role(old(self).roles@, role),
            final(self).id@ == old(self).id@,
            final(self).username@ == old(self).username@,
            final(self).password@ == old(self).password@,
    {
        if crate::guard::contains_role(&self.roles, role) {
            return;
        }
        assert(!self.roles@.contains(role));
        self.roles.push(role);
    }
}

/// Assigning the same role twice leaves exactly one record of it: the second
/// assignment changes nothing and no role is held twice.
pub proof fn lemma_assign_role_idempotent(rs: Seq<Role>, r: Role)
    requires
        rs.no_duplicates(),
    ensures
        with_role(with_role(rs, r), r) == with_role(rs, r),
        with_role(rs, r).no_duplicates(),
        with_role(rs, r).contains(r),
{
    if !rs.contains(r) {
        assert(rs.push(r)[rs.len() as int] == r);
        assert(with_role(rs, r).contains(r));
    }
}

/// A fresh user with the given id, username and password hash, holding the `User` role.
pub fn new_user(id: &str, username: &str, password_hash: &str) -> (u: User)
    ensures
        u.wf(),
        u.id@ == id@,
        u.username@ == username@,
        u.password@ == password_hash@,
        u.roles@ == seq![Role::User],
{
    let roles = vec![Role::User];
    assert(roles@ =~= seq![Role::User]);
    User { id: id.to_owned(), username: username.to_owned(), password: password_hash.to_owned(), roles }
}

/// Whether bcrypt accepts `password` against the stored `hash`.
pub uninterp spec fn bcrypt_accepts(password: Seq<char>, hash: Seq<char>) -> bool;

/// Relies on `bcrypt::verify`: whether the password hashes to the stored hash under the
/// hash's own cost and salt; a hash that cannot be read is a mismatch.
#[verifier::external_body]
fn password_matches(password: &str, hash: &str) -> (r: bool)
    ensures
        r == bcrypt_accepts(password@, hash@),
{
    bcrypt::verify(password, hash).unwrap_or(false)
}

/// The bcrypt cost at which passwords are hashed.
pub const HASH_COST: u32 = 10;

/// Relies on `bcrypt::hash`: a salted hash at the given cost from a random salt, which
/// `bcrypt::verify` accepts for the same password; nothing when the random source or
/// hashing fails.
#[verifier::external_body]
fn hash_password(password: &str, cost: u32) -> (r: Option<String>)
    ensures
        r matches Some(h) ==> bcrypt_accepts(password@, h@),
{
    bcrypt::hash(password, cost).ok()
}

/// Relies on `getrandom::getrandom`: sixteen bytes from the system's random source, or
/// nothing when it fails.
#[verifier::external_body]
fn random_bytes() -> (r: Option<Vec<u8>>)
    ensures
        r matches Some(b) ==> b@.len() == 16,
{
    let mut b = [0u8; 16];
    getrandom::getrandom(&mut b).ok().map(|_| b.to_vec())
}

/// The hyphenated text of the random (version 4) UUID made from sixteen random bytes.
pub uninterp spec fn uuid_text_of(bytes: Seq<u8>) -> Seq<char>;

/// Relies on `uuid::Builder::from_random_bytes` and the UUID's `Display`: a version 4
/// UUID from the bytes, in its 36-character hyphenated form.
#[verifier::external_body]
fn uuid_text(bytes: &Vec<u8>) -> (r: String)
    requires
        bytes@.len() == 16,
    ensures
        r@ == uuid_text_of(bytes@),
        r@.len() == 36,
{
    let mut b = [0u8; 16];
    b.copy_from_slice(bytes);
    uuid::Builder::from_random_bytes(b).into_uuid().to_string()
}

/// Registration with an id and a password hash already made: `CredentialConflict` when
/// the username is taken, else the new user holding the `User` role.
pub fn register_with(req: &LoginRequest, taken: bool, id: &str, password_hash: &str) -> (r: Result<
    User,
    GatewayError,
>)
    ensures
        taken ==> r == Err::<User, GatewayError>(GatewayError::CredentialConflict),
        !taken ==> (r matches Ok(u) && u.wf() && u.id@ == id@ && u.username@ == req.username@
            && u.password@ == password_hash@ && u.roles@ == seq![Role::User]),
{
    if taken {
        Err(GatewayError::CredentialConflict)
    } else {
        Ok(new_user(id, req.username.as_str(), password_hash))
    }
}

/// Registers the credentials of `req` under a fresh random id, storing a bcrypt hash of
/// the password at `HASH_COST`. `CredentialConflict` exactly when the username is taken;
/// otherwise `Internal` only when randomness or hashing fails, and else a user holding
/// the `User` role whose stored hash accepts the password.
pub fn register(req: &LoginRequest, taken: bool) -> (r: Result<User, GatewayError>)
    ensures
        taken ==> r == Err::<User, GatewayError>(GatewayError::CredentialConflict),
        !taken ==> match r {
            Ok(u) => u.wf() && u.id@.len() == 36 && u.username@ == req.username@ && u.roles@
                == seq![Role::User] && bcrypt_accepts(req.password@, u.password@),
            Err(e) => e == GatewayError::Internal,
        },
{
    if taken {
        return Err(GatewayError::CredentialConflict);
    }
    let hash = match hash_password(req.password.as_str(), HASH_COST) {
        None => {
            return Err(GatewayError::Internal);
        },
        Some(h) => h,
    };
    let bytes = match random_bytes() {
        None => {
            return Err(GatewayError::Internal);
        },
        Some(b) => b,
    };
    let id = uuid_text(&bytes);
    register_with(req, false, id.as_str(), hash.as_str())
}

/// Issues the token of `user`: its username and roles, valid for one token lifetime.
/// Presented as `Bearer <token>` before it expires, it authenticates as exactly those
/// claims, whatever characters the username holds; once expired, or checked against a
/// secret that would have signed it otherwise, it is refused as unauthenticated.
pub fn generate_token(user: &User, secret: &str, now: u64) -> (t: String)
    requires
        now <= u64::MAX - TOKEN_TTL,
    ensures
        ({
            let c = ClaimsModel {
                sub: user.username@,
                exp: (now + TOKEN_TTL) as u64,
                roles: user.roles@,
            };
            &&& t@ == signed_token(c, secret@)
            &&& forall|later: u64|
                later < c.exp ==> #[trigger] authentication_result(
                    Some(bearer_header(t@)),
                    secret@,
                    later,
                ) == Ok::<ClaimsModel, GatewayError>(c)
            &&& forall|later: u64|
                c.exp <= later ==> #[trigger] authentication_result(
                    Some(bearer_header(t@)),
                    secret@,
                    later,
                ) == Err::<ClaimsModel, GatewayError>(GatewayError::Unauthenticated)
            &&& forall|other: Seq<char>, later: u64|
                signed_token(c, other) != t@ ==> #[trigger] authentication_result(
                    Some(bearer_header(t@)),
                    other,
                    later,
                ) == Err::<ClaimsModel, GatewayError>(GatewayError::Unauthenticated)
        }),
{
    let t = issue(user.username.as_str(), &user.roles, now, secret);
    proof {
        assert forall|i: int| 0 <= i < t@.len() implies !is_blank(#[trigger] t@[i]) by {
            assert(is_token_char(t@[i]));
        }
        lemma_bearer_header(t@);
    }
    t
}

/// Whether the stored user is the one asked for and the password matched.
pub open spec fn login_succeeds(stored: Option<&User>, username: Seq<char>, password_ok: bool) -> bool {
    match stored {
        Some(u) => u.username@ == username && password_ok,
        None => false,
    }
}

/// Login once the password check has been made: a token for the stored user when it is
/// the one asked for and the password matched, else `CredentialInvalid`, alike for an
/// unknown user and a wrong password.
pub fn login_with(stored: Option<&User>, req: &LoginRequest, password_ok: bool, secret: &str, now: u64) -> (r:
    Result<LoginResponse, GatewayError>)
    requires
        now <= u64::MAX - TOKEN_TTL,
    ensures
        match r {
            Ok(resp) => login_succeeds(stored, req.username@, password_ok) && resp.token@
                == signed_token(
                ClaimsModel {
                    sub: stored->0.username@,
                    exp: (now + TOKEN_TTL) as u64,
                    roles: stored->0.roles@,
                },
                secret@,
            ),
            Err(e) => !login_succeeds(stored, req.username@, password_ok) && e
                == GatewayError::CredentialInvalid,
        },
{
    match stored {
        Some(u) => {
            if password_ok && same_text(u.username.as_str(), req.username.as_str()) {
                Ok(LoginResponse { token: generate_token(u, secret, now) })
            } else {
                Err(GatewayError::CredentialInvalid)
            }
        },
        None => Err(GatewayError::CredentialInvalid),
    }
}

/// Logs in with the credentials of `req` against the user stored under that name.
pub fn login(stored: Option<&User>, req: &LoginRequest, secret: &str, now: u64) -> (r: Result<
    LoginResponse,
    GatewayError,
>)
    requires
        now <= u64::MAX - TOKEN_TTL,
    ensures
        match r {
            Ok(resp) => login_succeeds(
                stored,
                req.username@,
                bcrypt_accepts(req.password@, stored->0.password@),
            ) && resp.token@ == signed_token(
                ClaimsModel {
                    sub: stored->0.username@,
                    exp: (now + TOKEN_TTL) as u64,
                    roles: stored->0.roles@,
                },
                secret@,
            ),
            Err(e) => e == GatewayError::CredentialInvalid && (stored matches Some(u)
                ==> !login_succeeds(stored, req.username@, bcrypt_accepts(req.password@, u.password@))),
        },
{
    match stored {
        None => Err(GatewayError::CredentialInvalid),
        Some(u) => {
            let ok = password_matches(req.password.as_str(), u.password.as_str());
            login_with(stored, req, ok, secret, now)
        },
    }
}

/// Whether two strings hold the same characters.
fn same_text(a: &str, b: &str) -> (r: bool)
    ensures
        r == (a@ == b@),
{
    crate::text::same_chars(&crate::text::chars_of(a), &crate::text::chars_of(b))
}

} // verus!

//! Signed bearer tokens: JSON Web Tokens signed with HS256, whose claims carry the
//! subject, the expiry and the role names.
use vstd::prelude::*;

use jsonwebtoken::errors::ErrorKind;
use jsonwebtoken::{Algorithm, DecodingKey, EncodingKey, Header, Validation};
use serde_json::Value;

use crate::role::Role;
use crate::text::{same_chars, string_of};

verus! {

/// How long an issued token stays valid, in seconds.
pub const TOKEN_TTL: u64 = 3600;

/// What a token asserts: who the caller is, until when, and which roles they held.
#[derive(Clone, Debug)]
pub struct Claims {
    pub sub: String,
    pub exp: u64,
    pub roles: Vec<Role>,
}

/// The mathematical content of a `Claims`.
pub ghost struct ClaimsModel {
    pub sub: Seq<char>,
    pub exp: u64,
    pub roles: Seq<Role>,
}

impl View for Claims {
    type V = ClaimsModel;

    open spec fn view(&self) -> ClaimsModel {
        ClaimsModel { sub: self.sub@, exp: self.exp, roles: self.roles@ }
    }
}

/// Why a token was refused.
#[derive(Clone, Copy, Debug, PartialEq, Eq, Structural)]
pub enum VerificationError {
    /// The text is not a token carrying a subject, an expiry and known role names.
    Malformed,
    /// The signature does not match the token under the secret.
    SignatureInvalid,
    /// The token is correctly signed but its expiry is not after the present.
    Expired,
}

/// Why decoding a token failed.
#[derive(Clone, Copy, Debug, PartialEq, Eq, Structural)]
pub enum DecodeFailure {
    /// Not a token of the expected shape.
    Malformed,
    /// The signature does not match under the secret.
    BadSignature,
}

/// The name under which a role travels in a token.
pub open spec fn role_name(r: Role) -> Seq<char> {
    match r {
        Role::Admin => seq!['A', 'd', 'm', 'i', 'n'],
        Role::User => seq!['U', 's', 'e', 'r'],
        Role::Guest => seq!['G', 'u', 'e', 's', 't'],
    }
}

/// The names of a sequence of roles, in order.
pub open spec fn role_names(rs: Seq<Role>) -> Seq<Seq<char>> {
    rs.map_values(|r: Role| role_name(r))
}

/// The role called `n`, if any.
pub open spec fn role_named(n: Seq<char>) -> Option<Role> {
    if n == role_name(Role::Admin) {
        Some(Role::Admin)
    } else if n == role_name(Role::User) {
        Some(Role::User)
    } else if n == role_name(Role::Guest) {
        Some(Role::Guest)
    } else {
        None
    }
}

/// The roles called `ns`, when every name is a role's.
pub open spec fn roles_named(ns: Seq<Seq<char>>) -> Option<Seq<Role>> {
    if forall|i: int| 0 <= i < ns.len() ==> (#[trigger] role_named(ns[i])) is Some {
        Some(ns.map_values(|n: Seq<char>| role_named(n)->0))
    } else {
        None
    }
}

/// The characters a token is written in: unpadded URL-safe base64 and the dot.
pub open spec fn is_token_char(c: char) -> bool {
    ('A' <= c && c <= 'Z') || ('a' <= c && c <= 'z') || ('0' <= c && c <= '9') || c == '-' || c
        == '_' || c == '.'
}

/// The views of a vector of strings.
pub open spec fn string_views(v: Seq<String>) -> Seq<Seq<char>> {
    v.map_values(|s: String| s@)
}

/// The HS256 JSON Web Token, with the default header, whose claims are `sub`, `exp` and
/// `roles`, signed with `secret`.
pub uninterp spec fn jwt_of(secret: Seq<char>, sub: Seq<char>, exp: u64, roles: Seq<Seq<char>>) -> Seq<char>;

/// The subject, expiry and role names that `token` carries when it is an HS256 JSON
/// Web Token correctly signed with `secret`, expiry left unchecked.
pub uninterp spec fn jwt_claims(token: Seq<char>, secret: Seq<char>) -> Result<
    (Seq<char>, u64, Seq<Seq<char>>),
    DecodeFailure,
>;

/// A successful decoding outcome.
pub open spec fn decoded_ok(sub: Seq<char>, exp: u64, names: Seq<Seq<char>>) -> Result<
    (Seq<char>, u64, Seq<Seq<char>>),
    DecodeFailure,
> {
    Ok((sub, exp, names))
}

/// A failed decoding outcome.
pub open spec fn decoded_err(f: DecodeFailure) -> Result<(Seq<char>, u64, Seq<Seq<char>>), DecodeFailure> {
    Err(f)
}

/// Relies on `jsonwebtoken::encode` with `Header::default()` (HS256) and a key from the
/// secret's bytes, on a JSON object with the three claims: the result is a JWT, three
/// unpadded URL-safe base64 parts joined by dots, that `jsonwebtoken::decode` with the
/// same secret reads back, and that decoding with another secret refuses for its
/// signature unless that secret signs the same token. HMAC signing cannot fail.
#[verifier::external_body]
fn jwt_encode(secret: &str, sub: &str, exp: u64, roles: &Vec<String>) -> (r: String)
    ensures
        r@ == jwt_of(secret@, sub@, exp, string_views(roles@)),
        jwt_claims(r@, secret@) == decoded_ok(sub@, exp, string_views(roles@)),
        forall|other: Seq<char>|
            jwt_of(other, sub@, exp, string_views(roles@)) != r@ ==> #[trigger] jwt_claims(r@, other)
                == decoded_err(DecodeFailure::BadSignature),
        r@.len() > 0,
        forall|i: int| 0 <= i < r@.len() ==> is_token_char(#[trigger] r@[i]),
{
    let mut claims = serde_json::Map::new();
    claims.insert("sub".to_string(), Value::from(sub));
    claims.insert("exp".to_string(), Value::from(exp));
    claims.insert("roles".to_string(), Value::from(roles.clone()));
    let key = EncodingKey::from_secret(secret.as_bytes());
    jsonwebtoken::encode(&Header::default(), &Value::Object(claims), &key).unwrap_or_default()
}

/// Relies on `jsonwebtoken::decode` into a JSON value, with HS256 and the expiry check
/// switched off (the expiry is checked by the caller): `BadSignature` for an
/// `InvalidSignature` error, `Malformed` for any other error or when `sub` is not a
/// string, `exp` not an unsigned integer or `roles` not an array of strings.
#[verifier::external_body]
fn jwt_decode(token: &str, secret: &str) -> (r: Result<(String, u64, Vec<String>), DecodeFailure>)
    ensures
        match r {
            Ok((s, e, n)) => jwt_claims(token@, secret@) == decoded_ok(s@, e, string_views(n@)),
            Err(f) => jwt_claims(token@, secret@) == decoded_err(f),
        },
{
    let mut rules = Validation::new(Algorithm::HS256);
    rules.validate_exp = false;
    let key = DecodingKey::from_secret(secret.as_bytes());
    let c = jsonwebtoken::decode::<Value>(token, &key, &rules).map_err(|e| match e.kind() {
        ErrorKind::InvalidSignature => DecodeFailure::BadSignature,
        _ => DecodeFailure::Malformed,
    })?.claims;
    let names = c["roles"].as_array().and_then(|a| a.iter().map(|n| n.as_str().map(String::from)).collect());
    let bad = DecodeFailure::Malformed;
    Ok((c["sub"].as_str().ok_or(bad)?.into(), c["exp"].as_u64().ok_or(bad)?, names.ok_or(bad)?))
}

/// The token that the secret signs for the claims.
pub open spec fn signed_token(c: ClaimsModel, secret: Seq<char>) -> Seq<char> {
    jwt_of(secret, c.sub, c.exp, role_names(c.roles))
}

/// What reading a decoding outcome at time `now` yields.
pub open spec fn claims_result(
    decoded: Result<(Seq<char>, u64, Seq<Seq<char>>), DecodeFailure>,
    now: u64,
) -> Result<ClaimsModel, VerificationError> {
    match decoded {
        Err(DecodeFailure::Malformed) => Err(VerificationError::Malformed),
        Err(DecodeFailure::BadSignature) => Err(VerificationError::SignatureInvalid),
        Ok((sub, exp, names)) => match roles_named(names) {
            None => Err(VerificationError::Malformed),
            Some(roles) => if exp <= now {
                Err(VerificationError::Expired)
            } else {
                Ok(ClaimsModel { sub, exp, roles })
            },
        },
    }
}

/// What verifying `t` with `secret` at time `now` yields.
pub open spec fn verify_result(t: Seq<char>, secret: Seq<char>, now: u64) -> Result<
    ClaimsModel,
    VerificationError,
> {
    claims_result(jwt_claims(t, secret), now)
}

/// Role names read back as the roles they name.
pub proof fn lemma_role_names_read_back(rs: Seq<Role>)
    ensures
        roles_named(role_names(rs)) == Some(rs),
{
    let ns = role_names(rs);
    assert forall|i: int| 0 <= i < ns.len() implies (#[trigger] role_named(ns[i])) == Some(rs[i]) by {
        assert(ns[i] == role_name(rs[i]));
        assert(role_name(Role::Admin)[0] == 'A');
        assert(role_name(Role::User)[0] == 'U');
        assert(role_name(Role::Guest)[0] == 'G');
    }
    assert(ns.map_values(|n: Seq<char>| role_named(n)->0) =~= rs);
}

/// Writes the name of a role.
pub fn role_text(r: Role) -> (s: String)
    ensures
        s@ == role_name(r),
{
    let v = match r {
        Role::Admin => vec!['A', 'd', 'm', 'i', 'n'],
        Role::User => vec!['U', 's', 'e', 'r'],
        Role::Guest => vec!['G', 'u', 'e', 's', 't'],
    };
    assert(v@ =~= role_name(r));
    string_of(&v)
}

/// Reads a role name.
pub fn role_from_text(n: &String) -> (r: Option<Role>)
    ensures
        r == role_named(n@),
{
    let v = crate::text::chars_of(n.as_str());
    if same_chars(&v, &crate::text::chars_of(role_text(Role::Admin).as_str())) {
        Some(Role::Admin)
    } else if same_chars(&v, &crate::text::chars_of(role_text(Role::User).as_str())) {
        Some(Role::User)
    } else if same_chars(&v, &crate::text::chars_of(role_text(Role::Guest).as_str())) {
        Some(Role::Guest)
    } else {
        None
    }
}

/// Writes the names of `roles`, in order.
pub fn role_texts(roles: &Vec<Role>) -> (r: Vec<String>)
    ensures
        string_views(r@) == role_names(roles@),
{
    let mut out: Vec<String> = Vec::new();
    let mut i: usize = 0;
    while i < roles.len()
        invariant
            i <= roles.len(),
            out@.len() == i,
            string_views(out@) == role_names(roles@.subrange(0, i as int)),
        decreases roles.len() - i,
    {
        let ghost prev = out@;
        let name = role_text(roles[i]);
        out.push(name);
        i = i + 1;
        assert forall|j: int| 0 <= j < i implies string_views(out@)[j] == role_names(
            roles@.subrange(0, i as int),
        )[j] by {
            assert(string_views(out@)[j] == out@[j]@);
            assert(role_names(roles@.subrange(0, i as int))[j] == role_name(roles@[j]));
            if j < i - 1 {
                assert(out@[j] == prev[j]);
                assert(string_views(prev)[j] == prev[j]@);
                assert(role_names(roles@.subrange(0, i - 1))[j] == role_name(roles@[j]));
            }
        }
        assert(string_views(out@) =~= role_names(roles@.subrange(0, i as int)));
    }
    assert(roles@.subrange(0, roles.len() as int) =~= roles@);
    out
}

/// Reads role names; `None` when one of them names no role.
pub fn roles_from_texts(names: &Vec<String>) -> (r: Option<Vec<Role>>)
    ensures
        match r {
            Some(rs) => roles_named(string_views(names@)) == Some(rs@),
            None => roles_named(string_views(names@)) is None,
        },
{
    let ghost ns = string_views(names@);
    let mut out: Vec<Role> = Vec::new();
    let mut i: usize = 0;
    while i < names.len()
        invariant
            i <= names.len(),
            ns == string_views(names@),
            out@.len() == i,
            forall|k: int| 0 <= k < i ==> role_named(#[trigger] ns[k]) == Some(out@[k]),
        decreases names.len() - i,
    {
        match role_from_text(&names[i]) {
            Some(role) => {
                out.push(role);
                i = i + 1;
            },
            None => {
                assert(role_named(ns[i as int]) is None);
                return None;
            },
        }
    }
    assert(forall|k: int| 0 <= k < ns.len() ==> (#[trigger] role_named(ns[k])) is Some);
    assert(ns.map_values(|n: Seq<char>| role_named(n)->0) =~= out@);
    Some(out)
}

impl Claims {
    /// Claims for `sub` holding `roles`, expiring one token lifetime after `now`.
    pub fn new(sub: &str, roles: &Vec<Role>, now: u64) -> (c: Claims)
        requires
            now <= u64::MAX - TOKEN_TTL,
        ensures
            c@ == (ClaimsModel { sub: sub@, exp: (now + TOKEN_TTL) as u64, roles: roles@ }),
    {
        let mut copy: Vec<Role> = Vec::new();
        let mut i: usize = 0;
        while i < roles.len()
            invariant
                i <= roles.len(),
                copy@ == roles@.subrange(0, i as int),
            decreases roles.len() - i,
        {
            copy.push(roles[i]);
            i = i + 1;
            assert(copy@ =~= roles@.subrange(0, i as int));
        }
        assert(roles@.subrange(0, roles.len() as int) =~= roles@);
        Claims { sub: sub.to_owned(), exp: now + TOKEN_TTL, roles: copy }
    }
}

/// Signs `c` with `secret`. The token verifies, with the same secret, to exactly `c`
/// while `c.exp` is after the present and as expired afterwards; with any secret that
/// would have signed it otherwise it fails for its signature, whatever it claims.
pub fn encode(c: &Claims, secret: &str) -> (t: String)
    ensures
        t@ == signed_token(c@, secret@),
        forall|now: u64|
            now < c.exp ==> #[trigger] verify_result(t@, secret@, now) == Ok::<
                ClaimsModel,
                VerificationError,
            >(c@),
        forall|now: u64|
            c.exp <= now ==> #[trigger] verify_result(t@, secret@, now) == Err::<
                ClaimsModel,
                VerificationError,
            >(VerificationError::Expired),
        forall|other: Seq<char>, now: u64|
            signed_token(c@, other) != t@ ==> #[trigger] verify_result(t@, other, now) == Err::<
                ClaimsModel,
                VerificationError,
            >(VerificationError::SignatureInvalid),
        t@.len() > 0,
        forall|i: int| 0 <= i < t@.len() ==> is_token_char(#[trigger] t@[i]),
{
    let names = role_texts(&c.roles);
    let t = jwt_encode(secret, c.sub.as_str(), c.exp, &names);
    proof {
        lemma_role_names_read_back(c.roles@);
        assert forall|other: Seq<char>, now: u64|
            signed_token(c@, other) != t@ implies #[trigger] verify_result(t@, other, now)
            == Err::<ClaimsModel, VerificationError>(VerificationError::SignatureInvalid) by {
            assert(jwt_claims(t@, other) == decoded_err(DecodeFailure::BadSignature));
        }
    }
    t
}

/// Issues a token for `sub` holding `roles`, valid for one token lifetime from `now`.
pub fn issue(sub: &str, roles: &Vec<Role>, now: u64, secret: &str) -> (t: String)
    requires
        now <= u64::MAX - TOKEN_TTL,
    ensures
        ({
            let c = ClaimsModel { sub: sub@, exp: (now + TOKEN_TTL) as u64, roles: roles@ };
            &&& t@ == signed_token(c, secret@)
            &&& forall|later: u64|
                later < c.exp ==> #[trigger] verify_result(t@, secret@, later) == Ok::<
                    ClaimsModel,
                    VerificationError,
                >(c)
            &&& forall|later: u64|
                c.exp <= later ==> #[trigger] verify_result(t@, secret@, later) == Err::<
                    ClaimsModel,
                    VerificationError,
                >(VerificationError::Expired)
            &&& forall|other: Seq<char>, later: u64|
                signed_token(c, other) != t@ ==> #[trigger] verify_result(t@, other, later)
                    == Err::<ClaimsModel, VerificationError>(VerificationError::SignatureInvalid)
            &&& t@.len() > 0
            &&& forall|i: int| 0 <= i < t@.len() ==> is_token_char(#[trigger] t@[i])
        }),
{
    let c = Claims::new(sub, roles, now);
    encode(&c, secret)
}

/// Reads the outcome of decoding a token at time `now`: the claims when it decoded,
/// names known roles only and expires after `now`.
pub fn claims_from_decoded(decoded: Result<(String, u64, Vec<String>), DecodeFailure>, now: u64) -> (r:
    Result<Claims, VerificationError>)
    ensures
        ({
            let d = match decoded {
                Ok((s, e, n)) => Ok::<(Seq<char>, u64, Seq<Seq<char>>), DecodeFailure>(
                    (s@, e, string_views(n@)),
                ),
                Err(f) => Err::<(Seq<char>, u64, Seq<Seq<char>>), DecodeFailure>(f),
            };
            match r {
                Ok(c) => claims_result(d, now) == Ok::<ClaimsModel, VerificationError>(c@),
                Err(e) => claims_result(d, now) == Err::<ClaimsModel, VerificationError>(e),
            }
        }),
{
    match decoded {
        Err(DecodeFailure::Malformed) => Err(VerificationError::Malformed),
        Err(DecodeFailure::BadSignature) => Err(VerificationError::SignatureInvalid),
        Ok((sub, exp, names)) => match roles_from_texts(&names) {
            None => Err(VerificationError::Malformed),
            Some(roles) => {
                if exp <= now {
                    Err(VerificationError::Expired)
                } else {
                    Ok(Claims { sub, exp, roles })
                }
            },
        },
    }
}

/// Checks `token` against `secret` at time `now` and returns the claims it carries.
pub fn verify(token: &str, secret: &str, now: u64) -> (r: Result<Claims, VerificationError>)
    ensures
        match r {
            Ok(c) => verify_result(token@, secret@, now) == Ok::<ClaimsModel, VerificationError>(c@),
            Err(e) => verify_result(token@, secret@, now) == Err::<ClaimsModel, VerificationError>(e),
        },
{
    claims_from_decoded(jwt_decode(token, secret), now)
}

} // verus!

use vstd::prelude::*;

use crate::error::GatewayError;
use crate::guard::RoleGuard;
use crate::text::chars_of;
use crate::token::{verify, verify_result, Claims, ClaimsModel};

verus! {

/// The separators between words of a header value: a value holds no other whitespace.
pub open spec fn is_blank(c: char) -> bool {
    c == ' ' || c == '\t'
}

/// `s` without its leading blanks.
pub open spec fn skip_blanks(s: Seq<char>) -> Seq<char>
    decreases s.len(),
{
    if s.len() > 0 && is_blank(s[0]) {
        skip_blanks(s.drop_first())
    } else {
        s
    }
}

/// The length of the word that `s` starts with.
pub open spec fn word_len(s: Seq<char>) -> nat
    decreases s.len(),
{
    if s.len() > 0 && !is_blank(s[0]) {
        1 + word_len(s.drop_first())
    } else {
        0
    }
}

/// The second word of an `Authorization` value (`Bearer <token>`), if it has one.
pub open spec fn bearer_token(h: Seq<char>) -> Option<Seq<char>> {
    let a = skip_blanks(h);
    let b = skip_blanks(a.subrange(word_len(a) as int, a.len() as int));
    let w = word_len(b);
    if w > 0 {
        Some(b.subrange(0, w as int))
    } else {
        None
    }
}

/// The `Authorization` value that presents the token `t`.
pub open spec fn bearer_header(t: Seq<char>) -> Seq<char> {
    seq!['B', 'e', 'a', 'r', 'e', 'r', ' '] + t
}

proof fn lemma_word_len_whole(s: Seq<char>)
    requires
        forall|i: int| 0 <= i < s.len() ==> !is_blank(#[trigger] s[i]),
    ensures
        word_len(s) == s.len(),
    decreases s.len(),
{
    if s.len() > 0 {
        lemma_word_len_whole(s.drop_first());
    }
}

proof fn lemma_word_then_blank(w: Seq<char>, rest: Seq<char>)
    requires
        forall|i: int| 0 <= i < w.len() ==> !is_blank(#[trigger] w[i]),
        rest.len() > 0,
        is_blank(rest[0]),
    ensures
        word_len(w + rest) == w.len(),
    decreases w.len(),
{
    if w.len() == 0 {
        assert(w + rest =~= rest);
    } else {
        assert((w + rest).drop_first() =~= w.drop_first() + rest);
        lemma_word_then_blank(w.drop_first(), rest);
    }
}

/// A token without blanks, presented as `Bearer <token>`, is the bearer token.
pub proof fn lemma_bearer_header(t: Seq<char>)
    requires
        t.len() > 0,
        forall|i: int| 0 <= i < t.len() ==> !is_blank(#[trigger] t[i]),
    ensures
        bearer_token(bearer_header(t)) == Some(t),
{
    let h = bearer_header(t);
    let w = seq!['B', 'e', 'a', 'r', 'e', 'r'];
    let rest = seq![' '] + t;
    assert(h =~= w + rest);
    assert(skip_blanks(h) == h);
    lemma_word_then_blank(w, rest);
    assert(h.subrange(6, h.len() as int) =~= rest);
    assert(rest.drop_first() =~= t);
    assert(skip_blanks(rest) == skip_blanks(t));
    assert(skip_blanks(t) == t);
    lemma_word_len_whole(t);
    assert(t.subrange(0, t.len() as int) =~= t);
}

/// The first position at or after `i` that holds no blank.
fn skip_blanks_from(v: &Vec<char>, i: usize) -> (j: usize)
    requires
        i <= v.len(),
    ensures
        i <= j <= v.len(),
        v@.subrange(j as int, v.len() as int) == skip_blanks(v@.subrange(i as int, v.len() as int)),
{
    let mut j: usize = i;
    while j < v.len() && (v[j] == ' ' || v[j] == '\t')
        invariant
            i <= j <= v.len(),
            skip_blanks(v@.subrange(j as int, v.len() as int)) == skip_blanks(
                v@.subrange(i as int, v.len() as int),
            ),
        decreases v.len() - j,
    {
        assert(v@.subrange(j as int, v.len() as int).drop_first() =~= v@.subrange(
            j + 1,
            v.len() as int,
        ));
        j = j + 1;
    }
    j
}

/// The end of the word that starts at `i`.
fn word_end(v: &Vec<char>, i: usize) -> (j: usize)
    requires
        i <= v.len(),
    ensures
        i <= j <= v.len(),
        j - i == word_len(v@.subrange(i as int, v.len() as int)),
{
    let mut j: usize = i;
    while j < v.len() && !(v[j] == ' ' || v[j] == '\t')
        invariant
            i <= j <= v.len(),
            word_len(v@.subrange(i as int, v.len() as int)) == (j - i) + word_len(
                v@.subrange(j as int, v.len() as int),
            ),
        decreases v.len() - j,
    {
        assert(v@.subrange(j as int, v.len() as int).drop_first() =~= v@.subrange(
            j + 1,
            v.len() as int,
        ));
        j = j + 1;
    }
    j
}

/// Takes the token out of an `Authorization` value.
pub fn extract_bearer(h: &str) -> (r: Option<String>)
    ensures
        match r {
            Some(t) => bearer_token(h@) == Some(t@),
            None => bearer_token(h@) is None,
        },
{
    let v = chars_of(h);
    let a = skip_blanks_from(&v, 0);
    let a_end = word_end(&v, a);
    let b = skip_blanks_from(&v, a_end);
    let b_end = word_end(&v, b);
    proof {
        let s = v@.subrange(a as int, v.len() as int);
        assert(v@.subrange(0, v.len() as int) =~= h@);
        assert(s.subrange(word_len(s) as int, s.len() as int) =~= v@.subrange(
            a_end as int,
            v.len() as int,
        ));
    }
    if b_end > b {
        let t = crate::text::slice_chars(&v, b, b_end);
        proof {
            assert(t@ =~= v@.subrange(b as int, v.len() as int).subrange(0, (b_end - b) as int));
        }
        Some(crate::text::string_of(&t))
    } else {
        None
    }
}

/// What authenticating a request with the given `Authorization` value yields.
pub open spec fn authentication_result(header: Option<Seq<char>>, secret: Seq<char>, now: u64) -> Result<
    ClaimsModel,
    GatewayError,
> {
    match header {
        None => Err(GatewayError::Unauthenticated),
        Some(h) => match bearer_token(h) {
            None => Err(GatewayError::Unauthenticated),
            Some(t) => match verify_result(t, secret, now) {
                Ok(c) => Ok(c),
                Err(_) => Err(GatewayError::Unauthenticated),
            },
        },
    }
}

/// The token check in front of every protected route, holding the signing secret.
pub struct Auth {
    secret: String,
}

impl Auth {
    /// The secret that tokens are checked against.
    pub closed spec fn secret(&self) -> Seq<char> {
        self.secret@
    }

    pub fn new(secret: &str) -> (a: Auth)
        ensures
            a.secret() == secret@,
    {
        Auth { secret: secret.to_owned() }
    }

    /// Establishes who the caller is from the `Authorization` value at time `now`.
    /// Every failure is the same `Unauthenticated`: the reason is not revealed.
    pub fn authenticate(&self, header: Option<&str>, now: u64) -> (r: Result<Claims, GatewayError>)
        ensures
            match r {
                Ok(c) => authentication_result(
                    match header {
                        Some(h) => Some(h@),
                        None => None,
                    },
                    self.secret(),
                    now,
                ) == Ok::<ClaimsModel, GatewayError>(c@),
                Err(e) => authentication_result(
                    match header {
                        Some(h) => Some(h@),
                        None => None,
                    },
                    self.secret(),
                    now,
                ) == Err::<ClaimsModel, GatewayError>(e),
            },
    {
        match header {
            None => Err(GatewayError::Unauthenticated),
            Some(h) => match extract_bearer(h) {
                None => Err(GatewayError::Unauthenticated),
                Some(t) => match verify(t.as_str(), self.secret.as_str(), now) {
                    Ok(c) => Ok(c),
                    Err(_) => Err(GatewayError::Unauthenticated),
                },
            },
        }
    }

    /// Authentication followed by the guard: the claims of an admitted caller,
    /// `Unauthenticated` without valid identity, `Unauthorized` without a required role.
    pub fn gate(&self, header: Option<&str>, guard: &RoleGuard, now: u64) -> (r: Result<
        Claims,
        GatewayError,
    >)
        ensures
            ({
                let auth = authentication_result(
                    match header {
                        Some(h) => Some(h@),
                        None => None,
                    },
                    self.secret(),
                    now,
                );
                match auth {
                    Err(e) => r == Err::<Claims, GatewayError>(e),
                    Ok(c) => if guard.admits(Some(c.roles)) {
                        r is Ok && r->Ok_0@ == c
                    } else {
                        r == Err::<Claims, GatewayError>(GatewayError::Unauthorized)
                    },
                }
            }),
    {
        let c = self.authenticate(header, now)?;
        if guard.check(Some(&c)) {
            Ok(c)
        } else {
            Err(GatewayError::Unauthorized)
        }
    }
}

} // verus!

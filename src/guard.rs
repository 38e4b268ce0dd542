use vstd::prelude::*;

use crate::role::Role;
use crate::token::Claims;

verus! {

/// Whether some role in `held` is among `required`.
pub open spec fn shares_role(held: Seq<Role>, required: Seq<Role>) -> bool {
    exists|i: int, j: int| 0 <= i < held.len() && 0 <= j < required.len() && held[i] == required[j]
}

/// Whether `required` contains `r`.
pub(crate) fn contains_role(required: &Vec<Role>, r: Role) -> (b: bool)
    ensures
        b == exists|j: int| 0 <= j < required@.len() && required@[j] == r,
{
    let mut j: usize = 0;
    while j < required.len()
        invariant
            j <= required.len(),
            forall|k: int| 0 <= k < j ==> required@[k] != r,
        decreases required.len() - j,
    {
        if required[j] == r {
            return true;
        }
        j = j + 1;
    }
    false
}

/// Whether some role in `held` is among `required`.
fn any_shared(held: &Vec<Role>, required: &Vec<Role>) -> (b: bool)
    ensures
        b == shares_role(held@, required@),
{
    let mut i: usize = 0;
    while i < held.len()
        invariant
            i <= held.len(),
            forall|k: int, j: int|
                0 <= k < i && 0 <= j < required@.len() ==> held@[k] != required@[j],
        decreases held.len() - i,
    {
        if contains_role(required, held[i]) {
            proof {
                let j = choose|j: int| 0 <= j < required@.len() && required@[j] == held@[i as int];
                assert(held@[i as int] == required@[j]);
            }
            return true;
        }
        i = i + 1;
    }
    false
}

/// Admission to a route that asks for any one of a set of roles.
pub struct RoleGuard(pub Vec<Role>);

impl RoleGuard {
    /// Whether the guard admits a request that carries `claims`: only when claims are
    /// present and hold at least one of the required roles.
    pub open spec fn admits(&self, claims: Option<Seq<Role>>) -> bool {
        match claims {
            Some(held) => shares_role(held, self.0@),
            None => false,
        }
    }

    pub fn check(&self, claims: Option<&Claims>) -> (r: bool)
        ensures
            claims is None ==> !r,
            claims matches Some(c) ==> r == self.admits(Some(c.roles@)),
    {
        match claims {
            None => false,
            Some(c) => any_shared(&c.roles, &self.0),
        }
    }
}

} // verus!

use vstd::prelude::*;

verus! {

/// A level of authorization that a user may hold.
#[derive(Clone, Copy, Debug, PartialEq, Eq, Structural)]
pub enum Role {
    Admin,
    User,
    Guest,
}

} // verus!

//! An authenticating gateway: signed bearer tokens, role-based admission and
//! the decisions of a single-upstream forwarding proxy.
pub mod error;
pub mod role;
pub mod text;
pub mod token;
pub mod guard;
pub mod auth;
pub mod proxy;
pub mod account;

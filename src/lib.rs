//! Reconciles the logins of a local password store with those of a login-sync
//! service: it reads logins out of decrypted secrets, folds their filter markers
//! into one policy, picks the secret that holds the sync account's credential, and
//! decides which remote logins to create, update or delete.
use vstd::prelude::*;

pub mod filter;
pub mod login;
pub mod reconcile;
pub mod credential;
pub mod laws;

verus! {

} // verus!

//! Credential and token authentication core: salted password hashing and
//! verification, and an account-bound bearer-token session mechanism.

pub mod auth;
pub mod password;

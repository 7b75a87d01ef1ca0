//! Prolock: a password manager that keeps named bundles of credentials and
//! free-text documents in a password-protected file.
//!
//! This crate holds the verified core of the application: the data model,
//! the bookkeeping of secrets, the text handling of the storage file and the
//! decision logic of the user interface.
use vstd::prelude::*;

pub mod bundle;
pub mod controller;
pub mod data;
pub mod secrets;
pub mod sequence;
pub mod ui;

verus! {

} // verus!

//! A local-first password vault: key derivation, authenticated encryption with
//! length-hiding padding, the encrypted vault envelope, the access guard and
//! the audit trail, each with a machine-checked contract.

pub mod api;
pub mod clock;
pub mod crypto;
pub mod db;
pub mod entry;
pub mod envelope;
pub mod security;
pub mod text;
pub mod vault;

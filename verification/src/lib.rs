//! The access layer of a multi-tenant file store.
//!
//! Every file operation of a client passes through three checks before the
//! file system is touched: the bearer credential is verified and yields the
//! caller's identity, the path that the client names is confined to the
//! caller's own directory, and a server in read-only mode refuses every
//! operation that would change anything.

pub mod config;
pub mod credentials;
pub mod decimal;
pub mod error;
pub mod files;
pub mod pages;
pub mod response;
pub mod sandbox;
pub mod text;

//! Credential encoding and verification, and session-token issuance, for
//! a wiki's login flow: passwords become durable, self-describing encoded
//! credentials; logins are checked against them; successful logins get
//! unguessable, store-unique session tokens.

pub mod app;
pub mod asset;
pub mod auth;
pub mod codec;
pub mod controllers;
mod entropy;
pub mod model;
pub mod output;

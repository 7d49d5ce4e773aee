//! Session and credential management for a quiz-authoring backend.
//!
//! The crate covers the authentication core of the service: parsing HTTP
//! Basic-Auth headers, salted password hashing, account signup and login,
//! and issuing, resolving and revoking cache-backed sessions.

pub mod auth;
pub mod config;
pub mod error;
pub mod graphql;
pub mod ident;
pub mod question;
pub mod quiz_template;
pub mod session;
pub mod text;
pub mod user;
pub mod vault;

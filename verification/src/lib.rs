//! Protocol-translation core for large-language-model provider APIs.
//!
//! A caller builds one uniform request (prompt, optional files, optional
//! JSON output shape) and picks one of three provider adapters. The library
//! turns the uniform request into the provider's wire body, and turns the
//! provider's response body back into one uniform result. All of that is
//! pure and verified; the HTTP exchange itself, and the conversion between
//! raw JSON text and this crate's JSON model, live outside the library.

pub mod chat;
pub mod json;
pub mod messages;
pub mod mode;
pub mod model;
pub mod responses;
pub mod schema;
pub mod schema_laws;
pub mod wire;

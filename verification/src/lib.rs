//! A small social-network core: accounts, follow relationships, short text
//! posts ("tweets"), bearer-token sessions, and a per-user reverse-chronological
//! timeline, together with the typed endpoint-contract layer that binds each
//! endpoint to its HTTP method, URL template, payload shape and response shape.
//!
//! Transport, persistence and presentation are left to the surrounding
//! program; everything here works on plain values and is verified.

pub mod api;
pub mod decode;
pub mod errors;
pub mod graph;
pub mod json;
pub mod laws;
pub mod registry;
pub mod render;
pub mod seq_facts;
pub mod session;
pub mod timeline;
pub mod tweets;
pub mod users;
pub mod validate;

//! An HTTP gateway for agents: it admits, authenticates and routes requests, answers them from
//! a document store, language models and workflows, and keeps account of what it serves.
//!
//! This library holds the rules. It does no input or output of its own: what is read, stored or
//! asked elsewhere comes in as values, and goes out as values.

pub mod access_laws;
pub mod auth;
pub mod bridge;
pub mod bridge_laws;
pub mod chat;
pub mod chat_laws;
pub mod clock;
pub mod config;
pub mod connection;
pub mod degradation;
pub mod dispatch_laws;
pub mod documents;
pub mod encoding;
pub mod handler_laws;
pub mod handlers;
pub mod hashing;
pub mod json;
pub mod keyed;
pub mod oauth;
pub mod oauth_laws;
pub mod observe;
pub mod observe_laws;
pub mod operation_laws;
pub mod probes;
pub mod ratelimit;
pub mod ratio;
pub mod requests;
pub mod response;
pub mod router;
pub mod server;
pub mod server_laws;
pub mod shadow;
pub mod slo;
pub mod slo_laws;
pub mod tenant;
pub mod text;
pub mod text_laws;
pub mod token_laws;
pub mod tool_laws;
pub mod tools;
pub mod workflow_laws;
pub mod workflows;

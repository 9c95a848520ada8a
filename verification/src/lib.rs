//! A local-loopback OAuth2 authorization-code-with-PKCE handshake.
//!
//! The crate generates PKCE proof material, builds the provider-facing
//! authorization URL, decides what an ephemeral single-shot callback
//! listener does with each incoming request, validates the anti-forgery
//! state nonce, and interprets the token-endpoint response into a
//! session credential.  All decisions are verified; the surrounding
//! process (sockets, browser launch, HTTP transport) stays outside and
//! only moves bytes between them.

pub mod bytes;
pub mod codec;
pub mod config;
pub mod errors;
pub mod flow;
pub mod listener;
pub mod nav;
pub mod pkce;
pub mod query;
pub mod request;
pub mod token;

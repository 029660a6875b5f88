//! Server-side core of an OAuth2 authorization-code login with PKCE.
//!
//! The crate holds the security-critical logic of the flow: the session
//! store, CSRF and PKCE handling, the callback decision sequence, the
//! authenticated-access gate, and the profile wire format. The HTTP and
//! network plumbing around it lives outside the library and hands it
//! plain values.

pub mod errors;
pub mod models;
pub mod store;
pub mod flow;
pub mod provider;
pub mod wire;

//! OAuth2/OIDC (PKCE) login core and a session store fronted by a bounded
//! LRU cache.
//!
//! The library covers the pure and stateful logic of the flow: PKCE/CSRF
//! generation, authorization-URL building, callback validation, user
//! resolution (upsert by subject), and the cache-fronted session store.
//! Network and database transport belong to the surrounding application.

pub mod cache;
pub mod codec;
pub mod column;
pub mod errors;
pub mod flow;
pub mod oauth;
pub mod session;
pub mod state;
pub mod store;
pub mod text;
pub mod urls;
pub mod users;

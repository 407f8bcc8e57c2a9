//! Error taxonomy of the login flow and of the session store.

use vstd::prelude::*;

verus! {

/// Failures of the login flow: a malformed endpoint in the provider
/// configuration, a transport failure contacting the provider, or an
/// unexpected response from it.
#[derive(Clone, Copy, Debug, PartialEq, Eq, Structural)]
pub enum AuthError {
    Config,
    Network,
    Provider,
}

/// Failures of the session store: durable storage unreachable or the
/// operation refused, a payload that cannot be represented, or a stored
/// payload that cannot be read back.
#[derive(Clone, Copy, Debug, PartialEq, Eq, Structural)]
pub enum StoreError {
    Backend,
    Encode,
    Decode,
}

} // verus!

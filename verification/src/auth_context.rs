//! Who calls, and what a caller may do.
use vstd::prelude::*;

verus! {

/// What kind of principal a credential names.
#[derive(Debug, Clone, Copy, PartialEq, Eq, Structural)]
pub enum PrincipalKind {
    Human,
    Management,
    Runtime,
}

/// What a principal may do with deliveries.
#[derive(Debug, Clone, Copy, PartialEq, Eq, Structural)]
pub enum DeliveryCapability {
    Read,
    Management,
}

/// How a host authenticates.
#[derive(Debug, Clone, Copy, PartialEq, Eq, Structural)]
pub enum AuthMode {
    Community,
    Enterprise,
}

/// A request is refused for what it presents.
#[derive(Debug, PartialEq, Eq)]
pub enum AuthError {
    Unauthorized(String),
    InvalidCredential(String),
}

} // verus!

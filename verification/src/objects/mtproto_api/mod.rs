//! The objects of the authorization-key exchange.

/// Available constructors
pub mod constructors;
/// Available functions
pub mod functions;
/// Available types
pub mod types;

//! Document search: the predicates, their combination and projection, tag
//! autocomplete, and the registration handshake that yields the storage
//! configuration.

pub mod text;
pub mod document;
pub mod search;
pub mod registration;
pub mod laws;

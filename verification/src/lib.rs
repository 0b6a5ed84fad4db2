//! Global object identification for a graph-style query API.
//!
//! Every object carries one opaque identifier, unique across all object
//! types: the object's own UUID without its hyphens, followed by the decimal
//! tag of the object's type.

pub mod canonical;
pub mod codec;
pub mod decimal;
pub mod dispatch;
pub mod registry;

//! An authenticated counter store: each owner has one counter, kept at an
//! address derived from the owner's identity, and only that owner may
//! increment it.

pub mod identity;
pub mod address;
pub mod record;
pub mod store;

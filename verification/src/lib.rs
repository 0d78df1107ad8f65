//! A small image cache client: it lists image addresses offered by a remote
//! backend, names the local cache entry that belongs to an address, and decides
//! step by step how an image is brought into the cache.

pub mod cache;
pub mod error;
pub mod fetch;
pub mod json;
pub mod lister;
pub mod model;

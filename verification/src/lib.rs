//! A minimal social-feed data service: users and posts (with nested
//! comments) held in persistent key-value stores, guarded by field
//! validation and password-based authorization, with a shared
//! auto-incrementing identifier counter.

pub mod codec;
pub mod feed;
pub mod stable;
pub mod text;
pub mod types;

//! Authentication and authorization core of a multi-user content service:
//! password hashing, signed bearer tokens, identity resolution, role gating
//! and ownership-gated mutation of posts.

pub mod account;
pub mod dtos;
pub mod encoding;
pub mod error;
pub mod identity;
pub mod models;
pub mod ownership;
pub mod password;
pub mod token;

//! Server-side core of an end-to-end encrypted posting service.
//!
//! The server proves who a user is by sealing a random challenge to the
//! user's registered public key, and distributes each post's content key
//! through per-reader sealed envelopes. It never sees plaintext content,
//! private keys or passwords.
use vstd::prelude::*;

pub mod models;
pub mod codec;
pub mod store;
pub mod auth;
pub mod post;
pub mod noa;
pub mod user;
pub mod server_public_key;

verus! {

/// The number of seconds after which a challenge stops being handed out again.
pub const TIMEOUT_SECONDS: i64 = 3600;

/// The number of grants listed on one page.
pub const PAGE_SIZE: usize = 25;

} // verus!

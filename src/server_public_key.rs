//! The server's public key, as clients need it to open challenges.
use vstd::prelude::*;
use crate::codec::{base64_of, encode};

verus! {

/// The server's public key `server_public` rendered as base64.
pub fn get(server_public: &Vec<u8>) -> (r: String)
    ensures
        r@ == base64_of(server_public@),
{
    encode(server_public)
}

} // verus!

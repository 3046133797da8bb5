//! Calls into base64, sodiumoxide and rand, with what the library relies on.
use vstd::prelude::*;
use rand::Rng;
use sodiumoxide::crypto::box_ as pkc;

verus! {

/// The length of a secret challenge in bytes.
pub const TOKEN_BYTES: usize = 32;

/// The length of a sealing nonce in bytes.
pub const NONCE_BYTES: usize = 24;

/// The length of a public or secret key in bytes.
pub const KEY_BYTES: usize = 32;

/// The standard base64 text of a byte string.
pub uninterp spec fn base64_of(b: Seq<u8>) -> Seq<char>;

/// The bytes a text decodes to as standard base64, if it is valid base64.
pub uninterp spec fn base64_decoded(s: Seq<char>) -> Option<Seq<u8>>;

/// The ciphertext of message `m` under nonce `n`, sealed to the receiver's
/// public key `pk` by the sender's secret key `sk`, where `pk` is not of
/// small order.
pub uninterp spec fn sealed_of(m: Seq<u8>, n: Seq<u8>, pk: Seq<u8>, sk: Seq<u8>) -> Seq<u8>;

/// Relies on base64::encode: the standard base64 text of the bytes, which
/// base64::decode turns back into the same bytes.
#[verifier::external_body]
pub(crate) fn encode(b: &Vec<u8>) -> (r: String)
    ensures
        r@ == base64_of(b@),
        base64_decoded(r@) == Some(b@),
{
    base64::encode(b)
}

/// Relies on base64::decode: the bytes of valid standard base64 text, an
/// error otherwise.
#[verifier::external_body]
pub(crate) fn decode(s: &String) -> (r: Option<Vec<u8>>)
    ensures
        r is Some <==> base64_decoded(s@) is Some,
        r is Some ==> base64_decoded(s@) == Some(r->0@),
{
    base64::decode(s).ok()
}

/// Relies on rand's OsRng: a secret of fresh random bytes from the operating
/// system.
#[verifier::external_body]
pub(crate) fn random_token() -> (r: Vec<u8>)
    ensures
        r@.len() == TOKEN_BYTES,
{
    rand::rngs::OsRng.gen::<[u8; 32]>().to_vec()
}

/// Relies on sodiumoxide's box_::gen_nonce: a fresh random nonce.
#[verifier::external_body]
pub(crate) fn fresh_nonce() -> (r: Vec<u8>)
    ensures
        r@.len() == NONCE_BYTES,
{
    pkc::gen_nonce().0.to_vec()
}

/// The public keys of small order that libsodium refuses to agree a key
/// with, compared with the top bit of the last byte cleared: 0, 1, the two
/// points of order 8, p - 1, p and p + 1, little-endian.
pub open spec fn low_order_point(i: int) -> Seq<u8> {
    if i == 0 {
        seq![
            0x00u8, 0x00, 0x00, 0x00, 0x00, 0x00, 0x00, 0x00, 0x00, 0x00, 0x00, 0x00, 0x00, 0x00,
            0x00, 0x00, 0x00, 0x00, 0x00, 0x00, 0x00, 0x00, 0x00, 0x00, 0x00, 0x00, 0x00, 0x00,
            0x00, 0x00, 0x00, 0x00,
        ]
    } else if i == 1 {
        seq![
            0x01u8, 0x00, 0x00, 0x00, 0x00, 0x00, 0x00, 0x00, 0x00, 0x00, 0x00, 0x00, 0x00, 0x00,
            0x00, 0x00, 0x00, 0x00, 0x00, 0x00, 0x00, 0x00, 0x00, 0x00, 0x00, 0x00, 0x00, 0x00,
            0x00, 0x00, 0x00, 0x00,
        ]
    } else if i == 2 {
        seq![
            0xe0u8, 0xeb, 0x7a, 0x7c, 0x3b, 0x41, 0xb8, 0xae, 0x16, 0x56, 0xe3, 0xfa, 0xf1, 0x9f,
            0xc4, 0x6a, 0xda, 0x09, 0x8d, 0xeb, 0x9c, 0x32, 0xb1, 0xfd, 0x86, 0x62, 0x05, 0x16,
            0x5f, 0x49, 0xb8, 0x00,
        ]
    } else if i == 3 {
        seq![
            0x5fu8, 0x9c, 0x95, 0xbc, 0xa3, 0x50, 0x8c, 0x24, 0xb1, 0xd0, 0xb1, 0x55, 0x9c, 0x83,
            0xef, 0x5b, 0x04, 0x44, 0x5c, 0xc4, 0x58, 0x1c, 0x8e, 0x86, 0xd8, 0x22, 0x4e, 0xdd,
            0xd0, 0x9f, 0x11, 0x57,
        ]
    } else if i == 4 {
        seq![
            0xecu8, 0xff, 0xff, 0xff, 0xff, 0xff, 0xff, 0xff, 0xff, 0xff, 0xff, 0xff, 0xff, 0xff,
            0xff, 0xff, 0xff, 0xff, 0xff, 0xff, 0xff, 0xff, 0xff, 0xff, 0xff, 0xff, 0xff, 0xff,
            0xff, 0xff, 0xff, 0x7f,
        ]
    } else if i == 5 {
        seq![
            0xedu8, 0xff, 0xff, 0xff, 0xff, 0xff, 0xff, 0xff, 0xff, 0xff, 0xff, 0xff, 0xff, 0xff,
            0xff, 0xff, 0xff, 0xff, 0xff, 0xff, 0xff, 0xff, 0xff, 0xff, 0xff, 0xff, 0xff, 0xff,
            0xff, 0xff, 0xff, 0x7f,
        ]
    } else {
        seq![
            0xeeu8, 0xff, 0xff, 0xff, 0xff, 0xff, 0xff, 0xff, 0xff, 0xff, 0xff, 0xff, 0xff, 0xff,
            0xff, 0xff, 0xff, 0xff, 0xff, 0xff, 0xff, 0xff, 0xff, 0xff, 0xff, 0xff, 0xff, 0xff,
            0xff, 0xff, 0xff, 0x7f,
        ]
    }
}

/// The number of small-order keys libsodium refuses.
pub const LOW_ORDER_POINTS: usize = 7;

/// Whether the 32-byte key `k` is one of the small-order keys, ignoring the
/// top bit of its last byte.
pub open spec fn small_order(k: Seq<u8>) -> bool {
    &&& k.len() == KEY_BYTES
    &&& exists|i: int|
        0 <= i < LOW_ORDER_POINTS && #[trigger] same_point(k, low_order_point(i))
}

/// Whether the 32-byte keys `k` and `p` are equal once the top bit of the
/// last byte is cleared.
pub open spec fn same_point(k: Seq<u8>, p: Seq<u8>) -> bool {
    &&& forall|j: int| 0 <= j < 31 ==> #[trigger] k[j] == p[j]
    &&& k[31] % 128 == p[31]
}

/// The small-order key with index `i`.
fn low_order_bytes(i: usize) -> (r: Vec<u8>)
    requires
        i < LOW_ORDER_POINTS,
    ensures
        r@ == low_order_point(i as int),
{
    let r = if i == 0 {
        vec![
            0x00u8, 0x00, 0x00, 0x00, 0x00, 0x00, 0x00, 0x00, 0x00, 0x00, 0x00, 0x00, 0x00, 0x00,
            0x00, 0x00, 0x00, 0x00, 0x00, 0x00, 0x00, 0x00, 0x00, 0x00, 0x00, 0x00, 0x00, 0x00,
            0x00, 0x00, 0x00, 0x00,
        ]
    } else if i == 1 {
        vec![
            0x01u8, 0x00, 0x00, 0x00, 0x00, 0x00, 0x00, 0x00, 0x00, 0x00, 0x00, 0x00, 0x00, 0x00,
            0x00, 0x00, 0x00, 0x00, 0x00, 0x00, 0x00, 0x00, 0x00, 0x00, 0x00, 0x00, 0x00, 0x00,
            0x00, 0x00, 0x00, 0x00,
        ]
    } else if i == 2 {
        vec![
            0xe0u8, 0xeb, 0x7a, 0x7c, 0x3b, 0x41, 0xb8, 0xae, 0x16, 0x56, 0xe3, 0xfa, 0xf1, 0x9f,
            0xc4, 0x6a, 0xda, 0x09, 0x8d, 0xeb, 0x9c, 0x32, 0xb1, 0xfd, 0x86, 0x62, 0x05, 0x16,
            0x5f, 0x49, 0xb8, 0x00,
        ]
    } else if i == 3 {
        vec![
            0x5fu8, 0x9c, 0x95, 0xbc, 0xa3, 0x50, 0x8c, 0x24, 0xb1, 0xd0, 0xb1, 0x55, 0x9c, 0x83,
            0xef, 0x5b, 0x04, 0x44, 0x5c, 0xc4, 0x58, 0x1c, 0x8e, 0x86, 0xd8, 0x22, 0x4e, 0xdd,
            0xd0, 0x9f, 0x11, 0x57,
        ]
    } else if i == 4 {
        vec![
            0xecu8, 0xff, 0xff, 0xff, 0xff, 0xff, 0xff, 0xff, 0xff, 0xff, 0xff, 0xff, 0xff, 0xff,
            0xff, 0xff, 0xff, 0xff, 0xff, 0xff, 0xff, 0xff, 0xff, 0xff, 0xff, 0xff, 0xff, 0xff,
            0xff, 0xff, 0xff, 0x7f,
        ]
    } else if i == 5 {
        vec![
            0xedu8, 0xff, 0xff, 0xff, 0xff, 0xff, 0xff, 0xff, 0xff, 0xff, 0xff, 0xff, 0xff, 0xff,
            0xff, 0xff, 0xff, 0xff, 0xff, 0xff, 0xff, 0xff, 0xff, 0xff, 0xff, 0xff, 0xff, 0xff,
            0xff, 0xff, 0xff, 0x7f,
        ]
    } else {
        vec![
            0xeeu8, 0xff, 0xff, 0xff, 0xff, 0xff, 0xff, 0xff, 0xff, 0xff, 0xff, 0xff, 0xff, 0xff,
            0xff, 0xff, 0xff, 0xff, 0xff, 0xff, 0xff, 0xff, 0xff, 0xff, 0xff, 0xff, 0xff, 0xff,
            0xff, 0xff, 0xff, 0x7f,
        ]
    };
    assert(r@ =~= low_order_point(i as int));
    r
}

/// Whether the 32-byte keys `k` and `p` are equal once the top bit of the
/// last byte of `k` is cleared.
fn is_same_point(k: &Vec<u8>, p: &Vec<u8>) -> (r: bool)
    requires
        k@.len() == KEY_BYTES,
        p@.len() == KEY_BYTES,
    ensures
        r == same_point(k@, p@),
{
    let mut j: usize = 0;
    while j < 31
        invariant
            0 <= j <= 31,
            k@.len() == KEY_BYTES,
            p@.len() == KEY_BYTES,
            forall|m: int| 0 <= m < j ==> k@[m] == p@[m],
        decreases 31 - j,
    {
        if k[j] != p[j] {
            return false;
        }
        j = j + 1;
    }
    k[31] % 128 == p[31]
}

/// Whether `k` is a key of small order, which no box can be sealed to.
pub fn is_small_order(k: &Vec<u8>) -> (r: bool)
    ensures
        r == small_order(k@),
{
    if k.len() != KEY_BYTES {
        return false;
    }
    let mut i: usize = 0;
    while i < LOW_ORDER_POINTS
        invariant
            0 <= i <= LOW_ORDER_POINTS,
            k@.len() == KEY_BYTES,
            forall|m: int| 0 <= m < i ==> !same_point(k@, low_order_point(m)),
        decreases LOW_ORDER_POINTS - i,
    {
        let p = low_order_bytes(i);
        if is_same_point(k, &p) {
            return true;
        }
        i = i + 1;
    }
    false
}

/// Relies on sodiumoxide's box_::seal: authenticated public-key encryption
/// of `m`. The key and nonce types refuse only wrong lengths; libsodium
/// writes the ciphertext unless the receiver's key is of small order.
#[verifier::external_body]
pub(crate) fn seal(m: &Vec<u8>, n: &Vec<u8>, pk: &Vec<u8>, sk: &Vec<u8>) -> (r: Option<Vec<u8>>)
    ensures
        r is Some <==> (n@.len() == NONCE_BYTES && pk@.len() == KEY_BYTES && sk@.len()
            == KEY_BYTES),
        r is Some && !small_order(pk@) ==> r->0@ == sealed_of(m@, n@, pk@, sk@),
{
    let n = pkc::Nonce::from_slice(n)?;
    let pk = pkc::PublicKey::from_slice(pk)?;
    let sk = pkc::SecretKey::from_slice(sk)?;
    Some(pkc::seal(m, &n, &pk, &sk))
}

} // verus!

//! Challenge-response authentication: a user proves possession of the
//! secret key matching their registered public key by opening a challenge
//! the server sealed to it.
use vstd::prelude::*;
use crate::codec::{
    base64_decoded, base64_of, decode, encode, fresh_nonce, is_small_order, random_token, seal,
    sealed_of, small_order, KEY_BYTES, NONCE_BYTES, TOKEN_BYTES,
};
use crate::models::{AuthInsert, AuthResponse, AuthValidate, Failure};
use crate::store::{challenge_of, has_user, user_index, Store};
use crate::TIMEOUT_SECONDS;

verus! {

/// The challenge that a request at time `now` leaves outstanding, given the
/// one outstanding before (`cur`) and a freshly drawn secret: an unexpired
/// challenge is kept, otherwise the fresh one replaces it for a full window.
pub open spec fn next_challenge(cur: Option<(Seq<char>, i64)>, now: i64, fresh: Seq<char>) -> (
    Seq<char>,
    i64,
) {
    match cur {
        Some((t, e)) => if e < now {
            (fresh, (now + TIMEOUT_SECONDS) as i64)
        } else {
            (t, e)
        },
        None => (fresh, (now + TIMEOUT_SECONDS) as i64),
    }
}

/// The public key registered as `name`.
pub open spec fn key_of(s: Store, name: Seq<char>) -> Seq<char> {
    s.users@[user_index(s.users@, name)].public_key@
}

/// Whether `token` is the secret of the challenge outstanding for `name`.
pub open spec fn proves(s: Store, name: Seq<char>, token: Seq<char>) -> bool {
    &&& has_user(s.users@, name)
    &&& challenge_of(s.challenges@, key_of(s, name)) is Some
    &&& (challenge_of(s.challenges@, key_of(s, name))->0).0 == token
}

/// Whether `new` is `old` with the challenges of every key but `pk` as they
/// were, and the rest of the store untouched.
pub open spec fn same_but_challenge(old: Store, new: Store, pk: Seq<char>) -> bool {
    &&& new.users@ == old.users@
    &&& new.posts@ == old.posts@
    &&& new.grants@ == old.grants@
    &&& forall|k: Seq<char>|
        k != pk ==> #[trigger] challenge_of(new.challenges@, k) == challenge_of(
            old.challenges@,
            k,
        )
}

/// Whether `r` is `token` sealed to public key `pk` by secret key `sk`
/// under some nonce, all rendered as base64.
pub open spec fn sealed_response(r: AuthResponse, token: Seq<char>, pk: Seq<char>, sk: Seq<u8>) -> bool {
    exists|n: Seq<u8>|
        #![trigger base64_of(n)]
        n.len() == NONCE_BYTES && r.nonce@ == base64_of(n) && r.encrypted_token@ == base64_of(
            sealed_of(base64_decoded(token)->0, n, base64_decoded(pk)->0, sk),
        )
}

/// Whether `token` can be sealed to `pk` by `sk`: both decode, the keys
/// have the right length, and `pk` is not of small order.
pub open spec fn sealable(token: Seq<char>, pk: Seq<char>, sk: Seq<u8>) -> bool {
    &&& base64_decoded(token) is Some
    &&& base64_decoded(pk) is Some
    &&& base64_decoded(pk)->0.len() == KEY_BYTES
    &&& !small_order(base64_decoded(pk)->0)
    &&& sk.len() == KEY_BYTES
}

/// With keys unique, the challenge of a key is the one at the position
/// holding that key.
pub proof fn lemma_challenge_at(chs: Seq<AuthInsert>, pk: Seq<char>, j: int)
    requires
        0 <= j < chs.len(),
        chs[j].public_key@ == pk,
        forall|a: int, b: int|
            0 <= a < chs.len() && 0 <= b < chs.len() && a != b ==> #[trigger] chs[a].public_key@
                != #[trigger] chs[b].public_key@,
    ensures
        challenge_of(chs, pk) == Some((chs[j].expected_token@, chs[j].timeout)),
{
    let c = choose|c: int| 0 <= c < chs.len() && chs[c].public_key@ == pk;
    assert(chs[c].public_key@ == chs[j].public_key@);
}

/// Removing the challenge at position `j` takes away the challenge of its
/// key and leaves every other key's challenge as it was.
pub proof fn lemma_remove_challenge(chs0: Seq<AuthInsert>, j: int)
    requires
        0 <= j < chs0.len(),
        forall|a: int, b: int|
            0 <= a < chs0.len() && 0 <= b < chs0.len() && a != b ==> #[trigger] chs0[a].public_key@
                != #[trigger] chs0[b].public_key@,
    ensures
        forall|k: Seq<char>|
            k != chs0[j].public_key@ ==> #[trigger] challenge_of(chs0.remove(j), k)
                == challenge_of(chs0, k),
        forall|m: int|
            0 <= m < chs0.remove(j).len() ==> #[trigger] chs0.remove(j)[m].public_key@
                != chs0[j].public_key@,
        forall|a: int, b: int|
            0 <= a < chs0.remove(j).len() && 0 <= b < chs0.remove(j).len() && a != b
                ==> #[trigger] chs0.remove(j)[a].public_key@
                != #[trigger] chs0.remove(j)[b].public_key@,
        challenge_of(chs0.remove(j), chs0[j].public_key@) is None,
{
    let chs1 = chs0.remove(j);
    let pkv = chs0[j].public_key@;
    assert forall|m: int| 0 <= m < chs1.len() implies chs1[m] == if m < j {
        chs0[m]
    } else {
        chs0[m + 1]
    } by {}
    assert forall|k: Seq<char>| k != pkv implies challenge_of(chs1, k) == challenge_of(chs0, k) by {
        if exists|m: int| 0 <= m < chs0.len() && chs0[m].public_key@ == k {
            let m = choose|m: int| 0 <= m < chs0.len() && chs0[m].public_key@ == k;
            lemma_challenge_at(chs0, k, m);
            if m < j {
                lemma_challenge_at(chs1, k, m);
            } else {
                lemma_challenge_at(chs1, k, m - 1);
            }
        } else {
            assert forall|m: int| 0 <= m < chs1.len() implies chs1[m].public_key@ != k by {
                if m < j {
                } else {
                }
            }
        }
    }
    assert forall|m: int| 0 <= m < chs1.len() implies chs1[m].public_key@ != pkv by {
        if m < j {
            assert(chs0[m].public_key@ != chs0[j].public_key@);
        } else {
            assert(chs0[m + 1].public_key@ != chs0[j].public_key@);
        }
    }
    assert forall|a: int, b: int|
        0 <= a < chs1.len() && 0 <= b < chs1.len() && a != b implies #[trigger] chs1[a].public_key@
        != #[trigger] chs1[b].public_key@ by {
        let a0 = if a < j { a } else { a + 1 };
        let b0 = if b < j { b } else { b + 1 };
        assert(chs0[a0].public_key@ != chs0[b0].public_key@);
    }
}

/// Asking twice within the validity window yields the same secret: a second
/// request at a time no later than the expiry the first one left keeps the
/// challenge as it is, whatever secret it drew.
pub proof fn lemma_request_keeps_secret(
    cur: Option<(Seq<char>, i64)>,
    t1: i64,
    t2: i64,
    fresh1: Seq<char>,
    fresh2: Seq<char>,
)
    requires
        t1 <= i64::MAX - TIMEOUT_SECONDS,
        t2 <= next_challenge(cur, t1, fresh1).1,
    ensures
        next_challenge(Some(next_challenge(cur, t1, fresh1)), t2, fresh2) == next_challenge(
            cur,
            t1,
            fresh1,
        ),
{
}

/// Two requests by the same user, the second within the window the first
/// left, leave the same challenge outstanding: both responses seal the same
/// secret. Here `s1` and `s2` are the stores after each request, as `get`
/// describes them, whatever fresh secrets `f1` and `f2` were drawn.
pub proof fn lemma_second_request_same_secret(
    s0: Store,
    s1: Store,
    s2: Store,
    name: Seq<char>,
    t1: i64,
    t2: i64,
    f1: Seq<char>,
    f2: Seq<char>,
)
    requires
        s0.wf(),
        has_user(s0.users@, name),
        t1 <= i64::MAX - TIMEOUT_SECONDS,
        same_but_challenge(s0, s1, key_of(s0, name)),
        challenge_of(s1.challenges@, key_of(s0, name)) == Some(
            next_challenge(challenge_of(s0.challenges@, key_of(s0, name)), t1, f1),
        ),
        t2 <= (challenge_of(s1.challenges@, key_of(s0, name))->0).1,
        same_but_challenge(s1, s2, key_of(s1, name)),
        challenge_of(s2.challenges@, key_of(s1, name)) == Some(
            next_challenge(challenge_of(s1.challenges@, key_of(s1, name)), t2, f2),
        ),
    ensures
        key_of(s2, name) == key_of(s0, name),
        challenge_of(s2.challenges@, key_of(s0, name)) == challenge_of(
            s1.challenges@,
            key_of(s0, name),
        ),
{
    lemma_request_keeps_secret(challenge_of(s0.challenges@, key_of(s0, name)), t1, t2, f1, f2);
}

/// A successful proof is single-use: once it has been accepted and its
/// challenge consumed, the same secret proves nothing.
pub proof fn lemma_proof_single_use(old: Store, new: Store, name: Seq<char>, token: Seq<char>)
    requires
        old.wf(),
        proves(old, name, token),
        same_but_challenge(old, new, key_of(old, name)),
        challenge_of(new.challenges@, key_of(old, name)) is None,
    ensures
        !proves(new, name, token),
{
}

/// Brings the challenge of the user registered as `username` up to date at
/// time `now`: an unexpired one is kept; a missing or expired one is
/// replaced by `fresh`, valid for `TIMEOUT_SECONDS`. Returns the user's
/// position.
pub fn refresh_challenge(store: &mut Store, username: &String, now: i64, fresh: &String) -> (r:
    Result<usize, Failure>)
    requires
        old(store).wf(),
        now <= i64::MAX - TIMEOUT_SECONDS,
    ensures
        final(store).wf(),
        r is Err <==> !has_user(old(store).users@, username@),
        r is Err ==> r == Err::<usize, Failure>(Failure::NotFound) && *final(store) == *old(store),
        r is Ok ==> {
            let pk = key_of(*old(store), username@);
            &&& r->Ok_0 == user_index(old(store).users@, username@)
            &&& same_but_challenge(*old(store), *final(store), pk)
            &&& challenge_of(final(store).challenges@, pk) == Some(
                next_challenge(challenge_of(old(store).challenges@, pk), now, fresh@),
            )
        },
{
    let idx = match store.find_user(username) {
        Some(i) => i,
        None => {
            return Err(Failure::NotFound);
        },
    };
    let pk = store.users[idx].public_key.clone();
    let ghost chs0 = store.challenges@;
    let ghost pkv = pk@;
    match store.find_challenge(&pk) {
        Some(j) => {
            if store.challenges[j].timeout >= now {
                return Ok(idx);
            }
            store.challenges.remove(j);
            proof {
                lemma_remove_challenge(chs0, j as int);
            }
        },
        None => {},
    }
    let ghost chs1 = store.challenges@;
    store.challenges.push(
        AuthInsert { public_key: pk, expected_token: fresh.clone(), timeout: now + TIMEOUT_SECONDS },
    );
    proof {
        let chs2 = store.challenges@;
        assert(forall|m: int| 0 <= m < chs1.len() ==> chs2[m] == chs1[m]);
        lemma_challenge_at(chs2, pkv, chs1.len() as int);
        assert forall|k: Seq<char>| k != pkv implies challenge_of(chs2, k) == challenge_of(chs1, k) by {
            if exists|m: int| 0 <= m < chs1.len() && chs1[m].public_key@ == k {
                let m = choose|m: int| 0 <= m < chs1.len() && chs1[m].public_key@ == k;
                lemma_challenge_at(chs1, k, m);
                lemma_challenge_at(chs2, k, m);
            } else {
                assert(forall|m: int| 0 <= m < chs2.len() ==> chs2[m].public_key@ != k);
            }
        }
    }
    Ok(idx)
}

/// Checks `token` against the challenge outstanding for `username`. On
/// success the challenge is consumed, so each proof is good once.
pub fn auth_internal(store: &mut Store, token: &String, username: &String) -> (r: bool)
    requires
        old(store).wf(),
    ensures
        final(store).wf(),
        r == proves(*old(store), username@, token@),
        r ==> same_but_challenge(*old(store), *final(store), key_of(*old(store), username@))
            && challenge_of(final(store).challenges@, key_of(*old(store), username@)) is None,
        !r ==> *final(store) == *old(store),
{
    let idx = match store.find_user(username) {
        Some(i) => i,
        None => {
            return false;
        },
    };
    let j = match store.find_challenge(&store.users[idx].public_key) {
        Some(j) => j,
        None => {
            return false;
        },
    };
    if !(store.challenges[j].expected_token == *token) {
        return false;
    }
    let ghost chs0 = store.challenges@;
    store.challenges.remove(j);
    proof {
        lemma_remove_challenge(chs0, j as int);
    }
    true
}

/// Answers a client's proof of identity: whether it holds, consuming the
/// challenge when it does.
pub fn post(store: &mut Store, verify: &AuthValidate) -> (r: bool)
    requires
        old(store).wf(),
    ensures
        final(store).wf(),
        r == proves(*old(store), verify.username@, verify.decrypted_token@),
        r ==> same_but_challenge(
            *old(store),
            *final(store),
            key_of(*old(store), verify.username@),
        ) && challenge_of(final(store).challenges@, key_of(*old(store), verify.username@)) is None,
        !r ==> *final(store) == *old(store),
{
    auth_internal(store, &verify.decrypted_token, &verify.username)
}

/// Seals the base64 secret `token` to the base64 public key `pk` by the
/// server's secret key `sk`, under a fresh nonce. A key of small order, to
/// which nothing can be sealed, is refused with `StoreError`.
pub fn seal_challenge(token: &String, pk: &String, sk: &Vec<u8>) -> (r: Result<AuthResponse, Failure>)
    ensures
        r is Ok <==> sealable(token@, pk@, sk@),
        r is Ok ==> sealed_response(r->Ok_0, token@, pk@, sk@),
        r is Err ==> r->Err_0 == Failure::StoreError,
{
    let key = match decode(pk) {
        Some(k) => k,
        None => {
            return Err(Failure::StoreError);
        },
    };
    let secret = match decode(token) {
        Some(t) => t,
        None => {
            return Err(Failure::StoreError);
        },
    };
    if is_small_order(&key) {
        return Err(Failure::StoreError);
    }
    let nonce = fresh_nonce();
    let sealed = match seal(&secret, &nonce, &key, sk) {
        Some(c) => c,
        None => {
            return Err(Failure::StoreError);
        },
    };
    let r = AuthResponse { encrypted_token: encode(&sealed), nonce: encode(&nonce) };
    assert(r.nonce@ == base64_of(nonce@));
    Ok(r)
}

/// Hands the user registered as `username` their challenge, sealed to
/// their public key by the server's secret key `server_secret` under a
/// fresh nonce. An unexpired challenge is handed out again; a missing or
/// expired one is first replaced by a fresh random secret valid for
/// `TIMEOUT_SECONDS` from `now`.
pub fn get(store: &mut Store, username: &String, now: i64, server_secret: &Vec<u8>) -> (r: Result<
    AuthResponse,
    Failure,
>)
    requires
        old(store).wf(),
        now <= i64::MAX - TIMEOUT_SECONDS,
    ensures
        final(store).wf(),
        r == Err::<AuthResponse, Failure>(Failure::NotFound) <==> !has_user(
            old(store).users@,
            username@,
        ),
        !has_user(old(store).users@, username@) ==> *final(store) == *old(store),
        has_user(old(store).users@, username@) ==> {
            let pk = key_of(*old(store), username@);
            let cur = challenge_of(final(store).challenges@, pk);
            &&& same_but_challenge(*old(store), *final(store), pk)
            &&& exists|t: Seq<u8>|
                t.len() == TOKEN_BYTES && base64_decoded(base64_of(t)) == Some(t) && cur == Some(
                    next_challenge(challenge_of(old(store).challenges@, pk), now, base64_of(t)),
                )
            &&& (r is Ok <==> sealable((cur->0).0, pk, server_secret@))
            &&& (r is Ok ==> sealed_response(r->Ok_0, (cur->0).0, pk, server_secret@))
            &&& (r is Err ==> r->Err_0 == Failure::StoreError)
        },
{
    let bytes = random_token();
    let fresh = encode(&bytes);
    let idx = match refresh_challenge(store, username, now, &fresh) {
        Ok(i) => i,
        Err(e) => {
            return Err(e);
        },
    };
    let pk = &store.users[idx].public_key;
    let j = match store.find_challenge(pk) {
        Some(j) => j,
        None => {
            return Err(Failure::StoreError);
        },
    };
    seal_challenge(&store.challenges[j].expected_token, pk, server_secret)
}

} // verus!

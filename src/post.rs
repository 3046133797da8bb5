//! Publishing and editing posts. A post's content key travels in sealed
//! envelopes: one for the author, stored on the post, and one per reader,
//! stored as an access grant. The server stores them and never opens them.
use vstd::prelude::*;
use crate::auth::{auth_internal, key_of, proves, same_but_challenge};
use crate::models::{Failure, NoaInsert, Post, PostData, PostNOATarget, PostPutData, User};
use crate::store::{challenge_of, has_user, user_index, Store};

verus! {

/// Whether every named reader is registered.
pub open spec fn all_known(users: Seq<User>, targets: Seq<PostNOATarget>) -> bool {
    forall|k: int| 0 <= k < targets.len() ==> has_user(users, #[trigger] targets[k].username@)
}

/// Whether no reader is named twice.
pub open spec fn distinct_readers(targets: Seq<PostNOATarget>) -> bool {
    forall|a: int, b: int|
        0 <= a < targets.len() && 0 <= b < targets.len() && a != b
            ==> #[trigger] targets[a].username@ != #[trigger] targets[b].username@
}

/// The grants that give post `pid` to each named reader, in the order named.
pub open spec fn grants_for(users: Seq<User>, targets: Seq<PostNOATarget>, pid: i32) -> Seq<
    NoaInsert,
> {
    Seq::new(
        targets.len(),
        |k: int|
            NoaInsert {
                user_id: (user_index(users, targets[k].username@) + 1) as i32,
                post_id: pid,
                secret_key: targets[k].encrypted_secret_key,
                nonce: targets[k].nonce,
            },
    )
}

/// The time a new post is stamped with: `now`, or the newest post's time if
/// that is later, so that times never decrease.
pub open spec fn stamp(posts: Seq<Post>, now: i64) -> i64 {
    if posts.len() > 0 && posts.last().time_posted > now {
        posts.last().time_posted
    } else {
        now
    }
}

/// The post `data` asks for, as stored with identifier `pid`.
pub open spec fn post_of(data: PostData, pid: i32, author: i32, time: i64) -> Post {
    Post {
        id: pid,
        content: data.content,
        nonce: data.nonce,
        user_id: author,
        time_posted: time,
        public_key: data.public_key,
        public_key_nonce: data.public_key_nonce,
    }
}

/// The name of the author of the post with identifier `pid`.
pub open spec fn author_of(s: Store, pid: i32) -> Seq<char> {
    s.users@[s.posts@[pid - 1].user_id - 1].username@
}

/// Whether `token` would prove the identity of `username`, without
/// consuming the challenge.
fn holds_proof(store: &Store, token: &String, username: &String) -> (r: bool)
    requires
        store.wf(),
    ensures
        r == proves(*store, username@, token@),
{
    let idx = match store.find_user(username) {
        Some(i) => i,
        None => {
            return false;
        },
    };
    match store.find_challenge(&store.users[idx].public_key) {
        Some(j) => store.challenges[j].expected_token == *token,
        None => false,
    }
}

/// Resolves each named reader to a user identifier: `NotFound` if one is
/// not registered, `Conflict` if one is named twice.
fn resolve_readers(store: &Store, targets: &Vec<PostNOATarget>) -> (r: Result<Vec<i32>, Failure>)
    requires
        store.wf(),
    ensures
        r is Ok <==> all_known(store.users@, targets@) && distinct_readers(targets@),
        r == Err::<Vec<i32>, Failure>(Failure::NotFound) <==> !all_known(store.users@, targets@),
        r is Ok ==> r->Ok_0@.len() == targets@.len() && forall|k: int|
            0 <= k < targets@.len() ==> #[trigger] r->Ok_0@[k] == user_index(
                store.users@,
                targets@[k].username@,
            ) + 1,
        r is Err ==> r->Err_0 == Failure::NotFound || r->Err_0 == Failure::Conflict,
{
    let mut ids: Vec<i32> = Vec::new();
    let mut k: usize = 0;
    while k < targets.len()
        invariant
            store.wf(),
            0 <= k <= targets.len(),
            ids@.len() == k,
            forall|m: int| 0 <= m < k ==> has_user(store.users@, #[trigger] targets@[m].username@),
            forall|m: int|
                0 <= m < k ==> #[trigger] ids@[m] == user_index(store.users@, targets@[m].username@)
                    + 1,
        decreases targets.len() - k,
    {
        match store.find_user(&targets[k].username) {
            Some(i) => {
                ids.push((i + 1) as i32);
            },
            None => {
                return Err(Failure::NotFound);
            },
        }
        k = k + 1;
    }
    let mut a: usize = 0;
    while a < ids.len()
        invariant
            store.wf(),
            0 <= a <= ids.len(),
            ids@.len() == targets@.len(),
            all_known(store.users@, targets@),
            forall|m: int|
                0 <= m < ids@.len() ==> #[trigger] ids@[m] == user_index(
                    store.users@,
                    targets@[m].username@,
                ) + 1,
            forall|x: int, y: int|
                0 <= x < a && 0 <= y < targets@.len() && x != y ==> targets@[x].username@
                    != targets@[y].username@,
        decreases ids.len() - a,
    {
        let mut b: usize = 0;
        while b < ids.len()
            invariant
                store.wf(),
                0 <= a < ids.len(),
                0 <= b <= ids.len(),
                ids@.len() == targets@.len(),
                all_known(store.users@, targets@),
                forall|m: int|
                    0 <= m < ids@.len() ==> #[trigger] ids@[m] == user_index(
                        store.users@,
                        targets@[m].username@,
                    ) + 1,
                forall|x: int, y: int|
                    0 <= x < a && 0 <= y < targets@.len() && x != y ==> targets@[x].username@
                        != targets@[y].username@,
                forall|y: int| 0 <= y < b && a != y ==> targets@[a as int].username@ != targets@[y].username@,
            decreases ids.len() - b,
        {
            if a != b && ids[a] == ids[b] {
                proof {
                    let u = store.users@;
                    let ia = user_index(u, targets@[a as int].username@);
                    let ib = user_index(u, targets@[b as int].username@);
                    assert(has_user(u, targets@[a as int].username@));
                    assert(has_user(u, targets@[b as int].username@));
                    assert(ia == ib);
                    assert(!distinct_readers(targets@));
                }
                return Err(Failure::Conflict);
            }
            proof {
                if a != b {
                    let u = store.users@;
                    let ia = user_index(u, targets@[a as int].username@);
                    let ib = user_index(u, targets@[b as int].username@);
                    assert(has_user(u, targets@[a as int].username@));
                    assert(has_user(u, targets@[b as int].username@));
                    assert(ia != ib);
                    assert(u[ia].username@ != u[ib].username@);
                }
            }
            b = b + 1;
        }
        a = a + 1;
    }
    Ok(ids)
}

/// Publishes the post `data` describes, with one access grant per named
/// reader, as its author proves their identity with `data.proof`. Either all
/// of it is stored or none: the proof must hold for a registered author
/// (`AuthFailed`), every reader must be registered
/// (`NotFound`) and named once (`Conflict`), and the store must have room
/// for another post (`StoreError`). On success the proof is consumed and the
/// new post's identifier is returned.
pub fn post(store: &mut Store, data: &PostData, now: i64) -> (r: Result<i32, Failure>)
    requires
        old(store).wf(),
    ensures
        final(store).wf(),
        r is Err ==> *final(store) == *old(store),
        r == Err::<i32, Failure>(Failure::NotFound) <==> proves(
            *old(store),
            data.username@,
            data.proof@,
        ) && !all_known(old(store).users@, data.noa_encrypted_keys@),
        r == Err::<i32, Failure>(Failure::AuthFailed) <==> !proves(
            *old(store),
            data.username@,
            data.proof@,
        ),
        r == Err::<i32, Failure>(Failure::Conflict) <==> proves(
            *old(store),
            data.username@,
            data.proof@,
        ) && all_known(old(store).users@, data.noa_encrypted_keys@) && !distinct_readers(
            data.noa_encrypted_keys@,
        ),
        r == Err::<i32, Failure>(Failure::StoreError) <==> proves(
            *old(store),
            data.username@,
            data.proof@,
        ) && all_known(old(store).users@, data.noa_encrypted_keys@) && distinct_readers(
            data.noa_encrypted_keys@,
        ) && old(store).posts@.len() + 1 >= i32::MAX,
        r is Ok ==> {
            let pid = (old(store).posts@.len() + 1) as i32;
            let author = (user_index(old(store).users@, data.username@) + 1) as i32;
            &&& r->Ok_0 == pid
            &&& final(store).users@ == old(store).users@
            &&& final(store).posts@ == old(store).posts@.push(
                post_of(*data, pid, author, stamp(old(store).posts@, now)),
            )
            &&& final(store).grants@ == old(store).grants@ + grants_for(
                old(store).users@,
                data.noa_encrypted_keys@,
                pid,
            )
            &&& forall|k: Seq<char>|
                k != key_of(*old(store), data.username@) ==> #[trigger] challenge_of(
                    final(store).challenges@,
                    k,
                ) == challenge_of(old(store).challenges@, k)
            &&& challenge_of(final(store).challenges@, key_of(*old(store), data.username@)) is None
        },
{
    let author = match store.find_user(&data.username) {
        Some(i) => i,
        None => {
            return Err(Failure::AuthFailed);
        },
    };
    if !holds_proof(store, &data.proof, &data.username) {
        return Err(Failure::AuthFailed);
    }
    let ids = match resolve_readers(store, &data.noa_encrypted_keys) {
        Ok(ids) => ids,
        Err(e) => {
            return Err(e);
        },
    };
    if store.posts.len() >= (i32::MAX - 1) as usize {
        return Err(Failure::StoreError);
    }
    let ghost old_store = *store;
    let consumed = auth_internal(store, &data.proof, &data.username);
    assert(consumed);
    let ghost after_auth = *store;
    let pid = (store.posts.len() + 1) as i32;
    let n = store.posts.len();
    let time = if n > 0 && store.posts[n - 1].time_posted > now {
        store.posts[n - 1].time_posted
    } else {
        now
    };
    store.posts.push(
        Post {
            id: pid,
            content: data.content.clone(),
            nonce: data.nonce.clone(),
            user_id: (author + 1) as i32,
            time_posted: time,
            public_key: data.public_key.clone(),
            public_key_nonce: data.public_key_nonce.clone(),
        },
    );
    let ghost g0 = store.grants@;
    let targets = &data.noa_encrypted_keys;
    let mut k: usize = 0;
    while k < targets.len()
        invariant
            0 <= k <= targets.len(),
            ids@.len() == targets@.len(),
            store.grants@ == g0 + grants_for(old_store.users@, targets@, pid).take(k as int),
            forall|m: int|
                0 <= m < ids@.len() ==> #[trigger] ids@[m] == user_index(
                    old_store.users@,
                    targets@[m].username@,
                ) + 1,
            store.users@ == old_store.users@,
            store.posts@ == old_store.posts@.push(
                post_of(*data, pid, (author + 1) as i32, time),
            ),
            store.challenges@ == after_auth.challenges@,
        decreases targets.len() - k,
    {
        store.grants.push(
            NoaInsert {
                user_id: ids[k],
                post_id: pid,
                secret_key: targets[k].encrypted_secret_key.clone(),
                nonce: targets[k].nonce.clone(),
            },
        );
        proof {
            assert(grants_for(old_store.users@, targets@, pid).take(k + 1) =~= grants_for(
                old_store.users@,
                targets@,
                pid,
            ).take(k as int).push(grants_for(old_store.users@, targets@, pid)[k as int]));
        }
        k = k + 1;
    }
    proof {
        let ng = grants_for(old_store.users@, targets@, pid);
        assert(ng.take(targets@.len() as int) =~= ng);
        let gs = store.grants@;
        let u = old_store.users@;
        assert forall|g: int| 0 <= g < gs.len() implies {
            &&& 1 <= #[trigger] gs[g].post_id <= store.posts.len()
            &&& 1 <= gs[g].user_id <= store.users.len()
        } by {
            if g >= g0.len() {
                let k = g - g0.len();
                assert(gs[g] == ng[k]);
                assert(has_user(u, targets@[k].username@));
            }
        }
        assert forall|g: int, h: int|
            0 <= g < gs.len() && 0 <= h < gs.len() && g != h implies (#[trigger] gs[g]).post_id
            != (#[trigger] gs[h]).post_id || gs[g].user_id != gs[h].user_id by {
            if g >= g0.len() && h >= g0.len() {
                let a = g - g0.len();
                let b = h - g0.len();
                assert(gs[g] == ng[a]);
                assert(gs[h] == ng[b]);
                let ia = user_index(u, targets@[a].username@);
                let ib = user_index(u, targets@[b].username@);
                assert(has_user(u, targets@[a].username@));
                assert(has_user(u, targets@[b].username@));
                assert(targets@[a].username@ != targets@[b].username@);
                assert(u[ia].username@ != u[ib].username@);
            } else if g >= g0.len() {
                assert(gs[g] == ng[g - g0.len()]);
                assert(gs[h] == g0[h]);
            } else if h >= g0.len() {
                assert(gs[h] == ng[h - g0.len()]);
                assert(gs[g] == g0[g]);
            } else {
                assert(gs[g] == g0[g]);
                assert(gs[h] == g0[h]);
            }
        }
        let ps = store.posts@;
        assert forall|i: int, j: int| 0 <= i <= j < ps.len() implies #[trigger] ps[i].time_posted
            <= #[trigger] ps[j].time_posted by {
            if j == ps.len() - 1 && i < j {
                assert(ps[i].time_posted <= ps[ps.len() - 2].time_posted);
            }
        }
        assert(store.wf());
    }
    Ok(pid)
}

/// Replaces the content and content nonce of post `data.post_id`, as its
/// author proves their identity with `data.proof`. The post must exist
/// (`NotFound`) and the proof must hold for its author (`AuthFailed`). The
/// content key, its envelopes and the grants are left as they are.
pub fn put(store: &mut Store, data: &PostPutData) -> (r: Result<(), Failure>)
    requires
        old(store).wf(),
    ensures
        final(store).wf(),
        r is Err ==> *final(store) == *old(store),
        r == Err::<(), Failure>(Failure::NotFound) <==> !(1 <= data.post_id <= old(
            store,
        ).posts@.len()),
        r == Err::<(), Failure>(Failure::AuthFailed) <==> 1 <= data.post_id <= old(
            store,
        ).posts@.len() && !proves(*old(store), author_of(*old(store), data.post_id), data.proof@),
        r is Ok <==> 1 <= data.post_id <= old(store).posts@.len() && proves(
            *old(store),
            author_of(*old(store), data.post_id),
            data.proof@,
        ),
        r is Ok ==> {
            let i = data.post_id - 1;
            let p = old(store).posts@[i];
            let name = author_of(*old(store), data.post_id);
            &&& final(store).posts@ == old(store).posts@.update(
                i,
                Post { content: data.new_content, nonce: data.new_nonce, ..p },
            )
            &&& final(store).users@ == old(store).users@
            &&& final(store).grants@ == old(store).grants@
            &&& forall|k: Seq<char>|
                k != key_of(*old(store), name) ==> #[trigger] challenge_of(
                    final(store).challenges@,
                    k,
                ) == challenge_of(old(store).challenges@, k)
            &&& challenge_of(final(store).challenges@, key_of(*old(store), name)) is None
        },
{
    if data.post_id < 1 || data.post_id as usize > store.posts.len() {
        return Err(Failure::NotFound);
    }
    let i = (data.post_id - 1) as usize;
    assert(store.posts@[i as int].id == i + 1);
    let a = (store.posts[i].user_id - 1) as usize;
    let author = store.users[a].username.clone();
    proof {
        let u = store.users@;
        assert(u[a as int].username@ == author@);
        let c = user_index(u, author@);
        assert(u[c].username@ == u[a as int].username@);
    }
    if !auth_internal(store, &data.proof, &author) {
        return Err(Failure::AuthFailed);
    }
    let p = Post {
        id: store.posts[i].id,
        content: data.new_content.clone(),
        nonce: data.new_nonce.clone(),
        user_id: store.posts[i].user_id,
        time_posted: store.posts[i].time_posted,
        public_key: store.posts[i].public_key.clone(),
        public_key_nonce: store.posts[i].public_key_nonce.clone(),
    };
    store.posts.set(i, p);
    proof {
        let ps = store.posts@;
        assert forall|x: int, y: int| 0 <= x <= y < ps.len() implies #[trigger] ps[x].time_posted
            <= #[trigger] ps[y].time_posted by {
            assert(old(store).posts@[x].time_posted <= old(store).posts@[y].time_posted);
        }
    }
    Ok(())
}

} // verus!

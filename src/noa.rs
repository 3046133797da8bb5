//! Listing the posts a reader holds access grants on, a page at a time.
use vstd::prelude::*;
use crate::models::{NoaInsert, NoaOuterResponse, NoaResponse, Post, PostResponse, User};
use crate::store::{grant_index, has_grant, has_user, user_index, Store};
use crate::PAGE_SIZE;

verus! {

/// The number of pages that `n` grants fill.
pub open spec fn pages_for(n: int) -> int {
    if n % PAGE_SIZE as int == 0 {
        n / PAGE_SIZE as int
    } else {
        n / PAGE_SIZE as int + 1
    }
}

/// The positions, newest first, of the posts from position `i` on that user
/// `uid` holds a grant on.
pub open spec fn readable_from(posts: Seq<Post>, grants: Seq<NoaInsert>, uid: i32, i: int) -> Seq<
    int,
>
    decreases posts.len() - i,
{
    if 0 <= i < posts.len() {
        let rest = readable_from(posts, grants, uid, i + 1);
        if has_grant(grants, posts[i].id, uid) {
            rest.push(i)
        } else {
            rest
        }
    } else {
        seq![]
    }
}

/// The positions, newest first, of the posts the user registered as `name`
/// holds a grant on.
pub open spec fn readable(s: Store, name: Seq<char>) -> Seq<int> {
    if has_user(s.users@, name) {
        readable_from(s.posts@, s.grants@, (user_index(s.users@, name) + 1) as i32, 0)
    } else {
        seq![]
    }
}

/// The number of the first `n` grants that user `uid` holds.
pub open spec fn grant_count(grants: Seq<NoaInsert>, uid: i32, n: int) -> int
    decreases n,
{
    if 0 < n <= grants.len() {
        grant_count(grants, uid, n - 1) + if grants[n - 1].user_id == uid {
            1int
        } else {
            0
        }
    } else {
        0
    }
}

/// The number of grants the user registered as `name` holds.
pub open spec fn grants_held(s: Store, name: Seq<char>) -> int {
    if has_user(s.users@, name) {
        grant_count(s.grants@, (user_index(s.users@, name) + 1) as i32, s.grants@.len() as int)
    } else {
        0
    }
}

/// The names of the holders of the first `n` grants that are on post `pid`,
/// in the order of the grants.
pub open spec fn readers_upto(users: Seq<User>, grants: Seq<NoaInsert>, pid: i32, n: int) -> Seq<
    String,
>
    decreases n,
{
    if 0 < n <= grants.len() {
        let rest = readers_upto(users, grants, pid, n - 1);
        if grants[n - 1].post_id == pid {
            rest.push(users[grants[n - 1].user_id - 1].username)
        } else {
            rest
        }
    } else {
        seq![]
    }
}

/// The post at position `i` as a reader sees it.
pub open spec fn post_response(s: Store, i: int) -> PostResponse {
    let p = s.posts@[i];
    let a = s.users@[p.user_id - 1];
    PostResponse {
        encrypted_content: p.content,
        nonce: p.nonce,
        username: a.username,
        public_key: a.public_key,
        post_id: p.id,
        time_posted: p.time_posted,
        encrypted_public_key: p.public_key,
        encrypted_public_key_nonce: p.public_key_nonce,
    }
}

/// Whether `e` lists the post at position `i` for user `uid`: the post, the
/// user's own envelope of its content key, and every holder of a grant on it.
pub open spec fn lists(s: Store, e: NoaResponse, uid: i32, i: int) -> bool {
    let g = s.grants@[grant_index(s.grants@, s.posts@[i].id, uid)];
    &&& e.post == post_response(s, i)
    &&& e.encrypted_secret_key == g.secret_key
    &&& e.nonce == g.nonce
    &&& e.all_readers@ == readers_upto(s.users@, s.grants@, s.posts@[i].id, s.grants@.len() as int)
}

/// The number of pages that `total` grants fill, `PAGE_SIZE` to a page.
pub fn page_count(total: u64) -> (r: u64)
    ensures
        r == pages_for(total as int),
{
    if total % (PAGE_SIZE as u64) == 0 {
        total / (PAGE_SIZE as u64)
    } else {
        total / (PAGE_SIZE as u64) + 1
    }
}

/// The page count is the ceiling of the grant count over the page size: the
/// pages hold all grants, and one page fewer would not.
pub proof fn lemma_pages_is_ceiling(n: nat)
    ensures
        pages_for(n as int) * PAGE_SIZE as int >= n,
        pages_for(n as int) == 0 || (pages_for(n as int) - 1) * (PAGE_SIZE as int) < n,
        n == 0 <==> pages_for(n as int) == 0,
{
}

/// The number of grants user `uid` holds.
fn count_grants(store: &Store, uid: i32) -> (r: u64)
    requires
        store.wf(),
    ensures
        r == grant_count(store.grants@, uid, store.grants@.len() as int),
{
    let mut count: u64 = 0;
    let mut g: usize = 0;
    while g < store.grants.len()
        invariant
            0 <= g <= store.grants.len(),
            count == grant_count(store.grants@, uid, g as int),
            count <= g,
        decreases store.grants.len() - g,
    {
        if store.grants[g].user_id == uid {
            count = count + 1;
        }
        g = g + 1;
    }
    count
}

/// The names of everyone holding a grant on post `pid`, in grant order.
fn readers(store: &Store, pid: i32) -> (r: Vec<String>)
    requires
        store.wf(),
    ensures
        r@ == readers_upto(store.users@, store.grants@, pid, store.grants@.len() as int),
{
    let mut r: Vec<String> = Vec::new();
    let mut g: usize = 0;
    while g < store.grants.len()
        invariant
            store.wf(),
            0 <= g <= store.grants.len(),
            r@ == readers_upto(store.users@, store.grants@, pid, g as int),
        decreases store.grants.len() - g,
    {
        assert(1 <= store.grants@[g as int].post_id);
        if store.grants[g].post_id == pid {
            let u = (store.grants[g].user_id - 1) as usize;
            r.push(store.users[u].username.clone());
        }
        g = g + 1;
    }
    r
}

/// The post at position `i` as a reader sees it.
fn respond(store: &Store, i: usize) -> (r: PostResponse)
    requires
        store.wf(),
        i < store.posts@.len(),
    ensures
        r == post_response(*store, i as int),
{
    let p = &store.posts[i];
    assert(store.posts@[i as int].id == i + 1);
    let a = &store.users[(p.user_id - 1) as usize];
    PostResponse {
        encrypted_content: p.content.clone(),
        nonce: p.nonce.clone(),
        username: a.username.clone(),
        public_key: a.public_key.clone(),
        post_id: p.id,
        time_posted: p.time_posted,
        encrypted_public_key: p.public_key.clone(),
        encrypted_public_key_nonce: p.public_key_nonce.clone(),
    }
}

/// Lists page `skip` (the first page when absent) of the posts the user
/// registered as `username` holds grants on, newest first, `PAGE_SIZE` to a
/// page, with the number of pages the user's grants fill. An unknown user
/// holds no grants, and a negative page lists nothing.
pub fn get(store: &Store, username: &String, skip: Option<i64>) -> (r: NoaOuterResponse)
    requires
        store.wf(),
    ensures
        ({
            let rd = readable(*store, username@);
            let page = match skip {
                Some(p) => p as int,
                None => 0,
            };
            let lo = page * PAGE_SIZE as int;
            let uid = (user_index(store.users@, username@) + 1) as i32;
            &&& r.pages == pages_for(grants_held(*store, username@))
            &&& page < 0 ==> r.noas@.len() == 0
            &&& page >= 0 ==> {
                &&& r.noas@.len() == if rd.len() <= lo {
                    0
                } else if rd.len() >= lo + PAGE_SIZE as int {
                    PAGE_SIZE as int
                } else {
                    rd.len() - lo
                }
                &&& forall|k: int|
                    0 <= k < r.noas@.len() ==> lists(*store, #[trigger] r.noas@[k], uid, rd[lo + k])
            }
        }),
{
    let page: i64 = match skip {
        Some(p) => p,
        None => 0,
    };
    let mut noas: Vec<NoaResponse> = Vec::new();
    let idx = match store.find_user(username) {
        Some(i) => i,
        None => {
            return NoaOuterResponse { noas, pages: 0 };
        },
    };
    let uid = (idx + 1) as i32;
    let ghost rd = readable_from(store.posts@, store.grants@, uid, 0);
    let lo: u64 = if page < 0 || page > i32::MAX as i64 {
        u64::MAX
    } else {
        page as u64 * (PAGE_SIZE as u64)
    };
    let mut count: u64 = 0;
    let mut i: usize = store.posts.len();
    while i > 0
        invariant
            store.wf(),
            0 <= i <= store.posts.len(),
            uid == user_index(store.users@, username@) + 1,
            count == readable_from(store.posts@, store.grants@, uid, i as int).len(),
            count <= store.posts.len() - i,
            page >= 0 && page <= i32::MAX ==> lo == page * PAGE_SIZE as int,
            noas@.len() == if count <= lo {
                0
            } else if count >= lo + PAGE_SIZE as int {
                PAGE_SIZE as int
            } else {
                count - lo
            },
            forall|k: int|
                0 <= k < noas@.len() ==> lists(
                    *store,
                    #[trigger] noas@[k],
                    uid,
                    readable_from(store.posts@, store.grants@, uid, i as int)[lo + k],
                ),
        decreases i,
    {
        i = i - 1;
        let ghost before = readable_from(store.posts@, store.grants@, uid, i + 1);
        let ghost after = readable_from(store.posts@, store.grants@, uid, i as int);
        assert(store.posts@[i as int].id == i + 1);
        match store.find_grant(store.posts[i].id, uid) {
            Some(g) => {
                assert(after == before.push(i as int));
                if count >= lo && count < lo + PAGE_SIZE as u64 {
                    noas.push(
                        NoaResponse {
                            post: respond(store, i),
                            encrypted_secret_key: store.grants[g].secret_key.clone(),
                            nonce: store.grants[g].nonce.clone(),
                            all_readers: readers(store, store.posts[i].id),
                        },
                    );
                }
                assert forall|k: int| 0 <= k < noas@.len() implies lists(
                    *store,
                    #[trigger] noas@[k],
                    uid,
                    after[lo + k],
                ) by {
                    if lo + k < before.len() {
                        assert(after[lo + k] == before[lo + k]);
                    }
                }
                count = count + 1;
            },
            None => {
                assert(after == before);
            },
        }
    }
    let pages = page_count(count_grants(store, uid));
    proof {
        assert(readable(*store, username@) == rd);
        let u = store.users@;
        assert(u[idx as int].username@ == username@);
        let c = user_index(u, username@);
        assert(u[c].username@ == u[idx as int].username@);
        if page > i32::MAX {
            assert(lo >= rd.len());
        }
    }
    NoaOuterResponse { noas, pages: pages as i64 }
}

} // verus!

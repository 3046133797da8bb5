//! The store: users, outstanding challenges, posts and access grants.
use vstd::prelude::*;
use crate::models::{AuthInsert, NoaInsert, Post, User};

verus! {

/// Everything the server keeps. Identifiers are positions plus one, so rows
/// are never removed but challenges, which are consumed.
pub struct Store {
    /// Registered users, in order of registration.
    pub users: Vec<User>,
    /// Outstanding challenges, at most one per public key.
    pub challenges: Vec<AuthInsert>,
    /// Posts, in order of publication.
    pub posts: Vec<Post>,
    /// Access grants, in order of creation.
    pub grants: Vec<NoaInsert>,
}

/// Whether `name` is registered.
pub open spec fn has_user(users: Seq<User>, name: Seq<char>) -> bool {
    exists|i: int| 0 <= i < users.len() && users[i].username@ == name
}

/// The position of the user registered as `name`.
pub open spec fn user_index(users: Seq<User>, name: Seq<char>) -> int {
    choose|i: int| 0 <= i < users.len() && users[i].username@ == name
}

/// The outstanding challenge of public key `pk`: its secret and expiry.
pub open spec fn challenge_of(chs: Seq<AuthInsert>, pk: Seq<char>) -> Option<(Seq<char>, i64)> {
    if exists|j: int| 0 <= j < chs.len() && chs[j].public_key@ == pk {
        let j = choose|j: int| 0 <= j < chs.len() && chs[j].public_key@ == pk;
        Some((chs[j].expected_token@, chs[j].timeout))
    } else {
        None
    }
}

/// Whether some grant gives post `pid` to user `uid`.
pub open spec fn has_grant(grants: Seq<NoaInsert>, pid: i32, uid: i32) -> bool {
    exists|g: int| 0 <= g < grants.len() && grants[g].post_id == pid && grants[g].user_id == uid
}

/// The position of the grant of post `pid` to user `uid`.
pub open spec fn grant_index(grants: Seq<NoaInsert>, pid: i32, uid: i32) -> int {
    choose|g: int| 0 <= g < grants.len() && grants[g].post_id == pid && grants[g].user_id == uid
}

impl Store {
    /// The store's invariant.
    pub open spec fn wf(&self) -> bool {
        &&& self.users.len() < i32::MAX
        &&& forall|i: int| 0 <= i < self.users.len() ==> #[trigger] self.users@[i].id == i + 1
        &&& forall|i: int, j: int|
            0 <= i < self.users.len() && 0 <= j < self.users.len() && i != j
                ==> #[trigger] self.users@[i].username@ != #[trigger] self.users@[j].username@
        &&& forall|i: int, j: int|
            0 <= i < self.challenges.len() && 0 <= j < self.challenges.len() && i != j
                ==> #[trigger] self.challenges@[i].public_key@
                != #[trigger] self.challenges@[j].public_key@
        &&& self.posts.len() < i32::MAX
        &&& forall|i: int|
            0 <= i < self.posts.len() ==> {
                &&& #[trigger] self.posts@[i].id == i + 1
                &&& 1 <= self.posts@[i].user_id <= self.users.len()
            }
        &&& forall|i: int, j: int|
            0 <= i <= j < self.posts.len() ==> #[trigger] self.posts@[i].time_posted
                <= #[trigger] self.posts@[j].time_posted
        &&& forall|g: int|
            0 <= g < self.grants.len() ==> {
                &&& 1 <= #[trigger] self.grants@[g].post_id <= self.posts.len()
                &&& 1 <= self.grants@[g].user_id <= self.users.len()
            }
        &&& forall|g: int, h: int|
            0 <= g < self.grants.len() && 0 <= h < self.grants.len() && g != h
                ==> (#[trigger] self.grants@[g]).post_id != (#[trigger] self.grants@[h]).post_id
                || self.grants@[g].user_id != self.grants@[h].user_id
    }

    /// An empty store.
    pub fn new() -> (r: Store)
        ensures
            r.wf(),
            r.users@.len() == 0,
            r.challenges@.len() == 0,
            r.posts@.len() == 0,
            r.grants@.len() == 0,
    {
        Store { users: Vec::new(), challenges: Vec::new(), posts: Vec::new(), grants: Vec::new() }
    }

    /// The position of the user registered as `name`.
    pub fn find_user(&self, name: &String) -> (r: Option<usize>)
        requires
            self.wf(),
        ensures
            r is Some <==> has_user(self.users@, name@),
            r is Some ==> r->0 == user_index(self.users@, name@),
    {
        let mut i: usize = 0;
        while i < self.users.len()
            invariant
                self.wf(),
                0 <= i <= self.users.len(),
                forall|k: int| 0 <= k < i ==> self.users@[k].username@ != name@,
            decreases self.users.len() - i,
        {
            if self.users[i].username == *name {
                proof {
                    let c = user_index(self.users@, name@);
                    assert(self.users@[c].username@ == name@);
                    assert(self.users@[i as int].username@ == self.users@[c].username@);
                    assert(c == i as int);
                }
                return Some(i);
            }
            i = i + 1;
        }
        None
    }

    /// The position of the challenge of public key `pk`.
    pub fn find_challenge(&self, pk: &String) -> (r: Option<usize>)
        requires
            self.wf(),
        ensures
            r is Some <==> challenge_of(self.challenges@, pk@) is Some,
            r is Some ==> r->0 < self.challenges@.len() && self.challenges@[r->0 as int].public_key@
                == pk@ && challenge_of(self.challenges@, pk@) == Some(
                (
                    self.challenges@[r->0 as int].expected_token@,
                    self.challenges@[r->0 as int].timeout,
                ),
            ),
    {
        let mut j: usize = 0;
        while j < self.challenges.len()
            invariant
                self.wf(),
                0 <= j <= self.challenges.len(),
                forall|k: int| 0 <= k < j ==> self.challenges@[k].public_key@ != pk@,
            decreases self.challenges.len() - j,
        {
            if self.challenges[j].public_key == *pk {
                proof {
                    let chs = self.challenges@;
                    let c = choose|c: int| 0 <= c < chs.len() && chs[c].public_key@ == pk@;
                    assert(chs[c].public_key@ == chs[j as int].public_key@);
                    assert(c == j as int);
                }
                return Some(j);
            }
            j = j + 1;
        }
        None
    }

    /// Whether a grant gives post `pid` to user `uid`, and where it stands.
    pub fn find_grant(&self, pid: i32, uid: i32) -> (r: Option<usize>)
        requires
            self.wf(),
        ensures
            r is Some <==> has_grant(self.grants@, pid, uid),
            r is Some ==> r->0 == grant_index(self.grants@, pid, uid),
    {
        let mut g: usize = 0;
        while g < self.grants.len()
            invariant
                self.wf(),
                0 <= g <= self.grants.len(),
                forall|k: int|
                    0 <= k < g ==> !(self.grants@[k].post_id == pid && self.grants@[k].user_id
                        == uid),
            decreases self.grants.len() - g,
        {
            if self.grants[g].post_id == pid && self.grants[g].user_id == uid {
                proof {
                    let c = grant_index(self.grants@, pid, uid);
                    assert(c == g as int);
                }
                return Some(g);
            }
            g = g + 1;
        }
        None
    }
}

} // verus!

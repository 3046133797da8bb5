//! Registering users and looking them up by name.
use vstd::prelude::*;
use crate::models::{Failure, User, UserInsert};
use crate::store::{has_user, user_index, Store};

verus! {

/// The user registered as `username`, if any.
pub fn get(store: &Store, username: &String) -> (r: Option<User>)
    requires
        store.wf(),
    ensures
        r is Some <==> has_user(store.users@, username@),
        r is Some ==> r->0 == store.users@[user_index(store.users@, username@)],
{
    match store.find_user(username) {
        Some(i) => {
            let u = &store.users[i];
            Some(User { id: u.id, public_key: u.public_key.clone(), username: u.username.clone() })
        },
        None => None,
    }
}

/// Registers `user_data.username` under `user_data.public_key` and returns the
/// new user's identifier. A taken name is a `Conflict`; a store that cannot
/// hold another user is a `StoreError`. Nothing else changes.
pub fn post(store: &mut Store, user_data: &UserInsert) -> (r: Result<i32, Failure>)
    requires
        old(store).wf(),
    ensures
        final(store).wf(),
        r == Err::<i32, Failure>(Failure::Conflict) <==> has_user(
            old(store).users@,
            user_data.username@,
        ),
        r == Err::<i32, Failure>(Failure::StoreError) <==> !has_user(
            old(store).users@,
            user_data.username@,
        ) && old(store).users@.len() + 1 >= i32::MAX,
        r is Ok <==> !has_user(old(store).users@, user_data.username@) && old(
            store,
        ).users@.len() + 1 < i32::MAX,
        r is Err ==> *final(store) == *old(store),
        r is Ok ==> {
            let id = (old(store).users@.len() + 1) as i32;
            &&& r->Ok_0 == id
            &&& final(store).users@ == old(store).users@.push(
                User { id, public_key: user_data.public_key, username: user_data.username },
            )
            &&& final(store).challenges@ == old(store).challenges@
            &&& final(store).posts@ == old(store).posts@
            &&& final(store).grants@ == old(store).grants@
        },
{
    if store.find_user(&user_data.username).is_some() {
        return Err(Failure::Conflict);
    }
    if store.users.len() >= (i32::MAX - 1) as usize {
        return Err(Failure::StoreError);
    }
    let id = (store.users.len() + 1) as i32;
    store.users.push(
        User {
            id,
            public_key: user_data.public_key.clone(),
            username: user_data.username.clone(),
        },
    );
    proof {
        let us = store.users@;
        assert forall|i: int, j: int|
            0 <= i < us.len() && 0 <= j < us.len() && i != j implies #[trigger] us[i].username@
            != #[trigger] us[j].username@ by {
            if i == us.len() - 1 {
                assert(us[j] == old(store).users@[j]);
            } else if j == us.len() - 1 {
                assert(us[i] == old(store).users@[i]);
            } else {
                assert(us[i] == old(store).users@[i]);
                assert(us[j] == old(store).users@[j]);
            }
        }
    }
    Ok(id)
}

} // verus!

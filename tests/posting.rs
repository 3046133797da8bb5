use sodiumoxide::crypto::box_ as pkc;
use soclocker::auth;
use soclocker::models::{AuthResponse, Failure, PostData, PostNOATarget, PostPutData, UserInsert};
use soclocker::noa;
use soclocker::post;
use soclocker::store::Store;
use soclocker::user;

const NOW: i64 = 1_600_000_000;

struct World {
    store: Store,
    server_pk: pkc::PublicKey,
    server_sk: pkc::SecretKey,
    keys: Vec<(String, pkc::SecretKey)>,
}

fn world(names: &[&str]) -> World {
    let (server_pk, server_sk) = pkc::gen_keypair();
    let mut store = Store::new();
    let mut keys = Vec::new();
    for name in names {
        let (pk, sk) = pkc::gen_keypair();
        let insert = UserInsert { public_key: base64::encode(&pk.0), username: name.to_string() };
        user::post(&mut store, &insert).unwrap();
        keys.push((name.to_string(), sk));
    }
    World { store, server_pk, server_sk, keys }
}

fn proof_for(w: &mut World, name: &str) -> String {
    let resp: AuthResponse =
        auth::get(&mut w.store, &name.to_string(), NOW, &w.server_sk.0.to_vec()).unwrap();
    let sk = &w.keys.iter().find(|(n, _)| n == name).unwrap().1;
    let cipher = base64::decode(&resp.encrypted_token).unwrap();
    let nonce = pkc::Nonce::from_slice(&base64::decode(&resp.nonce).unwrap()).unwrap();
    base64::encode(pkc::open(&cipher, &nonce, &w.server_pk, sk).unwrap())
}

fn target(name: &str) -> PostNOATarget {
    PostNOATarget {
        username: name.to_string(),
        encrypted_secret_key: format!("key-for-{}", name),
        nonce: format!("nonce-for-{}", name),
    }
}

fn data(author: &str, proof: String, content: &str, readers: &[&str]) -> PostData {
    PostData {
        content: content.to_string(),
        nonce: format!("nonce-of-{}", content),
        username: author.to_string(),
        proof,
        public_key: "self-envelope".to_string(),
        public_key_nonce: "self-nonce".to_string(),
        noa_encrypted_keys: readers.iter().map(|r| target(r)).collect(),
    }
}

#[test]
fn publish_and_list_for_reader() {
    let mut w = world(&["alice", "bob", "carol"]);
    let proof = proof_for(&mut w, "alice");
    let id = post::post(&mut w.store, &data("alice", proof, "hello", &["bob", "carol"]), NOW)
        .unwrap();
    assert_eq!(id, 1);
    let page = noa::get(&w.store, &"bob".to_string(), Some(0));
    assert_eq!(page.pages, 1);
    assert_eq!(page.noas.len(), 1);
    let entry = &page.noas[0];
    assert_eq!(entry.all_readers, vec!["bob".to_string(), "carol".to_string()]);
    assert_eq!(entry.encrypted_secret_key, "key-for-bob");
    assert_eq!(entry.nonce, "nonce-for-bob");
    assert_eq!(entry.post.post_id, 1);
    assert_eq!(entry.post.username, "alice");
    assert_eq!(entry.post.encrypted_content, "hello");
    assert_eq!(entry.post.nonce, "nonce-of-hello");
    assert_eq!(entry.post.encrypted_public_key, "self-envelope");
    assert_eq!(entry.post.encrypted_public_key_nonce, "self-nonce");
    assert_eq!(entry.post.time_posted, NOW);
    let author_view = noa::get(&w.store, &"alice".to_string(), None);
    assert_eq!(author_view.pages, 0);
    assert_eq!(author_view.noas.len(), 0);
}

#[test]
fn publish_with_unknown_reader_stores_nothing() {
    let mut w = world(&["alice", "bob"]);
    let proof = proof_for(&mut w, "alice");
    let r = post::post(&mut w.store, &data("alice", proof.clone(), "x", &["bob", "zed"]), NOW);
    assert!(matches!(r, Err(Failure::NotFound)));
    assert_eq!(w.store.posts.len(), 0);
    assert_eq!(w.store.grants.len(), 0);
    assert!(auth::auth_internal(&mut w.store, &proof, &"alice".to_string()));
}

#[test]
fn publish_with_reader_named_twice_is_conflict() {
    let mut w = world(&["alice", "bob"]);
    let proof = proof_for(&mut w, "alice");
    let r = post::post(&mut w.store, &data("alice", proof, "x", &["bob", "bob"]), NOW);
    assert!(matches!(r, Err(Failure::Conflict)));
    assert_eq!(w.store.posts.len(), 0);
    assert_eq!(w.store.grants.len(), 0);
}

#[test]
fn publish_with_wrong_proof_is_forbidden() {
    let mut w = world(&["alice", "bob"]);
    proof_for(&mut w, "alice");
    let r = post::post(&mut w.store, &data("alice", "d3Jvbmc=".to_string(), "x", &["bob"]), NOW);
    assert!(matches!(r, Err(Failure::AuthFailed)));
    assert_eq!(w.store.posts.len(), 0);
    assert_eq!(w.store.challenges.len(), 1);
}

#[test]
fn publish_by_unknown_author_is_forbidden() {
    let mut w = world(&["bob"]);
    let r = post::post(&mut w.store, &data("alice", "eA==".to_string(), "x", &["bob"]), NOW);
    assert!(matches!(r, Err(Failure::AuthFailed)));
    assert_eq!(w.store.posts.len(), 0);
}

#[test]
fn publish_consumes_proof() {
    let mut w = world(&["alice", "bob"]);
    let proof = proof_for(&mut w, "alice");
    post::post(&mut w.store, &data("alice", proof.clone(), "one", &["bob"]), NOW).unwrap();
    let again = post::post(&mut w.store, &data("alice", proof, "two", &["bob"]), NOW);
    assert!(matches!(again, Err(Failure::AuthFailed)));
    assert_eq!(w.store.posts.len(), 1);
    assert_eq!(w.store.grants.len(), 1);
}

#[test]
fn post_times_never_decrease() {
    let mut w = world(&["alice", "bob"]);
    let first_proof = proof_for(&mut w, "alice");
    post::post(&mut w.store, &data("alice", first_proof, "one", &["bob"]), NOW + 50).unwrap();
    let second_proof = proof_for(&mut w, "alice");
    post::post(&mut w.store, &data("alice", second_proof, "two", &["bob"]), NOW).unwrap();
    assert_eq!(w.store.posts[1].time_posted, NOW + 50);
}

#[test]
fn edit_replaces_content_only() {
    let mut w = world(&["alice", "bob"]);
    let proof = proof_for(&mut w, "alice");
    post::post(&mut w.store, &data("alice", proof, "draft", &["bob"]), NOW).unwrap();
    let proof = proof_for(&mut w, "alice");
    let put = PostPutData {
        post_id: 1,
        proof,
        new_content: "final".to_string(),
        new_nonce: "n2".to_string(),
    };
    assert!(post::put(&mut w.store, &put).is_ok());
    assert_eq!(w.store.posts[0].content, "final");
    assert_eq!(w.store.posts[0].nonce, "n2");
    assert_eq!(w.store.posts[0].public_key, "self-envelope");
    assert_eq!(w.store.grants.len(), 1);
    assert!(matches!(post::put(&mut w.store, &put), Err(Failure::AuthFailed)));
}

#[test]
fn edit_errors() {
    let mut w = world(&["alice", "bob"]);
    let proof = proof_for(&mut w, "alice");
    post::post(&mut w.store, &data("alice", proof, "draft", &["bob"]), NOW).unwrap();
    let missing = PostPutData {
        post_id: 2,
        proof: "eA==".to_string(),
        new_content: "c".to_string(),
        new_nonce: "n".to_string(),
    };
    assert!(matches!(post::put(&mut w.store, &missing), Err(Failure::NotFound)));
    let bob_proof = proof_for(&mut w, "bob");
    let not_author = PostPutData {
        post_id: 1,
        proof: bob_proof,
        new_content: "c".to_string(),
        new_nonce: "n".to_string(),
    };
    assert!(matches!(post::put(&mut w.store, &not_author), Err(Failure::AuthFailed)));
    assert_eq!(w.store.posts[0].content, "draft");
}

#[test]
fn listing_pages_newest_first() {
    let mut w = world(&["alice", "bob"]);
    for k in 0..26 {
        let proof = proof_for(&mut w, "alice");
        let content = format!("post-{}", k);
        post::post(&mut w.store, &data("alice", proof, &content, &["bob"]), NOW + k).unwrap();
    }
    let bob = "bob".to_string();
    let first = noa::get(&w.store, &bob, Some(0));
    assert_eq!(first.pages, 2);
    assert_eq!(first.noas.len(), 25);
    assert_eq!(first.noas[0].post.encrypted_content, "post-25");
    assert_eq!(first.noas[24].post.encrypted_content, "post-1");
    let second = noa::get(&w.store, &bob, Some(1));
    assert_eq!(second.pages, 2);
    assert_eq!(second.noas.len(), 1);
    assert_eq!(second.noas[0].post.encrypted_content, "post-0");
    assert_eq!(noa::get(&w.store, &bob, Some(2)).noas.len(), 0);
    assert_eq!(noa::get(&w.store, &bob, Some(-1)).noas.len(), 0);
    let stranger = noa::get(&w.store, &"nobody".to_string(), None);
    assert_eq!(stranger.pages, 0);
    assert_eq!(stranger.noas.len(), 0);
}

#[test]
fn listing_skips_posts_without_grant() {
    let mut w = world(&["alice", "bob", "carol"]);
    let p = proof_for(&mut w, "alice");
    post::post(&mut w.store, &data("alice", p, "for-bob", &["bob"]), NOW).unwrap();
    let p = proof_for(&mut w, "alice");
    post::post(&mut w.store, &data("alice", p, "for-carol", &["carol"]), NOW).unwrap();
    let page = noa::get(&w.store, &"carol".to_string(), None);
    assert_eq!(page.pages, 1);
    assert_eq!(page.noas.len(), 1);
    assert_eq!(page.noas[0].post.post_id, 2);
    assert_eq!(page.noas[0].all_readers, vec!["carol".to_string()]);
}

#[test]
fn page_counts() {
    assert_eq!(noa::page_count(0), 0);
    assert_eq!(noa::page_count(1), 1);
    assert_eq!(noa::page_count(24), 1);
    assert_eq!(noa::page_count(25), 1);
    assert_eq!(noa::page_count(26), 2);
    assert_eq!(noa::page_count(50), 2);
}

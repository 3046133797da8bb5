use sodiumoxide::crypto::box_ as pkc;
use soclocker::auth;
use soclocker::codec::is_small_order;
use soclocker::models::{AuthResponse, AuthValidate, Failure, UserInsert};
use soclocker::server_public_key;
use soclocker::store::Store;
use soclocker::user;

const NOW: i64 = 1_600_000_000;

fn register(store: &mut Store, name: &str) -> pkc::SecretKey {
    let (pk, sk) = pkc::gen_keypair();
    let insert = UserInsert { public_key: base64::encode(&pk.0), username: name.to_string() };
    assert!(user::post(store, &insert).is_ok());
    sk
}

fn open(resp: &AuthResponse, server: &pkc::PublicKey, sk: &pkc::SecretKey) -> String {
    let cipher = base64::decode(&resp.encrypted_token).unwrap();
    let nonce = pkc::Nonce::from_slice(&base64::decode(&resp.nonce).unwrap()).unwrap();
    base64::encode(pkc::open(&cipher, &nonce, server, sk).unwrap())
}

#[test]
fn challenge_validates_once() {
    let (server_pk, server_sk) = pkc::gen_keypair();
    let mut store = Store::new();
    let alice_sk = register(&mut store, "alice");
    let resp = auth::get(&mut store, &"alice".to_string(), NOW, &server_sk.0.to_vec()).unwrap();
    let token = open(&resp, &server_pk, &alice_sk);
    let proof = AuthValidate { decrypted_token: token.clone(), username: "alice".to_string() };
    assert!(auth::post(&mut store, &proof));
    assert!(!auth::post(&mut store, &proof));
    assert_eq!(store.challenges.len(), 0);
}

#[test]
fn challenge_for_unknown_user_is_not_found() {
    let (_, server_sk) = pkc::gen_keypair();
    let mut store = Store::new();
    register(&mut store, "alice");
    let r = auth::get(&mut store, &"bob".to_string(), NOW, &server_sk.0.to_vec());
    assert!(matches!(r, Err(Failure::NotFound)));
    assert_eq!(store.challenges.len(), 0);
}

#[test]
fn second_request_reseals_same_secret() {
    let (server_pk, server_sk) = pkc::gen_keypair();
    let mut store = Store::new();
    let alice_sk = register(&mut store, "alice");
    let name = "alice".to_string();
    let first = auth::get(&mut store, &name, NOW, &server_sk.0.to_vec()).unwrap();
    let second = auth::get(&mut store, &name, NOW + 10, &server_sk.0.to_vec()).unwrap();
    assert_ne!(first.nonce, second.nonce);
    assert_ne!(first.encrypted_token, second.encrypted_token);
    assert_eq!(open(&first, &server_pk, &alice_sk), open(&second, &server_pk, &alice_sk));
    assert_eq!(store.challenges.len(), 1);
    assert_eq!(store.challenges[0].timeout, NOW + soclocker::TIMEOUT_SECONDS);
}

#[test]
fn request_at_expiry_keeps_secret() {
    let (server_pk, server_sk) = pkc::gen_keypair();
    let mut store = Store::new();
    let alice_sk = register(&mut store, "alice");
    let name = "alice".to_string();
    let sk = server_sk.0.to_vec();
    let first = auth::get(&mut store, &name, NOW, &sk).unwrap();
    let last = auth::get(&mut store, &name, NOW + soclocker::TIMEOUT_SECONDS, &sk).unwrap();
    assert_eq!(open(&first, &server_pk, &alice_sk), open(&last, &server_pk, &alice_sk));
}

#[test]
fn expired_challenge_is_replaced() {
    let (server_pk, server_sk) = pkc::gen_keypair();
    let mut store = Store::new();
    let alice_sk = register(&mut store, "alice");
    let name = "alice".to_string();
    let sk = server_sk.0.to_vec();
    let first = auth::get(&mut store, &name, NOW, &sk).unwrap();
    let later = NOW + soclocker::TIMEOUT_SECONDS + 1;
    let second = auth::get(&mut store, &name, later, &sk).unwrap();
    let old_token = open(&first, &server_pk, &alice_sk);
    let new_token = open(&second, &server_pk, &alice_sk);
    assert_ne!(old_token, new_token);
    assert_eq!(store.challenges.len(), 1);
    assert_eq!(store.challenges[0].timeout, later + soclocker::TIMEOUT_SECONDS);
    assert!(!auth::auth_internal(&mut store, &old_token, &name));
    assert!(auth::auth_internal(&mut store, &new_token, &name));
}

#[test]
fn wrong_token_is_rejected_and_kept() {
    let (server_pk, server_sk) = pkc::gen_keypair();
    let mut store = Store::new();
    let alice_sk = register(&mut store, "alice");
    let name = "alice".to_string();
    let resp = auth::get(&mut store, &name, NOW, &server_sk.0.to_vec()).unwrap();
    assert!(!auth::auth_internal(&mut store, &"bm90IGl0".to_string(), &name));
    assert_eq!(store.challenges.len(), 1);
    let token = open(&resp, &server_pk, &alice_sk);
    assert!(!auth::auth_internal(&mut store, &token, &"bob".to_string()));
    assert!(auth::auth_internal(&mut store, &token, &name));
}

#[test]
fn token_of_one_user_does_not_prove_another() {
    let (server_pk, server_sk) = pkc::gen_keypair();
    let mut store = Store::new();
    let alice_sk = register(&mut store, "alice");
    register(&mut store, "bob");
    let sk = server_sk.0.to_vec();
    let resp = auth::get(&mut store, &"alice".to_string(), NOW, &sk).unwrap();
    auth::get(&mut store, &"bob".to_string(), NOW, &sk).unwrap();
    let token = open(&resp, &server_pk, &alice_sk);
    assert!(!auth::auth_internal(&mut store, &token, &"bob".to_string()));
    assert_eq!(store.challenges.len(), 2);
}

#[test]
fn unusable_key_is_store_error() {
    let (_, server_sk) = pkc::gen_keypair();
    let mut store = Store::new();
    let insert = UserInsert { public_key: "not base64!".to_string(), username: "eve".to_string() };
    user::post(&mut store, &insert).unwrap();
    let r = auth::get(&mut store, &"eve".to_string(), NOW, &server_sk.0.to_vec());
    assert!(matches!(r, Err(Failure::StoreError)));
    let short = UserInsert { public_key: base64::encode([1u8, 2, 3]), username: "dan".to_string() };
    user::post(&mut store, &short).unwrap();
    let r = auth::get(&mut store, &"dan".to_string(), NOW, &server_sk.0.to_vec());
    assert!(matches!(r, Err(Failure::StoreError)));
}

#[test]
fn seal_challenge_opens_to_token() {
    let (server_pk, server_sk) = pkc::gen_keypair();
    let (user_pk, user_sk) = pkc::gen_keypair();
    let token = base64::encode([7u8; 32]);
    let resp = auth::seal_challenge(&token, &base64::encode(&user_pk.0), &server_sk.0.to_vec())
        .unwrap();
    assert_ne!(resp.encrypted_token, token);
    assert_eq!(open(&resp, &server_pk, &user_sk), token);
}

#[test]
fn registration_conflict_and_lookup() {
    let mut store = Store::new();
    let a = UserInsert { public_key: "a2V5".to_string(), username: "alice".to_string() };
    assert_eq!(user::post(&mut store, &a).unwrap(), 1);
    let b = UserInsert { public_key: "b3RoZXI=".to_string(), username: "alice".to_string() };
    assert!(matches!(user::post(&mut store, &b), Err(Failure::Conflict)));
    let c = UserInsert { public_key: "Yw==".to_string(), username: "Alice".to_string() };
    assert_eq!(user::post(&mut store, &c).unwrap(), 2);
    let found = user::get(&store, &"alice".to_string()).unwrap();
    assert_eq!(found.id, 1);
    assert_eq!(found.public_key, "a2V5");
    assert!(user::get(&store, &"bob".to_string()).is_none());
}

#[test]
fn server_public_key_is_base64() {
    assert_eq!(server_public_key::get(&vec![0u8, 1, 2]), "AAEC");
    assert_eq!(server_public_key::get(&vec![]), "");
}

#[test]
fn small_order_keys_are_refused() {
    let (_, server_sk) = pkc::gen_keypair();
    let mut store = Store::new();
    let zero = UserInsert { public_key: base64::encode([0u8; 32]), username: "zero".to_string() };
    user::post(&mut store, &zero).unwrap();
    let r = auth::get(&mut store, &"zero".to_string(), NOW, &server_sk.0.to_vec());
    assert!(matches!(r, Err(Failure::StoreError)));
    let mut one_high = [0u8; 32];
    one_high[0] = 1;
    one_high[31] = 0x80;
    let one = UserInsert { public_key: base64::encode(one_high), username: "one".to_string() };
    user::post(&mut store, &one).unwrap();
    let r = auth::get(&mut store, &"one".to_string(), NOW, &server_sk.0.to_vec());
    assert!(matches!(r, Err(Failure::StoreError)));
}

#[test]
fn small_order_check() {
    assert!(is_small_order(&vec![0u8; 32]));
    let mut p_minus_one = vec![0xffu8; 32];
    p_minus_one[0] = 0xec;
    p_minus_one[31] = 0x7f;
    assert!(is_small_order(&p_minus_one));
    p_minus_one[31] = 0xff;
    assert!(is_small_order(&p_minus_one));
    p_minus_one[0] = 0xeb;
    assert!(!is_small_order(&p_minus_one));
    let (pk, _) = pkc::gen_keypair();
    assert!(!is_small_order(&pk.0.to_vec()));
    assert!(!is_small_order(&vec![0u8; 31]));
}

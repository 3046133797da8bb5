//! The records kept by the store and the shapes exchanged with clients.
use vstd::prelude::*;

verus! {

/// A registered user.
pub struct User {
    /// Store-assigned identifier.
    pub id: i32,
    /// The base64 public key the user registered under.
    pub public_key: String,
    /// The unique, case-sensitive name the user registered.
    pub username: String,
}

/// A registration request.
pub struct UserInsert {
    /// The base64 public key to register.
    pub public_key: String,
    /// The name to register.
    pub username: String,
}

/// The outstanding challenge of one public key.
pub struct AuthInsert {
    /// The public key being authenticated.
    pub public_key: String,
    /// The base64 secret a client must hand back.
    pub expected_token: String,
    /// Seconds since the epoch after which the challenge is replaced.
    pub timeout: i64,
}

/// A sealed challenge handed to a client.
pub struct AuthResponse {
    /// The base64 challenge, sealed to the user's key by the server's key.
    pub encrypted_token: String,
    /// The base64 nonce the challenge was sealed with.
    pub nonce: String,
}

/// A client's answer to a challenge.
pub struct AuthValidate {
    /// The opened challenge.
    pub decrypted_token: String,
    /// The user the client claims to be.
    pub username: String,
}

/// A stored post.
pub struct Post {
    /// Store-assigned identifier.
    pub id: i32,
    /// The encrypted content.
    pub content: String,
    /// The nonce the content was encrypted with.
    pub nonce: String,
    /// The author's identifier.
    pub user_id: i32,
    /// Seconds since the epoch at which the store took the post.
    pub time_posted: i64,
    /// The content key, sealed for the author.
    pub public_key: String,
    /// The nonce of the author's envelope.
    pub public_key_nonce: String,
}

/// One access grant: a reader's sealed copy of a post's content key.
pub struct NoaInsert {
    /// The reader.
    pub user_id: i32,
    /// The post.
    pub post_id: i32,
    /// The content key, sealed for the reader.
    pub secret_key: String,
    /// The nonce of the reader's envelope.
    pub nonce: String,
}

/// A request to publish a post.
pub struct PostData {
    /// The encrypted content.
    pub content: String,
    /// The nonce the content was encrypted with.
    pub nonce: String,
    /// The author.
    pub username: String,
    /// The author's opened challenge.
    pub proof: String,
    /// The content key, sealed for the author.
    pub public_key: String,
    /// The nonce of the author's envelope.
    pub public_key_nonce: String,
    /// The readers, each with an envelope of the content key.
    pub noa_encrypted_keys: Vec<PostNOATarget>,
}

/// One reader named in a publish request.
pub struct PostNOATarget {
    /// The reader.
    pub username: String,
    /// The content key, sealed for the reader.
    pub encrypted_secret_key: String,
    /// The nonce of the reader's envelope.
    pub nonce: String,
}

/// A post as a reader sees it.
pub struct PostResponse {
    /// The encrypted content.
    pub encrypted_content: String,
    /// The nonce the content was encrypted with.
    pub nonce: String,
    /// The author's name.
    pub username: String,
    /// The author's public key.
    pub public_key: String,
    /// The post's identifier.
    pub post_id: i32,
    /// Seconds since the epoch at which the store took the post.
    pub time_posted: i64,
    /// The content key, sealed for the author.
    pub encrypted_public_key: String,
    /// The nonce of the author's envelope.
    pub encrypted_public_key_nonce: String,
}

/// One listed grant.
pub struct NoaResponse {
    /// The post.
    pub post: PostResponse,
    /// The content key, sealed for the reader who asked.
    pub encrypted_secret_key: String,
    /// The nonce of that envelope.
    pub nonce: String,
    /// Every user who holds a grant on the post.
    pub all_readers: Vec<String>,
}

/// One page of grants.
pub struct NoaOuterResponse {
    /// The grants of the page, newest post first.
    pub noas: Vec<NoaResponse>,
    /// The number of pages the reader's grants fill.
    pub pages: i64,
}

/// A request to replace a post's content.
pub struct PostPutData {
    /// The post.
    pub post_id: i32,
    /// The author's opened challenge.
    pub proof: String,
    /// The new encrypted content.
    pub new_content: String,
    /// The nonce of the new content.
    pub new_nonce: String,
}

/// Why an operation did not take place.
#[derive(PartialEq, Eq, Structural, Clone, Copy, Debug)]
pub enum Failure {
    /// A named user or post does not exist.
    NotFound,
    /// The proof of identity was missing, wrong or already used.
    AuthFailed,
    /// The username is taken.
    Conflict,
    /// The store cannot hold the change, or holds data that cannot be used.
    StoreError,
}

} // verus!

//! The handle to the external cache store.
//!
//! Only the client's construction lives here: it parses the URL and makes no
//! connection. The store's get, set and delete are network calls and stay
//! with the runner, which keys entries with [`crate::cache::user_permissions_key`]
//! and treats every transient store failure as a cache miss.

use vstd::prelude::*;

verus! {

#[verifier::external_type_specification]
#[verifier::external_body]
pub struct ExClient(redis::Client);

#[verifier::external_type_specification]
#[verifier::external_body]
pub struct ExRedisError(redis::RedisError);

/// Why the cache-store client could not be made: the URL did not parse.
#[derive(Clone, Copy, Debug, PartialEq, Eq, Structural)]
pub enum CacheStoreError {
    InvalidUrl,
}

/// A client for the external cache store.
pub struct RedisCache {
    pub client: redis::Client,
}

/// Whether the crate's URL grammar accepts `url`: what redis::Client::open
/// decides from its argument alone, attempting no connection.
pub uninterp spec fn redis_url_ok(url: Seq<char>) -> bool;

/// Relies on redis::Client::open: parses the connection URL into a client,
/// attempting no connection; it succeeds exactly on the URLs the crate's
/// grammar accepts, a function of the text alone.
#[verifier::external_body]
fn open_client(url: &str) -> (r: Result<redis::Client, redis::RedisError>)
    ensures
        r is Ok <==> redis_url_ok(url@),
{
    redis::Client::open(url)
}

impl RedisCache {
    /// A cache-store client for `redis_url`; an error exactly when the URL
    /// does not parse.
    pub fn new(redis_url: &str) -> (r: Result<RedisCache, CacheStoreError>)
        ensures
            r is Ok <==> redis_url_ok(redis_url@),
            r is Err ==> r == Err::<RedisCache, CacheStoreError>(CacheStoreError::InvalidUrl),
    {
        match open_client(redis_url) {
            Ok(client) => Ok(RedisCache { client }),
            Err(_) => Err(CacheStoreError::InvalidUrl),
        }
    }
}

} // verus!

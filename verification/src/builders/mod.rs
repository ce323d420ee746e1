//! Builders for the three rate limiters. Every option has a default; building opens a client
//! of the store without connecting to it.

use crate::errors::RateLimiterError;
use crate::store::client_url_accepted;
use crate::store::open_client;
use crate::text::append_numeral;
use crate::text::decimal;
use redis::Client as RedisClient;
use vstd::prelude::*;
use vstd::string::StringExecFns;

pub mod fixed_window;
pub mod sliding_window;
pub mod token_bucket;

verus! {

/// The host of the store where none is given.
pub const DEFAULT_REDIS_HOST: &'static str = "127.0.0.1";

/// The port of the store where none is given.
pub const DEFAULT_REDIS_PORT: u16 = 6379;

/// The size of a window where none is given.
pub const DEFAULT_WINDOW_SIZE: u64 = 5;

/// The duration of a window, in seconds, where none is given.
pub const DEFAULT_WINDOW_DURATION_SECS: u64 = 15;

/// The size of a bucket where none is given.
pub const DEFAULT_BUCKET_SIZE: u64 = 5;

/// The validity of a bucket, in seconds, where none is given.
pub const DEFAULT_BUCKET_VALIDITY_SECS: u64 = 60;

/// Where the Redis server is found.
#[derive(Clone)]
pub struct RedisSettings {
    /// The host of the server.
    pub host: String,
    /// The port of the server.
    pub port: u16,
}

/// The URL of the store at the given host and port: `redis://`, the host, a colon and the port.
pub open spec fn url_of(host: Seq<char>, port: u16) -> Seq<char> {
    "redis://"@ + host + seq![':'] + decimal(port as nat)
}

/// The URL of the store with the given settings; without settings, that of the default host
/// and port.
pub open spec fn store_url(settings: Option<RedisSettings>) -> Seq<char> {
    match settings {
        Some(settings) => url_of(settings.host@, settings.port),
        None => url_of(DEFAULT_REDIS_HOST@, DEFAULT_REDIS_PORT),
    }
}

/// The URL of the default store, written out.
pub proof fn lemma_default_store_url()
    ensures
        store_url(None) == "redis://127.0.0.1:6379"@,
{
    reveal_strlit("redis://");
    reveal_strlit("127.0.0.1");
    reveal_strlit("redis://127.0.0.1:6379");
    reveal_with_fuel(crate::text::numeral, 5);
}

/// Writes the URL of the store at the given host and port.
fn build_url(host: &str, port: u16) -> (r: String)
    ensures
        r@ == url_of(host@, port),
{
    proof {
        reveal_strlit(":");
    }
    let mut url = String::from_str("redis://");
    url.append(host);
    url.append(":");
    append_numeral(&mut url, 10, port as u64);
    url
}

/// Writes the URL of the store with the given settings.
pub fn build_store_url(settings: &Option<RedisSettings>) -> (r: String)
    ensures
        r@ == store_url(*settings),
{
    match settings {
        Some(settings) => build_url(settings.host.as_str(), settings.port),
        None => build_url(DEFAULT_REDIS_HOST, DEFAULT_REDIS_PORT),
    }
}

/// Opens a client of the store with the given settings. This fails with an `InitError` where
/// the URL made of the settings is not accepted, and never for the default settings.
pub fn open_store(settings: &Option<RedisSettings>) -> (r: Result<RedisClient, RateLimiterError>)
    ensures
        r is Ok == client_url_accepted(store_url(*settings)),
        r is Err ==> r->Err_0 is InitError,
        *settings is None ==> r is Ok,
{
    let url = build_store_url(settings);
    proof {
        lemma_default_store_url();
    }
    match open_client(url.as_str()) {
        Ok(client) => Ok(client),
        Err(error) => Err(RateLimiterError::from(error)),
    }
}

} // verus!

//! Remote-backed cache-through adapter.
//!
//! The remote store is reached through cloudflare_kv_proxy's client, which
//! keeps a local bounded cache with a fixed expiry in front of the remote
//! calls. The network round-trips themselves are asynchronous and run in
//! the embedding program; the decision of what each round-trip outcome
//! means — in particular that a missing key is an absent value, never an
//! error — is made here.

use vstd::prelude::*;

use crate::storage::{RemoteFailure, StorageError};

verus! {

#[verifier::external_type_specification]
#[verifier::external_body]
pub struct ExCfClient(cloudflare_kv_proxy::Client);

#[verifier::external_type_specification]
#[verifier::external_body]
pub struct ExCfClientError(cloudflare_kv_proxy::ClientError);

/// Configuration of the remote adapter: endpoint and credential of the
/// remote store, and size and expiry (seconds) of the local cache tier.
pub struct CFConfig {
    pub endpoint: String,
    pub token: String,
    pub cache_size: usize,
    pub expire_sec: u64,
}

/// Request timeout handed to the proxy client, in seconds.
pub const REMOTE_TIMEOUT_SECS: u64 = 30;

/// What one remote `get` round-trip came back with, as the driver of the
/// asynchronous call reports it.
pub enum RemoteOutcome<V> {
    Found(V),
    NotFound,
    Failed(RemoteFailure),
}

/// Relies on cloudflare_kv_proxy::Client::new: normalises the endpoint,
/// builds the HTTP client with the credential as a default header, and
/// prepares the local bounded cache; it fails only when the credential or
/// the client cannot be built.
#[verifier::external_body]
fn new_remote_client(
    endpoint: String,
    token: String,
    timeout_secs: u64,
    cache_size: usize,
    expire_secs: u64,
) -> (r: Result<cloudflare_kv_proxy::Client, cloudflare_kv_proxy::ClientError>) {
    cloudflare_kv_proxy::Client::new(
        endpoint,
        token,
        core::time::Duration::from_secs(timeout_secs),
        cache_size,
        core::time::Duration::from_secs(expire_secs),
    )
}

/// Remote-backed storage adapter.
pub struct CFStorage {
    client: cloudflare_kv_proxy::Client,
}

impl CFStorage {
    /// Builds the adapter. Construction fails only as a configuration
    /// error; it performs no round-trip.
    pub fn new(endpoint: String, token: String, cache_size: usize, expire_secs: u64) -> (r: Result<
        CFStorage,
        StorageError,
    >)
        ensures
            r matches Err(e) ==> e == StorageError::Configuration,
    {
        match new_remote_client(endpoint, token, REMOTE_TIMEOUT_SECS, cache_size, expire_secs) {
            Ok(c) => Ok(CFStorage { client: c }),
            Err(_) => Err(StorageError::Configuration),
        }
    }

    /// Builds the adapter from its configuration record.
    pub fn from_config(cfg: CFConfig) -> (r: Result<CFStorage, StorageError>)
        ensures
            r matches Err(e) ==> e == StorageError::Configuration,
    {
        CFStorage::new(cfg.endpoint, cfg.token, cfg.cache_size, cfg.expire_sec)
    }

    /// The underlying proxy client, for the driver that performs the
    /// asynchronous round-trips.
    pub fn client(&self) -> &cloudflare_kv_proxy::Client {
        &self.client
    }

    /// The uniform meaning of a `get` round-trip outcome: a value is the
    /// value, a missing key is `None` — never an error — and a failure is
    /// a `StorageError` of the remote kind.
    pub fn resolve_remote_get<V>(outcome: RemoteOutcome<V>) -> (r: Result<Option<V>, StorageError>)
        ensures
            (outcome matches RemoteOutcome::Found(v) ==> r == Ok::<Option<V>, StorageError>(
                Some(v),
            )),
            outcome is NotFound ==> r == Ok::<Option<V>, StorageError>(None),
            (outcome matches RemoteOutcome::Failed(f) ==> r == Err::<Option<V>, StorageError>(
                StorageError::Remote(f),
            )),
    {
        match outcome {
            RemoteOutcome::Found(v) => Ok(Some(v)),
            RemoteOutcome::NotFound => Ok(None),
            RemoteOutcome::Failed(f) => Err(StorageError::Remote(f)),
        }
    }

    /// The uniform meaning of a `set` or `delete` round-trip outcome: both
    /// pass straight through to the remote store.
    pub fn resolve_remote_write(outcome: Result<(), RemoteFailure>) -> (r: Result<(), StorageError>)
        ensures
            outcome is Ok ==> r == Ok::<(), StorageError>(()),
            (outcome matches Err(f) ==> r == Err::<(), StorageError>(StorageError::Remote(f))),
    {
        match outcome {
            Ok(()) => Ok(()),
            Err(f) => Err(StorageError::Remote(f)),
        }
    }
}

} // verus!

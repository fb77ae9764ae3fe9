//! Resilient album-acquisition pipeline: an HTTP transport that rotates its
//! apparent source address inside a configured IPv6 block and pins chosen
//! hostnames to fixed resolver targets, a collector that turns a page
//! reference into album metadata plus a lazy stream of per-item fetches
//! governed by a bounded retry policy, and a key-value cache abstraction
//! with interchangeable backends.

pub mod address;
pub mod collector;
pub mod http_client;
pub mod http_proxy;
pub mod searcher;
pub mod retry;
pub mod storage;
pub mod textscan;


//! Decision core of a forwarding, caching DNS resolver.
//!
//! Everything here is synchronous and free of I/O: the functions take what the
//! network, the clock and the cache store produced and say what to do next.
//! The wire format itself is handled by the `domain` crate, reached through the
//! small set of trusted functions in [`wire`].

pub mod addr;
pub mod cacher;
pub mod config;
pub mod reply;
pub mod resolver;
pub mod server;
pub mod speedtest;
pub mod upstream;
pub mod wire;

pub use cacher::ZCacher;
pub use config::{Cache, Config, Server, Upstream};
pub use resolver::ZResolver;
pub use server::ZServerType;
pub use speedtest::ZSpeedTest;
pub use upstream::{HttpsUpstream, UdpUpstream, ZUpstream};

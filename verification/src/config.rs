//! Configuration of the resolver's parts.

use vstd::prelude::*;
use crate::addr::{socket_text, spec_parse_ipv4, Ipv4};

verus! {

/// Port of a datagram upstream that names none.
pub const DEFAULT_PORT: u16 = 53;

/// The serialization that the `url` crate gives a text it accepts as an
/// absolute URL.
pub uninterp spec fn spec_url_text(host: Seq<char>) -> Option<Seq<char>>;

/// Parses a URL with `Url::parse` and writes it back.
///
/// Trusted: the result is the serialization that `url` prints; there is none
/// when the text is no absolute URL.
#[verifier::external_body]
pub(crate) fn url_text(host: &str) -> (r: Option<String>)
    ensures
        r matches Some(u) ==> spec_url_text(host@) == Some(u@),
        r is None ==> spec_url_text(host@) is None,
{
    url::Url::parse(host).ok().map(|u| u.to_string())
}

/// Settings of the listener and its workers.
#[derive(Debug, Clone)]
pub struct Server {
    /// Port to listen on.
    pub port: u16,
    /// Number of workers.
    pub worker: u16,
    /// Capacity of the request and response queues.
    pub qsize: u16,
    /// Kind of listener; a datagram listener when absent.
    pub stype: Option<String>,
}

/// Settings of the cache.
#[derive(Debug, Clone)]
pub struct Cache {
    /// Capacity of the store and of the refresh queue.
    pub max_size: u16,
    /// Upper end of the window that time-to-live values are clamped into.
    pub max_ttl: u16,
    /// Lower end of that window.
    pub min_ttl: u16,
    /// File of names to seed the cache with.
    pub preload_file: String,
}

/// Settings of one upstream resolver.
#[derive(Debug, Clone)]
pub struct Upstream {
    /// Transport, `"udp"` or `"https"`; derived from `host` when absent.
    pub uptype: Option<String>,
    /// An IPv4 literal, or else a URL.
    pub host: String,
    /// Port of a datagram upstream; 53 when absent.
    pub port: Option<u16>,
}

/// The whole configuration.
#[derive(Debug)]
pub struct Config {
    pub server: Server,
    pub upstreams: Vec<Upstream>,
    pub cache: Cache,
}

impl Upstream {
    /// The port of the upstream: the one configured, or [`DEFAULT_PORT`].
    pub open spec fn spec_port(&self) -> u16 {
        match self.port {
            Some(p) => p,
            None => DEFAULT_PORT,
        }
    }

    /// Whether the host is an IPv4 literal, which makes the upstream a
    /// datagram upstream.
    pub open spec fn is_datagram(&self) -> bool {
        spec_parse_ipv4(self.host@) is Some
    }

    /// The address of the upstream as text: address and port for an IPv4
    /// literal, else the URL that the host is; nothing when the host is
    /// neither.
    pub open spec fn spec_host(&self) -> Option<Seq<char>> {
        match spec_parse_ipv4(self.host@) {
            Some(ip) => Some(socket_text(ip, self.spec_port())),
            None => spec_url_text(self.host@),
        }
    }

    /// The transport of the upstream: the one configured, else `udp` for an
    /// IPv4 literal and `https` for anything else.
    pub open spec fn spec_type(&self) -> Seq<char> {
        match self.uptype {
            Some(t) => t@,
            None => if self.is_datagram() {
                "udp"@
            } else {
                "https"@
            },
        }
    }

    /// The port of the upstream.
    pub fn port_or_default(&self) -> (r: u16)
        ensures
            r == self.spec_port(),
    {
        match self.port {
            Some(p) => p,
            None => DEFAULT_PORT,
        }
    }

    /// The transport of the upstream.
    pub fn get_type(&self) -> (r: String)
        ensures
            r@ == self.spec_type(),
    {
        match &self.uptype {
            Some(t) => t.clone(),
            None => {
                if Ipv4::parse(self.host.as_str()).is_some() {
                    "udp".to_owned()
                } else {
                    "https".to_owned()
                }
            },
        }
    }

    /// The address of the upstream as text: address and port for an IPv4
    /// literal, else the URL that the host is. A host that is neither has no
    /// address, which is reported as `None`.
    pub fn get_host(&self) -> (r: Option<String>)
        ensures
            r matches Some(t) ==> self.spec_host() == Some(t@),
            r is None ==> self.spec_host() is None,
    {
        match Ipv4::parse(self.host.as_str()) {
            Some(ip) => Some(ip.socket(self.port_or_default())),
            None => url_text(self.host.as_str()),
        }
    }
}

} // verus!

use zdns::config::{Cache, Config, Server, Upstream, DEFAULT_PORT};
use zdns::server::ZServerType;

fn upstream(uptype: Option<&str>, host: &str, port: Option<u16>) -> Upstream {
    Upstream { uptype: uptype.map(|t| t.to_string()), host: host.to_string(), port }
}

fn sample() -> Config {
    Config {
        server: Server { port: 53, worker: 4, qsize: 1024, stype: None },
        upstreams: vec![
            upstream(None, "8.8.8.8", None),
            upstream(None, "1.1.1.1", Some(5353)),
            upstream(None, "https://dns.google/dns-query", None),
            upstream(Some("https"), "https://1.1.1.1/dns-query", Some(443)),
        ],
        cache: Cache { max_size: 1024, max_ttl: 3600, min_ttl: 60, preload_file: "domains.txt".to_string() },
    }
}

#[test]
fn test_config() {
    let config = sample();
    for item in config.upstreams.iter() {
        println!("{:?}, {:?}", item.get_host(), item.get_type());
    }
}

#[test]
fn host_of_a_literal_is_a_socket_address() {
    assert_eq!(DEFAULT_PORT, 53);
    assert_eq!(upstream(None, "8.8.8.8", None).get_host(), Some("8.8.8.8:53".to_string()));
    assert_eq!(upstream(None, "1.1.1.1", Some(5353)).get_host(), Some("1.1.1.1:5353".to_string()));
    assert_eq!(upstream(None, "1.1.1.1", Some(5353)).port_or_default(), 5353);
    assert_eq!(upstream(None, "1.1.1.1", None).port_or_default(), 53);
}

#[test]
fn host_of_a_url_is_its_serialization() {
    assert_eq!(
        upstream(None, "https://dns.google/dns-query", None).get_host(),
        Some("https://dns.google/dns-query".to_string())
    );
    assert_eq!(
        upstream(None, "HTTPS://Dns.Google", Some(8443)).get_host(),
        Some("https://dns.google/".to_string())
    );
    assert_eq!(
        upstream(None, "https://1.1.1.1/dns-query", None).get_host(),
        Some("https://1.1.1.1/dns-query".to_string())
    );
}

#[test]
fn host_that_is_neither_is_reported() {
    assert_eq!(upstream(None, "dns.google", None).get_host(), None);
    assert_eq!(upstream(None, "", None).get_host(), None);
    assert_eq!(upstream(None, "1.2.3", None).get_host(), None);
    assert_eq!(upstream(None, "8.8.8.8", None).get_host(), Some("8.8.8.8:53".to_string()));
}

#[test]
fn type_is_the_configured_one_or_follows_the_host() {
    assert_eq!(upstream(None, "8.8.8.8", None).get_type(), "udp");
    assert_eq!(upstream(None, "https://dns.google/dns-query", None).get_type(), "https");
    assert_eq!(upstream(None, "dns.google", None).get_type(), "https");
    assert_eq!(upstream(Some("https"), "8.8.8.8", None).get_type(), "https");
    assert_eq!(upstream(Some("udp"), "https://dns.google/dns-query", None).get_type(), "udp");
    assert_eq!(upstream(Some("tcp"), "8.8.8.8", None).get_type(), "tcp");
}

#[test]
fn server_types_and_their_codes() {
    assert_eq!(ZServerType::Udp.code(), 1);
    assert_eq!(ZServerType::Tcp.code(), 2);
    assert_eq!(ZServerType::Dot.code(), 3);
    assert_eq!(ZServerType::Doh.code(), 4);
}

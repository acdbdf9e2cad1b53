use domain::base::iana::Rcode;
use domain::base::{Dname, Message, MessageBuilder, Question, Rtype};
use zdns::addr::Ipv4;
use zdns::config::Upstream;
use zdns::upstream::{
    dns_message_type, BuildError, Handler, ZUpstream, ANSWER_WAIT_SECS, HTTPS_HANDOVER_MS,
    UDP_BUFFER_LEN, UDP_HANDOVER_MS,
};

fn conf(host: &str, port: Option<u16>) -> Upstream {
    Upstream { uptype: None, host: host.to_string(), port }
}

fn query(name: &str, rtype: Rtype, id: u16) -> Vec<u8> {
    let mut builder = MessageBuilder::new_vec();
    builder.header_mut().set_id(id);
    builder.header_mut().set_rd(true);
    let mut builder = builder.question();
    builder.push(Question::new_in(Dname::vec_from_str(name).unwrap(), rtype)).unwrap();
    builder.into_message().into_octets()
}

fn two_upstreams() -> ZUpstream {
    ZUpstream::build(&vec![conf("8.8.8.8", None), conf("https://dns.google/dns-query", None)]).unwrap()
}

#[test]
fn limits_are_the_documented_ones() {
    assert_eq!(ANSWER_WAIT_SECS, 1);
    assert_eq!(UDP_HANDOVER_MS, 1000);
    assert_eq!(HTTPS_HANDOVER_MS, 500);
    assert_eq!(UDP_BUFFER_LEN, 1024);
    assert_eq!(dns_message_type(), "application/dns-message");
}

#[test]
fn build_tells_datagram_from_http_upstreams() {
    let up = ZUpstream::build(&vec![
        conf("8.8.8.8", None),
        conf("https://dns.google/dns-query", Some(443)),
        conf("1.1.1.1", Some(5353)),
    ])
    .unwrap();
    assert_eq!(up.len(), 3);
    match &up.upstreams[0] {
        Handler::Udp(u) => {
            assert_eq!(u.addr, Ipv4 { a: 8, b: 8, c: 8, d: 8 });
            assert_eq!(u.port, 53);
        }
        Handler::Https(_) => panic!("a literal is a datagram upstream"),
    }
    match &up.upstreams[1] {
        Handler::Https(h) => assert_eq!(h.url, "https://dns.google/dns-query"),
        Handler::Udp(_) => panic!("a URL is an HTTP upstream"),
    }
    match &up.upstreams[2] {
        Handler::Udp(u) => {
            assert_eq!(u.addr, Ipv4 { a: 1, b: 1, c: 1, d: 1 });
            assert_eq!(u.port, 5353);
        }
        Handler::Https(_) => panic!("a literal is a datagram upstream"),
    }
}

#[test]
fn build_ignores_the_configured_type() {
    let up = ZUpstream::build(&vec![Upstream {
        uptype: Some("https".to_string()),
        host: "9.9.9.9".to_string(),
        port: None,
    }])
    .unwrap();
    assert!(matches!(&up.upstreams[0], Handler::Udp(u) if u.port == 53));
}

#[test]
fn build_names_the_first_bad_host() {
    let r = ZUpstream::build(&vec![conf("8.8.8.8", None), conf("not a url", None), conf("", None)]);
    assert_eq!(r.err(), Some(BuildError::BadHost { index: 1 }));
    assert_eq!(ZUpstream::build(&vec![]).unwrap().len(), 0);
}

#[test]
fn race_hands_the_first_answer_on_unchanged() {
    let up = two_upstreams();
    let q = query("example.com", Rtype::Mx, 7);
    let answer = vec![1u8, 2, 3, 4, 5];
    assert_eq!(up.query(&q, Some(answer.clone())), answer);
    assert_eq!(up.query(&q, Some(vec![])), Vec::<u8>::new());
}

#[test]
fn race_without_answer_is_a_server_failure() {
    let up = two_upstreams();
    let q = query("example.com", Rtype::A, 0xBEEF);
    let reply = up.query(&q, None);
    let msg = Message::from_octets(reply.as_slice()).unwrap();
    assert_eq!(msg.header().id(), 0xBEEF);
    assert_eq!(msg.header().rcode(), Rcode::ServFail);
    assert!(msg.header().qr());
    assert!(msg.header().rd());
    assert!(!msg.header().ra());
    let question = msg.sole_question().unwrap();
    assert_eq!(question.qname().to_string(), "example.com");
    assert_eq!(question.qtype(), Rtype::A);
    assert_eq!(msg.header_counts().ancount(), 0);
}

#[test]
fn race_without_answer_survives_a_short_query() {
    let up = two_upstreams();
    assert_eq!(up.query(&vec![0xAB, 0xCD, 1], None), vec![0xAB, 0xCD, 0x80, 2, 0, 0, 0, 0, 0, 0, 0, 0]);
    assert_eq!(up.query(&vec![0xAB], None), vec![0, 0, 0x80, 2, 0, 0, 0, 0, 0, 0, 0, 0]);
    assert_eq!(up.query(&vec![], None), vec![0, 0, 0x80, 2, 0, 0, 0, 0, 0, 0, 0, 0]);
}

#[test]
fn gather_keeps_what_arrives_in_order() {
    let up = two_upstreams();
    let mut g = up.query_all();
    assert!(g.step(Some(vec![2])));
    assert!(g.step(Some(vec![1])));
    assert!(g.step(Some(vec![2])));
    assert!(!g.step(None));
    assert_eq!(g.into_answers(), vec![vec![2u8], vec![1], vec![2]]);
}

#[test]
fn gather_returns_exactly_the_answers_inside_the_window() {
    let up = ZUpstream::build(&vec![conf("8.8.8.8", None), conf("8.8.4.4", None), conf("1.1.1.1", None)])
        .unwrap();
    let q = query("example.com", Rtype::A, 1);
    let mut g = up.query_all();
    assert!(g.step(Some(q.clone())));
    assert!(g.step(Some(q.clone())));
    assert!(!g.step(None));
    assert!(!g.step(Some(q.clone())));
    let answers = g.into_answers();
    assert_eq!(answers.len(), 2);
    for a in answers {
        assert!(Message::from_octets(a.as_slice()).is_ok());
    }
}

#[test]
fn gather_may_end_empty() {
    let up = two_upstreams();
    let mut g = up.query_all();
    assert!(!g.done);
    assert!(!g.step(None));
    assert!(g.done);
    assert!(!g.step(None));
    assert_eq!(g.into_answers(), Vec::<Vec<u8>>::new());
}

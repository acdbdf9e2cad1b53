use domain::base::iana::{Class, Rcode};
use domain::base::{Dname, Message, MessageBuilder, Question, Rtype};
use domain::rdata::{Cname, Mx, A};
use zdns::addr::Ipv4;
use zdns::cacher::{
    clamp, gather_records, hop, hops, merge_records, publish, Alias, InFlight, Merged, Refresh,
    ZCacher, ENTRY_COST, KEEP_TTL,
};
use zdns::config::Cache;
use zdns::speedtest::{Probe, ZSpeedTest};
use zdns::wire::AnswerRecord;

fn cacher(min_ttl: u16, max_ttl: u16) -> ZCacher {
    ZCacher::new(Cache { max_size: 3, max_ttl, min_ttl, preload_file: String::new() })
}

fn name(text: &str) -> Dname<Vec<u8>> {
    Dname::vec_from_str(text).unwrap()
}

fn query(qname: &str, id: u16) -> Vec<u8> {
    let mut builder = MessageBuilder::new_vec();
    builder.header_mut().set_id(id);
    let mut builder = builder.question();
    builder.push(Question::new_in(name(qname), Rtype::A)).unwrap();
    builder.into_message().into_octets()
}

fn answer(qname: &str, aliases: &[(&str, &str, u32)], addrs: &[(&str, [u8; 4], u32)]) -> Vec<u8> {
    let q = query(qname, 1);
    let q = Message::from_octets(q.as_slice()).unwrap();
    let mut b = MessageBuilder::new_vec().start_answer(&q, Rcode::NoError).unwrap();
    for (owner, target, ttl) in aliases {
        b.push((name(owner), Class::In, *ttl, Cname::new(name(target)))).unwrap();
    }
    for (owner, o, ttl) in addrs {
        b.push((name(owner), Class::In, *ttl, A::from_octets(o[0], o[1], o[2], o[3]))).unwrap();
    }
    b.into_message().into_octets()
}

fn record(rtype: u16, ttl: u32, addr: Option<[u8; 4]>, target: Option<&str>) -> AnswerRecord {
    AnswerRecord {
        owner: "example.com".to_string(),
        class: 1,
        rtype,
        ttl,
        addr: addr.map(Ipv4::from_octets),
        target: target.map(|t| t.to_string()),
    }
}

fn pairs(merged: &Merged) -> Vec<(String, String)> {
    merged.aliases.iter().map(|a| (a.owner.clone(), a.target.clone())).collect()
}

fn pair(owner: &str, target: &str) -> (String, String) {
    (owner.to_string(), target.to_string())
}

fn alias(owner: &str, target: &str) -> Alias {
    Alias { owner: owner.to_string(), target: target.to_string() }
}

fn ip(d: u8) -> Ipv4 {
    Ipv4 { a: 93, b: 184, c: 216, d }
}

#[test]
fn lookup_miss_stays_a_miss() {
    let r = cacher(60, 600).get(None);
    assert_eq!(r.answer, None);
    assert!(!r.refresh);
}

#[test]
fn lookup_with_enough_time_left_reports_it() {
    assert_eq!(KEEP_TTL, 15);
    for ttl in [15u32, 16, 100, 3600, u32::MAX] {
        let r = cacher(60, 600).get(Some((vec![1, 2, 3], ttl)));
        assert_eq!(r.answer, Some((vec![1, 2, 3], ttl)));
        assert!(!r.refresh);
    }
}

#[test]
fn lookup_near_expiry_reports_the_floor_and_refreshes() {
    for ttl in [0u32, 1, 14] {
        let r = cacher(60, 600).get(Some((vec![9], ttl)));
        assert_eq!(r.answer, Some((vec![9], 15)));
        assert!(r.refresh);
    }
}

#[test]
fn queue_drops_what_does_not_fit() {
    let c = cacher(60, 600);
    assert_eq!(c.capacity(), 3);
    assert!(c.push(0));
    assert!(c.push(2));
    assert!(!c.push(3));
    assert!(!c.push(4));
    assert_eq!(ENTRY_COST, 2);
}

#[test]
fn clamp_brings_into_the_window() {
    assert_eq!(clamp(5, 60, 600), 60);
    assert_eq!(clamp(60, 60, 600), 60);
    assert_eq!(clamp(300, 60, 600), 300);
    assert_eq!(clamp(600, 60, 600), 600);
    assert_eq!(clamp(601, 60, 600), 600);
    assert_eq!(clamp(u32::MAX, 60, 600), 600);
    assert_eq!(clamp(0, 0, 0), 0);
    assert_eq!(clamp(70000, 0, 65535), 65535);
}

#[test]
fn clamp_of_an_empty_window_ends_at_its_upper_end() {
    assert_eq!(clamp(5, 600, 60), 60);
    assert_eq!(clamp(1000, 600, 60), 60);
}

#[test]
fn refresh_is_skipped_while_an_entry_is_fresh() {
    assert!(matches!(cacher(60, 600).begin("example.com", Some(600)), Refresh::Skip));
    assert!(matches!(cacher(60, 600).begin("example.com", Some(15)), Refresh::Skip));
}

#[test]
fn refresh_goes_ahead_for_an_entry_near_expiry() {
    assert!(matches!(cacher(60, 600).begin("example.com", Some(14)), Refresh::Gather { .. }));
    assert!(matches!(cacher(60, 600).begin("example.com", Some(0)), Refresh::Gather { .. }));
}

#[test]
fn refresh_asks_for_the_addresses_of_the_name() {
    match cacher(60, 600).begin("example.com", None) {
        Refresh::Gather { query } => {
            let msg = Message::from_octets(query.as_slice()).unwrap();
            let q = msg.sole_question().unwrap();
            assert_eq!(q.qname().to_string(), "example.com");
            assert_eq!(q.qtype(), Rtype::A);
            assert_eq!(q.qclass(), Class::In);
            assert!(!msg.header().qr());
            assert_eq!(msg.header_counts().qdcount(), 1);
        }
        _ => panic!("a name that is not cached is asked for"),
    }
}

#[test]
fn refresh_rejects_what_is_no_name() {
    assert!(matches!(cacher(60, 600).begin("exa mple..com", None), Refresh::Reject));
}

#[test]
fn merge_takes_each_address_once() {
    let records = vec![
        record(1, 300, Some([1, 1, 1, 1]), None),
        record(1, 200, Some([2, 2, 2, 2]), None),
        record(1, 100, Some([1, 1, 1, 1]), None),
    ];
    let merged = merge_records(&records);
    assert_eq!(merged.addrs, vec![Ipv4::from_octets([1, 1, 1, 1]), Ipv4::from_octets([2, 2, 2, 2])]);
    assert!(merged.aliases.is_empty());
    assert_eq!(merged.ttl, 100);
}

#[test]
fn merge_ignores_other_record_types() {
    let records = vec![
        record(15, 5, Some([1, 1, 1, 1]), Some("mail.example.com")),
        record(28, 1, None, None),
        record(1, 50, None, None),
        record(5, 70, None, Some("a.example.com")),
    ];
    let merged = merge_records(&records);
    assert_eq!(merged.addrs, Vec::<Ipv4>::new());
    assert_eq!(pairs(&merged), vec![pair("example.com", "a.example.com")]);
    assert_eq!(merged.ttl, 70);
}

#[test]
fn merge_of_nothing_has_the_largest_ttl() {
    let merged = merge_records(&vec![]);
    assert_eq!(merged.ttl, u32::MAX);
    assert!(merged.addrs.is_empty());
    assert!(merged.aliases.is_empty());
}

#[test]
fn gather_reads_every_answer_that_is_a_message() {
    let a1 = answer("example.com", &[("example.com", "edge.example.net", 120)], &[("edge.example.net", [93, 184, 216, 34], 300)]);
    let a2 = vec![1u8, 2, 3];
    let a3 = answer("example.com", &[], &[("example.com", [93, 184, 216, 35], 60)]);
    let records = gather_records(&vec![a1, a2, a3]);
    assert_eq!(records.len(), 3);
    assert_eq!(records[0].owner, "example.com");
    assert_eq!(records[0].rtype, 5);
    assert_eq!(records[0].class, 1);
    assert_eq!(records[0].ttl, 120);
    assert_eq!(records[0].addr, None);
    assert_eq!(records[0].target, Some("edge.example.net".to_string()));
    assert_eq!(records[1].owner, "edge.example.net");
    assert_eq!(records[1].rtype, 1);
    assert_eq!(records[1].ttl, 300);
    assert_eq!(records[1].addr, Some(ip(34)));
    assert_eq!(records[1].target, None);
    assert_eq!(records[2].addr, Some(ip(35)));
    assert_eq!(records[2].ttl, 60);
}

#[test]
fn gather_reads_other_records_without_data() {
    let q = query("example.com", 1);
    let q = Message::from_octets(q.as_slice()).unwrap();
    let mut b = MessageBuilder::new_vec().start_answer(&q, Rcode::NoError).unwrap();
    b.push((name("example.com"), Class::In, 30, Mx::new(10, name("mail.example.com")))).unwrap();
    let records = gather_records(&vec![b.into_message().into_octets()]);
    assert_eq!(records.len(), 1);
    assert_eq!(records[0].rtype, 15);
    assert_eq!(records[0].addr, None);
    assert_eq!(records[0].target, None);
    let merged = merge_records(&records);
    assert_eq!(merged.ttl, u32::MAX);
}

#[test]
fn entry_holds_the_chain_and_the_chosen_address() {
    let c = cacher(60, 600);
    let answers = vec![answer(
        "www.example.com",
        &[("www.example.com", "cdn.example.net", 500), ("cdn.example.net", "edge.example.org", 400)],
        &[("edge.example.org", [93, 184, 216, 34], 300), ("edge.example.org", [93, 184, 216, 35], 300)],
    )];
    let merged = c.merge(&answers);
    assert_eq!(
        pairs(&merged),
        vec![pair("www.example.com", "cdn.example.net"), pair("cdn.example.net", "edge.example.org")]
    );
    assert_eq!(merged.addrs, vec![ip(34), ip(35)]);
    assert_eq!(merged.ttl, 300);
    let entry = c.entry("www.example.com", &merged, Some(ip(35))).unwrap();
    assert_eq!(entry.key, "www.example.com");
    assert_eq!(entry.ttl, 300);
    let msg = Message::from_octets(entry.answer.as_slice()).unwrap();
    assert!(msg.header().qr());
    assert!(msg.header().ra());
    assert_eq!(msg.header().rcode(), Rcode::NoError);
    assert_eq!(msg.sole_question().unwrap().qname().to_string(), "www.example.com");
    let records = gather_records(&vec![entry.answer.clone()]);
    assert_eq!(records.len(), 3);
    assert_eq!(records[0].owner, "www.example.com");
    assert_eq!(records[0].target, Some("cdn.example.net".to_string()));
    assert_eq!(records[1].owner, "cdn.example.net");
    assert_eq!(records[1].target, Some("edge.example.org".to_string()));
    assert_eq!(records[2].owner, "edge.example.org");
    assert_eq!(records[2].addr, Some(ip(35)));
    for r in &records {
        assert_eq!(r.ttl, 300);
        assert_eq!(r.class, 1);
    }
}

#[test]
fn entry_ttl_is_clamped() {
    let short = answer("example.com", &[], &[("example.com", [93, 184, 216, 34], 5)]);
    let long = answer("example.com", &[], &[("example.com", [93, 184, 216, 34], 86400)]);
    let c = cacher(60, 600);
    let merged = c.merge(&vec![short]);
    assert_eq!(merged.ttl, 5);
    let entry = c.entry("example.com", &merged, None).unwrap();
    assert_eq!(entry.ttl, 60);
    assert_eq!(gather_records(&vec![entry.answer])[0].ttl, 60);
    let merged = c.merge(&vec![long]);
    assert_eq!(merged.ttl, 86400);
    let entry = c.entry("example.com", &merged, None).unwrap();
    assert_eq!(entry.ttl, 600);
    assert_eq!(gather_records(&vec![entry.answer])[0].ttl, 600);
}

#[test]
fn entry_key_is_the_name_in_display_form() {
    let c = cacher(60, 600);
    let merged = c.merge(&vec![answer("example.com", &[], &[("example.com", [93, 184, 216, 34], 100)])]);
    let entry = c.entry("example.com.", &merged, None).unwrap();
    assert_eq!(entry.key, "example.com");
    let records = gather_records(&vec![entry.answer]);
    assert_eq!(records.len(), 1);
    assert_eq!(records[0].owner, "example.com");
}

#[test]
fn entry_needs_a_name() {
    let c = cacher(60, 600);
    let merged = c.merge(&vec![answer("example.com", &[], &[("example.com", [93, 184, 216, 34], 100)])]);
    assert!(c.entry("exa mple..com", &merged, None).is_none());
    assert!(c.entry("example.com", &merged, None).is_some());
}

#[test]
fn refresh_across_three_upstreams_keeps_the_least_ttl_and_one_address() {
    let c = cacher(0, 65535);
    let query = match c.begin("example.com", None) {
        Refresh::Gather { query } => query,
        _ => panic!("the name is to be asked for"),
    };
    assert!(Message::from_octets(query.as_slice()).is_ok());
    let answers = vec![
        answer("example.com", &[], &[("example.com", [93, 184, 216, 34], 300)]),
        answer("example.com", &[], &[("example.com", [93, 184, 216, 34], 300)]),
        answer("example.com", &[], &[("example.com", [93, 184, 216, 34], 60)]),
    ];
    let merged = c.merge(&answers);
    assert!(merged.ttl <= 60);
    assert_eq!(merged.ttl, 60);
    assert_eq!(merged.addrs, vec![ip(34)]);
    let probe = ZSpeedTest::query(merged.addrs.clone()).unwrap();
    assert!(matches!(probe, Probe::Settled(_)));
    assert_eq!(ZSpeedTest::settle(&probe, None), ip(34));
    let entry = c.entry("example.com", &merged, None).unwrap();
    assert_eq!(entry.ttl, 60);
    let records = gather_records(&vec![entry.answer.clone()]);
    let addresses: Vec<&AnswerRecord> = records.iter().filter(|r| r.addr.is_some()).collect();
    assert_eq!(addresses.len(), 1);
    assert_eq!(addresses[0].addr, Some(ip(34)));
    let lookup = c.get(Some((entry.answer, entry.ttl)));
    assert_eq!(lookup.answer.map(|a| a.1), Some(60));
    assert!(!lookup.refresh);
}

#[test]
fn refresh_without_addresses_stores_nothing() {
    let c = cacher(60, 600);
    let merged = c.merge(&vec![answer("example.com", &[], &[]), vec![0u8; 5]]);
    assert!(merged.addrs.is_empty());
    assert!(c.entry("example.com", &merged, None).is_none());
    assert!(c.entry("example.com", &merged, Some(ip(34))).is_none());
    assert!(ZSpeedTest::query(merged.addrs).is_err());
}

#[test]
fn name_in_flight_cannot_be_claimed_again() {
    let a = "a.example.com".to_string();
    let b = "b.example.com".to_string();
    let mut in_flight = InFlight::new();
    assert!(!in_flight.holds(&a));
    assert!(in_flight.claim(&a));
    assert!(in_flight.holds(&a));
    assert!(!in_flight.claim(&a));
    assert!(in_flight.claim(&b));
    assert!(!in_flight.claim(&b));
    in_flight.release(&a);
    assert!(!in_flight.holds(&a));
    assert!(in_flight.holds(&b));
    assert!(in_flight.claim(&a));
}

#[test]
fn release_of_a_name_not_in_flight_changes_nothing() {
    let a = "a.example.com".to_string();
    let b = "b.example.com".to_string();
    let mut in_flight = InFlight::new();
    in_flight.release(&a);
    assert!(in_flight.claim(&b));
    in_flight.release(&a);
    assert!(in_flight.holds(&b));
    assert!(!in_flight.holds(&a));
}

#[test]
fn chain_is_walked_hop_by_hop_whatever_the_order_of_the_records() {
    let c = cacher(60, 600);
    let answers = vec![answer(
        "www.example.com",
        &[("c1.example.net", "c2.example.net", 300), ("www.example.com", "c1.example.net", 300)],
        &[("c2.example.net", [1, 2, 3, 4], 300)],
    )];
    let merged = c.merge(&answers);
    assert_eq!(
        pairs(&merged),
        vec![pair("c1.example.net", "c2.example.net"), pair("www.example.com", "c1.example.net")]
    );
    assert_eq!(
        hops(&merged.aliases, "www.example.com"),
        vec!["c1.example.net".to_string(), "c2.example.net".to_string()]
    );
    let entry = c.entry("www.example.com", &merged, None).unwrap();
    let records = gather_records(&vec![entry.answer]);
    assert_eq!(records.len(), 3);
    assert_eq!(records[0].owner, "www.example.com");
    assert_eq!(records[0].target, Some("c1.example.net".to_string()));
    assert_eq!(records[1].owner, "c1.example.net");
    assert_eq!(records[1].target, Some("c2.example.net".to_string()));
    assert_eq!(records[2].owner, "c2.example.net");
    assert_eq!(records[2].addr, Some(Ipv4::from_octets([1, 2, 3, 4])));
}

#[test]
fn chain_starts_at_the_name_in_display_form() {
    let c = cacher(60, 600);
    let answers = vec![answer(
        "www.example.com",
        &[("www.example.com", "edge.example.net", 300)],
        &[("edge.example.net", [1, 2, 3, 4], 300)],
    )];
    let merged = c.merge(&answers);
    let entry = c.entry("www.example.com.", &merged, None).unwrap();
    assert_eq!(entry.key, "www.example.com");
    let records = gather_records(&vec![entry.answer]);
    assert_eq!(records.len(), 2);
    assert_eq!(records[0].owner, "www.example.com");
    assert_eq!(records[1].owner, "edge.example.net");
}

#[test]
fn aliases_off_the_chain_are_not_published() {
    let c = cacher(60, 600);
    let answers = vec![answer(
        "www.example.com",
        &[("other.example.com", "elsewhere.example.net", 300)],
        &[("www.example.com", [1, 2, 3, 4], 300)],
    )];
    let merged = c.merge(&answers);
    assert_eq!(merged.aliases.len(), 1);
    let entry = c.entry("www.example.com", &merged, None).unwrap();
    let records = gather_records(&vec![entry.answer]);
    assert_eq!(records.len(), 1);
    assert_eq!(records[0].owner, "www.example.com");
    assert_eq!(records[0].addr, Some(Ipv4::from_octets([1, 2, 3, 4])));
}

#[test]
fn hops_follow_the_first_alias_of_each_name() {
    let aliases = vec![alias("a", "b"), alias("b", "c"), alias("a", "x"), alias("c", "d")];
    assert_eq!(hop(&aliases, &"a".to_string()), Some("b".to_string()));
    assert_eq!(hop(&aliases, &"d".to_string()), None);
    assert_eq!(hops(&aliases, "a"), vec!["b".to_string(), "c".to_string(), "d".to_string()]);
    assert_eq!(hops(&aliases, "c"), vec!["d".to_string()]);
    assert_eq!(hops(&aliases, "d"), Vec::<String>::new());
    assert_eq!(hops(&vec![], "a"), Vec::<String>::new());
}

#[test]
fn hops_of_a_circle_end() {
    let aliases = vec![alias("a", "b"), alias("b", "a")];
    assert_eq!(hops(&aliases, "a"), vec!["b".to_string(), "a".to_string()]);
    let own = vec![alias("a", "a")];
    assert_eq!(hops(&own, "a"), vec!["a".to_string()]);
}

#[test]
fn publish_owns_the_address_by_the_end_of_the_chain() {
    let chain = vec!["b.example.com".to_string(), "c.example.com".to_string()];
    let answer = publish("a.example.com", "a.example.com", &chain, 77, ip(1)).unwrap();
    let records = gather_records(&vec![answer]);
    assert_eq!(records.len(), 3);
    assert_eq!(records[0].owner, "a.example.com");
    assert_eq!(records[1].owner, "b.example.com");
    assert_eq!(records[2].owner, "c.example.com");
    assert_eq!(records[2].addr, Some(ip(1)));
    assert_eq!(records[2].ttl, 77);
    assert!(publish("a..example.com", "a.example.com", &chain, 77, ip(1)).is_none());
}

#[test]
fn published_address_is_one_of_the_candidates() {
    let c = cacher(60, 600);
    let answers = vec![
        answer("example.com", &[], &[("example.com", [93, 184, 216, 34], 300)]),
        answer("example.com", &[], &[("example.com", [93, 184, 216, 35], 300)]),
    ];
    let merged = c.merge(&answers);
    assert_eq!(merged.addrs, vec![ip(34), ip(35)]);
    let stranger = Ipv4 { a: 9, b: 9, c: 9, d: 9 };
    for (winner, expected) in [(None, ip(34)), (Some(ip(35)), ip(35)), (Some(stranger), ip(34))] {
        let entry = c.entry("example.com", &merged, winner).unwrap();
        let records = gather_records(&vec![entry.answer]);
        assert_eq!(records.len(), 1);
        assert_eq!(records[0].addr, Some(expected));
    }
}

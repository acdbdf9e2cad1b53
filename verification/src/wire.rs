//! DNS wire format, as read and written by the `domain` crate.
//!
//! The functions in this module are the only place where message octets are
//! interpreted. Each one is a thin call into `domain` whose contract is taken
//! on trust; what a call returns is named by an uninterpreted function of the
//! plain values handed to it, so that the verified code built on top can say
//! exactly which calls its results are made of.

use vstd::prelude::*;
use domain::base::iana::{Class, Rcode};
use domain::base::message_builder::AnswerBuilder;
use domain::base::{Dname, Message, MessageBuilder, Rtype};
use domain::rdata::{Cname, A};
use crate::addr::Ipv4;

verus! {

/// Record type of an IPv4 address record.
pub const RTYPE_A: u16 = 1;

/// Record type of a canonical-name record.
pub const RTYPE_CNAME: u16 = 5;

/// The Internet class.
pub const CLASS_IN: u16 = 1;

/// Response code of a successful answer.
pub const RCODE_NOERROR: u8 = 0;

/// Response code of a server failure.
pub const RCODE_SERVFAIL: u8 = 2;

/// Length of the fixed header that starts every message.
pub const HEADER_LEN: usize = 12;

/// The single question of a query.
#[derive(Clone, Debug)]
pub struct Question {
    /// Queried name in display form, without the trailing dot.
    pub qname: String,
    pub qtype: u16,
    pub qclass: u16,
}

/// Mathematical value of a [`Question`].
pub ghost struct QuestionView {
    pub qname: Seq<char>,
    pub qtype: u16,
    pub qclass: u16,
}

impl View for Question {
    type V = QuestionView;

    open spec fn view(&self) -> QuestionView {
        QuestionView { qname: self.qname@, qtype: self.qtype, qclass: self.qclass }
    }
}

/// One record of an answer section.
///
/// `addr` is present when the record data could be read as an address record,
/// `target` when it could be read as a canonical-name record. Owner and
/// target are both in display form, without a trailing dot, so that the
/// target of one record and the owner of another can be compared as text.
#[derive(Clone, Debug)]
pub struct AnswerRecord {
    /// Owner name in display form.
    pub owner: String,
    pub class: u16,
    pub rtype: u16,
    pub ttl: u32,
    pub addr: Option<Ipv4>,
    pub target: Option<String>,
}

/// Mathematical value of an [`AnswerRecord`].
pub ghost struct RecordView {
    pub owner: Seq<char>,
    pub class: u16,
    pub rtype: u16,
    pub ttl: u32,
    pub addr: Option<Ipv4>,
    pub target: Option<Seq<char>>,
}

impl View for AnswerRecord {
    type V = RecordView;

    open spec fn view(&self) -> RecordView {
        RecordView {
            owner: self.owner@,
            class: self.class,
            rtype: self.rtype,
            ttl: self.ttl,
            addr: self.addr,
            target: match self.target {
                Some(t) => Some(t@),
                None => None,
            },
        }
    }
}

/// Views of a vector of records, in order.
pub open spec fn records_view(records: Seq<AnswerRecord>) -> Seq<RecordView> {
    records.map_values(|r: AnswerRecord| r@)
}

#[verifier::external_type_specification]
#[verifier::external_body]
#[verifier::reject_recursive_types(Target)]
pub struct ExAnswerBuilder<Target>(AnswerBuilder<Target>);

/// Whether the message `after` is `before` grown at its end: it is at least as
/// long and has the same identifier and flags in its first four octets.
pub open spec fn keeps_head(before: Seq<u8>, after: Seq<u8>) -> bool {
    &&& after.len() >= before.len()
    &&& after[0] == before[0]
    &&& after[1] == before[1]
    &&& after[2] == before[2]
    &&& after[3] == before[3]
}

/// The message octets that a builder has assembled so far.
pub uninterp spec fn builder_octets(b: AnswerBuilder<Vec<u8>>) -> Seq<u8>;

/// The sole question that `domain` reads from `octets`, if it reads one.
pub uninterp spec fn spec_sole_question(octets: Seq<u8>) -> Option<QuestionView>;

/// The answer section that `domain` reads from `octets`, if the message can
/// be split into its sections.
pub uninterp spec fn spec_answer_records(octets: Seq<u8>) -> Option<Seq<RecordView>>;

/// The message that `domain` starts in reply to `query`.
pub uninterp spec fn spec_start_answer(query: Seq<u8>, rcode: u8, ra: bool) -> Option<Seq<u8>>;

/// The message that results from appending an address record to `msg`.
pub uninterp spec fn spec_push_addr(
    msg: Seq<u8>,
    owner: Seq<char>,
    class: u16,
    ttl: u32,
    addr: Ipv4,
) -> Option<Seq<u8>>;

/// The message that results from appending a canonical-name record to `msg`.
pub uninterp spec fn spec_push_alias(
    msg: Seq<u8>,
    owner: Seq<char>,
    class: u16,
    ttl: u32,
    target: Seq<char>,
) -> Option<Seq<u8>>;

/// The query that `domain` composes for a name given as text, a record type
/// and a class.
pub uninterp spec fn spec_query(name: Seq<char>, qtype: u16, qclass: u16) -> Option<Seq<u8>>;

/// The display form that `domain` gives a name it has read from text.
pub uninterp spec fn spec_canonical_name(name: Seq<char>) -> Option<Seq<char>>;

/// Reads the sole question of a message with `Message::from_octets` and
/// `Message::sole_question`.
///
/// Trusted: the result is whatever `domain` reads, which is a question when
/// the octets hold a full header, the header counts exactly one question and
/// that question parses, and nothing otherwise.
#[verifier::external_body]
pub(crate) fn sole_question(octets: &Vec<u8>) -> (r: Option<Question>)
    ensures
        r matches Some(q) ==> spec_sole_question(octets@) == Some(q@),
        r is None ==> spec_sole_question(octets@) is None,
{
    let msg = Message::from_octets(octets.as_slice()).ok()?;
    let q = msg.sole_question().ok()?;
    Some(Question { qname: q.qname().to_string(), qtype: q.qtype().to_int(), qclass: q.qclass().to_int() })
}

/// Reads the answer section of a message with `Message::from_octets`,
/// `Message::sections` and `ParsedRecord::to_record`.
///
/// Trusted: the result is whatever `domain` reads. `None` means that the
/// octets are no message or that its sections cannot be told apart; records
/// that do not parse are left out, as by iterating the section and dropping
/// the errors. The target of a canonical-name record is the name in its data,
/// printed as owners are.
#[verifier::external_body]
pub(crate) fn answer_records(octets: &Vec<u8>) -> (r: Option<Vec<AnswerRecord>>)
    ensures
        r matches Some(v) ==> spec_answer_records(octets@) == Some(records_view(v@)),
        r is None ==> spec_answer_records(octets@) is None,
{
    let msg = Message::from_octets(octets.as_slice()).ok()?;
    let (_, answer, _, _) = msg.sections().ok()?;
    Some(answer.flatten().map(|rr| AnswerRecord {
        owner: rr.owner().to_string(),
        class: rr.class().to_int(),
        rtype: rr.rtype().to_int(),
        ttl: rr.ttl(),
        addr: rr.to_record::<A>().ok().flatten().map(|x| Ipv4::from_octets(x.data().addr().octets())),
        target: rr.to_record::<Cname<_>>().ok().flatten().map(|x| x.data().cname().to_string()),
    }).collect())
}

/// Starts a reply with `MessageBuilder::start_answer` and sets the
/// recursion-available flag with `Header::set_ra`.
///
/// Trusted: the builder holds what `domain` composes. A reply is started only
/// for octets that hold a full header; it then has a full header itself,
/// repeats the identifier of the query, is marked as a response, copies the
/// recursion-desired flag, carries the given recursion-available flag and
/// response code, and counts no answer, authority or additional record.
#[verifier::external_body]
pub(crate) fn start_answer(query: &Vec<u8>, rcode: u8, ra: bool) -> (r: Option<AnswerBuilder<Vec<u8>>>)
    ensures
        r matches Some(b) ==> spec_start_answer(query@, rcode, ra) == Some(builder_octets(b)),
        r is None ==> spec_start_answer(query@, rcode, ra) is None,
        r matches Some(b) ==> {
            &&& query@.len() >= HEADER_LEN
            &&& builder_octets(b).len() >= HEADER_LEN
            &&& builder_octets(b)[0] == query@[0]
            &&& builder_octets(b)[1] == query@[1]
            &&& builder_octets(b)[2] & 0x80 == 0x80
            &&& builder_octets(b)[2] & 0x01 == query@[2] & 0x01
            &&& builder_octets(b)[3] & 0x80 == (if ra { 0x80u8 } else { 0u8 })
            &&& builder_octets(b)[3] & 0x0f == rcode & 0x0f
            &&& forall|i: int| 6 <= i < HEADER_LEN ==> #[trigger] builder_octets(b)[i] == 0
        },
{
    let msg = Message::from_octets(query.as_slice()).ok()?;
    let mut b = MessageBuilder::new_vec().start_answer(&msg, Rcode::from_int(rcode)).ok()?;
    b.header_mut().set_ra(ra);
    Some(b)
}

/// Appends an address record with `AnswerBuilder::push`.
///
/// Trusted: on success the builder holds what `domain` composes; when the
/// owner is no domain name or the record does not fit, the builder is left as
/// it was. Appending a record adds octets at the end and counts the record in
/// the header, so that the message does not shrink and keeps its identifier
/// and flags.
#[verifier::external_body]
pub(crate) fn push_addr(
    b: &mut AnswerBuilder<Vec<u8>>,
    owner: &str,
    class: u16,
    ttl: u32,
    addr: Ipv4,
) -> (ok: bool)
    ensures
        ok == spec_push_addr(builder_octets(*old(b)), owner@, class, ttl, addr) is Some,
        builder_octets(*final(b)) == match spec_push_addr(
            builder_octets(*old(b)),
            owner@,
            class,
            ttl,
            addr,
        ) {
            Some(m) => m,
            None => builder_octets(*old(b)),
        },
        builder_octets(*old(b)).len() >= HEADER_LEN ==> keeps_head(
            builder_octets(*old(b)),
            builder_octets(*final(b)),
        ),
{
    match Dname::vec_from_str(owner) {
        Ok(name) => b.push((name, Class::from_int(class), ttl, A::from_octets(addr.a, addr.b, addr.c, addr.d))).is_ok(),
        Err(_) => false,
    }
}

/// Appends a canonical-name record with `AnswerBuilder::push`.
///
/// Trusted: on success the builder holds what `domain` composes; when owner
/// or target is no domain name or the record does not fit, the builder is
/// left as it was. Appending a record adds octets at the end and counts the
/// record in the header, so that the message does not shrink and keeps its
/// identifier and flags.
#[verifier::external_body]
pub(crate) fn push_alias(
    b: &mut AnswerBuilder<Vec<u8>>,
    owner: &str,
    class: u16,
    ttl: u32,
    target: &str,
) -> (ok: bool)
    ensures
        ok == spec_push_alias(builder_octets(*old(b)), owner@, class, ttl, target@) is Some,
        builder_octets(*final(b)) == match spec_push_alias(
            builder_octets(*old(b)),
            owner@,
            class,
            ttl,
            target@,
        ) {
            Some(m) => m,
            None => builder_octets(*old(b)),
        },
        builder_octets(*old(b)).len() >= HEADER_LEN ==> keeps_head(
            builder_octets(*old(b)),
            builder_octets(*final(b)),
        ),
{
    match (Dname::vec_from_str(owner), Dname::vec_from_str(target)) {
        (Ok(name), Ok(to)) => b.push((name, Class::from_int(class), ttl, Cname::new(to))).is_ok(),
        _ => false,
    }
}

/// Hands out the finished message with `AnswerBuilder::into_message`.
///
/// Trusted: the octets returned are the ones the builder has assembled.
#[verifier::external_body]
pub(crate) fn finish(b: AnswerBuilder<Vec<u8>>) -> (r: Vec<u8>)
    ensures
        r@ == builder_octets(b),
{
    b.into_message().into_octets()
}

/// Composes a query with one question with `Dname::vec_from_str`,
/// `Question::new` and `QuestionBuilder::push`.
///
/// Trusted: the result is whatever `domain` composes; there is none when the
/// text is no domain name.
#[verifier::external_body]
pub(crate) fn query_for(name: &str, qtype: u16, qclass: u16) -> (r: Option<Vec<u8>>)
    ensures
        r matches Some(q) ==> spec_query(name@, qtype, qclass) == Some(q@),
        r is None ==> spec_query(name@, qtype, qclass) is None,
{
    let qname = Dname::vec_from_str(name).ok()?;
    let mut b = MessageBuilder::new_vec().question();
    b.push(domain::base::Question::new(qname, Rtype::from_int(qtype), Class::from_int(qclass))).ok()?;
    Some(b.into_message().into_octets())
}

/// Reads a name from text with `Dname::vec_from_str` and writes it back in
/// display form.
///
/// Trusted: the result is whatever `domain` prints; there is none when the
/// text is no domain name.
#[verifier::external_body]
pub(crate) fn canonical_name(name: &str) -> (r: Option<String>)
    ensures
        r matches Some(s) ==> spec_canonical_name(name@) == Some(s@),
        r is None ==> spec_canonical_name(name@) is None,
{
    Dname::vec_from_str(name).ok().map(|n| n.to_string())
}

} // verus!

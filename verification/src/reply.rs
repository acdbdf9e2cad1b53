//! Replies assembled from a query and a list of records.

use vstd::prelude::*;
use domain::base::message_builder::AnswerBuilder;
use crate::wire::{
    builder_octets, finish, keeps_head, push_addr, push_alias, records_view, spec_push_addr, spec_push_alias,
    spec_start_answer, start_answer, AnswerRecord, RecordView, HEADER_LEN, RCODE_SERVFAIL,
    RTYPE_A, RTYPE_CNAME,
};

verus! {

/// The identifier that a query carries in its first two octets, as the pair
/// of those octets; zero when the query is too short to carry one.
pub open spec fn query_id(query: Seq<u8>) -> (u8, u8) {
    if query.len() >= 2 {
        (query[0], query[1])
    } else {
        (0u8, 0u8)
    }
}

/// Whether `reply` has the header of a reply to `query`: a full header with
/// the identifier of the query, marked as a response, with the response code
/// `rcode`, and with recursion marked as available or not as `ra` says.
pub open spec fn is_reply(query: Seq<u8>, reply: Seq<u8>, rcode: u8, ra: bool) -> bool {
    &&& reply.len() >= HEADER_LEN
    &&& (reply[0], reply[1]) == query_id(query)
    &&& reply[2] & 0x80 == 0x80
    &&& reply[3] & 0x80 == (if ra { 0x80u8 } else { 0u8 })
    &&& reply[3] & 0x0f == rcode
}

/// Whether the header of `reply` counts no answer, authority or additional
/// record.
pub open spec fn no_records(reply: Seq<u8>) -> bool {
    forall|i: int| 6 <= i < HEADER_LEN ==> #[trigger] reply[i] == 0
}

/// A server-failure reply that consists of a header alone: the identifier of
/// the query, the response flag, the failure code, and no section.
pub open spec fn bare_failure(query: Seq<u8>) -> Seq<u8> {
    seq![
        query_id(query).0,
        query_id(query).1,
        0x80u8,
        RCODE_SERVFAIL,
        0u8,
        0u8,
        0u8,
        0u8,
        0u8,
        0u8,
        0u8,
        0u8,
    ]
}

/// The server-failure reply to `query`: the reply that repeats the questions
/// of the query where one can be started, else the bare header.
pub open spec fn spec_server_failure(query: Seq<u8>) -> Seq<u8> {
    match spec_start_answer(query, RCODE_SERVFAIL, false) {
        Some(m) => m,
        None => bare_failure(query),
    }
}

/// Whether a record takes part when records are carried over. With `strict`
/// only address and canonical-name records do.
pub open spec fn wanted(r: RecordView, strict: bool) -> bool {
    !strict || r.rtype == RTYPE_A || r.rtype == RTYPE_CNAME
}

/// The message after one record has been carried over with a new
/// time-to-live: its address data is appended if it has any, then its
/// canonical-name data if it has any.
pub open spec fn spec_copy_record(msg: Seq<u8>, r: RecordView, ttl: u32, strict: bool) -> Option<
    Seq<u8>,
> {
    if !wanted(r, strict) {
        Some(msg)
    } else {
        let with_addr = match r.addr {
            Some(a) => spec_push_addr(msg, r.owner, r.class, ttl, a),
            None => Some(msg),
        };
        match with_addr {
            None => None,
            Some(m) => match r.target {
                Some(t) => spec_push_alias(m, r.owner, r.class, ttl, t),
                None => Some(m),
            },
        }
    }
}

/// The message after all of `records` have been carried over in order, or
/// nothing if one of them could not be appended.
pub open spec fn spec_copy_records(
    msg: Seq<u8>,
    records: Seq<RecordView>,
    ttl: u32,
    strict: bool,
) -> Option<Seq<u8>>
    decreases records.len(),
{
    if records.len() == 0 {
        Some(msg)
    } else {
        match spec_copy_records(msg, records.drop_last(), ttl, strict) {
            None => None,
            Some(m) => spec_copy_record(m, records.last(), ttl, strict),
        }
    }
}

/// Whether some record that takes part carries an address.
pub open spec fn has_address(records: Seq<RecordView>, strict: bool) -> bool {
    exists|i: int| 0 <= i < records.len() && wanted(#[trigger] records[i], strict) && records[i].addr is Some
}

/// Builds the header-only failure reply.
pub fn bare_failure_reply(query: &Vec<u8>) -> (r: Vec<u8>)
    ensures
        r@ == bare_failure(query@),
{
    let mut id0: u8 = 0;
    let mut id1: u8 = 0;
    if query.len() >= 2 {
        id0 = query[0];
        id1 = query[1];
    }
    let mut r: Vec<u8> = Vec::new();
    r.push(id0);
    r.push(id1);
    r.push(0x80u8);
    r.push(RCODE_SERVFAIL);
    let mut i: usize = 4;
    while i < HEADER_LEN
        invariant
            4 <= i <= HEADER_LEN,
            r@.len() == i,
            r@[0] == id0,
            r@[1] == id1,
            r@[2] == 0x80u8,
            r@[3] == RCODE_SERVFAIL,
            forall|k: int| 4 <= k < i ==> r@[k] == 0u8,
        decreases HEADER_LEN - i,
    {
        r.push(0u8);
        i += 1;
    }
    assert(r@ =~= bare_failure(query@));
    r
}

/// Synthesizes the server-failure reply to `query`.
///
/// The reply always holds a full header marked as a response, with the
/// failure code and without the recursion-available flag, repeats the
/// identifier of any query long enough to have one, and counts no record.
pub fn server_failure(query: &Vec<u8>) -> (r: Vec<u8>)
    ensures
        r@ == spec_server_failure(query@),
        is_reply(query@, r@, RCODE_SERVFAIL, false),
        no_records(r@),
{
    assert(RCODE_SERVFAIL & 0x0f == RCODE_SERVFAIL) by (bit_vector);
    assert(RCODE_SERVFAIL & 0x80 == 0) by (bit_vector);
    assert(0x80u8 & 0x80 == 0x80) by (bit_vector);
    match start_answer(query, RCODE_SERVFAIL, false) {
        Some(b) => finish(b),
        None => bare_failure_reply(query),
    }
}

/// Carries one record over into the reply under construction.
fn copy_record(b: &mut AnswerBuilder<Vec<u8>>, record: &AnswerRecord, ttl: u32, strict: bool) -> (ok:
    bool)
    ensures
        ok == spec_copy_record(builder_octets(*old(b)), record@, ttl, strict) is Some,
        ok ==> Some(builder_octets(*final(b))) == spec_copy_record(
            builder_octets(*old(b)),
            record@,
            ttl,
            strict,
        ),
        builder_octets(*old(b)).len() >= HEADER_LEN ==> keeps_head(
            builder_octets(*old(b)),
            builder_octets(*final(b)),
        ),
{
    if strict && record.rtype != RTYPE_A && record.rtype != RTYPE_CNAME {
        return true;
    }
    if let Some(a) = record.addr {
        if !push_addr(b, record.owner.as_str(), record.class, ttl, a) {
            return false;
        }
    }
    match &record.target {
        Some(t) => push_alias(b, record.owner.as_str(), record.class, ttl, t.as_str()),
        None => true,
    }
}

/// Carries `records` over into the reply under construction, each with the
/// time-to-live `ttl`. Stops at the first record that cannot be appended.
pub(crate) fn copy_records(
    b: &mut AnswerBuilder<Vec<u8>>,
    records: &Vec<AnswerRecord>,
    ttl: u32,
    strict: bool,
) -> (ok: bool)
    ensures
        ok == spec_copy_records(builder_octets(*old(b)), records_view(records@), ttl, strict) is Some,
        ok ==> Some(builder_octets(*final(b))) == spec_copy_records(
            builder_octets(*old(b)),
            records_view(records@),
            ttl,
            strict,
        ),
        builder_octets(*old(b)).len() >= HEADER_LEN ==> keeps_head(
            builder_octets(*old(b)),
            builder_octets(*final(b)),
        ),
{
    let ghost start = builder_octets(*b);
    let ghost rv = records_view(records@);
    let mut i: usize = 0;
    while i < records.len()
        invariant
            0 <= i <= records.len(),
            rv == records_view(records@),
            start == builder_octets(*old(b)),
            start.len() >= HEADER_LEN ==> keeps_head(start, builder_octets(*b)),
            spec_copy_records(start, rv.take(i as int), ttl, strict) == Some(builder_octets(*b)),
        decreases records.len() - i,
    {
        let ghost before = builder_octets(*b);
        proof {
            assert(rv.take(i + 1).drop_last() =~= rv.take(i as int));
            assert(rv.take(i + 1).last() == records@[i as int]@);
            assert(spec_copy_records(start, rv.take(i + 1), ttl, strict) == spec_copy_record(
                before,
                records@[i as int]@,
                ttl,
                strict,
            ));
        }
        if !copy_record(b, &records[i], ttl, strict) {
            proof {
                lemma_copy_fails_for_good(start, rv, ttl, strict, i + 1);
            }
            return false;
        }
        i += 1;
    }
    assert(rv.take(i as int) =~= rv);
    true
}

/// Once a prefix of the records cannot be carried over, neither can the whole.
pub proof fn lemma_copy_fails_for_good(
    msg: Seq<u8>,
    records: Seq<RecordView>,
    ttl: u32,
    strict: bool,
    n: int,
)
    requires
        0 <= n <= records.len(),
        spec_copy_records(msg, records.take(n), ttl, strict) is None,
    ensures
        spec_copy_records(msg, records, ttl, strict) is None,
    decreases records.len() - n,
{
    if n < records.len() {
        assert(records.take(n + 1).drop_last() =~= records.take(n));
        lemma_copy_fails_for_good(msg, records, ttl, strict, n + 1);
    } else {
        assert(records.take(n) =~= records);
    }
}

/// Says whether some record that takes part carries an address.
pub fn any_address(records: &Vec<AnswerRecord>, strict: bool) -> (r: bool)
    ensures
        r == has_address(records_view(records@), strict),
{
    let ghost rv = records_view(records@);
    let mut i: usize = 0;
    while i < records.len()
        invariant
            0 <= i <= records.len(),
            rv == records_view(records@),
            forall|k: int| 0 <= k < i ==> !(wanted(#[trigger] rv[k], strict) && rv[k].addr is Some),
        decreases records.len() - i,
    {
        let rec = &records[i];
        if (!strict || rec.rtype == RTYPE_A || rec.rtype == RTYPE_CNAME) && rec.addr.is_some() {
            assert(wanted(rv[i as int], strict) && rv[i as int].addr is Some);
            return true;
        }
        i += 1;
    }
    false
}

} // verus!

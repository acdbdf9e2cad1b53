//! The path of one query: validation, routing by record type, and the reply
//! made from the cache or from a live upstream answer.
//!
//! Nothing is kept between queries. [`ZResolver::resolve`] says which path a
//! query takes; the caller reads the store or runs the race among the
//! upstreams, as the path demands, and hands the outcome to the function that
//! finishes the path. Every path ends in a reply.

use vstd::prelude::*;
use crate::cacher::{reported_ttl, ZCacher, KEEP_TTL};
use crate::reply::{
    any_address, copy_records, has_address, is_reply, no_records, server_failure,
    spec_copy_records,
    spec_server_failure,
};
use crate::upstream::{spec_race, ZUpstream};
use crate::wire::{
    answer_records, builder_octets, finish, records_view, sole_question, spec_answer_records,
    spec_sole_question, spec_start_answer, start_answer, AnswerRecord, RecordView, HEADER_LEN,
    RCODE_NOERROR, RCODE_SERVFAIL, RTYPE_A,
};

verus! {

/// Time-to-live, in seconds, of the records of a reply made from a live
/// upstream answer.
pub const LIVE_TTL: u32 = 10;

/// The path that a query takes.
#[derive(Debug)]
pub enum Route {
    /// The query is not answerable: this reply goes out, and nothing else
    /// happens.
    Reply(Vec<u8>),
    /// An address query: the cache is to be read under this name.
    Lookup(String),
    /// Any other query: it goes to the upstreams, whose answer is the reply.
    Forward,
}

/// Mathematical value of a [`Route`].
pub ghost enum RouteView {
    Reply(Seq<u8>),
    Lookup(Seq<char>),
    Forward,
}

impl View for Route {
    type V = RouteView;

    open spec fn view(&self) -> RouteView {
        match self {
            Route::Reply(bytes) => RouteView::Reply(bytes@),
            Route::Lookup(name) => RouteView::Lookup(name@),
            Route::Forward => RouteView::Forward,
        }
    }
}

/// What reading the cache leads to.
#[derive(Debug)]
pub enum Cached {
    /// A hit: this reply goes out, and the name is to be enqueued for a
    /// refresh if `refresh` says so.
    Hit { reply: Vec<u8>, refresh: bool },
    /// A miss: the query goes to the upstreams.
    Miss,
}

/// A reply made from a live upstream answer.
#[derive(Debug)]
pub struct Live {
    pub reply: Vec<u8>,
    /// Whether the name is to be enqueued for a refresh.
    pub refresh: bool,
}

/// The resolution rules.
#[derive(Clone, Debug)]
pub struct ZResolver {
    pub zupstream: ZUpstream,
    pub cacher: ZCacher,
}

/// The path of the query `qmsg`: a server-failure reply unless the query has
/// exactly one question that can be read; the cache for an address question;
/// the upstreams for any other.
pub open spec fn spec_route(qmsg: Seq<u8>) -> RouteView {
    match spec_sole_question(qmsg) {
        None => RouteView::Reply(spec_server_failure(qmsg)),
        Some(q) => if q.qtype == RTYPE_A {
            RouteView::Lookup(q.qname)
        } else {
            RouteView::Forward
        },
    }
}

/// A successful reply to `qmsg`, with recursion available, that carries
/// `records` over with the time-to-live `ttl`; nothing if the reply cannot be
/// started or a record cannot be appended.
pub open spec fn spec_compose(qmsg: Seq<u8>, records: Seq<RecordView>, ttl: u32, strict: bool) -> Option<
    Seq<u8>,
> {
    match spec_start_answer(qmsg, RCODE_NOERROR, true) {
        None => None,
        Some(started) => spec_copy_records(started, records, ttl, strict),
    }
}

/// The reply to `qmsg` made from the records of the message `source`, or the
/// server-failure reply where the source cannot be read or the reply cannot
/// be composed.
pub open spec fn spec_reply_from(qmsg: Seq<u8>, source: Seq<u8>, ttl: u32, strict: bool) -> Seq<u8> {
    match spec_answer_records(source) {
        None => spec_server_failure(qmsg),
        Some(records) => match spec_compose(qmsg, records, ttl, strict) {
            None => spec_server_failure(qmsg),
            Some(reply) => reply,
        },
    }
}

/// Whether a reply can be made from the message `source`: the source can be
/// read and the reply composed.
pub open spec fn spec_composes(qmsg: Seq<u8>, source: Seq<u8>, ttl: u32, strict: bool) -> bool {
    match spec_answer_records(source) {
        None => false,
        Some(records) => spec_compose(qmsg, records, ttl, strict) is Some,
    }
}

/// Whether a reply made from the message `source` was composed, and from
/// records among which an address record takes part.
pub open spec fn spec_has_address(qmsg: Seq<u8>, source: Seq<u8>, ttl: u32, strict: bool) -> bool {
    match spec_answer_records(source) {
        None => false,
        Some(records) => spec_compose(qmsg, records, ttl, strict) is Some && has_address(
            records,
            strict,
        ),
    }
}

/// Composes a successful reply to `qmsg` that carries `records` over, each
/// with the time-to-live `ttl`. With `strict` only address and
/// canonical-name records are carried over.
pub fn compose(qmsg: &Vec<u8>, records: &Vec<AnswerRecord>, ttl: u32, strict: bool) -> (r: Option<
    Vec<u8>,
>)
    ensures
        r matches Some(reply) ==> spec_compose(qmsg@, records_view(records@), ttl, strict) == Some(
            reply@,
        ),
        r is None ==> spec_compose(qmsg@, records_view(records@), ttl, strict) is None,
        r matches Some(reply) ==> is_reply(qmsg@, reply@, RCODE_NOERROR, true),
{
    assert(RCODE_NOERROR & 0x0f == RCODE_NOERROR) by (bit_vector);
    let mut b = match start_answer(qmsg, RCODE_NOERROR, true) {
        Some(b) => b,
        None => { return None; },
    };
    if !copy_records(&mut b, records, ttl, strict) {
        return None;
    }
    Some(finish(b))
}

impl ZResolver {
    /// The rules over the given upstreams and cache rules.
    pub fn new(zupstream: ZUpstream, cacher: ZCacher) -> (r: ZResolver)
        ensures
            r.zupstream == zupstream,
            r.cacher == cacher,
    {
        ZResolver { zupstream, cacher }
    }

    /// Validates a query and decides its path.
    pub fn resolve(&self, qmsg: &Vec<u8>) -> (r: Route)
        ensures
            r@ == spec_route(qmsg@),
            r matches Route::Reply(reply) ==> is_reply(qmsg@, reply@, RCODE_SERVFAIL, false)
                && no_records(reply@),
    {
        match sole_question(qmsg) {
            None => Route::Reply(server_failure(qmsg)),
            Some(q) => {
                if q.qtype == RTYPE_A {
                    Route::Lookup(q.qname)
                } else {
                    Route::Forward
                }
            },
        }
    }

    /// Finishes the path of an address query once the cache has been read.
    /// `stored` is what the store holds under the name: the answer and the
    /// seconds it has left, if there is an entry.
    ///
    /// On a hit the reply carries the cached records, every one with the
    /// time-to-live that the lookup reports; the name is to be refreshed
    /// exactly when less than [`KEEP_TTL`] seconds were left.
    pub fn resolve_a(&self, qmsg: &Vec<u8>, stored: Option<(Vec<u8>, u32)>) -> (r: Cached)
        ensures
            stored is None <==> r is Miss,
            stored matches Some(e) ==> (r matches Cached::Hit { reply, refresh } && reply@
                == spec_reply_from(qmsg@, e.0@, reported_ttl(e.1), false) && refresh == (e.1
                < KEEP_TTL)),
            stored matches Some(e) ==> (r matches Cached::Hit { reply, refresh } && (if spec_composes(
                qmsg@,
                e.0@,
                reported_ttl(e.1),
                false,
            ) {
                is_reply(qmsg@, reply@, RCODE_NOERROR, true)
            } else {
                is_reply(qmsg@, reply@, RCODE_SERVFAIL, false) && no_records(reply@)
            })),
    {
        let lookup = self.cacher.get(stored);
        match lookup.answer {
            None => Cached::Miss,
            Some((bytes, ttl)) => Cached::Hit {
                reply: reply_from(qmsg, &bytes, ttl, false).0,
                refresh: lookup.refresh,
            },
        }
    }

    /// Finishes the path of an address query that missed the cache. `first`
    /// is the first upstream answer that arrived in time, if any did.
    ///
    /// The reply carries the address and canonical-name records of the
    /// upstream answer, every one with the time-to-live [`LIVE_TTL`]. The
    /// name is to be refreshed exactly when an address record was among
    /// them.
    pub fn resolve_live(&self, qmsg: &Vec<u8>, first: Option<Vec<u8>>) -> (r: Live)
        ensures
            r.reply@ == spec_reply_from(
                qmsg@,
                spec_race(
                    qmsg@,
                    match first {
                        Some(a) => Some(a@),
                        None => None,
                    },
                ),
                LIVE_TTL,
                true,
            ),
            r.refresh == spec_has_address(
                qmsg@,
                spec_race(
                    qmsg@,
                    match first {
                        Some(a) => Some(a@),
                        None => None,
                    },
                ),
                LIVE_TTL,
                true,
            ),
            if spec_composes(
                qmsg@,
                spec_race(
                    qmsg@,
                    match first {
                        Some(a) => Some(a@),
                        None => None,
                    },
                ),
                LIVE_TTL,
                true,
            ) {
                is_reply(qmsg@, r.reply@, RCODE_NOERROR, true)
            } else {
                is_reply(qmsg@, r.reply@, RCODE_SERVFAIL, false) && no_records(r.reply@) && !r.refresh
            },
    {
        let answer = self.zupstream.query(qmsg, first);
        let (reply, refresh) = reply_from(qmsg, &answer, LIVE_TTL, true);
        Live { reply, refresh }
    }

    /// Finishes the path of any other query. `first` is the first upstream
    /// answer that arrived in time, if any did: it is the reply, octet for
    /// octet.
    pub fn resolve_other(&self, qmsg: &Vec<u8>, first: Option<Vec<u8>>) -> (r: Vec<u8>)
        ensures
            first matches Some(a) ==> r@ == a@,
            first is None ==> r@ == spec_server_failure(qmsg@),
            first is None ==> is_reply(qmsg@, r@, RCODE_SERVFAIL, false) && no_records(r@),
    {
        self.zupstream.query(qmsg, first)
    }
}

/// Makes the reply to `qmsg` from the records of the message `source`, and
/// says whether the reply was composed from records among which an address
/// record takes part.
pub fn reply_from(qmsg: &Vec<u8>, source: &Vec<u8>, ttl: u32, strict: bool) -> (r: (Vec<u8>, bool))
    ensures
        r.0@ == spec_reply_from(qmsg@, source@, ttl, strict),
        r.1 == spec_has_address(qmsg@, source@, ttl, strict),
        spec_composes(qmsg@, source@, ttl, strict) ==> is_reply(qmsg@, r.0@, RCODE_NOERROR, true),
        !spec_composes(qmsg@, source@, ttl, strict) ==> is_reply(qmsg@, r.0@, RCODE_SERVFAIL, false)
            && no_records(r.0@),
{
    let records = match answer_records(source) {
        Some(records) => records,
        None => { return (server_failure(qmsg), false); },
    };
    match compose(qmsg, &records, ttl, strict) {
        Some(reply) => (reply, any_address(&records, strict)),
        None => (server_failure(qmsg), false),
    }
}

} // verus!

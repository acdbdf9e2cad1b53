//! The set of upstream resolvers and the two ways of asking all of them.
//!
//! Sending and receiving is left to the caller. In race mode the caller
//! reports the first answer, or that none came in time, and [`ZUpstream::query`]
//! says what the outcome is. In gather mode the caller reports each arrival to
//! a [`Gather`] until the window is over.

use vstd::prelude::*;
use crate::addr::{socket_text, spec_parse_ipv4, Ipv4};
use crate::config::{spec_url_text, url_text, Upstream};
use crate::reply::{is_reply, no_records, server_failure, spec_server_failure};
use crate::wire::RCODE_SERVFAIL;

verus! {

/// Seconds that a race or a gathering waits for answers.
pub const ANSWER_WAIT_SECS: u64 = 1;

/// Milliseconds that a datagram probe may take to hand over its answer.
pub const UDP_HANDOVER_MS: u64 = 1000;

/// Milliseconds that an HTTP probe may take to hand over its answer.
pub const HTTPS_HANDOVER_MS: u64 = 500;

/// Size of the buffer that a datagram probe receives into.
pub const UDP_BUFFER_LEN: usize = 1024;

/// Content type under which an HTTP probe posts a query.
pub fn dns_message_type() -> (r: &'static str)
    ensures
        r@ == "application/dns-message"@,
{
    "application/dns-message"
}

/// A datagram upstream: one socket, one send, one reply.
#[derive(Clone, Copy, Debug, PartialEq, Eq, Structural)]
pub struct UdpUpstream {
    pub addr: Ipv4,
    pub port: u16,
}

/// An HTTP upstream: the query is posted to the URL, the body of the
/// response is the answer.
#[derive(Clone, Debug)]
pub struct HttpsUpstream {
    pub url: String,
}

/// An upstream of either kind.
#[derive(Clone, Debug)]
pub enum Handler {
    Udp(UdpUpstream),
    Https(HttpsUpstream),
}

/// Mathematical value of a [`Handler`].
pub ghost enum HandlerView {
    Udp { addr: Ipv4, port: u16 },
    Https { url: Seq<char> },
}

impl View for Handler {
    type V = HandlerView;

    open spec fn view(&self) -> HandlerView {
        match self {
            Handler::Udp(u) => HandlerView::Udp { addr: u.addr, port: u.port },
            Handler::Https(h) => HandlerView::Https { url: h.url@ },
        }
    }
}

/// Why a set of upstreams cannot be built.
#[derive(Clone, Copy, Debug, PartialEq, Eq, Structural)]
pub enum BuildError {
    /// The host of the upstream at this place in the list is neither an IPv4
    /// literal nor a URL.
    BadHost { index: usize },
}

/// The upstreams, in the order of the configuration. The set is fixed once
/// it is built.
#[derive(Clone, Debug)]
pub struct ZUpstream {
    pub upstreams: Vec<Handler>,
}

/// The upstream that a configuration describes: a datagram upstream at the
/// configured or default port when the host is an IPv4 literal, else an HTTP
/// upstream at the URL that the host is; none when the host is neither. The
/// configured transport plays no part.
pub open spec fn spec_handler(conf: Upstream) -> Option<HandlerView> {
    match spec_parse_ipv4(conf.host@) {
        Some(ip) => Some(HandlerView::Udp { addr: ip, port: conf.spec_port() }),
        None => match spec_url_text(conf.host@) {
            Some(url) => Some(HandlerView::Https { url }),
            None => None,
        },
    }
}

/// The answers gathered so far, in order of arrival.
#[derive(Debug)]
pub struct Gather {
    pub answers: Vec<Vec<u8>>,
    /// Whether the window is over.
    pub done: bool,
}

/// Mathematical value of a [`Gather`].
pub ghost struct GatherView {
    pub answers: Seq<Seq<u8>>,
    pub done: bool,
}

/// Views of a vector of messages, in order.
pub open spec fn arrivals_view(msgs: Seq<Vec<u8>>) -> Seq<Seq<u8>> {
    msgs.map_values(|m: Vec<u8>| m@)
}

impl View for Gather {
    type V = GatherView;

    open spec fn view(&self) -> GatherView {
        GatherView { answers: arrivals_view(self.answers@), done: self.done }
    }
}

/// A gathering that has seen nothing yet.
pub open spec fn spec_gather_start() -> GatherView {
    GatherView { answers: Seq::empty(), done: false }
}

/// A gathering after one event, which is an answer that arrived or, as
/// `None`, the end of the window. An answer within the window is appended;
/// once the window is over nothing changes any more.
pub open spec fn spec_gather_step(g: GatherView, event: Option<Seq<u8>>) -> GatherView {
    if g.done {
        g
    } else {
        match event {
            Some(answer) => GatherView { answers: g.answers.push(answer), done: false },
            None => GatherView { answers: g.answers, done: true },
        }
    }
}

/// A gathering after a run of events.
pub open spec fn spec_gather_run(g: GatherView, events: Seq<Option<Seq<u8>>>) -> GatherView
    decreases events.len(),
{
    if events.len() == 0 {
        g
    } else {
        spec_gather_run(spec_gather_step(g, events[0]), events.drop_first())
    }
}

/// The events that stand for a run of arrivals.
pub open spec fn arrived(answers: Seq<Seq<u8>>) -> Seq<Option<Seq<u8>>> {
    answers.map_values(|a: Seq<u8>| Some(a))
}

/// The outcome of a race: the first answer as it arrived, or the
/// server-failure reply to the query when none arrived in time.
pub open spec fn spec_race(qmsg: Seq<u8>, first: Option<Seq<u8>>) -> Seq<u8> {
    match first {
        Some(answer) => answer,
        None => spec_server_failure(qmsg),
    }
}

impl UdpUpstream {
    /// A datagram upstream at the given socket address.
    pub fn build(addr: Ipv4, port: u16) -> (r: UdpUpstream)
        ensures
            r == (UdpUpstream { addr, port }),
    {
        UdpUpstream { addr, port }
    }
}

impl HttpsUpstream {
    /// An HTTP upstream at the given URL.
    pub fn build(url: String) -> (r: HttpsUpstream)
        ensures
            r.url == url,
    {
        HttpsUpstream { url }
    }
}

impl Handler {
    /// The upstream that a configuration describes.
    pub fn build(conf: &Upstream) -> (r: Option<Handler>)
        ensures
            r matches Some(h) ==> spec_handler(*conf) == Some(h@),
            r is None ==> spec_handler(*conf) is None,
    {
        match Ipv4::parse(conf.host.as_str()) {
            Some(ip) => Some(Handler::Udp(UdpUpstream::build(ip, conf.port_or_default()))),
            None => match url_text(conf.host.as_str()) {
                Some(url) => Some(Handler::Https(HttpsUpstream::build(url))),
                None => None,
            },
        }
    }
}

impl ZUpstream {
    /// Builds the set of upstreams that a configuration lists.
    ///
    /// Succeeds exactly when every host is an IPv4 literal or a URL, and
    /// then holds one upstream per entry, in order. Otherwise the error
    /// names the first entry whose host is neither.
    pub fn build(upconf_list: &Vec<Upstream>) -> (r: Result<ZUpstream, BuildError>)
        ensures
            r matches Ok(up) ==> {
                &&& up.upstreams@.len() == upconf_list@.len()
                &&& forall|i: int|
                    0 <= i < upconf_list@.len() ==> spec_handler(#[trigger] upconf_list@[i])
                        == Some(up.upstreams@[i]@)
            },
            r matches Err(BuildError::BadHost { index }) ==> {
                &&& index < upconf_list@.len()
                &&& spec_handler(upconf_list@[index as int]) is None
                &&& forall|i: int| 0 <= i < index ==> spec_handler(#[trigger] upconf_list@[i]) is Some
            },
    {
        let mut upstreams: Vec<Handler> = Vec::new();
        let mut i: usize = 0;
        while i < upconf_list.len()
            invariant
                0 <= i <= upconf_list.len(),
                upstreams@.len() == i,
                forall|k: int|
                    0 <= k < i ==> spec_handler(#[trigger] upconf_list@[k]) == Some(upstreams@[k]@),
            decreases upconf_list.len() - i,
        {
            match Handler::build(&upconf_list[i]) {
                Some(h) => {
                    upstreams.push(h);
                },
                None => {
                    return Err(BuildError::BadHost { index: i });
                },
            }
            i += 1;
        }
        Ok(ZUpstream { upstreams })
    }

    /// Number of upstreams in the set.
    pub fn len(&self) -> (r: usize)
        ensures
            r == self.upstreams@.len(),
    {
        self.upstreams.len()
    }

    /// Concludes a query in race mode. Every upstream was sent `qmsg`;
    /// `first` is the first answer that arrived within
    /// [`ANSWER_WAIT_SECS`], if any did.
    ///
    /// An answer is handed on as it is. For want of one the result is the
    /// server-failure reply to the query: a full header marked as a response,
    /// with the failure code and the identifier of the query, and no record.
    pub fn query(&self, qmsg: &Vec<u8>, first: Option<Vec<u8>>) -> (r: Vec<u8>)
        ensures
            r@ == spec_race(
                qmsg@,
                match first {
                    Some(a) => Some(a@),
                    None => None,
                },
            ),
            first is None ==> is_reply(qmsg@, r@, RCODE_SERVFAIL, false) && no_records(r@),
    {
        race(qmsg, first)
    }

    /// Begins a query in gather mode: nothing has arrived yet, and the
    /// window is open.
    pub fn query_all(&self) -> (r: Gather)
        ensures
            r@ == spec_gather_start(),
    {
        let g = Gather { answers: Vec::new(), done: false };
        assert(g@.answers =~= spec_gather_start().answers);
        g
    }
}

impl Gather {
    /// Takes note of one event: an answer that arrived, or nothing when the
    /// window is over. Returns whether the caller is to go on waiting.
    pub fn step(&mut self, event: Option<Vec<u8>>) -> (more: bool)
        ensures
            final(self)@ == spec_gather_step(
                old(self)@,
                match event {
                    Some(a) => Some(a@),
                    None => None,
                },
            ),
            more == !final(self).done,
    {
        if self.done {
            return false;
        }
        match event {
            Some(answer) => {
                let ghost before = self.answers@;
                self.answers.push(answer);
                assert(arrivals_view(self.answers@) =~= arrivals_view(before).push(answer@));
                true
            },
            None => {
                self.done = true;
                false
            },
        }
    }

    /// Hands out what was gathered.
    pub fn into_answers(self) -> (r: Vec<Vec<u8>>)
        ensures
            r@ == self.answers@,
    {
        self.answers
    }
}

/// Concludes a race among the upstreams. `first` is the first answer that
/// arrived within [`ANSWER_WAIT_SECS`], if any did.
///
/// An answer is handed on as it is. For want of one the result is the
/// server-failure reply to the query: a full header marked as a response,
/// with the failure code and the identifier of the query, and no record.
pub fn race(qmsg: &Vec<u8>, first: Option<Vec<u8>>) -> (r: Vec<u8>)
    ensures
        r@ == spec_race(
            qmsg@,
            match first {
                Some(a) => Some(a@),
                None => None,
            },
        ),
        first is None ==> is_reply(qmsg@, r@, RCODE_SERVFAIL, false) && no_records(r@),
{
    match first {
        Some(answer) => answer,
        None => server_failure(qmsg),
    }
}

/// The text of an upstream's address, as its kind writes it.
pub open spec fn handler_text(h: HandlerView) -> Seq<char> {
    match h {
        HandlerView::Udp { addr, port } => socket_text(addr, port),
        HandlerView::Https { url } => url,
    }
}

/// An upstream can be built from exactly the configurations that have an
/// address as text, and that text is the address of the upstream built. It is
/// a datagram upstream exactly when the host is an IPv4 literal.
pub proof fn lemma_handler_follows_host(conf: Upstream)
    ensures
        spec_handler(conf) is Some <==> conf.spec_host() is Some,
        spec_handler(conf) matches Some(h) ==> conf.spec_host() == Some(handler_text(h)),
        spec_handler(conf) matches Some(h) ==> (h is Udp <==> conf.is_datagram()),
{
}

/// Once the window is over, no event changes a gathering.
pub proof fn lemma_gather_done_stays(g: GatherView, events: Seq<Option<Seq<u8>>>)
    requires
        g.done,
    ensures
        spec_gather_run(g, events) == g,
    decreases events.len(),
{
    if events.len() > 0 {
        lemma_gather_done_stays(g, events.drop_first());
    }
}

/// A gathering that sees some answers arrive and then the end of the window
/// holds exactly those answers, in order of arrival, whatever comes later.
pub proof fn lemma_gather_collects(
    g: GatherView,
    answers: Seq<Seq<u8>>,
    late: Seq<Option<Seq<u8>>>,
)
    requires
        !g.done,
    ensures
        spec_gather_run(g, arrived(answers) + seq![None] + late) == (GatherView {
            answers: g.answers + answers,
            done: true,
        }),
    decreases answers.len(),
{
    let events = arrived(answers) + seq![None] + late;
    if answers.len() == 0 {
        assert(events[0] is None);
        let closed = spec_gather_step(g, events[0]);
        lemma_gather_done_stays(closed, events.drop_first());
        assert(g.answers + answers =~= g.answers);
    } else {
        let next = spec_gather_step(g, events[0]);
        assert(events[0] == Some(answers[0]));
        assert(events.drop_first() =~= arrived(answers.drop_first()) + seq![None] + late);
        lemma_gather_collects(next, answers.drop_first(), late);
        assert(next.answers + answers.drop_first() =~= g.answers + answers);
    }
}

/// With `k` answers inside the window, a gathering returns exactly `k`
/// results.
pub proof fn lemma_gather_counts(answers: Seq<Seq<u8>>, late: Seq<Option<Seq<u8>>>)
    ensures
        spec_gather_run(spec_gather_start(), arrived(answers) + seq![None] + late).answers
            == answers,
        spec_gather_run(spec_gather_start(), arrived(answers) + seq![None] + late).answers.len()
            == answers.len(),
{
    lemma_gather_collects(spec_gather_start(), answers, late);
    assert(spec_gather_start().answers + answers =~= answers);
}

} // verus!

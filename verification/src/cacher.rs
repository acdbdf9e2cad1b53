//! The cache's rules: refresh-ahead on lookup, the bounded refresh queue, and
//! the pipeline that turns the answers of all upstreams into one cache entry.
//!
//! The store and the queue themselves live with the caller. A lookup is
//! decided from what the store returned; a refresh is carried out in steps,
//! between which the caller queries the upstreams and probes the candidate
//! addresses.

use vstd::prelude::*;
use crate::addr::Ipv4;
use crate::config::Cache;
use crate::speedtest::{holds_addr, spec_select, ZSpeedTest};
use crate::wire::{
    answer_records, builder_octets, canonical_name, finish, push_addr, push_alias, query_for,
    records_view, spec_answer_records, spec_canonical_name, spec_push_addr, spec_push_alias,
    spec_query, spec_start_answer, start_answer, AnswerRecord, RecordView, CLASS_IN,
    RCODE_NOERROR, RTYPE_A, RTYPE_CNAME,
};

verus! {

/// Remaining time-to-live, in seconds, below which a lookup asks for a
/// refresh; also the time-to-live that such a lookup reports.
pub const KEEP_TTL: u32 = 15;

/// Cost at which an entry is charged to the store.
pub const ENTRY_COST: i64 = 2;

/// The outcome of a lookup.
#[derive(Debug)]
pub struct Lookup {
    /// The cached answer and the time-to-live to report with it.
    pub answer: Option<(Vec<u8>, u32)>,
    /// Whether the name is to be enqueued for a refresh.
    pub refresh: bool,
}

/// How a refresh begins.
#[derive(Debug)]
pub enum Refresh {
    /// An entry is present that is not yet due for a refresh: nothing to do.
    Skip,
    /// The text is no domain name: nothing can be asked.
    Reject,
    /// Every upstream is to be asked this query, and all answers gathered.
    Gather { query: Vec<u8> },
}

/// One canonical-name record: `owner` is an alias of `target`.
#[derive(Clone, Debug)]
pub struct Alias {
    pub owner: String,
    pub target: String,
}

/// Mathematical value of an [`Alias`].
pub ghost struct AliasView {
    pub owner: Seq<char>,
    pub target: Seq<char>,
}

impl View for Alias {
    type V = AliasView;

    open spec fn view(&self) -> AliasView {
        AliasView { owner: self.owner@, target: self.target@ }
    }
}

/// Views of a vector of aliases, in order.
pub open spec fn aliases_view(aliases: Seq<Alias>) -> Seq<AliasView> {
    aliases.map_values(|a: Alias| a@)
}

/// What the answers of all upstreams amount to.
#[derive(Debug)]
pub struct Merged {
    /// The canonical-name records, each once, in order of first appearance.
    pub aliases: Vec<Alias>,
    /// Addresses of the address records, each once, in order of first
    /// appearance.
    pub addrs: Vec<Ipv4>,
    /// Least time-to-live among the merged records.
    pub ttl: u32,
}

/// Mathematical value of a [`Merged`].
pub ghost struct MergedView {
    pub aliases: Seq<AliasView>,
    pub addrs: Seq<Ipv4>,
    pub ttl: u32,
}

/// An answer ready to be stored.
#[derive(Debug)]
pub struct CacheEntry {
    /// Name under which the answer is stored.
    pub key: String,
    /// Encoded answer message.
    pub answer: Vec<u8>,
    /// Seconds for which the entry is stored, and time-to-live of each of
    /// its records.
    pub ttl: u32,
}

/// Mathematical value of a [`CacheEntry`].
pub ghost struct EntryView {
    pub key: Seq<char>,
    pub answer: Seq<u8>,
    pub ttl: u32,
}

/// The cache's rules under one configuration.
#[derive(Clone, Debug)]
pub struct ZCacher {
    pub conf: Cache,
}

/// The names whose refresh is under way. A name is claimed before its
/// refresh begins and released when it ends, so that no name is refreshed
/// twice at a time.
#[derive(Debug)]
pub struct InFlight {
    names: Vec<String>,
}

/// Views of a vector of names, in order.
pub open spec fn names_view(names: Seq<String>) -> Seq<Seq<char>> {
    names.map_values(|s: String| s@)
}

/// Views of a vector of messages, in order.
pub open spec fn octets_view(msgs: Seq<Vec<u8>>) -> Seq<Seq<u8>> {
    msgs.map_values(|m: Vec<u8>| m@)
}

impl View for Merged {
    type V = MergedView;

    open spec fn view(&self) -> MergedView {
        MergedView { aliases: aliases_view(self.aliases@), addrs: self.addrs@, ttl: self.ttl }
    }
}

impl View for CacheEntry {
    type V = EntryView;

    open spec fn view(&self) -> EntryView {
        EntryView { key: self.key@, answer: self.answer@, ttl: self.ttl }
    }
}

/// The time-to-live that a lookup reports for an entry with `remaining`
/// seconds left.
pub open spec fn reported_ttl(remaining: u32) -> u32 {
    if remaining < KEEP_TTL {
        KEEP_TTL
    } else {
        remaining
    }
}

/// `ttl` brought into the window from `min_ttl` to `max_ttl`: raised to the
/// lower end first, then cut at the upper end.
pub open spec fn clamp_ttl(ttl: u32, min_ttl: u16, max_ttl: u16) -> u32 {
    let raised = if ttl < min_ttl as u32 {
        min_ttl as u32
    } else {
        ttl
    };
    if raised > max_ttl as u32 {
        max_ttl as u32
    } else {
        raised
    }
}

/// Whether a record is merged: it is an address or canonical-name record
/// whose data could be read.
pub open spec fn merges(r: RecordView) -> bool {
    (r.rtype == RTYPE_A || r.rtype == RTYPE_CNAME) && (r.addr is Some || r.target is Some)
}

/// Whether a record contributes the address `a`.
pub open spec fn gives_addr(r: RecordView, a: Ipv4) -> bool {
    merges(r) && r.addr == Some(a)
}

/// Whether a record contributes the alias `a`.
pub open spec fn gives_alias(r: RecordView, a: AliasView) -> bool {
    merges(r) && r.target == Some(a.target) && r.owner == a.owner
}

/// The alias that a canonical-name record states.
pub open spec fn alias_of(r: RecordView) -> AliasView {
    AliasView { owner: r.owner, target: r.target->0 }
}

/// Whether an entry with this many seconds left, if there is one, is not yet
/// due for a refresh.
pub open spec fn is_fresh(remaining: Option<u32>) -> bool {
    remaining matches Some(t) && t >= KEEP_TTL
}

/// The query that a refresh of `domain` sends: one question for the address
/// records of the name, in the Internet class.
pub open spec fn spec_address_query(domain: Seq<char>) -> Option<Seq<u8>> {
    spec_query(domain, RTYPE_A, CLASS_IN)
}

/// The records of all answers that can be read, in the order of the answers.
pub open spec fn spec_gathered(answers: Seq<Seq<u8>>) -> Seq<RecordView>
    decreases answers.len(),
{
    if answers.len() == 0 {
        Seq::empty()
    } else {
        spec_gathered(answers.drop_last()) + match spec_answer_records(answers.last()) {
            Some(rs) => rs,
            None => Seq::empty(),
        }
    }
}

/// The addresses that `records` contribute, each once, in order of first
/// appearance.
pub open spec fn candidate_addrs(records: Seq<RecordView>) -> Seq<Ipv4>
    decreases records.len(),
{
    if records.len() == 0 {
        Seq::empty()
    } else {
        let before = candidate_addrs(records.drop_last());
        let r = records.last();
        if merges(r) && r.addr is Some && !before.contains(r.addr->0) {
            before.push(r.addr->0)
        } else {
            before
        }
    }
}

/// The aliases that `records` contribute, each once, in order of first
/// appearance.
pub open spec fn alias_records(records: Seq<RecordView>) -> Seq<AliasView>
    decreases records.len(),
{
    if records.len() == 0 {
        Seq::empty()
    } else {
        let before = alias_records(records.drop_last());
        let r = records.last();
        if merges(r) && r.target is Some && !before.contains(alias_of(r)) {
            before.push(alias_of(r))
        } else {
            before
        }
    }
}

/// The name that `name` is an alias of: the target of the first alias that
/// `name` owns, if it owns one.
pub open spec fn next_hop(aliases: Seq<AliasView>, name: Seq<char>) -> Option<Seq<char>>
    decreases aliases.len(),
{
    if aliases.len() == 0 {
        None
    } else if aliases[0].owner == name {
        Some(aliases[0].target)
    } else {
        next_hop(aliases.drop_first(), name)
    }
}

/// The names reached from `name` by following aliases hop by hop, for at
/// most `fuel` hops.
pub open spec fn walk(aliases: Seq<AliasView>, name: Seq<char>, fuel: nat) -> Seq<Seq<char>>
    decreases fuel,
{
    if fuel == 0 {
        Seq::empty()
    } else {
        match next_hop(aliases, name) {
            None => Seq::empty(),
            Some(target) => seq![target] + walk(aliases, target, (fuel - 1) as nat),
        }
    }
}

/// The canonical-name chain of `name`: the names reached from it hop by hop
/// until a name owns no alias. There are no more hops than aliases, so that
/// a chain that runs in a circle ends as well.
pub open spec fn spec_hops(aliases: Seq<AliasView>, name: Seq<char>) -> Seq<Seq<char>> {
    walk(aliases, name, aliases.len())
}

/// The least time-to-live among the merged records of `records`; the largest
/// value there is when none is merged.
pub open spec fn least_ttl(records: Seq<RecordView>) -> u32
    decreases records.len(),
{
    if records.len() == 0 {
        u32::MAX
    } else {
        let before = least_ttl(records.drop_last());
        let r = records.last();
        if merges(r) && r.ttl < before {
            r.ttl
        } else {
            before
        }
    }
}

/// What `records` amount to.
pub open spec fn spec_merged(records: Seq<RecordView>) -> MergedView {
    MergedView {
        aliases: alias_records(records),
        addrs: candidate_addrs(records),
        ttl: least_ttl(records),
    }
}

/// The name that owns the record after the aliases: the last alias, or the
/// name asked for when there is none.
pub open spec fn chain_end(owner: Seq<char>, aliases: Seq<Seq<char>>) -> Seq<char> {
    if aliases.len() == 0 {
        owner
    } else {
        aliases.last()
    }
}

/// The message after the chain of canonical names has been appended: one
/// record per alias, each owned by the name before it, starting at `owner`.
pub open spec fn spec_chain(msg: Seq<u8>, owner: Seq<char>, aliases: Seq<Seq<char>>, ttl: u32) -> Option<
    Seq<u8>,
>
    decreases aliases.len(),
{
    if aliases.len() == 0 {
        Some(msg)
    } else {
        match spec_chain(msg, owner, aliases.drop_last(), ttl) {
            None => None,
            Some(m) => spec_push_alias(
                m,
                chain_end(owner, aliases.drop_last()),
                CLASS_IN,
                ttl,
                aliases.last(),
            ),
        }
    }
}

/// The answer published for `domain`: a reply to the address query for the
/// name, with recursion available, holding the chain of canonical names from
/// `start` through `hops` and then the one chosen address, owned by the end
/// of the chain, all at the time-to-live `ttl`.
pub open spec fn spec_published(
    domain: Seq<char>,
    start: Seq<char>,
    hops: Seq<Seq<char>>,
    ttl: u32,
    chosen: Ipv4,
) -> Option<Seq<u8>> {
    match spec_address_query(domain) {
        None => None,
        Some(query) => match spec_start_answer(query, RCODE_NOERROR, true) {
            None => None,
            Some(started) => match spec_chain(started, start, hops, ttl) {
                None => None,
                Some(chained) => spec_push_addr(
                    chained,
                    chain_end(start, hops),
                    CLASS_IN,
                    ttl,
                    chosen,
                ),
            },
        },
    }
}

/// The entry that a refresh of `domain` stores, given what the race among the
/// candidate addresses reported.
///
/// The entry is stored under the name in display form. Its chain starts at
/// that name and follows the merged aliases hop by hop; its address is the
/// one selected among the candidates; its time-to-live is the merged one,
/// clamped. There is no entry without a candidate.
pub open spec fn spec_entry(
    conf: Cache,
    domain: Seq<char>,
    merged: MergedView,
    winner: Option<Ipv4>,
) -> Option<EntryView> {
    let ttl = clamp_ttl(merged.ttl, conf.min_ttl, conf.max_ttl);
    match (spec_canonical_name(domain), spec_select(merged.addrs, winner)) {
        (Some(key), Some(chosen)) => match spec_published(
            domain,
            key,
            spec_hops(merged.aliases, key),
            ttl,
            chosen,
        ) {
            Some(answer) => Some(EntryView { key, answer, ttl }),
            None => None,
        },
        _ => None,
    }
}

/// Says whether `list` holds the name `name`.
fn holds_name(list: &Vec<String>, name: &String) -> (r: bool)
    ensures
        r == names_view(list@).contains(name@),
{
    let mut i: usize = 0;
    while i < list.len()
        invariant
            0 <= i <= list.len(),
            forall|k: int| 0 <= k < i ==> names_view(list@)[k] != name@,
        decreases list.len() - i,
    {
        if list[i] == *name {
            assert(names_view(list@)[i as int] == name@);
            return true;
        }
        i += 1;
    }
    false
}

/// Says whether `list` holds the alias of `owner` to `target`.
fn holds_alias(list: &Vec<Alias>, owner: &String, target: &String) -> (r: bool)
    ensures
        r == aliases_view(list@).contains(AliasView { owner: owner@, target: target@ }),
{
    let ghost wanted = AliasView { owner: owner@, target: target@ };
    let mut i: usize = 0;
    while i < list.len()
        invariant
            0 <= i <= list.len(),
            wanted == (AliasView { owner: owner@, target: target@ }),
            forall|k: int| 0 <= k < i ==> aliases_view(list@)[k] != wanted,
        decreases list.len() - i,
    {
        if list[i].owner == *owner && list[i].target == *target {
            assert(aliases_view(list@)[i as int] == wanted);
            return true;
        }
        i += 1;
    }
    false
}

/// Finds the name that `name` is an alias of.
pub fn hop(aliases: &Vec<Alias>, name: &String) -> (r: Option<String>)
    ensures
        r matches Some(t) ==> next_hop(aliases_view(aliases@), name@) == Some(t@),
        r is None ==> next_hop(aliases_view(aliases@), name@) is None,
{
    let ghost av = aliases_view(aliases@);
    let mut i: usize = 0;
    assert(av.skip(0) =~= av);
    while i < aliases.len()
        invariant
            0 <= i <= aliases.len(),
            av == aliases_view(aliases@),
            next_hop(av, name@) == next_hop(av.skip(i as int), name@),
        decreases aliases.len() - i,
    {
        proof {
            assert(av.skip(i as int)[0] == aliases@[i as int]@);
            assert(av.skip(i as int).drop_first() =~= av.skip(i + 1));
        }
        if aliases[i].owner == *name {
            return Some(aliases[i].target.clone());
        }
        i += 1;
    }
    None
}

/// Follows the aliases from `name` hop by hop and returns the names reached,
/// in order.
pub fn hops(aliases: &Vec<Alias>, name: &str) -> (r: Vec<String>)
    ensures
        names_view(r@) == spec_hops(aliases_view(aliases@), name@),
{
    let ghost av = aliases_view(aliases@);
    let mut chain: Vec<String> = Vec::new();
    let mut current: String = name.to_owned();
    let mut fuel: usize = aliases.len();
    assert(names_view(chain@) + walk(av, current@, fuel as nat) =~= spec_hops(av, name@));
    while fuel > 0
        invariant
            av == aliases_view(aliases@),
            spec_hops(av, name@) == names_view(chain@) + walk(av, current@, fuel as nat),
        decreases fuel,
    {
        match hop(aliases, &current) {
            None => {
                assert(names_view(chain@) + Seq::<Seq<char>>::empty() =~= names_view(chain@));
                return chain;
            },
            Some(target) => {
                let ghost before = names_view(chain@);
                let ghost rest = walk(av, target@, (fuel - 1) as nat);
                chain.push(target.clone());
                proof {
                    assert(names_view(chain@) =~= before.push(target@));
                    assert(before + (seq![target@] + rest) =~= before.push(target@) + rest);
                }
                current = target;
                fuel -= 1;
            },
        }
    }
    assert(names_view(chain@) + Seq::<Seq<char>>::empty() =~= names_view(chain@));
    chain
}

/// Brings a time-to-live into the window from `min_ttl` to `max_ttl`.
pub fn clamp(ttl: u32, min_ttl: u16, max_ttl: u16) -> (r: u32)
    ensures
        r == clamp_ttl(ttl, min_ttl, max_ttl),
        min_ttl <= max_ttl ==> min_ttl <= r <= max_ttl,
        min_ttl <= ttl <= max_ttl ==> r == ttl,
{
    let mut r = ttl;
    if r < min_ttl as u32 {
        r = min_ttl as u32;
    }
    if r > max_ttl as u32 {
        r = max_ttl as u32;
    }
    r
}

/// Reads every answer and puts the records of those that can be read in one
/// list, in the order of the answers.
pub fn gather_records(answers: &Vec<Vec<u8>>) -> (r: Vec<AnswerRecord>)
    ensures
        records_view(r@) == spec_gathered(octets_view(answers@)),
{
    let ghost av = octets_view(answers@);
    let mut all: Vec<AnswerRecord> = Vec::new();
    let mut i: usize = 0;
    assert(records_view(all@) =~= spec_gathered(av.take(0)));
    while i < answers.len()
        invariant
            0 <= i <= answers.len(),
            av == octets_view(answers@),
            records_view(all@) == spec_gathered(av.take(i as int)),
        decreases answers.len() - i,
    {
        proof {
            assert(av.take(i + 1).drop_last() =~= av.take(i as int));
            assert(av.take(i + 1).last() == answers@[i as int]@);
        }
        let ghost before = all@;
        match answer_records(&answers[i]) {
            Some(mut records) => {
                let ghost added = records@;
                all.append(&mut records);
                assert(records_view(before + added) =~= records_view(before) + records_view(added));
            },
            None => {
                assert(records_view(before) + Seq::<RecordView>::empty() =~= records_view(before));
            },
        }
        i += 1;
    }
    assert(av.take(i as int) =~= av);
    all
}

/// Merges records into the set of candidate addresses, the set of aliases
/// and the least time-to-live.
pub fn merge_records(records: &Vec<AnswerRecord>) -> (r: Merged)
    ensures
        r@ == spec_merged(records_view(records@)),
        r@.addrs.no_duplicates(),
        r@.aliases.no_duplicates(),
{
    proof {
        lemma_candidates_distinct(records_view(records@));
        lemma_aliases_distinct(records_view(records@));
    }
    let ghost rv = records_view(records@);
    let mut aliases: Vec<Alias> = Vec::new();
    let mut addrs: Vec<Ipv4> = Vec::new();
    let mut ttl: u32 = u32::MAX;
    let mut i: usize = 0;
    assert(aliases_view(aliases@) =~= alias_records(rv.take(0)));
    while i < records.len()
        invariant
            0 <= i <= records.len(),
            rv == records_view(records@),
            aliases_view(aliases@) == alias_records(rv.take(i as int)),
            addrs@ == candidate_addrs(rv.take(i as int)),
            ttl == least_ttl(rv.take(i as int)),
        decreases records.len() - i,
    {
        proof {
            assert(rv.take(i + 1).drop_last() =~= rv.take(i as int));
            assert(rv.take(i + 1).last() == records@[i as int]@);
        }
        let rec = &records[i];
        if rec.rtype == RTYPE_A || rec.rtype == RTYPE_CNAME {
            if let Some(a) = rec.addr {
                if rec.ttl < ttl {
                    ttl = rec.ttl;
                }
                if !holds_addr(&addrs, a) {
                    addrs.push(a);
                }
            }
            match &rec.target {
                Some(t) => {
                    if rec.ttl < ttl {
                        ttl = rec.ttl;
                    }
                    if !holds_alias(&aliases, &rec.owner, t) {
                        let ghost before = aliases@;
                        aliases.push(Alias { owner: rec.owner.clone(), target: t.clone() });
                        assert(aliases_view(aliases@) =~= aliases_view(before).push(
                            alias_of(rec@),
                        ));
                    }
                },
                None => {},
            }
        }
        i += 1;
    }
    assert(rv.take(i as int) =~= rv);
    Merged { aliases, addrs, ttl }
}

impl View for InFlight {
    type V = Set<Seq<char>>;

    closed spec fn view(&self) -> Set<Seq<char>> {
        Set::new(|n: Seq<char>| names_view(self.names@).contains(n))
    }
}

impl InFlight {
    /// No name is held twice.
    pub closed spec fn wf(&self) -> bool {
        names_view(self.names@).no_duplicates()
    }

    /// No refresh is under way.
    pub fn new() -> (r: InFlight)
        ensures
            r.wf(),
            r@ == Set::<Seq<char>>::empty(),
    {
        let r = InFlight { names: Vec::new() };
        assert(r@ =~= Set::<Seq<char>>::empty());
        r
    }

    /// Says whether a refresh of `name` is under way.
    pub fn holds(&self, name: &String) -> (r: bool)
        ensures
            r == self@.contains(name@),
    {
        holds_name(&self.names, name)
    }

    /// Claims `name` for a refresh. Returns whether the claim succeeded,
    /// which it does exactly when no refresh of the name is under way.
    pub fn claim(&mut self, name: &String) -> (r: bool)
        requires
            old(self).wf(),
        ensures
            final(self).wf(),
            r == !old(self)@.contains(name@),
            final(self)@ == old(self)@.insert(name@),
    {
        if holds_name(&self.names, name) {
            assert(self@ =~= old(self)@.insert(name@));
            return false;
        }
        let ghost before = names_view(self.names@);
        self.names.push(name.clone());
        proof {
            assert(names_view(self.names@) =~= before.push(name@));
            assert forall|n: Seq<char>| self@.contains(n) <==> old(self)@.insert(name@).contains(
                n,
            ) by {
                if before.push(name@).contains(n) {
                    let k = choose|k: int| 0 <= k < before.len() + 1 && before.push(name@)[k] == n;
                    if k < before.len() {
                        assert(before[k] == n);
                    }
                }
                if before.contains(n) {
                    let k = choose|k: int| 0 <= k < before.len() && before[k] == n;
                    assert(before.push(name@)[k] == n);
                }
                assert(before.push(name@)[before.len() as int] == name@);
            }
            assert(self@ =~= old(self)@.insert(name@));
        }
        true
    }

    /// Releases `name` once its refresh has ended.
    pub fn release(&mut self, name: &String)
        requires
            old(self).wf(),
        ensures
            final(self).wf(),
            final(self)@ == old(self)@.remove(name@),
    {
        let ghost before = names_view(self.names@);
        let mut i: usize = 0;
        while i < self.names.len()
            invariant
                0 <= i <= self.names.len(),
                self.names@ == old(self).names@,
                before == names_view(self.names@),
                before.no_duplicates(),
                forall|k: int| 0 <= k < i ==> before[k] != name@,
            decreases self.names.len() - i,
        {
            if self.names[i] == *name {
                assert(before[i as int] == name@);
                self.names.remove(i);
                proof {
                    let after = names_view(self.names@);
                    assert(after =~= before.remove(i as int));
                    assert forall|j: int, k: int|
                        0 <= j < after.len() && 0 <= k < after.len() && j != k implies after[j]
                        != after[k] by {
                        let bj = if j < i { j } else { j + 1 };
                        let bk = if k < i { k } else { k + 1 };
                        assert(after[j] == before[bj] && after[k] == before[bk]);
                    }
                    assert forall|n: Seq<char>| self@.contains(n) <==> old(self)@.remove(
                        name@,
                    ).contains(n) by {
                        if after.contains(n) {
                            let k = choose|k: int| 0 <= k < after.len() && after[k] == n;
                            if k < i {
                                assert(before[k] == n);
                            } else {
                                assert(before[k + 1] == n);
                            }
                            assert(before.contains(n));
                            assert(n != name@);
                        }
                        if before.contains(n) && n != name@ {
                            let k = choose|k: int| 0 <= k < before.len() && before[k] == n;
                            if k < i {
                                assert(after[k] == n);
                            } else {
                                assert(after[k - 1] == n);
                            }
                        }
                    }
                    assert(self@ =~= old(self)@.remove(name@));
                }
                return ;
            }
            i += 1;
        }
        assert(self@ =~= old(self)@.remove(name@));
    }
}

impl ZCacher {
    /// The rules under the configuration `conf`.
    pub fn new(conf: Cache) -> (r: ZCacher)
        ensures
            r.conf == conf,
    {
        ZCacher { conf }
    }

    /// Number of names that the refresh queue holds at most.
    pub fn capacity(&self) -> (r: usize)
        ensures
            r == self.conf.max_size,
    {
        self.conf.max_size as usize
    }

    /// Decides a lookup from what the store holds for the name: the answer
    /// and the seconds it has left, if there is an entry.
    ///
    /// A miss stays a miss. A hit with less than [`KEEP_TTL`] seconds left is
    /// reported with exactly that time-to-live and asks for one refresh; any
    /// other hit is reported with the seconds left and asks for none.
    pub fn get(&self, stored: Option<(Vec<u8>, u32)>) -> (r: Lookup)
        ensures
            stored is None ==> r.answer is None && !r.refresh,
            stored matches Some(e) ==> r.answer == Some((e.0, reported_ttl(e.1))),
            stored matches Some(e) ==> r.refresh == (e.1 < KEEP_TTL),
    {
        match stored {
            Some((bytes, ttl)) => {
                if ttl < KEEP_TTL {
                    Lookup { answer: Some((bytes, KEEP_TTL)), refresh: true }
                } else {
                    Lookup { answer: Some((bytes, ttl)), refresh: false }
                }
            },
            None => Lookup { answer: None, refresh: false },
        }
    }

    /// Decides whether a name may join a refresh queue that holds `queued`
    /// names: it may while the queue is below its capacity, and is dropped
    /// otherwise.
    pub fn push(&self, queued: usize) -> (r: bool)
        ensures
            r == (queued < self.conf.max_size),
    {
        queued < self.conf.max_size as usize
    }

    /// Begins the refresh of `domain`. `remaining` is the number of seconds
    /// that the entry for the name has left, if the store holds one.
    ///
    /// The refresh is skipped while the entry is not yet due for one, that
    /// is while it has at least [`KEEP_TTL`] seconds left. Otherwise every
    /// upstream is to be asked for the address records of the name.
    pub fn begin(&self, domain: &str, remaining: Option<u32>) -> (r: Refresh)
        ensures
            is_fresh(remaining) ==> r is Skip,
            !is_fresh(remaining) && spec_address_query(domain@) is None ==> r is Reject,
            !is_fresh(remaining) && spec_address_query(domain@) is Some ==> (r matches Refresh::Gather {
                query,
            } && Some(query@) == spec_address_query(domain@)),
    {
        match remaining {
            Some(t) => {
                if t >= KEEP_TTL {
                    return Refresh::Skip;
                }
            },
            None => {},
        }
        match query_for(domain, RTYPE_A, CLASS_IN) {
            Some(query) => Refresh::Gather { query },
            None => Refresh::Reject,
        }
    }

    /// Merges the answers gathered from the upstreams.
    pub fn merge(&self, answers: &Vec<Vec<u8>>) -> (r: Merged)
        ensures
            r@ == spec_merged(spec_gathered(octets_view(answers@))),
            r@.addrs.no_duplicates(),
            r@.aliases.no_duplicates(),
    {
        let records = gather_records(answers);
        merge_records(&records)
    }

    /// Composes the entry to store for `domain`. `winner` is the address
    /// that the race among the candidates reported, if one was run and won.
    ///
    /// The entry's chain follows the merged aliases hop by hop from the name;
    /// its one address record is owned by the end of that chain and holds
    /// the address selected among the candidates. Its time-to-live is the
    /// merged one, clamped into the configured window. There is no entry
    /// without a candidate, nor when the name or a hop is no domain name.
    pub fn entry(&self, domain: &str, merged: &Merged, winner: Option<Ipv4>) -> (r: Option<
        CacheEntry,
    >)
        ensures
            r matches Some(e) ==> spec_entry(self.conf, domain@, merged@, winner) == Some(e@),
            r is None ==> spec_entry(self.conf, domain@, merged@, winner) is None,
            r matches Some(e) ==> e.ttl == clamp_ttl(merged.ttl, self.conf.min_ttl, self.conf.max_ttl),
            r is Some ==> merged@.addrs.len() > 0,
    {
        let ttl = clamp(merged.ttl, self.conf.min_ttl, self.conf.max_ttl);
        let key = match canonical_name(domain) {
            Some(k) => k,
            None => { return None; },
        };
        let chosen = match ZSpeedTest::select(&merged.addrs, winner) {
            Some(ip) => ip,
            None => { return None; },
        };
        let chain = hops(&merged.aliases, key.as_str());
        match publish(domain, key.as_str(), &chain, ttl, chosen) {
            Some(answer) => Some(CacheEntry { key, answer, ttl }),
            None => None,
        }
    }
}

/// Composes the answer published for `domain`: the chain of canonical names
/// from `start` through `hops`, then the chosen address owned by the end of
/// the chain.
pub fn publish(domain: &str, start: &str, hops: &Vec<String>, ttl: u32, chosen: Ipv4) -> (r: Option<
    Vec<u8>,
>)
    ensures
        r matches Some(answer) ==> spec_published(domain@, start@, names_view(hops@), ttl, chosen)
            == Some(answer@),
        r is None ==> spec_published(domain@, start@, names_view(hops@), ttl, chosen) is None,
{
    let query = match query_for(domain, RTYPE_A, CLASS_IN) {
        Some(q) => q,
        None => { return None; },
    };
    let mut b = match start_answer(&query, RCODE_NOERROR, true) {
        Some(b) => b,
        None => { return None; },
    };
    let ghost started = builder_octets(b);
    let ghost hv = names_view(hops@);
    let mut i: usize = 0;
    while i < hops.len()
        invariant
            0 <= i <= hops.len(),
            hv == names_view(hops@),
            spec_address_query(domain@) == Some(query@),
            spec_start_answer(query@, RCODE_NOERROR, true) == Some(started),
            spec_chain(started, start@, hv.take(i as int), ttl) == Some(builder_octets(b)),
        decreases hops.len() - i,
    {
        let owner: &str = if i == 0 {
            start
        } else {
            hops[i - 1].as_str()
        };
        proof {
            assert(hv.take(i + 1).drop_last() =~= hv.take(i as int));
            assert(hv.take(i + 1).last() == hops@[i as int]@);
            if i > 0 {
                assert(hv.take(i as int).last() == hops@[i - 1]@);
            }
            assert(owner@ == chain_end(start@, hv.take(i as int)));
            assert(spec_chain(started, start@, hv.take(i + 1), ttl) == spec_push_alias(
                builder_octets(b),
                owner@,
                CLASS_IN,
                ttl,
                hops@[i as int]@,
            ));
        }
        if !push_alias(&mut b, owner, CLASS_IN, ttl, hops[i].as_str()) {
            proof {
                lemma_chain_fails_for_good(started, start@, hv, ttl, i + 1);
            }
            return None;
        }
        i += 1;
    }
    assert(hv.take(i as int) =~= hv);
    let n = hops.len();
    let last: &str = if n == 0 {
        start
    } else {
        hops[n - 1].as_str()
    };
    if !push_addr(&mut b, last, CLASS_IN, ttl, chosen) {
        return None;
    }
    Some(finish(b))
}

/// Once a prefix of the aliases cannot be appended, neither can the whole
/// chain.
pub proof fn lemma_chain_fails_for_good(
    msg: Seq<u8>,
    owner: Seq<char>,
    aliases: Seq<Seq<char>>,
    ttl: u32,
    n: int,
)
    requires
        0 <= n <= aliases.len(),
        spec_chain(msg, owner, aliases.take(n), ttl) is None,
    ensures
        spec_chain(msg, owner, aliases, ttl) is None,
    decreases aliases.len() - n,
{
    if n < aliases.len() {
        assert(aliases.take(n + 1).drop_last() =~= aliases.take(n));
        lemma_chain_fails_for_good(msg, owner, aliases, ttl, n + 1);
    } else {
        assert(aliases.take(n) =~= aliases);
    }
}

/// A lookup never reports less than the refresh-ahead threshold, and reports
/// the seconds left whenever they reach it.
pub proof fn lemma_reported_ttl(remaining: u32)
    ensures
        reported_ttl(remaining) >= KEEP_TTL,
        remaining >= KEEP_TTL ==> reported_ttl(remaining) == remaining,
        remaining < KEEP_TTL ==> reported_ttl(remaining) == KEEP_TTL,
{
}

/// Within a window that is not empty, clamping yields the value of the
/// window nearest to the time-to-live.
pub proof fn lemma_clamp_in_window(ttl: u32, min_ttl: u16, max_ttl: u16)
    requires
        min_ttl <= max_ttl,
    ensures
        min_ttl <= clamp_ttl(ttl, min_ttl, max_ttl) <= max_ttl,
        ttl < min_ttl ==> clamp_ttl(ttl, min_ttl, max_ttl) == min_ttl,
        ttl > max_ttl ==> clamp_ttl(ttl, min_ttl, max_ttl) == max_ttl,
        min_ttl <= ttl <= max_ttl ==> clamp_ttl(ttl, min_ttl, max_ttl) == ttl,
{
}

/// No address occurs twice among the candidates.
pub proof fn lemma_candidates_distinct(records: Seq<RecordView>)
    ensures
        candidate_addrs(records).no_duplicates(),
    decreases records.len(),
{
    if records.len() > 0 {
        lemma_candidates_distinct(records.drop_last());
    }
}

/// The candidates are exactly the addresses that some merged record
/// contributes.
pub proof fn lemma_candidates_complete(records: Seq<RecordView>, a: Ipv4)
    ensures
        candidate_addrs(records).contains(a) <==> exists|i: int|
            0 <= i < records.len() && gives_addr(#[trigger] records[i], a),
    decreases records.len(),
{
    if records.len() > 0 {
        let init = records.drop_last();
        let before = candidate_addrs(init);
        let r = records.last();
        lemma_candidates_complete(init, a);
        if candidate_addrs(records).contains(a) {
            if before.contains(a) {
                let i = choose|i: int| 0 <= i < init.len() && gives_addr(#[trigger] init[i], a);
                assert(gives_addr(records[i], a));
            } else {
                let k = choose|k: int|
                    0 <= k < candidate_addrs(records).len() && candidate_addrs(records)[k] == a;
                assert(candidate_addrs(records) == before.push(r.addr->0));
                if k < before.len() {
                    assert(before[k] == a);
                    assert(before.contains(a));
                }
                assert(gives_addr(records[records.len() - 1], a));
            }
        }
        if exists|i: int| 0 <= i < records.len() && gives_addr(#[trigger] records[i], a) {
            let i = choose|i: int| 0 <= i < records.len() && gives_addr(#[trigger] records[i], a);
            if i < init.len() {
                assert(gives_addr(init[i], a));
                assert(before.contains(a));
                let k = choose|k: int| 0 <= k < before.len() && before[k] == a;
                assert(candidate_addrs(records)[k] == a);
            } else {
                if before.contains(a) {
                    let k = choose|k: int| 0 <= k < before.len() && before[k] == a;
                    assert(candidate_addrs(records)[k] == a);
                } else {
                    assert(candidate_addrs(records) == before.push(a));
                    assert(candidate_addrs(records)[before.len() as int] == a);
                }
            }
        }
    }
}

/// No alias occurs twice among the merged ones.
pub proof fn lemma_aliases_distinct(records: Seq<RecordView>)
    ensures
        alias_records(records).no_duplicates(),
    decreases records.len(),
{
    if records.len() > 0 {
        lemma_aliases_distinct(records.drop_last());
    }
}

/// The merged aliases are exactly those that some merged record contributes.
pub proof fn lemma_aliases_complete(records: Seq<RecordView>, a: AliasView)
    ensures
        alias_records(records).contains(a) <==> exists|i: int|
            0 <= i < records.len() && gives_alias(#[trigger] records[i], a),
    decreases records.len(),
{
    if records.len() > 0 {
        let init = records.drop_last();
        let before = alias_records(init);
        let r = records.last();
        lemma_aliases_complete(init, a);
        if alias_records(records).contains(a) {
            if before.contains(a) {
                let i = choose|i: int| 0 <= i < init.len() && gives_alias(#[trigger] init[i], a);
                assert(gives_alias(records[i], a));
            } else {
                let k = choose|k: int|
                    0 <= k < alias_records(records).len() && alias_records(records)[k] == a;
                assert(alias_records(records) == before.push(alias_of(r)));
                if k < before.len() {
                    assert(before[k] == a);
                    assert(before.contains(a));
                }
                assert(gives_alias(records[records.len() - 1], a));
            }
        }
        if exists|i: int| 0 <= i < records.len() && gives_alias(#[trigger] records[i], a) {
            let i = choose|i: int| 0 <= i < records.len() && gives_alias(#[trigger] records[i], a);
            if i < init.len() {
                assert(gives_alias(init[i], a));
                assert(before.contains(a));
                let k = choose|k: int| 0 <= k < before.len() && before[k] == a;
                assert(alias_records(records)[k] == a);
            } else {
                assert(alias_of(r) == a);
                if before.contains(a) {
                    let k = choose|k: int| 0 <= k < before.len() && before[k] == a;
                    assert(alias_records(records)[k] == a);
                } else {
                    assert(alias_records(records) == before.push(a));
                    assert(alias_records(records)[before.len() as int] == a);
                }
            }
        }
    }
}

/// A hop is stated by one of the aliases: the name owns it, and its target
/// is the hop.
pub proof fn lemma_hop_is_stated(aliases: Seq<AliasView>, name: Seq<char>)
    requires
        next_hop(aliases, name) is Some,
    ensures
        exists|k: int|
            0 <= k < aliases.len() && (#[trigger] aliases[k]).owner == name && aliases[k].target
                == next_hop(aliases, name)->0,
    decreases aliases.len(),
{
    if aliases[0].owner == name {
        assert(aliases[0].owner == name && aliases[0].target == next_hop(aliases, name)->0);
    } else {
        let rest = aliases.drop_first();
        lemma_hop_is_stated(rest, name);
        let k = choose|k: int|
            0 <= k < rest.len() && (#[trigger] rest[k]).owner == name && rest[k].target == next_hop(
                rest,
                name,
            )->0;
        assert(aliases[k + 1] == rest[k]);
    }
}

/// A name whose aliases all have one target has that target as its hop,
/// wherever in the list the aliases stand.
pub proof fn lemma_hop_of_sole_alias(aliases: Seq<AliasView>, k: int)
    requires
        0 <= k < aliases.len(),
        forall|j: int| 0 <= j < aliases.len() && (#[trigger] aliases[j]).owner == aliases[k].owner
            ==> aliases[j].target == aliases[k].target,
    ensures
        next_hop(aliases, aliases[k].owner) == Some(aliases[k].target),
    decreases aliases.len(),
{
    if aliases[0].owner == aliases[k].owner {
    } else {
        let rest = aliases.drop_first();
        assert(rest[k - 1] == aliases[k]);
        assert forall|j: int| 0 <= j < rest.len() && (#[trigger] rest[j]).owner == rest[k
            - 1].owner implies rest[j].target == rest[k - 1].target by {
            assert(rest[j] == aliases[j + 1]);
        }
        lemma_hop_of_sole_alias(rest, k - 1);
    }
}

/// A name that owns no alias has no hop.
pub proof fn lemma_no_hop_without_alias(aliases: Seq<AliasView>, name: Seq<char>)
    requires
        forall|j: int| 0 <= j < aliases.len() ==> (#[trigger] aliases[j]).owner != name,
    ensures
        next_hop(aliases, name) is None,
    decreases aliases.len(),
{
    if aliases.len() > 0 {
        let rest = aliases.drop_first();
        assert forall|j: int| 0 <= j < rest.len() implies (#[trigger] rest[j]).owner != name by {
            assert(rest[j] == aliases[j + 1]);
        }
        lemma_no_hop_without_alias(rest, name);
    }
}

/// Walking follows the chain: where each name of `chain` is the hop of the
/// name before it, beginning at `name`, and the last of them has no hop, a
/// walk with fuel for all of them yields exactly `chain`.
pub proof fn lemma_walk_is_the_chain(
    aliases: Seq<AliasView>,
    name: Seq<char>,
    chain: Seq<Seq<char>>,
    fuel: nat,
)
    requires
        chain.len() <= fuel,
        forall|i: int|
            0 <= i < chain.len() ==> next_hop(aliases, chain_end(name, chain.take(i))) == Some(
                #[trigger] chain[i],
            ),
        chain.len() < fuel ==> next_hop(aliases, chain_end(name, chain)) is None,
    ensures
        walk(aliases, name, fuel) == chain,
    decreases chain.len(),
{
    if chain.len() == 0 {
        assert(chain_end(name, chain) == name);
        assert(walk(aliases, name, fuel) =~= chain);
    } else {
        assert(chain.take(0).len() == 0);
        assert(next_hop(aliases, name) == Some(chain[0]));
        let rest = chain.drop_first();
        assert forall|i: int| 0 <= i < rest.len() implies next_hop(
            aliases,
            chain_end(chain[0], rest.take(i)),
        ) == Some(#[trigger] rest[i]) by {
            assert(rest[i] == chain[i + 1]);
            if i == 0 {
                assert(chain.take(1).last() == chain[0]);
            } else {
                assert(rest.take(i).last() == chain.take(i + 1).last());
            }
        }
        if rest.len() == 0 {
            assert(chain_end(name, chain) == chain[0]);
        } else {
            assert(chain_end(name, chain) == chain_end(chain[0], rest));
        }
        lemma_walk_is_the_chain(aliases, chain[0], rest, (fuel - 1) as nat);
        assert(seq![chain[0]] + rest =~= chain);
    }
}

/// The published chain is the chain of hops: where the merged aliases lead
/// from `name` through `chain`, each name the hop of the one before, and the
/// end of the chain owns no alias, the chain's hops are exactly `chain`,
/// however the aliases are ordered.
pub proof fn lemma_hops_are_the_chain(
    aliases: Seq<AliasView>,
    name: Seq<char>,
    chain: Seq<Seq<char>>,
)
    requires
        chain.len() <= aliases.len(),
        forall|i: int|
            0 <= i < chain.len() ==> next_hop(aliases, chain_end(name, chain.take(i))) == Some(
                #[trigger] chain[i],
            ),
        next_hop(aliases, chain_end(name, chain)) is None,
    ensures
        spec_hops(aliases, name) == chain,
{
    lemma_walk_is_the_chain(aliases, name, chain, aliases.len());
}

/// A walk takes no more hops than it has fuel, and each name it reaches is
/// the hop of the name before it.
pub proof fn lemma_walk_follows_hops(aliases: Seq<AliasView>, name: Seq<char>, fuel: nat, i: int)
    requires
        0 <= i < walk(aliases, name, fuel).len(),
    ensures
        walk(aliases, name, fuel).len() <= fuel,
        next_hop(aliases, chain_end(name, walk(aliases, name, fuel).take(i))) == Some(
            walk(aliases, name, fuel)[i],
        ),
    decreases fuel,
{
    let w = walk(aliases, name, fuel);
    let first = next_hop(aliases, name)->0;
    let rest = walk(aliases, first, (fuel - 1) as nat);
    assert(w =~= seq![first] + rest);
    lemma_walk_bounded(aliases, first, (fuel - 1) as nat);
    if i == 0 {
        assert(w.take(0).len() == 0);
    } else {
        lemma_walk_follows_hops(aliases, first, (fuel - 1) as nat, i - 1);
        assert(w[i] == rest[i - 1]);
        if i == 1 {
            assert(w.take(1).last() == first);
            assert(rest.take(0).len() == 0);
        } else {
            assert(w.take(i).last() == rest.take(i - 1).last());
        }
    }
}

/// A walk takes no more hops than it has fuel.
pub proof fn lemma_walk_bounded(aliases: Seq<AliasView>, name: Seq<char>, fuel: nat)
    ensures
        walk(aliases, name, fuel).len() <= fuel,
    decreases fuel,
{
    if fuel > 0 && next_hop(aliases, name) is Some {
        lemma_walk_bounded(aliases, next_hop(aliases, name)->0, (fuel - 1) as nat);
    }
}

/// The merged time-to-live exceeds that of no merged record: the answer
/// never outlives its shortest-lived constituent.
pub proof fn lemma_least_ttl_is_least(records: Seq<RecordView>, i: int)
    requires
        0 <= i < records.len(),
        merges(records[i]),
    ensures
        least_ttl(records) <= records[i].ttl,
    decreases records.len(),
{
    if i < records.len() - 1 {
        lemma_least_ttl_is_least(records.drop_last(), i);
    }
}

/// The merged time-to-live is that of some merged record, unless there is
/// none or all of them carry the largest value there is.
pub proof fn lemma_least_ttl_is_attained(records: Seq<RecordView>)
    ensures
        least_ttl(records) == u32::MAX || exists|i: int|
            0 <= i < records.len() && merges(#[trigger] records[i]) && records[i].ttl == least_ttl(
                records,
            ),
    decreases records.len(),
{
    if records.len() > 0 {
        let init = records.drop_last();
        lemma_least_ttl_is_attained(init);
        if least_ttl(records) != u32::MAX {
            if least_ttl(records) == least_ttl(init) {
                let i = choose|i: int|
                    0 <= i < init.len() && merges(#[trigger] init[i]) && init[i].ttl == least_ttl(init);
                assert(merges(records[i]) && records[i].ttl == least_ttl(records));
            } else {
                assert(merges(records[records.len() - 1]));
            }
        }
    }
}

/// Whatever is stored lives no longer than the upper end of the window, and
/// no longer than its shortest-lived record unless the lower end forbids it.
pub proof fn lemma_stored_ttl_bounds(records: Seq<RecordView>, i: int, min_ttl: u16, max_ttl: u16)
    requires
        0 <= i < records.len(),
        merges(records[i]),
        min_ttl <= records[i].ttl,
    ensures
        clamp_ttl(least_ttl(records), min_ttl, max_ttl) <= records[i].ttl,
        clamp_ttl(least_ttl(records), min_ttl, max_ttl) <= max_ttl,
{
    lemma_least_ttl_is_least(records, i);
}

/// The address that an entry publishes is one of the candidates: the one
/// selected among them, given what the race reported.
pub proof fn lemma_entry_publishes_a_candidate(
    conf: Cache,
    domain: Seq<char>,
    merged: MergedView,
    winner: Option<Ipv4>,
)
    requires
        spec_entry(conf, domain, merged, winner) is Some,
    ensures
        spec_select(merged.addrs, winner) matches Some(chosen) && merged.addrs.contains(chosen)
            && Some(spec_entry(conf, domain, merged, winner)->0.answer) == spec_published(
            domain,
            spec_entry(conf, domain, merged, winner)->0.key,
            spec_hops(merged.aliases, spec_entry(conf, domain, merged, winner)->0.key),
            clamp_ttl(merged.ttl, conf.min_ttl, conf.max_ttl),
            chosen,
        ),
{
    crate::speedtest::lemma_selected_is_candidate(merged.addrs, winner);
}

/// A lookup of an entry that was stored for `ttl` seconds and has `remaining`
/// of them left reports no more than `ttl`, as long as `ttl` is not below the
/// refresh-ahead threshold.
pub proof fn lemma_lookup_after_store(ttl: u32, remaining: u32)
    requires
        remaining <= ttl,
        KEEP_TTL <= ttl,
    ensures
        reported_ttl(remaining) <= ttl,
{
}

} // verus!

//! Choice of the address to publish among several candidates.
//!
//! The selector itself opens no connection. [`ZSpeedTest::query`] says whether
//! a race is needed at all and, if so, against which targets and for how long;
//! [`ZSpeedTest::settle`] turns the outcome of that race into the address.

use vstd::prelude::*;
use crate::addr::Ipv4;

verus! {

/// Port on which every candidate is probed.
pub const PROBE_PORT: u16 = 443;

/// Seconds after which a race without a winner is given up.
pub const PROBE_WAIT_SECS: u64 = 2;

/// Seconds that a probe may take to report its completed handshake.
pub const PROBE_HANDOVER_SECS: u64 = 2;

/// Reasons for which no address can be selected.
#[derive(Clone, Copy, Debug, PartialEq, Eq, Structural)]
pub enum SpeedError {
    /// There is no candidate to choose from.
    EmptyList,
}

impl SpeedError {
    /// The message that goes with the error.
    pub fn message(&self) -> (r: String)
        ensures
            r@ == "empty ip list."@,
    {
        "empty ip list.".to_owned()
    }
}

/// What has to happen before an address is known.
#[derive(Clone, Debug)]
pub enum Probe {
    /// The address is known without probing.
    Settled(Ipv4),
    /// Every target is to be probed at once; the first that completes a
    /// handshake wins, and `fallback` is taken when none does in time.
    Race { targets: Vec<Ipv4>, port: u16, wait_secs: u64, fallback: Ipv4 },
}

/// The address selector.
#[derive(Clone, Copy, Debug)]
pub struct ZSpeedTest;

/// The address that a selection ends with: none without candidates, the sole
/// candidate without regard to any probe, else the winner of the race if it
/// is one of the candidates or, for want of such a winner, the first
/// candidate.
pub open spec fn spec_select(candidates: Seq<Ipv4>, winner: Option<Ipv4>) -> Option<Ipv4> {
    if candidates.len() == 0 {
        None
    } else if candidates.len() == 1 {
        Some(candidates[0])
    } else {
        match winner {
            Some(w) => if candidates.contains(w) {
                Some(w)
            } else {
                Some(candidates[0])
            },
            None => Some(candidates[0]),
        }
    }
}

/// Says whether `list` holds the address `a`.
pub fn holds_addr(list: &Vec<Ipv4>, a: Ipv4) -> (r: bool)
    ensures
        r == list@.contains(a),
{
    let mut i: usize = 0;
    while i < list.len()
        invariant
            0 <= i <= list.len(),
            forall|k: int| 0 <= k < i ==> list@[k] != a,
        decreases list.len() - i,
    {
        if list[i] == a {
            return true;
        }
        i += 1;
    }
    false
}

impl Probe {
    /// Whether carrying out this step takes any network probe.
    pub open spec fn probes(&self) -> bool {
        self is Race
    }

    /// The candidates that this step was made for.
    pub open spec fn candidates(&self) -> Seq<Ipv4> {
        match self {
            Probe::Settled(ip) => seq![*ip],
            Probe::Race { targets, .. } => targets@,
        }
    }

    /// A race is over at least two targets, on the probe port, bounded by the
    /// probe wait, and falls back to its first target.
    pub open spec fn wf(&self) -> bool {
        match self {
            Probe::Settled(_) => true,
            Probe::Race { targets, port, wait_secs, fallback } => {
                &&& targets@.len() >= 2
                &&& *port == PROBE_PORT
                &&& *wait_secs == PROBE_WAIT_SECS
                &&& *fallback == targets@[0]
            },
        }
    }
}

impl ZSpeedTest {
    /// Decides how the address among `ip_list` is found.
    ///
    /// An empty list is an error. A single candidate is settled at once,
    /// without a probe. Otherwise all candidates are raced, in the order
    /// given, with the first of them as fallback.
    pub fn query(ip_list: Vec<Ipv4>) -> (r: Result<Probe, SpeedError>)
        ensures
            r is Err <==> ip_list@.len() == 0,
            r matches Err(e) ==> e == SpeedError::EmptyList,
            r matches Ok(p) ==> p.wf() && p.candidates() == ip_list@,
            r matches Ok(p) ==> (p.probes() <==> ip_list@.len() >= 2),
    {
        if ip_list.len() == 0 {
            return Err(SpeedError::EmptyList);
        }
        let first = ip_list[0];
        if ip_list.len() == 1 {
            assert(ip_list@ =~= seq![first]);
            return Ok(Probe::Settled(first));
        }
        Ok(Probe::Race { targets: ip_list, port: PROBE_PORT, wait_secs: PROBE_WAIT_SECS, fallback: first })
    }

    /// Selects among `candidates`, given the address that a race reported,
    /// or nothing when the wait ran out or no race was run.
    ///
    /// The result is always one of the candidates: a reported address that
    /// is none of them counts as no report.
    pub fn select(candidates: &Vec<Ipv4>, winner: Option<Ipv4>) -> (r: Option<Ipv4>)
        ensures
            r == spec_select(candidates@, winner),
            r matches Some(ip) ==> candidates@.contains(ip),
            r is None <==> candidates@.len() == 0,
    {
        if candidates.len() == 0 {
            return None;
        }
        let first = candidates[0];
        assert(candidates@.contains(first));
        if candidates.len() == 1 {
            return Some(first);
        }
        match winner {
            Some(w) => {
                if holds_addr(candidates, w) {
                    Some(w)
                } else {
                    Some(first)
                }
            },
            None => Some(first),
        }
    }

    /// Ends a selection: `winner` is the address that the race reported, or
    /// nothing when the wait ran out. The result is one of the candidates.
    pub fn settle(probe: &Probe, winner: Option<Ipv4>) -> (r: Ipv4)
        requires
            probe.wf(),
        ensures
            Some(r) == spec_select(probe.candidates(), winner),
            probe.candidates().contains(r),
    {
        match probe {
            Probe::Settled(ip) => {
                assert(seq![*ip][0] == *ip);
                *ip
            },
            Probe::Race { targets, fallback, .. } => {
                assert(targets@.contains(targets@[0]));
                match winner {
                    Some(w) => {
                        if holds_addr(targets, w) {
                            w
                        } else {
                            *fallback
                        }
                    },
                    None => *fallback,
                }
            },
        }
    }
}

/// Whatever a race reports, the selected address is one of the candidates,
/// and it is the reported one whenever that is a candidate among several.
pub proof fn lemma_selected_is_candidate(candidates: Seq<Ipv4>, winner: Option<Ipv4>)
    requires
        candidates.len() > 0,
    ensures
        spec_select(candidates, winner) matches Some(ip) && candidates.contains(ip),
        candidates.len() >= 2 && winner is Some && candidates.contains(winner->0) ==> spec_select(
            candidates,
            winner,
        ) == winner,
{
    assert(candidates.contains(candidates[0]));
}

/// A sole candidate is selected whatever a probe might have reported.
pub proof fn lemma_single_candidate(ip: Ipv4, winner: Option<Ipv4>)
    ensures
        spec_select(seq![ip], winner) == Some(ip),
{
}

/// Without a winner the first candidate is selected.
pub proof fn lemma_fallback_is_first(candidates: Seq<Ipv4>)
    requires
        candidates.len() > 0,
    ensures
        spec_select(candidates, None) == Some(candidates[0]),
{
}

} // verus!

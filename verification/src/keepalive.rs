//! Keep-alive probing cycles.
//!
//! Two background loops keep the NAT binding alive: one re-probes the
//! STUN candidates each period and stops at the first success of a cycle,
//! the other nudges every allowed peer once per cycle with a short ping,
//! caring nothing for the outcome.  The socket work happens in the
//! driver; this module decides what one cycle does with the outcomes and
//! how long to sleep before the next, and proves that a cycle over any
//! candidate list — even one that is entirely unreachable — completes
//! with a bounded failure count and ends in a sleep, never in an error.

use crate::endpoint::Endpoint;
use vstd::prelude::*;

verus! {

/// The shared traversal configuration: the one fixed local port every
/// socket binds to (with address reuse), the pause between cycles, and
/// the bound on each peer-ping connect attempt.  The ping bound is a
/// tunable: the nudge only has to make the NAT see outgoing traffic, so
/// even a timeout too short for a handshake does its job.
#[derive(Clone, Copy, PartialEq, Eq, Structural, Debug)]
pub struct KeepAliveConfig {
    pub bind_port: u16,
    pub period_ms: u64,
    pub ping_timeout_ms: u64,
}

impl KeepAliveConfig {
    /// The stock configuration: local port 8080, ten seconds per cycle,
    /// one millisecond per peer-ping attempt.
    pub fn standard() -> (c: KeepAliveConfig)
        ensures
            c.bind_port == 8080,
            c.period_ms == 10000,
            c.ping_timeout_ms == 1,
    {
        KeepAliveConfig { bind_port: 8080, period_ms: 10000, ping_timeout_ms: 1 }
    }
}

/// What one discovery attempt against one candidate came back with.
#[derive(Clone, Copy, PartialEq, Eq, Structural, Debug)]
pub enum ProbeOutcome {
    /// The candidate answered with a decodable mapped address.
    Mapped(Endpoint),
    /// Connect, send, read or decode failed: logged and swallowed.
    Unreachable,
}

/// The first mapped address a cycle would observe, probing in order.
pub open spec fn spec_first_mapped(os: Seq<ProbeOutcome>) -> Option<Endpoint>
    decreases os.len(),
{
    if os.len() == 0 {
        None
    } else {
        match os[0] {
            ProbeOutcome::Mapped(e) => Some(e),
            ProbeOutcome::Unreachable => spec_first_mapped(os.skip(1)),
        }
    }
}

/// How many candidates a cycle probes: all of them, unless a success
/// ends the cycle early (first success wins).
pub open spec fn spec_attempts(os: Seq<ProbeOutcome>) -> int
    decreases os.len(),
{
    if os.len() == 0 {
        0
    } else {
        match os[0] {
            ProbeOutcome::Mapped(e) => 1,
            ProbeOutcome::Unreachable => 1 + spec_attempts(os.skip(1)),
        }
    }
}

/// What one full STUN keep-alive cycle did, and what the driver does
/// next: log at most one observed mapping and `failures` failures, then
/// sleep `sleep_ms` before reloading the candidate list and cycling
/// again.
pub struct CycleReport {
    pub mapped: Option<Endpoint>,
    pub attempts: usize,
    pub failures: usize,
    pub sleep_ms: u64,
}

/// Runs the decision part of one STUN keep-alive cycle over the outcomes
/// of probing the current candidate list in order.  The first success
/// wins and ends the cycle; failures are counted, never raised.  The
/// cycle always completes and always ends in a sleep of one period.
pub fn run_stun_cycle(cfg: &KeepAliveConfig, outcomes: &Vec<ProbeOutcome>) -> (r: CycleReport)
    ensures
        r.mapped == spec_first_mapped(outcomes@),
        r.attempts as int == spec_attempts(outcomes@),
        r.attempts <= outcomes@.len(),
        r.mapped is Some ==> r.failures + 1 == r.attempts,
        r.mapped is None ==> r.failures == outcomes@.len(),
        r.failures <= outcomes@.len(),
        r.sleep_ms == cfg.period_ms,
{
    let ghost os: Seq<ProbeOutcome> = outcomes@;
    let mut i: usize = 0;
    let mut mapped: Option<Endpoint> = None;
    proof {
        assert(os.skip(0) =~= os);
    }
    while i < outcomes.len()
        invariant_except_break
            mapped is None,
            i <= os.len(),
            outcomes@ == os,
            spec_first_mapped(os) == spec_first_mapped(os.skip(i as int)),
            spec_attempts(os) == i + spec_attempts(os.skip(i as int)),
        ensures
            outcomes@ == os,
            i <= os.len(),
            mapped == spec_first_mapped(os),
            mapped is None ==> i as int == spec_attempts(os) && i == os.len(),
            mapped is Some ==> i as int == spec_attempts(os) && 1 <= i,
        decreases os.len() - i,
    {
        proof {
            assert(os.skip(i as int)[0] == os[i as int]);
            assert(os.skip(i as int).skip(1) =~= os.skip(i + 1));
        }
        match outcomes[i] {
            ProbeOutcome::Mapped(e) => {
                mapped = Some(e);
                i = i + 1;
                break ;
            },
            ProbeOutcome::Unreachable => {
                i = i + 1;
            },
        }
    }
    let failures: usize = if mapped.is_some() {
        i - 1
    } else {
        i
    };
    CycleReport { mapped, attempts: i, failures, sleep_ms: cfg.period_ms }
}

/// Law: a cycle fed `n` unreachable candidates observes no mapping and
/// probes — and so fails — exactly `n` times.  Together with the contract
/// of `run_stun_cycle` this says the cycle completes without an error,
/// logs at most `n` failures and then sleeps for the configured period.
pub proof fn lemma_cycle_all_unreachable(os: Seq<ProbeOutcome>)
    requires
        forall|i: int| 0 <= i < os.len() ==> os[i] is Unreachable,
    ensures
        spec_first_mapped(os) is None,
        spec_attempts(os) == os.len(),
    decreases os.len(),
{
    if os.len() > 0 {
        assert(os[0] is Unreachable);
        lemma_cycle_all_unreachable(os.skip(1));
    }
}

/// The keep-alive nudge payload sent to every allowed peer each cycle,
/// `DMS:NAT_TRAVERSAL:PING` in ASCII.  It has no STUN shape, so the far
/// side treats it as peer data.
pub open spec fn spec_keepalive_ping() -> Seq<u8> {
    seq![
        0x44u8,
        0x4du8,
        0x53u8,
        0x3au8,
        0x4eu8,
        0x41u8,
        0x54u8,
        0x5fu8,
        0x54u8,
        0x52u8,
        0x41u8,
        0x56u8,
        0x45u8,
        0x52u8,
        0x53u8,
        0x41u8,
        0x4cu8,
        0x3au8,
        0x50u8,
        0x49u8,
        0x4eu8,
        0x47u8,
    ]
}

/// Builds the keep-alive nudge payload.
pub fn keepalive_ping() -> (p: Vec<u8>)
    ensures
        p@ == spec_keepalive_ping(),
        !crate::codec::spec_is_stun(p@),
{
    let mut p: Vec<u8> = Vec::new();
    p.push(0x44);
    p.push(0x4d);
    p.push(0x53);
    p.push(0x3a);
    p.push(0x4e);
    p.push(0x41);
    p.push(0x54);
    p.push(0x5f);
    p.push(0x54);
    p.push(0x52);
    p.push(0x41);
    p.push(0x56);
    p.push(0x45);
    p.push(0x52);
    p.push(0x53);
    p.push(0x41);
    p.push(0x4c);
    p.push(0x3a);
    p.push(0x50);
    p.push(0x49);
    p.push(0x4e);
    p.push(0x47);
    proof {
        assert(p@ =~= spec_keepalive_ping());
        assert(p@[4] != 0x21u8);
    }
    p
}

} // verus!

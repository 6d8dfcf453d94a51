//! Simultaneous-open punching state machine.
//!
//! The driver repeatedly binds a fresh socket to the shared fixed local
//! port and attempts an outbound connect to the peer's observed endpoint.
//! Each attempt's outcome is fed in here: a failed connect is swallowed
//! and probing goes on, a successful connect opens the path.  The open
//! state is absorbing — once the handshake has completed, later failures
//! do not close the traversal.

use vstd::prelude::*;

verus! {

/// The two states of a punching endpoint.
#[derive(Clone, Copy, PartialEq, Eq, Structural, Debug)]
pub enum PunchState {
    /// Still trying: no connect has succeeded yet.
    Probing,
    /// A connect completed: the path is punched.
    Open,
}

/// What one connect attempt came back with.
#[derive(Clone, Copy, PartialEq, Eq, Structural, Debug)]
pub enum ConnectOutcome {
    /// The handshake completed.
    Connected,
    /// The connect failed (refused, unreachable, timed out): swallowed,
    /// never propagated.
    Failed,
}

/// The successor state after one connect attempt.
pub open spec fn spec_punch_step(s: PunchState, o: ConnectOutcome) -> PunchState {
    match o {
        ConnectOutcome::Connected => PunchState::Open,
        ConnectOutcome::Failed => s,
    }
}

/// The state after a whole run of attempts, started from `s`.
pub open spec fn spec_punch_run(s: PunchState, outcomes: Seq<ConnectOutcome>) -> PunchState
    decreases outcomes.len(),
{
    if outcomes.len() == 0 {
        s
    } else {
        spec_punch_run(spec_punch_step(s, outcomes[0]), outcomes.skip(1))
    }
}

/// Feeds one connect outcome into the state machine.  A failure keeps the
/// current state — probing retries, an open path stays open; a success
/// opens the path.
pub fn punch_step(s: PunchState, o: ConnectOutcome) -> (r: PunchState)
    ensures
        r == spec_punch_step(s, o),
{
    match o {
        ConnectOutcome::Connected => PunchState::Open,
        ConnectOutcome::Failed => s,
    }
}

/// Replays a whole sequence of connect outcomes from the probing state.
pub fn punch_run(outcomes: &Vec<ConnectOutcome>) -> (r: PunchState)
    ensures
        r == spec_punch_run(PunchState::Probing, outcomes@),
{
    let mut s = PunchState::Probing;
    let mut i: usize = 0;
    proof {
        assert(outcomes@.skip(0) =~= outcomes@);
    }
    while i < outcomes.len()
        invariant
            i <= outcomes@.len(),
            spec_punch_run(PunchState::Probing, outcomes@) == spec_punch_run(
                s,
                outcomes@.skip(i as int),
            ),
        decreases outcomes@.len() - i,
    {
        proof {
            assert(outcomes@.skip(i as int)[0] == outcomes@[i as int]);
            assert(outcomes@.skip(i as int).skip(1) =~= outcomes@.skip(i + 1));
        }
        s = punch_step(s, outcomes[i]);
        i = i + 1;
    }
    s
}

/// Law: against a peer that is never reachable, punching never succeeds —
/// but it never fails out either: after any number of failed attempts the
/// machine still stands in the probing state, ready for the next tick.
pub proof fn lemma_punch_never_reachable(outcomes: Seq<ConnectOutcome>)
    requires
        forall|i: int| 0 <= i < outcomes.len() ==> outcomes[i] is Failed,
    ensures
        spec_punch_run(PunchState::Probing, outcomes) is Probing,
    decreases outcomes.len(),
{
    if outcomes.len() > 0 {
        assert(outcomes[0] is Failed);
        lemma_punch_never_reachable(outcomes.skip(1));
    }
}

/// Law: the path opens exactly when some attempt connects.  In particular,
/// once the peer becomes reachable at attempt `k`, the run is open by the
/// end — punching succeeds within a bounded number of cycles.
pub proof fn lemma_punch_open_iff_some_success(s: PunchState, outcomes: Seq<ConnectOutcome>)
    ensures
        spec_punch_run(s, outcomes) is Open <==> (s is Open || exists|i: int|
            0 <= i < outcomes.len() && outcomes[i] is Connected),
    decreases outcomes.len(),
{
    if outcomes.len() > 0 {
        let s1 = spec_punch_step(s, outcomes[0]);
        lemma_punch_open_iff_some_success(s1, outcomes.skip(1));
        if spec_punch_run(s, outcomes) is Open {
            if !(s is Open) {
                if outcomes[0] is Connected {
                    assert(0 <= 0 < outcomes.len() && outcomes[0] is Connected);
                } else {
                    let j = choose|j: int|
                        0 <= j < outcomes.skip(1).len() && outcomes.skip(1)[j] is Connected;
                    assert(outcomes[j + 1] is Connected);
                }
            }
        }
        if s is Open || exists|i: int| 0 <= i < outcomes.len() && outcomes[i] is Connected {
            if !(s1 is Open) {
                let i = choose|i: int| 0 <= i < outcomes.len() && outcomes[i] is Connected;
                assert(i > 0);
                assert(outcomes.skip(1)[i - 1] is Connected);
            }
        }
    }
}

} // verus!

//! The client session: three linear steps — connecting, storing,
//! retrieving — each answered by one remote outcome. The machine fixes
//! the order of the remote calls: the connector runs first and a failure
//! there ends the session; the store call always precedes the retrieve
//! call; a failed store or retrieve never ends the session early.

use vstd::prelude::*;

use vstd::string::StringExecFns;

verus! {

/// Where the session stands: which remote call is owed next.
#[derive(Clone, Copy, Debug, PartialEq, Eq, Structural)]
pub enum Phase {
    Connecting,
    Storing,
    Retrieving,
    Done,
}

/// The remote call the session asks its driver to make next.
#[derive(Clone, Copy, Debug, PartialEq, Eq, Structural)]
pub enum Action {
    Connect,
    Store,
    Retrieve,
    Halt,
}

/// The outcome of a remote call, as the driver reports it back.
pub enum RemoteEvent {
    /// The connector succeeded; the peer's client version.
    Connected(String),
    /// The connector failed; the transport error text.
    ConnectFailed(String),
    /// The store call returned acceptance.
    StoreAccepted,
    /// The store call returned rejection.
    StoreRejected,
    /// The store call failed in transport; the error text.
    StoreFailed(String),
    /// The retrieve call returned a value; its rendering.
    Retrieved(String),
    /// The retrieve call failed in transport; the error text.
    RetrieveFailed(String),
}

/// The remote call owed in a phase.
pub open spec fn action_of(p: Phase) -> Action {
    match p {
        Phase::Connecting => Action::Connect,
        Phase::Storing => Action::Store,
        Phase::Retrieving => Action::Retrieve,
        Phase::Done => Action::Halt,
    }
}

/// Whether an event can answer the call owed in a phase. A finished
/// session accepts no further event.
pub open spec fn answers(p: Phase, ev: RemoteEvent) -> bool {
    match p {
        Phase::Connecting => ev is Connected || ev is ConnectFailed,
        Phase::Storing => ev is StoreAccepted || ev is StoreRejected || ev is StoreFailed,
        Phase::Retrieving => ev is Retrieved || ev is RetrieveFailed,
        Phase::Done => false,
    }
}

/// The phase after an event: a connector failure ends the session; every
/// store or retrieve outcome, success or failure, moves to the next step.
pub open spec fn next_phase(p: Phase, ev: RemoteEvent) -> Phase {
    match p {
        Phase::Connecting => if ev is Connected {
            Phase::Storing
        } else {
            Phase::Done
        },
        Phase::Storing => Phase::Retrieving,
        Phase::Retrieving => Phase::Done,
        Phase::Done => Phase::Done,
    }
}

/// Whether an event is reported on the error stream.
pub open spec fn is_failure(ev: RemoteEvent) -> bool {
    match ev {
        RemoteEvent::Connected(_) => false,
        RemoteEvent::ConnectFailed(_) => true,
        RemoteEvent::StoreAccepted => false,
        RemoteEvent::StoreRejected => true,
        RemoteEvent::StoreFailed(_) => true,
        RemoteEvent::Retrieved(_) => false,
        RemoteEvent::RetrieveFailed(_) => true,
    }
}

/// The status line reported for an event.
pub open spec fn report_text(ev: RemoteEvent) -> Seq<char> {
    match ev {
        RemoteEvent::Connected(v) => "Connected to Ethereum node with client version: "@ + v@,
        RemoteEvent::ConnectFailed(e) => "Failed to connect to API endpoint: "@ + e@,
        RemoteEvent::StoreAccepted => "ZKP successfully stored on the Ethereum node."@,
        RemoteEvent::StoreRejected => "Failed to store ZKP on the Ethereum node."@,
        RemoteEvent::StoreFailed(e) => "Error storing ZKP on the Ethereum node: "@ + e@,
        RemoteEvent::Retrieved(v) => "Retrieved ZKP from the Ethereum node: "@ + v@,
        RemoteEvent::RetrieveFailed(e) => "Error retrieving ZKP from the Ethereum node: "@ + e@,
    }
}

/// A session driving the three remote calls in order.
pub struct Session {
    pub phase: Phase,
    pub aborted: bool,
}

impl Session {
    /// A fresh session: about to connect, not aborted.
    pub fn new() -> (r: Session)
        ensures
            r.phase is Connecting,
            !r.aborted,
    {
        Session { phase: Phase::Connecting, aborted: false }
    }

    /// The remote call the driver should make next.
    pub fn next_action(&self) -> (r: Action)
        ensures
            r == action_of(self.phase),
    {
        match self.phase {
            Phase::Connecting => Action::Connect,
            Phase::Storing => Action::Store,
            Phase::Retrieving => Action::Retrieve,
            Phase::Done => Action::Halt,
        }
    }

    /// Feeds the outcome of the call back in; returns the status line to
    /// report and whether it belongs on the error stream.
    ///
    /// Every store or retrieve outcome, failure included, moves the
    /// session on to its next step; only a connector failure aborts.
    pub fn step(&mut self, ev: RemoteEvent) -> (r: (String, bool))
        requires
            answers(old(self).phase, ev),
        ensures
            final(self).phase == next_phase(old(self).phase, ev),
            final(self).aborted == (old(self).aborted || ev is ConnectFailed),
            r.0@ == report_text(ev),
            r.1 == is_failure(ev),
    {
        match self.phase {
            Phase::Connecting => {
                match &ev {
                    RemoteEvent::Connected(_) => {
                        self.phase = Phase::Storing;
                    },
                    _ => {
                        self.phase = Phase::Done;
                        self.aborted = true;
                    },
                }
            },
            Phase::Storing => {
                self.phase = Phase::Retrieving;
            },
            Phase::Retrieving => {
                self.phase = Phase::Done;
            },
            Phase::Done => {
            },
        }
        match ev {
            RemoteEvent::Connected(v) => (
                String::from_str("Connected to Ethereum node with client version: ").concat(
                    v.as_str(),
                ),
                false,
            ),
            RemoteEvent::ConnectFailed(e) => (
                String::from_str("Failed to connect to API endpoint: ").concat(e.as_str()),
                true,
            ),
            RemoteEvent::StoreAccepted => (
                String::from_str("ZKP successfully stored on the Ethereum node."),
                false,
            ),
            RemoteEvent::StoreRejected => (
                String::from_str("Failed to store ZKP on the Ethereum node."),
                true,
            ),
            RemoteEvent::StoreFailed(e) => (
                String::from_str("Error storing ZKP on the Ethereum node: ").concat(e.as_str()),
                true,
            ),
            RemoteEvent::Retrieved(v) => (
                String::from_str("Retrieved ZKP from the Ethereum node: ").concat(v.as_str()),
                false,
            ),
            RemoteEvent::RetrieveFailed(e) => (
                String::from_str("Error retrieving ZKP from the Ethereum node: ").concat(
                    e.as_str(),
                ),
                true,
            ),
        }
    }

    /// The process exit status the session calls for: nonzero exactly
    /// when the connector failed.
    pub fn exit_code(&self) -> (r: i32)
        ensures
            r == 0 <==> !self.aborted,
            self.aborted ==> r == 1,
    {
        if self.aborted {
            1
        } else {
            0
        }
    }
}

/// Whether a sequence of events can be answered in order from phase `p`.
pub open spec fn accepted_from(p: Phase, evs: Seq<RemoteEvent>) -> bool
    decreases evs.len(),
{
    evs.len() == 0 || (answers(p, evs[0]) && accepted_from(next_phase(p, evs[0]), evs.drop_first()))
}

/// The remote calls made while the events of `evs` are answered in order
/// from phase `p`: one call before each event.
pub open spec fn actions_from(p: Phase, evs: Seq<RemoteEvent>) -> Seq<Action>
    decreases evs.len(),
{
    if evs.len() == 0 {
        Seq::<Action>::empty()
    } else {
        seq![action_of(p)] + actions_from(next_phase(p, evs[0]), evs.drop_first())
    }
}

/// A session run: the events answered in order from a fresh session.
pub open spec fn session_actions(evs: Seq<RemoteEvent>) -> Seq<Action> {
    actions_from(Phase::Connecting, evs)
}

/// Connector failures short-circuit: a run whose first outcome is a
/// connector failure ends there — no store and no retrieve call is ever
/// attempted.
pub proof fn lemma_connect_failure_short_circuits(evs: Seq<RemoteEvent>)
    requires
        accepted_from(Phase::Connecting, evs),
        evs.len() >= 1,
        evs[0] is ConnectFailed,
    ensures
        evs.len() == 1,
        session_actions(evs) =~= seq![Action::Connect],
{
    assert(next_phase(Phase::Connecting, evs[0]) is Done);
    assert(accepted_from(Phase::Done, evs.drop_first()));
    assert(evs.drop_first().len() == 0);
    assert(actions_from(Phase::Done, evs.drop_first()) =~= Seq::<Action>::empty());
}

/// Store precedes retrieve: in any session run, a retrieve call has a
/// store call at a strictly earlier position, so the two are never made
/// in reverse order (nor together: the calls of a run form a sequence,
/// one at a time).
pub proof fn lemma_store_before_retrieve(evs: Seq<RemoteEvent>, i: int)
    requires
        accepted_from(Phase::Connecting, evs),
        0 <= i < session_actions(evs).len(),
        session_actions(evs)[i] is Retrieve,
    ensures
        exists|j: int| 0 <= j < i && #[trigger] session_actions(evs)[j] is Store,
{
    let acts = session_actions(evs);
    assert(acts[0] == action_of(Phase::Connecting));
    assert(i != 0);
    assert(evs[0] is Connected || evs[0] is ConnectFailed);
    if evs[0] is ConnectFailed {
        lemma_connect_failure_short_circuits(evs);
        assert(false);
    }
    let p1 = next_phase(Phase::Connecting, evs[0]);
    assert(p1 is Storing);
    let rest = evs.drop_first();
    assert(acts == seq![Action::Connect] + actions_from(p1, rest));
    assert(rest.len() >= 1);
    assert(actions_from(p1, rest)[0] == action_of(Phase::Storing));
    assert(acts[1] == Action::Store);
    assert(i != 1);
    assert(acts[1] is Store);
}

/// A failed store call does not end the run: after any store outcome,
/// failure included, the next call of the run is the retrieve call.
pub proof fn lemma_store_failure_does_not_abort(evs: Seq<RemoteEvent>)
    requires
        accepted_from(Phase::Connecting, evs),
        evs.len() >= 3,
        evs[0] is Connected,
    ensures
        session_actions(evs)[1] is Store,
        session_actions(evs)[2] is Retrieve,
{
    let p1 = next_phase(Phase::Connecting, evs[0]);
    assert(p1 is Storing);
    let r1 = evs.drop_first();
    assert(accepted_from(p1, r1));
    let p2 = next_phase(p1, r1[0]);
    assert(p2 is Retrieving);
    let r2 = r1.drop_first();
    assert(accepted_from(p2, r2));
    let acts = session_actions(evs);
    assert(acts == seq![Action::Connect] + actions_from(p1, r1));
    assert(actions_from(p1, r1) == seq![Action::Store] + actions_from(p2, r2));
    assert(r2.len() >= 1);
    assert(actions_from(p2, r2)[0] == action_of(Phase::Retrieving));
    assert(acts[1] is Store);
    assert(acts[2] is Retrieve);
}

} // verus!

//! Status events reported to observers outside the consensus engine.

use std::sync::Arc;
use vstd::prelude::*;

verus! {

/// The stage of a view in which an event was generated.
#[derive(Clone, Copy, Debug, PartialEq, Eq, Structural, Hash)]
pub enum Stage {
    /// No stage has been entered yet.
    Unstarted,
    Prepare,
    PreCommit,
    Commit,
    Decide,
}

/// An error that interrupted a view.
#[derive(Clone, Debug)]
pub struct PhaseLockError {
    /// What went wrong.
    pub context: String,
}

/// A status event: the view and stage it comes from, and the event proper.
#[derive(Clone, Debug)]
pub struct Event<B: Send + Sync, S: Send + Sync> {
    /// The view number that this event originates from.
    pub view_number: u64,
    /// The stage that this event originates from.
    pub stage: Stage,
    /// The underlying event.
    pub event: EventType<B, S>,
}

/// The type and contents of a status event.
#[non_exhaustive]
#[derive(Clone, Debug)]
pub enum EventType<B: Send + Sync, S: Send + Sync> {
    /// A view encountered an error and was interrupted.
    Error { error: Arc<PhaseLockError> },
    /// A new block was proposed.
    Propose { block: Arc<B> },
    /// A decision was made. Both lists run from the newest (highest view
    /// number) entry to the oldest, and may be incomplete while the node
    /// catches up.
    Decide { block: Arc<Vec<B>>, state: Arc<Vec<S>> },
    /// A new view was started by this node.
    NewView { view_number: u64 },
    /// A view was cancelled by a timeout.
    ViewTimeout { view_number: u64 },
    /// This node is the leader for this view.
    Leader { view_number: u64 },
    /// This node is a follower for this view.
    Follower { view_number: u64 },
    /// The node has been synced with the network.
    Synced { view_number: u64 },
}

/// A block and the state it led to, committed in one view.
#[derive(Clone, Debug)]
pub struct Committed<B, S> {
    pub view_number: u64,
    pub block: B,
    pub state: S,
}

/// `s` from its last element to its first.
pub open spec fn reversed<T>(s: Seq<T>) -> Seq<T> {
    Seq::new(s.len(), |i: int| s[s.len() - 1 - i])
}

/// The views of a list of committed entries rise strictly.
pub open spec fn chronological<B, S>(s: Seq<Committed<B, S>>) -> bool {
    forall|i: int, j: int| 0 <= i < j < s.len() ==> s[i].view_number < s[j].view_number
}

impl<B: Send + Sync, S: Send + Sync> Event<B, S> {
    /// The decision event for `committed`, given oldest first: its block and
    /// state lists run newest first.
    pub fn decide(view_number: u64, stage: Stage, committed: Vec<Committed<B, S>>) -> (r: Event<
        B,
        S,
    >)
        requires
            chronological(committed@),
        ensures
            r.view_number == view_number,
            r.stage == stage,
            r.event matches EventType::Decide { block, state } && block@ == reversed(
                committed@.map_values(|c: Committed<B, S>| c.block),
            ) && state@ == reversed(committed@.map_values(|c: Committed<B, S>| c.state)),
    {
        let ghost all = committed@;
        let mut rest = committed;
        let mut blocks: Vec<B> = Vec::new();
        let mut states: Vec<S> = Vec::new();
        while rest.len() > 0
            invariant
                rest@ == all.subrange(0, all.len() - blocks@.len()),
                blocks@.len() == states@.len(),
                blocks@.len() <= all.len(),
                forall|i: int|
                    0 <= i < blocks@.len() ==> blocks@[i] == all[all.len() - 1 - i].block,
                forall|i: int|
                    0 <= i < states@.len() ==> states@[i] == all[all.len() - 1 - i].state,
            decreases rest@.len(),
        {
            let entry = rest.pop().unwrap();
            let Committed { view_number: _, block, state } = entry;
            blocks.push(block);
            states.push(state);
        }
        let r = Event {
            view_number,
            stage,
            event: EventType::Decide { block: Arc::new(blocks), state: Arc::new(states) },
        };
        proof {
            assert(blocks@ =~= reversed(all.map_values(|c: Committed<B, S>| c.block)));
            assert(states@ =~= reversed(all.map_values(|c: Committed<B, S>| c.state)));
        }
        r
    }
}

} // verus!

//! The closed set of internal events that consensus tasks react to.

use crate::accumulator::{DACertificate, QuorumCertificate};
use crate::vote::{DAVote, QuorumVote, ViewSyncVote};
use vstd::prelude::*;

verus! {

/// The phase a view-sync round has reached.
#[derive(Clone, Copy, Debug, PartialEq, Eq, Structural, Hash)]
pub enum ViewSyncPhase {
    /// No stage has been entered yet.
    Unstarted,
    PreCommit,
    Commit,
    Finalize,
}

/// Everything that can happen within one view that a task may react to.
///
/// `QP`, `DP` and `VP` are the signed quorum, DA and view-sync proposals,
/// `KEY` a signature key, `BLOCK` a block and `TXN` a transaction.
#[derive(Debug)]
pub enum SequencingHotShotEvent<QP, DP, VP, KEY, BLOCK, TXN> {
    Shutdown,
    QuorumProposalRecv(QP, KEY),
    QuorumVoteRecv(QuorumVote),
    DAProposalRecv(DP, KEY),
    DAVoteRecv(DAVote),
    DACRecv(DACertificate),
    QuorumProposalSend(QP, KEY),
    QuorumVoteSend(QuorumVote),
    DAProposalSend(DP, KEY),
    DAVoteSend(DAVote),
    QCFormed(QuorumCertificate),
    DACSend(DACertificate, KEY),
    ViewChange(u64),
    ViewSyncTimeout(u64, u64, ViewSyncPhase),
    ViewSyncVoteSend(ViewSyncVote),
    ViewSyncCertificateSend(VP, KEY),
    ViewSyncVoteRecv(ViewSyncVote),
    ViewSyncCertificateRecv(VP),
    ViewSyncTrigger(u64),
    Timeout(u64),
    TransactionsRecv(Vec<TXN>),
    TransactionSend(TXN, KEY),
    /// Block data sent from the DA leader to the next quorum leader.
    SendDABlockData(BLOCK),
}

} // verus!

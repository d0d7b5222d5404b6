//! Votes that replicas cast, and what each of them asserts.

use crate::accumulator::QuorumCertificate;
use crate::commitment::{Commitment, EncodedPublicKey, EncodedSignature};
use vstd::prelude::*;

verus! {

/// The weight that a replica holds in one view.
#[derive(Clone, Copy, Debug, PartialEq, Eq, Structural, Hash)]
pub struct VoteToken {
    /// How much stake the vote carries.
    pub vote_count: u64,
}

/// The phase of a view-sync vote, with the round commitment it attests to.
#[derive(Clone, Debug, Hash)]
pub enum ViewSyncVoteData {
    PreCommit(Commitment),
    Commit(Commitment),
    Finalize(Commitment),
}

/// What a vote asserts about the commitment it carries.
#[derive(Clone, Debug, Hash)]
pub enum VoteData {
    /// The block's data is available.
    DA(Commitment),
    /// The proposal is accepted.
    Yes(Commitment),
    /// The proposal is rejected.
    No(Commitment),
    /// The view timed out.
    Timeout(Commitment),
    /// A view-sync phase vote.
    ViewSync(ViewSyncVoteData),
}

/// The tag of a [`VoteData`], without its commitment.
#[derive(Clone, Copy, Debug, PartialEq, Eq, Structural)]
pub enum VoteKind {
    DA,
    Yes,
    No,
    Timeout,
    PreCommit,
    Commit,
    Finalize,
}

/// The mathematical content of a [`VoteData`].
pub struct VoteDataView {
    pub kind: VoteKind,
    pub commitment: Seq<u8>,
}

impl View for VoteData {
    type V = VoteDataView;

    open spec fn view(&self) -> VoteDataView {
        match self {
            VoteData::DA(c) => VoteDataView { kind: VoteKind::DA, commitment: c@ },
            VoteData::Yes(c) => VoteDataView { kind: VoteKind::Yes, commitment: c@ },
            VoteData::No(c) => VoteDataView { kind: VoteKind::No, commitment: c@ },
            VoteData::Timeout(c) => VoteDataView { kind: VoteKind::Timeout, commitment: c@ },
            VoteData::ViewSync(ViewSyncVoteData::PreCommit(c)) => VoteDataView {
                kind: VoteKind::PreCommit,
                commitment: c@,
            },
            VoteData::ViewSync(ViewSyncVoteData::Commit(c)) => VoteDataView {
                kind: VoteKind::Commit,
                commitment: c@,
            },
            VoteData::ViewSync(ViewSyncVoteData::Finalize(c)) => VoteDataView {
                kind: VoteKind::Finalize,
                commitment: c@,
            },
        }
    }
}

impl VoteData {
    /// The tag of this vote data.
    pub fn kind(&self) -> (r: VoteKind)
        ensures
            r == self@.kind,
    {
        match self {
            VoteData::DA(_) => VoteKind::DA,
            VoteData::Yes(_) => VoteKind::Yes,
            VoteData::No(_) => VoteKind::No,
            VoteData::Timeout(_) => VoteKind::Timeout,
            VoteData::ViewSync(ViewSyncVoteData::PreCommit(_)) => VoteKind::PreCommit,
            VoteData::ViewSync(ViewSyncVoteData::Commit(_)) => VoteKind::Commit,
            VoteData::ViewSync(ViewSyncVoteData::Finalize(_)) => VoteKind::Finalize,
        }
    }

    /// A copy with the same tag and commitment.
    pub fn copied(&self) -> (r: VoteData)
        ensures
            r@ == self@,
    {
        match self {
            VoteData::DA(c) => VoteData::DA(c.copied()),
            VoteData::Yes(c) => VoteData::Yes(c.copied()),
            VoteData::No(c) => VoteData::No(c.copied()),
            VoteData::Timeout(c) => VoteData::Timeout(c.copied()),
            VoteData::ViewSync(ViewSyncVoteData::PreCommit(c)) => VoteData::ViewSync(
                ViewSyncVoteData::PreCommit(c.copied()),
            ),
            VoteData::ViewSync(ViewSyncVoteData::Commit(c)) => VoteData::ViewSync(
                ViewSyncVoteData::Commit(c.copied()),
            ),
            VoteData::ViewSync(ViewSyncVoteData::Finalize(c)) => VoteData::ViewSync(
                ViewSyncVoteData::Finalize(c.copied()),
            ),
        }
    }
}

/// A vote that is tagged with the view it was cast for.
pub trait VoteType {
    /// The view this vote was cast for, in specifications.
    spec fn view_number(&self) -> u64;

    /// The view this vote was cast for.
    fn current_view(&self) -> (r: u64)
        ensures
            r == self.view_number(),
    ;
}

/// A vote on a DA proposal.
#[derive(Debug)]
pub struct DAVote {
    /// The commitment of the certificate that justifies the proposal.
    pub justify_qc_commitment: Commitment,
    /// The signer's key and its signature share.
    pub signature: (EncodedPublicKey, EncodedSignature),
    /// The block commitment being voted on.
    pub block_commitment: Commitment,
    /// The view this vote was cast for.
    pub current_view: u64,
    /// The weight of the voter in this view.
    pub vote_token: VoteToken,
    /// What the vote is signed over.
    pub vote_data: VoteData,
}

/// A positive or negative vote on a quorum proposal.
#[derive(Debug)]
pub struct YesOrNoVote {
    /// The commitment of the certificate that justifies the proposal.
    pub justify_qc_commitment: Commitment,
    /// The signer's key and its signature share.
    pub signature: (EncodedPublicKey, EncodedSignature),
    /// The leaf commitment being voted on.
    pub leaf_commitment: Commitment,
    /// The view this vote was cast for.
    pub current_view: u64,
    /// The weight of the voter in this view.
    pub vote_token: VoteToken,
    /// What the vote is signed over.
    pub vote_data: VoteData,
}

/// A timeout vote.
#[derive(Debug)]
pub struct TimeoutVote {
    /// The justification certificate for this view.
    pub justify_qc: QuorumCertificate,
    /// The signer's key and its signature share.
    pub signature: (EncodedPublicKey, EncodedSignature),
    /// The view this vote was cast for.
    pub current_view: u64,
    /// The weight of the voter in this view.
    pub vote_token: VoteToken,
    /// What the vote is signed over.
    pub vote_data: VoteData,
}

/// The contents of a view-sync vote.
#[derive(Debug)]
pub struct ViewSyncVoteInternal {
    /// The relay this vote is intended for.
    pub relay_pub_key: EncodedPublicKey,
    /// The index of the relay.
    pub relay: u64,
    /// The view number the network is trying to sync on.
    pub round: u64,
    /// The signer's key and its signature over the vote data.
    pub signature: (EncodedPublicKey, EncodedSignature),
    /// The weight of the voter in this view.
    pub vote_token: VoteToken,
    /// What the vote is signed over.
    pub vote_data: VoteData,
}

/// The relay and round that a view-sync vote aims at.
#[derive(Clone, Debug, Hash)]
pub struct ViewSyncData {
    /// The relay this vote is intended for.
    pub relay: EncodedPublicKey,
    /// The view number the network is trying to sync on.
    pub round: u64,
}

/// The eight little-endian bytes of `x`.
pub open spec fn u64_le_bytes(x: u64) -> Seq<u8> {
    Seq::new(8, |i: int| ((x >> ((8 * i) as u64)) & 0xffu64) as u8)
}

/// The bytes a view-sync round commits to: the relay key's length and raw
/// bytes, then the round number.
pub open spec fn view_sync_commitment_input(relay: Seq<u8>, round: u64) -> Seq<u8> {
    u64_le_bytes(relay.len() as u64) + relay + u64_le_bytes(round)
}

/// Appends the little-endian bytes of `x` to `out`.
fn push_u64_le(out: &mut Vec<u8>, x: u64)
    ensures
        final(out)@ == old(out)@ + u64_le_bytes(x),
{
    let ghost start = out@;
    let mut k: u64 = 0;
    while k < 8
        invariant
            k <= 8,
            out@ == start + u64_le_bytes(x).subrange(0, k as int),
        decreases 8 - k,
    {
        let b: u8 = ((x >> (8 * k)) & 0xff) as u8;
        out.push(b);
        assert(u64_le_bytes(x).subrange(0, k + 1) =~= u64_le_bytes(x).subrange(0, k as int).push(
            b,
        ));
        k = k + 1;
    }
    assert(u64_le_bytes(x).subrange(0, 8) =~= u64_le_bytes(x));
}

impl ViewSyncData {
    /// The bytes that this round's commitment digest is computed over.
    pub fn commitment_input(&self) -> (r: Vec<u8>)
        ensures
            r@ == view_sync_commitment_input(self.relay@, self.round),
    {
        let mut out: Vec<u8> = Vec::new();
        push_u64_le(&mut out, self.relay.0.len() as u64);
        let mut i: usize = 0;
        while i < self.relay.0.len()
            invariant
                i <= self.relay@.len(),
                out@ == u64_le_bytes(self.relay@.len() as u64) + self.relay@.subrange(0, i as int),
            decreases self.relay@.len() - i,
        {
            out.push(self.relay.0[i]);
            assert(self.relay@.subrange(0, i + 1) =~= self.relay@.subrange(0, i as int).push(
                self.relay@[i as int],
            ));
            i = i + 1;
        }
        assert(self.relay@.subrange(0, self.relay@.len() as int) =~= self.relay@);
        push_u64_le(&mut out, self.round);
        out
    }
}

/// Votes to synchronize the network on a single view.
#[derive(Debug)]
pub enum ViewSyncVote {
    PreCommit(ViewSyncVoteInternal),
    Commit(ViewSyncVoteInternal),
    Finalize(ViewSyncVoteInternal),
}

/// Votes on a quorum proposal.
#[derive(Debug)]
pub enum QuorumVote {
    /// Positive vote.
    Yes(YesOrNoVote),
    /// Negative vote.
    No(YesOrNoVote),
    /// Timeout vote.
    Timeout(TimeoutVote),
}

impl VoteType for DAVote {
    open spec fn view_number(&self) -> u64 {
        self.current_view
    }

    fn current_view(&self) -> (r: u64) {
        self.current_view
    }
}

impl VoteType for QuorumVote {
    open spec fn view_number(&self) -> u64 {
        match self {
            QuorumVote::Yes(v) => v.current_view,
            QuorumVote::No(v) => v.current_view,
            QuorumVote::Timeout(v) => v.current_view,
        }
    }

    fn current_view(&self) -> (r: u64) {
        match self {
            QuorumVote::Yes(v) | QuorumVote::No(v) => v.current_view,
            QuorumVote::Timeout(v) => v.current_view,
        }
    }
}

impl VoteType for ViewSyncVote {
    open spec fn view_number(&self) -> u64 {
        match self {
            ViewSyncVote::PreCommit(v) => v.round,
            ViewSyncVote::Commit(v) => v.round,
            ViewSyncVote::Finalize(v) => v.round,
        }
    }

    fn current_view(&self) -> (r: u64) {
        match self {
            ViewSyncVote::PreCommit(v) | ViewSyncVote::Commit(v) | ViewSyncVote::Finalize(v) => {
                v.round
            },
        }
    }
}

impl QuorumVote {
    /// The signature share that the vote carries, in specifications.
    pub open spec fn signature_bytes(&self) -> Seq<u8> {
        match self {
            QuorumVote::Yes(v) => v.signature.1@,
            QuorumVote::No(v) => v.signature.1@,
            QuorumVote::Timeout(v) => v.signature.1@,
        }
    }

    /// The signature share that the vote carries.
    pub fn signature(&self) -> (r: EncodedSignature)
        ensures
            r@ == self.signature_bytes(),
    {
        match self {
            QuorumVote::Yes(vote) | QuorumVote::No(vote) => vote.signature.1.copied(),
            QuorumVote::Timeout(vote) => vote.signature.1.copied(),
        }
    }
}

} // verus!

//! Accumulation of votes into certificates.

use crate::commitment::{Commitment, EncodedPublicKey, EncodedSignature};
use crate::vote::{VoteData, VoteDataView, VoteKind, VoteToken};
use vstd::prelude::*;

verus! {

/// One recorded vote: the signer, the signature share, what was signed and
/// the signer's weight.
#[derive(Clone, Debug)]
pub struct SignedVote {
    pub key: EncodedPublicKey,
    pub signature: EncodedSignature,
    pub vote_data: VoteData,
    pub token: VoteToken,
}

/// What a certificate holds for each signer.
pub struct VoteRecordView {
    pub signature: Seq<u8>,
    pub vote_data: VoteDataView,
    pub token: VoteToken,
}

/// The votes that cleared a threshold for one commitment.
#[derive(Clone, Debug)]
pub enum YesNoSignature {
    /// Enough stake voted in favour.
    Yes(Vec<SignedVote>),
    /// Enough stake voted against that no quorum can form.
    No(Vec<SignedVote>),
}

/// A certificate that a quorum accepted a leaf.
#[derive(Clone, Debug)]
pub struct QuorumCertificate {
    pub leaf_commitment: Commitment,
    pub view_number: u64,
    pub signatures: YesNoSignature,
    pub is_genesis: bool,
}

/// A certificate that a quorum holds a block's data.
#[derive(Clone, Debug)]
pub struct DACertificate {
    pub view_number: u64,
    pub block_commitment: Commitment,
    pub signatures: YesNoSignature,
}

} // verus!

verus! {

/// What one call of [`Accumulator::append`] hands back.
#[derive(Debug)]
pub enum Appended<A, C> {
    /// No threshold was cleared: keep accumulating with this state.
    Pending(A),
    /// A threshold was cleared: the state without the commitment's votes, and
    /// the certificate that those votes form.
    Formed(A, C),
    /// The vote's kind cannot be accumulated; the state is unchanged.
    Unsupported(A),
}

impl<A: View, C: View> View for Appended<A, C> {
    type V = Appended<A::V, C::V>;

    open spec fn view(&self) -> Appended<A::V, C::V> {
        match self {
            Appended::Pending(a) => Appended::Pending(a@),
            Appended::Formed(a, c) => Appended::Formed(a@, c@),
            Appended::Unsupported(a) => Appended::Unsupported(a@),
        }
    }
}

/// The aggregation of votes, one at a time.
pub trait Accumulator<T, U>: Sized {
    /// Whether the state can take another vote.
    spec fn well_formed(&self) -> bool;

    /// Accumulates `val` into the state. Once a threshold is reached, the
    /// result carries a `U` (a certificate); otherwise the state continues.
    fn append(self, val: T) -> Appended<Self, U>
        requires
            self.well_formed(),
    ;
}

impl SignedVote {
    /// What a certificate records for this vote's signer.
    pub open spec fn record(&self) -> VoteRecordView {
        VoteRecordView {
            signature: self.signature@,
            vote_data: self.vote_data@,
            token: self.token,
        }
    }

    /// A copy with the same key and record.
    pub fn copied(&self) -> (r: SignedVote)
        ensures
            r.key@ == self.key@,
            r.record() == self.record(),
    {
        SignedVote {
            key: self.key.copied(),
            signature: self.signature.copied(),
            vote_data: self.vote_data.copied(),
            token: self.token,
        }
    }
}

/// The map from signer to record that a list of votes denotes; a later vote
/// of the same signer overrides an earlier one.
pub open spec fn vote_map(s: Seq<SignedVote>) -> Map<Seq<u8>, VoteRecordView>
    decreases s.len(),
{
    if s.len() == 0 {
        Map::empty()
    } else {
        vote_map(s.drop_last()).insert(s.last().key@, s.last().record())
    }
}

/// The mathematical content of a [`YesNoSignature`].
pub enum YesNoSignatureView {
    Yes(Map<Seq<u8>, VoteRecordView>),
    No(Map<Seq<u8>, VoteRecordView>),
}

impl View for YesNoSignature {
    type V = YesNoSignatureView;

    open spec fn view(&self) -> YesNoSignatureView {
        match self {
            YesNoSignature::Yes(v) => YesNoSignatureView::Yes(vote_map(v@)),
            YesNoSignature::No(v) => YesNoSignatureView::No(vote_map(v@)),
        }
    }
}

/// The votes gathered so far for one commitment.
#[derive(Debug)]
pub struct Tally {
    pub commitment: Commitment,
    /// Stake of all votes, saturating at the largest `u64`.
    pub total_stake: u64,
    /// Stake of the votes in favour, saturating at the largest `u64`.
    pub yes_stake: u64,
    /// Stake of the votes against, saturating at the largest `u64`.
    pub no_stake: u64,
    pub total_votes: Vec<SignedVote>,
    pub yes_votes: Vec<SignedVote>,
    pub no_votes: Vec<SignedVote>,
}

/// The mathematical content of a [`Tally`].
pub struct TallyView {
    pub total_stake: u64,
    pub yes_stake: u64,
    pub no_stake: u64,
    pub total_votes: Map<Seq<u8>, VoteRecordView>,
    pub yes_votes: Map<Seq<u8>, VoteRecordView>,
    pub no_votes: Map<Seq<u8>, VoteRecordView>,
}

impl View for Tally {
    type V = TallyView;

    open spec fn view(&self) -> TallyView {
        TallyView {
            total_stake: self.total_stake,
            yes_stake: self.yes_stake,
            no_stake: self.no_stake,
            total_votes: vote_map(self.total_votes@),
            yes_votes: vote_map(self.yes_votes@),
            no_votes: vote_map(self.no_votes@),
        }
    }
}

/// The map from commitment to tally that a list of tallies denotes.
pub open spec fn tally_map(s: Seq<Tally>) -> Map<Seq<u8>, TallyView>
    decreases s.len(),
{
    if s.len() == 0 {
        Map::empty()
    } else {
        tally_map(s.drop_last()).insert(s.last().commitment@, s.last()@)
    }
}

/// No two tallies are for the same commitment.
pub open spec fn unique_commitments(s: Seq<Tally>) -> bool {
    forall|i: int, j: int|
        0 <= i < s.len() && 0 <= j < s.len() && i != j ==> s[i].commitment@ != s[j].commitment@
}

/// Collects signed votes per commitment and turns them into a certificate
/// once enough stake has voted.
#[derive(Debug)]
pub struct VoteAccumulator {
    /// One tally for each commitment that has pending votes.
    pub tallies: Vec<Tally>,
    /// A quorum's worth of stake, generally 2f + 1.
    pub success_threshold: u64,
    /// Enough stake to know that no quorum can form, generally f + 1.
    pub failure_threshold: u64,
}

/// The mathematical content of a [`VoteAccumulator`].
pub struct AccumulatorView {
    pub tallies: Map<Seq<u8>, TallyView>,
    pub success_threshold: u64,
    pub failure_threshold: u64,
}

impl View for VoteAccumulator {
    type V = AccumulatorView;

    open spec fn view(&self) -> AccumulatorView {
        AccumulatorView {
            tallies: tally_map(self.tallies@),
            success_threshold: self.success_threshold,
            failure_threshold: self.failure_threshold,
        }
    }
}

/// Why an accumulator could not be set up.
#[derive(Clone, Copy, Debug, PartialEq, Eq, Structural)]
pub enum ThresholdError {
    /// A threshold is zero.
    Zero,
    /// The failure threshold is not below the success threshold.
    FailureNotBelowSuccess,
}

/// One vote as handed to [`VoteAccumulator::append`]: the commitment voted on,
/// then the signer's key, signature share, vote data and weight.
pub type VoteEntry = (Commitment, (EncodedPublicKey, (EncodedSignature, VoteData, VoteToken)));

/// What the accumulator records of an entry's signer.
pub open spec fn entry_record(val: VoteEntry) -> VoteRecordView {
    VoteRecordView { signature: val.1.1.0@, vote_data: val.1.1.1@, token: val.1.1.2 }
}

/// `a + w`, or the largest `u64` where the sum does not fit.
pub open spec fn sat_add(a: u64, w: u64) -> u64 {
    if a + w > u64::MAX {
        u64::MAX
    } else {
        (a + w) as u64
    }
}

/// Whether a vote of this kind counts towards the success threshold.
pub open spec fn counts_as_yes(k: VoteKind) -> bool {
    k == VoteKind::DA || k == VoteKind::Yes || k == VoteKind::PreCommit || k == VoteKind::Commit
        || k == VoteKind::Finalize
}

/// The tally of a commitment that no vote has been recorded for.
pub open spec fn empty_tally() -> TallyView {
    TallyView {
        total_stake: 0,
        yes_stake: 0,
        no_stake: 0,
        total_votes: Map::empty(),
        yes_votes: Map::empty(),
        no_votes: Map::empty(),
    }
}

/// The tally after recording a yes- or no-vote of `key`.
pub open spec fn record_vote(t: TallyView, key: Seq<u8>, rec: VoteRecordView) -> TallyView {
    let w = rec.token.vote_count;
    if counts_as_yes(rec.vote_data.kind) {
        TallyView {
            total_stake: sat_add(t.total_stake, w),
            yes_stake: sat_add(t.yes_stake, w),
            no_stake: t.no_stake,
            total_votes: t.total_votes.insert(key, rec),
            yes_votes: t.yes_votes.insert(key, rec),
            no_votes: t.no_votes,
        }
    } else {
        TallyView {
            total_stake: sat_add(t.total_stake, w),
            yes_stake: t.yes_stake,
            no_stake: sat_add(t.no_stake, w),
            total_votes: t.total_votes.insert(key, rec),
            yes_votes: t.yes_votes,
            no_votes: t.no_votes.insert(key, rec),
        }
    }
}

/// The current tally of commitment `c`, empty if it has none.
pub open spec fn tally_of(a: AccumulatorView, c: Seq<u8>) -> TallyView {
    if a.tallies.contains_key(c) {
        a.tallies[c]
    } else {
        empty_tally()
    }
}

/// The accumulator with its tallies replaced by `tallies`.
pub open spec fn with_tallies(a: AccumulatorView, tallies: Map<Seq<u8>, TallyView>) -> AccumulatorView {
    AccumulatorView {
        tallies,
        success_threshold: a.success_threshold,
        failure_threshold: a.failure_threshold,
    }
}

/// What appending the vote of `key` with record `rec` for commitment `c`
/// yields.
///
/// A timeout vote is not accumulated. A second vote of a signer already
/// recorded for `c` is ignored, so replaying a vote never adds stake. Otherwise
/// the vote's stake is added to the total and to the yes- or no-stake. Once the
/// total clears the success threshold, a yes-stake that clears it too forms a
/// `Yes` certificate of the yes-votes; else a no-stake that clears the failure
/// threshold forms a `No` certificate of all votes. Either way the commitment's
/// tally is dropped.
pub open spec fn append_spec(a: AccumulatorView, c: Seq<u8>, key: Seq<u8>, rec: VoteRecordView) -> Appended<
    AccumulatorView,
    YesNoSignatureView,
> {
    if rec.vote_data.kind == VoteKind::Timeout {
        Appended::Unsupported(a)
    } else if tally_of(a, c).total_votes.contains_key(key) {
        Appended::Pending(a)
    } else {
        let t = record_vote(tally_of(a, c), key, rec);
        if t.total_stake >= a.success_threshold && t.yes_stake >= a.success_threshold {
            Appended::Formed(with_tallies(a, a.tallies.remove(c)), YesNoSignatureView::Yes(t.yes_votes))
        } else if t.total_stake >= a.success_threshold && t.no_stake >= a.failure_threshold {
            Appended::Formed(with_tallies(a, a.tallies.remove(c)), YesNoSignatureView::No(t.total_votes))
        } else {
            Appended::Pending(with_tallies(a, a.tallies.insert(c, t)))
        }
    }
}

/// The state that an append result carries on.
pub open spec fn state_of<A, C>(r: Appended<A, C>) -> A {
    match r {
        Appended::Pending(a) => a,
        Appended::Formed(a, _) => a,
        Appended::Unsupported(a) => a,
    }
}

proof fn lemma_vote_map_contains(s: Seq<SignedVote>, k: Seq<u8>)
    ensures
        vote_map(s).contains_key(k) <==> exists|i: int| 0 <= i < s.len() && s[i].key@ == k,
    decreases s.len(),
{
    if s.len() > 0 {
        let p = s.drop_last();
        lemma_vote_map_contains(p, k);
        if vote_map(s).contains_key(k) {
            if s.last().key@ != k {
                let i = choose|i: int| 0 <= i < p.len() && p[i].key@ == k;
                assert(s[i] == p[i]);
            } else {
                assert(s[s.len() - 1].key@ == k);
            }
        }
        if exists|i: int| 0 <= i < s.len() && s[i].key@ == k {
            let i = choose|i: int| 0 <= i < s.len() && s[i].key@ == k;
            if i < s.len() - 1 {
                assert(p[i] == s[i]);
            }
        }
    }
}

proof fn lemma_vote_map_push(s: Seq<SignedVote>, v: SignedVote)
    ensures
        vote_map(s.push(v)) == vote_map(s).insert(v.key@, v.record()),
{
    assert(s.push(v).drop_last() =~= s);
}

proof fn lemma_tally_map_contains(s: Seq<Tally>, c: Seq<u8>)
    ensures
        tally_map(s).contains_key(c) <==> exists|i: int| 0 <= i < s.len() && s[i].commitment@ == c,
    decreases s.len(),
{
    if s.len() > 0 {
        let p = s.drop_last();
        lemma_tally_map_contains(p, c);
        if tally_map(s).contains_key(c) {
            if s.last().commitment@ != c {
                let i = choose|i: int| 0 <= i < p.len() && p[i].commitment@ == c;
                assert(s[i] == p[i]);
            } else {
                assert(s[s.len() - 1].commitment@ == c);
            }
        }
        if exists|i: int| 0 <= i < s.len() && s[i].commitment@ == c {
            let i = choose|i: int| 0 <= i < s.len() && s[i].commitment@ == c;
            if i < s.len() - 1 {
                assert(p[i] == s[i]);
            }
        }
    }
}

proof fn lemma_tally_map_push(s: Seq<Tally>, t: Tally)
    ensures
        tally_map(s.push(t)) == tally_map(s).insert(t.commitment@, t@),
{
    assert(s.push(t).drop_last() =~= s);
}

proof fn lemma_tally_map_index(s: Seq<Tally>, i: int)
    requires
        unique_commitments(s),
        0 <= i < s.len(),
    ensures
        tally_map(s).contains_key(s[i].commitment@),
        tally_map(s)[s[i].commitment@] == s[i]@,
    decreases s.len(),
{
    if i < s.len() - 1 {
        let p = s.drop_last();
        assert(p[i] == s[i]);
        assert(s[s.len() - 1].commitment@ != s[i].commitment@);
        lemma_tally_map_index(p, i);
    }
}

proof fn lemma_tally_map_remove(s: Seq<Tally>, i: int)
    requires
        unique_commitments(s),
        0 <= i < s.len(),
    ensures
        tally_map(s.remove(i)) == tally_map(s).remove(s[i].commitment@),
    decreases s.len(),
{
    let p = s.drop_last();
    let c = s[i].commitment@;
    if i == s.len() - 1 {
        assert(s.remove(i) =~= p);
        lemma_tally_map_contains(p, c);
        if tally_map(p).contains_key(c) {
            let j = choose|j: int| 0 <= j < p.len() && p[j].commitment@ == c;
            assert(s[j] == p[j]);
        }
        assert(tally_map(p).insert(c, s[i]@).remove(c) =~= tally_map(p));
    } else {
        let last = s.last();
        assert(p[i] == s[i]);
        lemma_tally_map_remove(p, i);
        assert(s.remove(i) =~= p.remove(i).push(last));
        lemma_tally_map_push(p.remove(i), last);
        assert(s[s.len() - 1].commitment@ != c);
        assert(tally_map(p).remove(c).insert(last.commitment@, last@) =~= tally_map(p).insert(
            last.commitment@,
            last@,
        ).remove(c));
    }
}

fn sat_add_exec(a: u64, w: u64) -> (r: u64)
    ensures
        r == sat_add(a, w),
{
    if a > u64::MAX - w {
        u64::MAX
    } else {
        a + w
    }
}

/// Where the tally of `c` stands, if there is one.
fn find_tally(tallies: &Vec<Tally>, c: &Commitment) -> (r: Option<usize>)
    ensures
        match r {
            Some(i) => i < tallies@.len() && tallies@[i as int].commitment@ == c@,
            None => forall|i: int| 0 <= i < tallies@.len() ==> tallies@[i].commitment@ != c@,
        },
{
    let mut i: usize = 0;
    while i < tallies.len()
        invariant
            i <= tallies@.len(),
            forall|j: int| 0 <= j < i ==> tallies@[j].commitment@ != c@,
        decreases tallies@.len() - i,
    {
        if tallies[i].commitment.same_as(c) {
            return Some(i);
        }
        i = i + 1;
    }
    None
}

/// Whether `key` has a vote among `votes`.
fn has_vote(votes: &Vec<SignedVote>, key: &EncodedPublicKey) -> (r: bool)
    ensures
        r == vote_map(votes@).contains_key(key@),
{
    let mut i: usize = 0;
    while i < votes.len()
        invariant
            i <= votes@.len(),
            forall|j: int| 0 <= j < i ==> votes@[j].key@ != key@,
        decreases votes@.len() - i,
    {
        if votes[i].key.same_as(key) {
            proof {
                lemma_vote_map_contains(votes@, key@);
                assert(votes@[i as int].key@ == key@);
            }
            return true;
        }
        i = i + 1;
    }
    proof {
        lemma_vote_map_contains(votes@, key@);
    }
    false
}

impl VoteAccumulator {
    /// The thresholds are usable and each commitment has at most one tally.
    pub open spec fn wf(&self) -> bool {
        &&& 0 < self.failure_threshold < self.success_threshold
        &&& unique_commitments(self.tallies@)
    }

    /// An accumulator with no votes. Both thresholds must be positive, and the
    /// failure threshold below the success threshold.
    pub fn new(success_threshold: u64, failure_threshold: u64) -> (r: Result<
        VoteAccumulator,
        ThresholdError,
    >)
        ensures
            success_threshold == 0 || failure_threshold == 0 <==> r == Err::<
                VoteAccumulator,
                ThresholdError,
            >(ThresholdError::Zero),
            success_threshold > 0 && failure_threshold > 0 && failure_threshold >= success_threshold
                <==> r == Err::<VoteAccumulator, ThresholdError>(
                ThresholdError::FailureNotBelowSuccess,
            ),
            r matches Ok(a) ==> {
                &&& a.wf()
                &&& a@.tallies == Map::<Seq<u8>, TallyView>::empty()
                &&& a@.success_threshold == success_threshold
                &&& a@.failure_threshold == failure_threshold
            },
    {
        if success_threshold == 0 || failure_threshold == 0 {
            return Err(ThresholdError::Zero);
        }
        if failure_threshold >= success_threshold {
            return Err(ThresholdError::FailureNotBelowSuccess);
        }
        Ok(VoteAccumulator { tallies: Vec::new(), success_threshold, failure_threshold })
    }
}


impl VoteAccumulator {
    /// Takes the tally of `c` out of the accumulator, or an empty one if
    /// there is none.
    fn take_tally(&mut self, c: Commitment) -> (t: Tally)
        requires
            old(self).wf(),
        ensures
            final(self).wf(),
            final(self)@ == with_tallies(old(self)@, old(self)@.tallies.remove(c@)),
            t@ == tally_of(old(self)@, c@),
            t.commitment@ == c@,
    {
        let ghost s0 = self.tallies@;
        match find_tally(&self.tallies, &c) {
            Some(i) => {
                let t = self.tallies.remove(i);
                proof {
                    lemma_tally_map_index(s0, i as int);
                    lemma_tally_map_remove(s0, i as int);
                    assert(unique_commitments(self.tallies@)) by {
                        assert forall|a: int, b: int|
                            0 <= a < self.tallies@.len() && 0 <= b < self.tallies@.len() && a
                                != b implies self.tallies@[a].commitment@
                            != self.tallies@[b].commitment@ by {
                            let a2 = if a < i { a } else { a + 1 };
                            let b2 = if b < i { b } else { b + 1 };
                            assert(self.tallies@[a] == s0[a2]);
                            assert(self.tallies@[b] == s0[b2]);
                        }
                    }
                }
                t
            },
            None => {
                proof {
                    lemma_tally_map_contains(s0, c@);
                    assert(tally_map(s0).remove(c@) =~= tally_map(s0));
                    assert(vote_map(Seq::<SignedVote>::empty()) =~= Map::empty());
                }
                let t = Tally {
                    commitment: c,
                    total_stake: 0,
                    yes_stake: 0,
                    no_stake: 0,
                    total_votes: Vec::new(),
                    yes_votes: Vec::new(),
                    no_votes: Vec::new(),
                };
                proof {
                    assert(t@ == empty_tally());
                }
                t
            },
        }
    }

    /// Puts a tally back, for a commitment that has none.
    fn put_tally(&mut self, t: Tally)
        requires
            old(self).wf(),
            !old(self)@.tallies.contains_key(t.commitment@),
        ensures
            final(self).wf(),
            final(self)@ == with_tallies(old(self)@, old(self)@.tallies.insert(t.commitment@, t@)),
    {
        let ghost s0 = self.tallies@;
        proof {
            lemma_tally_map_contains(s0, t.commitment@);
            lemma_tally_map_push(s0, t);
        }
        self.tallies.push(t);
        proof {
            assert(self.tallies@ == s0.push(t));
            assert forall|a: int, b: int|
                0 <= a < self.tallies@.len() && 0 <= b < self.tallies@.len() && a != b implies self.tallies@[a].commitment@
                != self.tallies@[b].commitment@ by {
                if a < s0.len() && b < s0.len() {
                    assert(self.tallies@[a] == s0[a]);
                    assert(self.tallies@[b] == s0[b]);
                } else if a < s0.len() {
                    assert(self.tallies@[a] == s0[a]);
                } else if b < s0.len() {
                    assert(self.tallies@[b] == s0[b]);
                }
            }
        }
    }

    /// Records one vote for a commitment.
    ///
    /// A timeout vote cannot be accumulated and comes back as `Unsupported`
    /// with the state unchanged. A signer's second vote for the same
    /// commitment is ignored. Otherwise the vote's stake is counted, and once
    /// a threshold is cleared the certificate is handed out and the
    /// commitment's tally is dropped (see [`append_spec`]).
    pub fn append(self, val: VoteEntry) -> (r: Appended<VoteAccumulator, YesNoSignature>)
        requires
            self.wf(),
        ensures
            r@ == append_spec(self@, val.0@, val.1.0@, entry_record(val)),
            state_of(r).wf(),
    {
        let ghost a0 = self@;
        let ghost rec = entry_record(val);
        let (commitment, (key, (signature, vote_data, token))) = val;
        let kind = vote_data.kind();
        if kind == VoteKind::Timeout {
            return Appended::Unsupported(self);
        }
        let mut acc = self;
        let ghost c = commitment@;
        let mut tally = acc.take_tally(commitment);
        if has_vote(&tally.total_votes, &key) {
            proof {
                assert(a0.tallies.contains_key(c)) by {
                    if !a0.tallies.contains_key(c) {
                        assert(tally@.total_votes == Map::<Seq<u8>, VoteRecordView>::empty());
                    }
                }
                assert(a0.tallies.remove(c).insert(c, tally@) =~= a0.tallies);
            }
            acc.put_tally(tally);
            return Appended::Pending(acc);
        }
        let w = token.vote_count;
        let vote = SignedVote { key, signature, vote_data, token };
        assert(vote.record() == rec);
        let copy = vote.copied();
        let ghost t0 = tally@;
        tally.total_stake = sat_add_exec(tally.total_stake, w);
        proof {
            lemma_vote_map_push(tally.total_votes@, copy);
        }
        tally.total_votes.push(copy);
        if kind == VoteKind::No {
            tally.no_stake = sat_add_exec(tally.no_stake, w);
            proof {
                lemma_vote_map_push(tally.no_votes@, vote);
            }
            tally.no_votes.push(vote);
        } else {
            tally.yes_stake = sat_add_exec(tally.yes_stake, w);
            proof {
                lemma_vote_map_push(tally.yes_votes@, vote);
            }
            tally.yes_votes.push(vote);
        }
        assert(tally@ == record_vote(t0, val.1.0@, rec));
        let success = acc.success_threshold;
        if tally.total_stake >= success && tally.yes_stake >= success {
            return Appended::Formed(acc, YesNoSignature::Yes(tally.yes_votes));
        }
        if tally.total_stake >= success && tally.no_stake >= acc.failure_threshold {
            return Appended::Formed(acc, YesNoSignature::No(tally.total_votes));
        }
        proof {
            assert(a0.tallies.remove(c).insert(c, tally@) =~= a0.tallies.insert(c, tally@));
        }
        acc.put_tally(tally);
        Appended::Pending(acc)
    }
}

impl Accumulator<VoteEntry, YesNoSignature> for VoteAccumulator {
    open spec fn well_formed(&self) -> bool {
        self.wf()
    }

    fn append(self, val: VoteEntry) -> Appended<VoteAccumulator, YesNoSignature> {
        VoteAccumulator::append(self, val)
    }
}


/// Whether a tally has cleared a threshold: its total stake reaches the
/// success threshold, and so does its yes-stake, or its no-stake reaches the
/// failure threshold.
pub open spec fn cleared(a: AccumulatorView, t: TallyView) -> bool {
    t.total_stake >= a.success_threshold && (t.yes_stake >= a.success_threshold || t.no_stake
        >= a.failure_threshold)
}

/// No pending tally has cleared a threshold.
pub open spec fn all_below(a: AccumulatorView) -> bool {
    forall|c: Seq<u8>| #[trigger] a.tallies.contains_key(c) ==> !cleared(a, a.tallies[c])
}

/// An accumulator with no tallies has no tally that cleared a threshold.
pub proof fn empty_is_below(a: AccumulatorView)
    requires
        a.tallies == Map::<Seq<u8>, TallyView>::empty(),
    ensures
        all_below(a),
{
}

proof fn lemma_sat_add_reaches(x: u64, w: u64, th: u64)
    ensures
        sat_add(x, w) >= th <==> x + w >= th,
{
}

/// A certificate forms on exactly the call whose vote brings its
/// commitment's stake to a threshold, and never earlier: from a state where
/// no tally has cleared a threshold, a vote forms a certificate if and only if
/// the sums of stake after it clear one (a `Yes` certificate if and only if
/// the total and the yes-stake reach the success threshold), and every tally
/// that stays pending is still below the thresholds.
pub proof fn threshold_exactness(a: AccumulatorView, c: Seq<u8>, key: Seq<u8>, rec: VoteRecordView)
    requires
        all_below(a),
        rec.vote_data.kind != VoteKind::Timeout,
        !tally_of(a, c).total_votes.contains_key(key),
    ensures
        ({
            let t = tally_of(a, c);
            let w = rec.token.vote_count;
            let yes = if counts_as_yes(rec.vote_data.kind) {
                t.yes_stake + w
            } else {
                t.yes_stake as int
            };
            let no = if counts_as_yes(rec.vote_data.kind) {
                t.no_stake as int
            } else {
                t.no_stake + w
            };
            let total = t.total_stake + w;
            let r = append_spec(a, c, key, rec);
            &&& r is Formed <==> total >= a.success_threshold && (yes >= a.success_threshold || no
                >= a.failure_threshold)
            &&& (r matches Appended::Formed(_, YesNoSignatureView::Yes(_))) <==> total
                >= a.success_threshold && yes >= a.success_threshold
        }),
        all_below(state_of(append_spec(a, c, key, rec))),
{
    let t = tally_of(a, c);
    let w = rec.token.vote_count;
    lemma_sat_add_reaches(t.total_stake, w, a.success_threshold);
    lemma_sat_add_reaches(t.yes_stake, w, a.success_threshold);
    lemma_sat_add_reaches(t.no_stake, w, a.failure_threshold);
    let r = append_spec(a, c, key, rec);
    let b = state_of(r);
    assert forall|c2: Seq<u8>| #[trigger] b.tallies.contains_key(c2) implies !cleared(
        b,
        b.tallies[c2],
    ) by {
        if c2 != c {
            assert(a.tallies.contains_key(c2));
        }
    }
}

/// Once a vote forms a certificate for a commitment, the accumulator keeps no
/// state for it: the next vote for that commitment starts from an empty
/// tally, and the tallies of other commitments are kept.
pub proof fn certificate_drops_tally(a: AccumulatorView, c: Seq<u8>, key: Seq<u8>, rec: VoteRecordView)
    ensures
        append_spec(a, c, key, rec) matches Appended::Formed(b, _) ==> {
            &&& !b.tallies.contains_key(c)
            &&& tally_of(b, c) == empty_tally()
            &&& b.tallies == a.tallies.remove(c)
        },
{
}

/// A vote for one commitment never changes the tally of another, nor the
/// thresholds.
pub proof fn commitment_isolation(
    a: AccumulatorView,
    c: Seq<u8>,
    key: Seq<u8>,
    rec: VoteRecordView,
    other: Seq<u8>,
)
    requires
        other != c,
    ensures
        tally_of(state_of(append_spec(a, c, key, rec)), other) == tally_of(a, other),
        state_of(append_spec(a, c, key, rec)).tallies.contains_key(other) == a.tallies.contains_key(
            other,
        ),
        state_of(append_spec(a, c, key, rec)).success_threshold == a.success_threshold,
        state_of(append_spec(a, c, key, rec)).failure_threshold == a.failure_threshold,
{
}

proof fn lemma_sat_add_commutes(x: u64, w1: u64, w2: u64)
    ensures
        sat_add(sat_add(x, w1), w2) == sat_add(sat_add(x, w2), w1),
{
}

/// Two votes from different signers, or for different commitments, that both
/// stay below the thresholds lead to the same state in either order.
pub proof fn append_order_insensitive(
    a: AccumulatorView,
    c1: Seq<u8>,
    k1: Seq<u8>,
    r1: VoteRecordView,
    c2: Seq<u8>,
    k2: Seq<u8>,
    r2: VoteRecordView,
)
    requires
        c1 != c2 || k1 != k2,
        append_spec(a, c1, k1, r1) is Pending,
        append_spec(state_of(append_spec(a, c1, k1, r1)), c2, k2, r2) is Pending,
    ensures
        append_spec(a, c2, k2, r2) is Pending,
        append_spec(state_of(append_spec(a, c2, k2, r2)), c1, k1, r1) is Pending,
        state_of(append_spec(state_of(append_spec(a, c2, k2, r2)), c1, k1, r1)) == state_of(
            append_spec(state_of(append_spec(a, c1, k1, r1)), c2, k2, r2),
        ),
{
    let a1 = state_of(append_spec(a, c1, k1, r1));
    let a2 = state_of(append_spec(a, c2, k2, r2));
    let a12 = state_of(append_spec(a1, c2, k2, r2));
    let a21 = state_of(append_spec(a2, c1, k1, r1));
    let t1 = tally_of(a, c1);
    let t2 = tally_of(a, c2);
    lemma_sat_add_commutes(t1.total_stake, r1.token.vote_count, r2.token.vote_count);
    lemma_sat_add_commutes(t1.yes_stake, r1.token.vote_count, r2.token.vote_count);
    lemma_sat_add_commutes(t1.no_stake, r1.token.vote_count, r2.token.vote_count);
    if c1 == c2 {
        if !t1.total_votes.contains_key(k1) && !t1.total_votes.contains_key(k2) {
            let x = record_vote(record_vote(t1, k1, r1), k2, r2);
            let y = record_vote(record_vote(t1, k2, r2), k1, r1);
            assert(x.total_votes =~= y.total_votes);
            assert(x.yes_votes =~= y.yes_votes);
            assert(x.no_votes =~= y.no_votes);
            assert(x == y);
        }
        assert(a21.tallies =~= a12.tallies);
    } else {
        assert(a21.tallies =~= a12.tallies);
    }
}


/// The stake of a tally is accounted once: yes- and no-stake each stay within
/// the total, and add up to it unless the total has saturated.
pub open spec fn balanced(t: TallyView) -> bool {
    &&& t.yes_stake <= t.total_stake
    &&& t.no_stake <= t.total_stake
    &&& t.yes_stake + t.no_stake == t.total_stake || t.total_stake == u64::MAX
}

/// Every tally of the accumulator is balanced.
pub open spec fn all_balanced(a: AccumulatorView) -> bool {
    forall|c: Seq<u8>| #[trigger] a.tallies.contains_key(c) ==> balanced(a.tallies[c])
}

/// Each vote counts in the total and in exactly one of the yes- and
/// no-stakes, so appending keeps every tally balanced.
pub proof fn stake_stays_balanced(a: AccumulatorView, c: Seq<u8>, key: Seq<u8>, rec: VoteRecordView)
    requires
        all_balanced(a),
    ensures
        all_balanced(state_of(append_spec(a, c, key, rec))),
{
    let b = state_of(append_spec(a, c, key, rec));
    assert(balanced(tally_of(a, c)));
    assert forall|c2: Seq<u8>| #[trigger] b.tallies.contains_key(c2) implies balanced(
        b.tallies[c2],
    ) by {
        if c2 != c {
            assert(a.tallies.contains_key(c2));
        }
    }
}


/// One vote as the model sees it: the commitment voted on, the signer and
/// the record kept of the vote.
pub struct Ballot {
    pub commitment: Seq<u8>,
    pub key: Seq<u8>,
    pub record: VoteRecordView,
}

/// The state after appending `votes` in order, if each of them leaves the
/// accumulator pending.
pub open spec fn append_each(a: AccumulatorView, votes: Seq<Ballot>) -> Option<AccumulatorView>
    decreases votes.len(),
{
    if votes.len() == 0 {
        Some(a)
    } else {
        match append_each(a, votes.drop_last()) {
            Some(b) => match append_spec(b, votes.last().commitment, votes.last().key, votes.last().record) {
                Appended::Pending(x) => Some(x),
                _ => None,
            },
            None => None,
        }
    }
}

/// No signer has two votes for one commitment among `votes`.
pub open spec fn distinct_signers(votes: Seq<Ballot>) -> bool {
    forall|i: int, j: int|
        0 <= i < votes.len() && 0 <= j < votes.len() && i != j ==> votes[i].commitment
            != votes[j].commitment || votes[i].key != votes[j].key
}

proof fn lemma_append_each_concat(a: AccumulatorView, p: Seq<Ballot>, q: Seq<Ballot>)
    ensures
        append_each(a, p + q) == match append_each(a, p) {
            Some(b) => append_each(b, q),
            None => None,
        },
    decreases q.len(),
{
    if q.len() == 0 {
        assert(p + q =~= p);
    } else {
        lemma_append_each_concat(a, p, q.drop_last());
        assert((p + q).drop_last() =~= p + q.drop_last());
        assert((p + q).last() == q.last());
    }
}

proof fn lemma_append_each_push(a: AccumulatorView, s: Seq<Ballot>, v: Ballot)
    ensures
        append_each(a, s.push(v)) == match append_each(a, s) {
            Some(b) => match append_spec(b, v.commitment, v.key, v.record) {
                Appended::Pending(x) => Some(x),
                _ => None,
            },
            None => None,
        },
{
    assert(s.push(v).drop_last() =~= s);
}

proof fn lemma_swap_adjacent(a: AccumulatorView, s: Seq<Ballot>, i: int)
    requires
        0 <= i < s.len() - 1,
        s[i].commitment != s[i + 1].commitment || s[i].key != s[i + 1].key,
        append_each(a, s) is Some,
    ensures
        append_each(a, s.update(i, s[i + 1]).update(i + 1, s[i])) == append_each(a, s),
{
    let x = s[i];
    let y = s[i + 1];
    let p = s.subrange(0, i);
    let q = s.subrange(i + 2, s.len() as int);
    let t = s.update(i, y).update(i + 1, x);
    assert(s =~= (p + seq![x, y]) + q);
    assert(t =~= (p + seq![y, x]) + q);
    lemma_append_each_concat(a, p + seq![x, y], q);
    lemma_append_each_concat(a, p + seq![y, x], q);
    lemma_append_each_concat(a, p, seq![x, y]);
    lemma_append_each_concat(a, p, seq![y, x]);
    let b = append_each(a, p).unwrap();
    let e = Seq::<Ballot>::empty();
    assert(seq![x, y] =~= e.push(x).push(y));
    assert(seq![y, x] =~= e.push(y).push(x));
    lemma_append_each_push(b, e, x);
    lemma_append_each_push(b, e, y);
    lemma_append_each_push(b, e.push(x), y);
    lemma_append_each_push(b, e.push(y), x);
    append_order_insensitive(b, x.commitment, x.key, x.record, y.commitment, y.key, y.record);
}

proof fn lemma_move_to_end(a: AccumulatorView, s: Seq<Ballot>, i: int)
    requires
        0 <= i < s.len(),
        distinct_signers(s),
        append_each(a, s) is Some,
    ensures
        append_each(a, s.remove(i).push(s[i])) == append_each(a, s),
    decreases s.len() - i,
{
    if i == s.len() - 1 {
        assert(s.remove(i).push(s[i]) =~= s);
    } else {
        let t = s.update(i, s[i + 1]).update(i + 1, s[i]);
        lemma_swap_adjacent(a, s, i);
        assert forall|j: int, k: int|
            0 <= j < t.len() && 0 <= k < t.len() && j != k implies t[j].commitment
            != t[k].commitment || t[j].key != t[k].key by {
            let j2 = if j == i {
                i + 1
            } else if j == i + 1 {
                i
            } else {
                j
            };
            let k2 = if k == i {
                i + 1
            } else if k == i + 1 {
                i
            } else {
                k
            };
            assert(t[j] == s[j2]);
            assert(t[k] == s[k2]);
        }
        lemma_move_to_end(a, t, i + 1);
        assert(t.remove(i + 1).push(t[i + 1]) =~= s.remove(i).push(s[i]));
    }
}

/// Appending the same votes in any order, each from a different signer for
/// its commitment and none clearing a threshold, leads to the same state:
/// the same stakes and the same recorded votes.
pub proof fn append_order_irrelevant(a: AccumulatorView, votes1: Seq<Ballot>, votes2: Seq<Ballot>)
    requires
        votes1.to_multiset() == votes2.to_multiset(),
        distinct_signers(votes1),
        append_each(a, votes1) is Some,
    ensures
        append_each(a, votes2) == append_each(a, votes1),
    decreases votes2.len(),
{
    vstd::seq_lib::to_multiset_len(votes1);
    vstd::seq_lib::to_multiset_len(votes2);
    if votes2.len() == 0 {
        assert(votes1.len() == 0);
        assert(votes1 =~= votes2);
    } else {
        let v = votes2.last();
        let rest2 = votes2.drop_last();
        assert(votes2.contains(v)) by {
            assert(votes2[votes2.len() - 1] == v);
        }
        vstd::seq_lib::to_multiset_contains(votes2, v);
        vstd::seq_lib::to_multiset_contains(votes1, v);
        let i = choose|i: int| 0 <= i < votes1.len() && votes1[i] == v;
        lemma_move_to_end(a, votes1, i);
        let rest1 = votes1.remove(i);
        lemma_append_each_push(a, rest1, v);
        vstd::seq_lib::to_multiset_remove(votes1, i);
        assert(votes2 =~= rest2.push(v));
        vstd::seq_lib::to_multiset_build(rest2, v);
        assert(rest2.to_multiset() =~= votes2.to_multiset().remove(v));
        assert forall|j: int, k: int|
            0 <= j < rest1.len() && 0 <= k < rest1.len() && j != k implies rest1[j].commitment
            != rest1[k].commitment || rest1[j].key != rest1[k].key by {
            let j2 = if j < i {
                j
            } else {
                j + 1
            };
            let k2 = if k < i {
                k
            } else {
                k + 1
            };
            assert(rest1[j] == votes1[j2]);
            assert(rest1[k] == votes1[k2]);
        }
        append_order_irrelevant(a, rest1, rest2);
        lemma_append_each_push(a, rest2, v);
    }
}


/// The sum of the weights of `votes`.
pub open spec fn stake_sum(votes: Seq<Ballot>) -> int
    decreases votes.len(),
{
    if votes.len() == 0 {
        0
    } else {
        stake_sum(votes.drop_last()) + votes.last().record.token.vote_count
    }
}

/// Votes in favour of commitment `c`, each from a different signer.
pub open spec fn yes_votes_for(c: Seq<u8>, votes: Seq<Ballot>) -> bool {
    &&& forall|i: int|
        0 <= i < votes.len() ==> (#[trigger] votes[i]).commitment == c && counts_as_yes(
            votes[i].record.vote_data.kind,
        )
    &&& forall|i: int, j: int|
        0 <= i < votes.len() && 0 <= j < votes.len() && i != j ==> votes[i].key != votes[j].key
}

/// Starting with no tally for `c`, votes in favour of `c` keep accumulating
/// exactly as long as their summed weight stays below the success threshold,
/// and the tally then holds that sum as its total and yes-stake.
pub proof fn yes_votes_pending_below_threshold(a: AccumulatorView, c: Seq<u8>, votes: Seq<Ballot>)
    requires
        0 < a.failure_threshold < a.success_threshold,
        !a.tallies.contains_key(c),
        yes_votes_for(c, votes),
    ensures
        append_each(a, votes) is Some <==> stake_sum(votes) < a.success_threshold,
        append_each(a, votes) matches Some(b) ==> {
            &&& b.success_threshold == a.success_threshold
            &&& b.failure_threshold == a.failure_threshold
            &&& tally_of(b, c).total_stake == stake_sum(votes)
            &&& tally_of(b, c).yes_stake == stake_sum(votes)
            &&& tally_of(b, c).no_stake == 0
            &&& forall|k: Seq<u8>| #[trigger]
                tally_of(b, c).total_votes.contains_key(k) ==> exists|i: int|
                    0 <= i < votes.len() && votes[i].key == k
        },
    decreases votes.len(),
{
    if votes.len() > 0 {
        let p = votes.drop_last();
        let v = votes.last();
        assert(yes_votes_for(c, p)) by {
            assert forall|i: int| 0 <= i < p.len() implies (#[trigger] p[i]).commitment == c
                && counts_as_yes(p[i].record.vote_data.kind) by {
                assert(p[i] == votes[i]);
            }
            assert forall|i: int, j: int|
                0 <= i < p.len() && 0 <= j < p.len() && i != j implies p[i].key != p[j].key by {
                assert(p[i] == votes[i]);
                assert(p[j] == votes[j]);
            }
        }
        yes_votes_pending_below_threshold(a, c, p);
        assert(votes[votes.len() - 1] == v);
        assert(v.commitment == c && counts_as_yes(v.record.vote_data.kind));
        assert(stake_sum(votes) == stake_sum(p) + v.record.token.vote_count);
        if let Some(b) = append_each(a, p) {
            let t = tally_of(b, c);
            lemma_sat_add_reaches(t.total_stake, v.record.token.vote_count, a.success_threshold);
            assert(!t.total_votes.contains_key(v.key)) by {
                if t.total_votes.contains_key(v.key) {
                    let i = choose|i: int| 0 <= i < p.len() && p[i].key == v.key;
                    assert(p[i] == votes[i]);
                }
            }
            let t2 = record_vote(t, v.key, v.record);
            if let Some(b2) = append_each(a, votes) {
                assert forall|k: Seq<u8>| #[trigger]
                    tally_of(b2, c).total_votes.contains_key(k) implies exists|i: int|
                    0 <= i < votes.len() && votes[i].key == k by {
                    if k != v.key {
                        let i = choose|i: int| 0 <= i < p.len() && p[i].key == k;
                        assert(p[i] == votes[i]);
                    }
                }
            }
        }
    }
}

/// The certificate forms on the very vote that brings the summed weight of
/// the votes in favour of `c` to the success threshold.
pub proof fn yes_certificate_on_reaching_vote(
    a: AccumulatorView,
    c: Seq<u8>,
    votes: Seq<Ballot>,
    v: Ballot,
)
    requires
        0 < a.failure_threshold < a.success_threshold,
        !a.tallies.contains_key(c),
        yes_votes_for(c, votes.push(v)),
        stake_sum(votes) < a.success_threshold,
        stake_sum(votes.push(v)) >= a.success_threshold,
    ensures
        append_each(a, votes) is Some,
        append_spec(append_each(a, votes).unwrap(), c, v.key, v.record) matches Appended::Formed(
            _,
            YesNoSignatureView::Yes(_),
        ),
{
    let s = votes.push(v);
    assert(s.drop_last() =~= votes);
    assert(s[votes.len() as int] == v);
    assert(yes_votes_for(c, votes)) by {
        assert forall|i: int| 0 <= i < votes.len() implies (#[trigger] votes[i]).commitment == c
            && counts_as_yes(votes[i].record.vote_data.kind) by {
            assert(votes[i] == s[i]);
        }
        assert forall|i: int, j: int|
            0 <= i < votes.len() && 0 <= j < votes.len() && i != j implies votes[i].key
            != votes[j].key by {
            assert(votes[i] == s[i]);
            assert(votes[j] == s[j]);
        }
    }
    yes_votes_pending_below_threshold(a, c, votes);
    assert(v.commitment == c && counts_as_yes(v.record.vote_data.kind));
    let b = append_each(a, votes).unwrap();
    lemma_sat_add_reaches(tally_of(b, c).total_stake, v.record.token.vote_count, a.success_threshold);
    assert(!tally_of(b, c).total_votes.contains_key(v.key)) by {
        if tally_of(b, c).total_votes.contains_key(v.key) {
            let i = choose|i: int| 0 <= i < votes.len() && votes[i].key == v.key;
            assert(votes[i] == s[i]);
        }
    }
}

} // verus!

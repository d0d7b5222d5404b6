use hotshot_vote::accumulator::{Appended, ThresholdError, VoteAccumulator, VoteEntry, YesNoSignature};
use hotshot_vote::commitment::{Commitment, EncodedPublicKey, EncodedSignature};
use hotshot_vote::vote::{VoteData, VoteToken, ViewSyncVoteData};

fn commitment(tag: u8) -> Commitment {
    Commitment { digest: vec![tag; 32] }
}

fn entry(c: u8, key: u8, data: VoteData, weight: u64) -> VoteEntry {
    (
        commitment(c),
        (
            EncodedPublicKey(vec![key, key]),
            (EncodedSignature(vec![key, 0xee]), data, VoteToken { vote_count: weight }),
        ),
    )
}

fn yes(c: u8, key: u8, weight: u64) -> VoteEntry {
    entry(c, key, VoteData::Yes(commitment(c)), weight)
}

fn no(c: u8, key: u8, weight: u64) -> VoteEntry {
    entry(c, key, VoteData::No(commitment(c)), weight)
}

fn pending(r: Appended<VoteAccumulator, YesNoSignature>) -> VoteAccumulator {
    match r {
        Appended::Pending(a) => a,
        other => panic!("expected pending, got {:?}", other),
    }
}

fn keys(votes: &[hotshot_vote::accumulator::SignedVote]) -> Vec<Vec<u8>> {
    let mut k: Vec<Vec<u8>> = votes.iter().map(|v| v.key.0.clone()).collect();
    k.sort();
    k
}

#[test]
fn three_yes_votes_form_a_yes_certificate() {
    let acc = VoteAccumulator::new(3, 2).unwrap();
    let acc = pending(acc.append(yes(1, 1, 1)));
    let acc = pending(acc.append(yes(1, 2, 1)));
    match acc.append(yes(1, 3, 1)) {
        Appended::Formed(rest, YesNoSignature::Yes(votes)) => {
            assert_eq!(keys(&votes), vec![vec![1, 1], vec![2, 2], vec![3, 3]]);
            for v in &votes {
                assert_eq!(v.signature.0, vec![v.key.0[0], 0xee]);
                assert_eq!(v.token.vote_count, 1);
                assert!(matches!(&v.vote_data, VoteData::Yes(c) if c.digest == vec![1u8; 32]));
            }
            assert!(rest.tallies.is_empty());
            let rest = pending(rest.append(yes(1, 4, 1)));
            assert_eq!(rest.tallies.len(), 1);
            assert_eq!(rest.tallies[0].total_stake, 1);
            assert_eq!(rest.tallies[0].yes_stake, 1);
            assert_eq!(rest.tallies[0].total_votes.len(), 1);
        }
        other => panic!("expected a yes certificate, got {:?}", other),
    }
}

#[test]
fn failure_threshold_waits_for_success_threshold_total() {
    let acc = VoteAccumulator::new(3, 2).unwrap();
    let acc = pending(acc.append(no(1, 1, 1)));
    let acc = pending(acc.append(no(1, 2, 1)));
    assert_eq!(acc.tallies[0].total_stake, 2);
    assert_eq!(acc.tallies[0].no_stake, 2);
    match acc.append(yes(1, 3, 1)) {
        Appended::Formed(rest, YesNoSignature::No(votes)) => {
            assert_eq!(keys(&votes), vec![vec![1, 1], vec![2, 2], vec![3, 3]]);
            assert!(rest.tallies.is_empty());
        }
        other => panic!("expected a no certificate, got {:?}", other),
    }
}

#[test]
fn certificate_forms_on_the_call_that_reaches_the_threshold() {
    let acc = VoteAccumulator::new(10, 4).unwrap();
    let acc = pending(acc.append(yes(7, 1, 4)));
    let acc = pending(acc.append(yes(7, 2, 5)));
    assert_eq!(acc.tallies[0].yes_stake, 9);
    assert!(matches!(acc.append(yes(7, 3, 1)), Appended::Formed(_, YesNoSignature::Yes(_))));
}

#[test]
fn votes_for_different_commitments_do_not_mix() {
    let acc = VoteAccumulator::new(3, 2).unwrap();
    let acc = pending(acc.append(yes(1, 1, 2)));
    let acc = pending(acc.append(yes(2, 2, 2)));
    assert_eq!(acc.tallies.len(), 2);
    match acc.append(yes(2, 3, 1)) {
        Appended::Formed(rest, YesNoSignature::Yes(votes)) => {
            assert_eq!(keys(&votes), vec![vec![2, 2], vec![3, 3]]);
            assert_eq!(rest.tallies.len(), 1);
            assert_eq!(rest.tallies[0].commitment.digest, vec![1u8; 32]);
            assert_eq!(rest.tallies[0].yes_stake, 2);
        }
        other => panic!("expected a yes certificate, got {:?}", other),
    }
}

#[test]
fn repeated_vote_adds_no_stake() {
    let acc = VoteAccumulator::new(3, 2).unwrap();
    let acc = pending(acc.append(yes(1, 1, 2)));
    let acc = pending(acc.append(yes(1, 1, 2)));
    assert_eq!(acc.tallies[0].total_stake, 2);
    assert_eq!(acc.tallies[0].yes_stake, 2);
    assert_eq!(acc.tallies[0].total_votes.len(), 1);
}

#[test]
fn timeout_vote_is_unsupported() {
    let acc = VoteAccumulator::new(3, 2).unwrap();
    let acc = pending(acc.append(yes(1, 1, 1)));
    match acc.append(entry(1, 2, VoteData::Timeout(commitment(1)), 5)) {
        Appended::Unsupported(a) => {
            assert_eq!(a.tallies.len(), 1);
            assert_eq!(a.tallies[0].total_stake, 1);
        }
        other => panic!("expected unsupported, got {:?}", other),
    }
}

#[test]
fn da_and_view_sync_votes_count_as_yes() {
    let acc = VoteAccumulator::new(2, 1).unwrap();
    let acc = pending(acc.append(entry(4, 1, VoteData::DA(commitment(4)), 1)));
    let vs = VoteData::ViewSync(ViewSyncVoteData::Commit(commitment(4)));
    assert!(matches!(acc.append(entry(4, 2, vs, 1)), Appended::Formed(_, YesNoSignature::Yes(_))));
}

#[test]
fn order_of_votes_below_threshold_does_not_matter() {
    let a = VoteAccumulator::new(10, 5).unwrap();
    let a = pending(a.append(yes(1, 1, 2)));
    let a = pending(a.append(no(1, 2, 3)));
    let b = VoteAccumulator::new(10, 5).unwrap();
    let b = pending(b.append(no(1, 2, 3)));
    let b = pending(b.append(yes(1, 1, 2)));
    let (ta, tb) = (&a.tallies[0], &b.tallies[0]);
    assert_eq!((ta.total_stake, ta.yes_stake, ta.no_stake), (5, 2, 3));
    assert_eq!((tb.total_stake, tb.yes_stake, tb.no_stake), (5, 2, 3));
    assert_eq!(keys(&ta.total_votes), keys(&tb.total_votes));
}

#[test]
fn stake_saturates_instead_of_overflowing() {
    let acc = VoteAccumulator::new(u64::MAX, 1).unwrap();
    let acc = pending(acc.append(no(1, 1, u64::MAX - 1)));
    match acc.append(no(1, 2, 5)) {
        Appended::Formed(_, YesNoSignature::No(votes)) => assert_eq!(votes.len(), 2),
        other => panic!("expected a no certificate, got {:?}", other),
    }
}

#[test]
fn thresholds_are_checked_at_construction() {
    assert_eq!(VoteAccumulator::new(0, 1).unwrap_err(), ThresholdError::Zero);
    assert_eq!(VoteAccumulator::new(3, 0).unwrap_err(), ThresholdError::Zero);
    assert_eq!(VoteAccumulator::new(3, 3).unwrap_err(), ThresholdError::FailureNotBelowSuccess);
    assert_eq!(VoteAccumulator::new(2, 5).unwrap_err(), ThresholdError::FailureNotBelowSuccess);
    let a = VoteAccumulator::new(3, 2).unwrap();
    assert_eq!((a.success_threshold, a.failure_threshold), (3, 2));
    assert!(a.tallies.is_empty());
}

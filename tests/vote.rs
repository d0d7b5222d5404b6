use hotshot_vote::accumulator::{QuorumCertificate, YesNoSignature};
use hotshot_vote::commitment::{Commitment, EncodedPublicKey, EncodedSignature};
use hotshot_vote::vote::{
    DAVote, QuorumVote, TimeoutVote, ViewSyncData, ViewSyncVote, ViewSyncVoteData,
    ViewSyncVoteInternal, VoteData, VoteKind, VoteToken, VoteType, YesOrNoVote,
};

fn c(tag: u8) -> Commitment {
    Commitment { digest: vec![tag; 4] }
}

fn signed(sig: u8) -> (EncodedPublicKey, EncodedSignature) {
    (EncodedPublicKey(vec![1, 2]), EncodedSignature(vec![sig, sig]))
}

fn yes_or_no(view: u64, sig: u8) -> YesOrNoVote {
    YesOrNoVote {
        justify_qc_commitment: c(0),
        signature: signed(sig),
        leaf_commitment: c(1),
        current_view: view,
        vote_token: VoteToken { vote_count: 1 },
        vote_data: VoteData::Yes(c(1)),
    }
}

fn internal(round: u64) -> ViewSyncVoteInternal {
    ViewSyncVoteInternal {
        relay_pub_key: EncodedPublicKey(vec![9]),
        relay: 3,
        round,
        signature: signed(5),
        vote_token: VoteToken { vote_count: 1 },
        vote_data: VoteData::ViewSync(ViewSyncVoteData::PreCommit(c(2))),
    }
}

#[test]
fn quorum_vote_view_and_signature() {
    let y = QuorumVote::Yes(yes_or_no(12, 7));
    assert_eq!(y.current_view(), 12);
    assert_eq!(y.signature().0, vec![7, 7]);
    let n = QuorumVote::No(yes_or_no(13, 8));
    assert_eq!(n.current_view(), 13);
    assert_eq!(n.signature().0, vec![8, 8]);
    let t = QuorumVote::Timeout(TimeoutVote {
        justify_qc: QuorumCertificate {
            leaf_commitment: c(3),
            view_number: 13,
            signatures: YesNoSignature::Yes(Vec::new()),
            is_genesis: false,
        },
        signature: signed(4),
        current_view: 14,
        vote_token: VoteToken { vote_count: 1 },
        vote_data: VoteData::Timeout(c(3)),
    });
    assert_eq!(t.current_view(), 14);
    assert_eq!(t.signature().0, vec![4, 4]);
}

#[test]
fn da_vote_view() {
    let v = DAVote {
        justify_qc_commitment: c(0),
        signature: signed(1),
        block_commitment: c(5),
        current_view: 21,
        vote_token: VoteToken { vote_count: 2 },
        vote_data: VoteData::DA(c(5)),
    };
    assert_eq!(v.current_view(), 21);
}

#[test]
fn view_sync_vote_view_is_its_round() {
    assert_eq!(ViewSyncVote::PreCommit(internal(30)).current_view(), 30);
    assert_eq!(ViewSyncVote::Commit(internal(31)).current_view(), 31);
    assert_eq!(ViewSyncVote::Finalize(internal(32)).current_view(), 32);
}

#[test]
fn vote_data_kinds() {
    assert_eq!(VoteData::No(c(1)).kind(), VoteKind::No);
    assert_eq!(VoteData::DA(c(1)).kind(), VoteKind::DA);
    assert_eq!(
        VoteData::ViewSync(ViewSyncVoteData::Finalize(c(1))).kind(),
        VoteKind::Finalize
    );
}

#[test]
fn view_sync_commitment_input_bytes() {
    let d = ViewSyncData { relay: EncodedPublicKey(vec![0xaa, 0xbb, 0xcc]), round: 0x0102 };
    assert_eq!(
        d.commitment_input(),
        vec![3, 0, 0, 0, 0, 0, 0, 0, 0xaa, 0xbb, 0xcc, 0x02, 0x01, 0, 0, 0, 0, 0, 0]
    );
    let e = ViewSyncData { relay: EncodedPublicKey(Vec::new()), round: u64::MAX };
    assert_eq!(e.commitment_input(), vec![0, 0, 0, 0, 0, 0, 0, 0, 255, 255, 255, 255, 255, 255, 255, 255]);
}

#[test]
fn byte_comparisons() {
    assert!(c(1).same_as(&c(1)));
    assert!(!c(1).same_as(&c(2)));
    assert!(!EncodedPublicKey(vec![1]).same_as(&EncodedPublicKey(vec![1, 1])));
    assert_eq!(c(6).copied().digest, vec![6; 4]);
}

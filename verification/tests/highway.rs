//! Tests of the Highway protocol state.

use casper_node::collections::MapKey;
use casper_node::consensus::highway::context::{Context, ContextTypes};
use casper_node::consensus::highway::evidence::{Evidence, EvidenceError};
use casper_node::consensus::highway::lnc::{find_forks, LncForks};
use casper_node::consensus::highway::panorama::{Observation, Panorama};
use casper_node::consensus::highway::state::{Params, RoundInfo, VoteError};
use casper_node::consensus::highway::unit::{round_id, round_len};
use casper_node::consensus::highway::validators::{ValidatorIndex, Validators};
use casper_node::consensus::highway::vertex::{
    Dependency, Endorsements, SignedWireVote, Vertex, WireVote, WireVoteModel,
};
use casper_node::consensus::highway::{
    Action, Effect, EndorsementError, GetDepOutcome, Highway, PreValidatedVertex, ValidVertex,
    VertexError,
};
use casper_node::timestamp::{TimeDiff, Timestamp};
use std::collections::hash_map::DefaultHasher;
use std::hash::{Hash, Hasher};
use std::rc::Rc;

struct TestContext;

impl ContextTypes for TestContext {
    type ConsensusValue = u32;
    type ValidatorId = u32;
    type Signature = u64;
    type Hash = u64;
    type InstanceId = u64;
}

impl Context for TestContext {
    fn vote_hash(_vote: WireVoteModel<TestContext>) -> u64 {
        unreachable!()
    }

    fn endorsement_hash(_vote: u64, _creator: ValidatorIndex) -> u64 {
        unreachable!()
    }

    fn signed_by(_hash: u64, _id: u32, _signature: u64) -> bool {
        unreachable!()
    }

    fn hash_vote(vote: &WireVote<TestContext>) -> u64 {
        let mut hasher = DefaultHasher::new();
        for i in 0..vote.panorama.len() {
            let observation = vote.panorama.get(ValidatorIndex(i as u32));
            observation.correct().hash(&mut hasher);
            observation.is_faulty().hash(&mut hasher);
        }
        vote.creator.0.hash(&mut hasher);
        vote.instance_id.hash(&mut hasher);
        vote.value.hash(&mut hasher);
        vote.seq_number.hash(&mut hasher);
        vote.timestamp.0.hash(&mut hasher);
        vote.round_exp.hash(&mut hasher);
        vote.endorsed.hash(&mut hasher);
        hasher.finish()
    }

    fn hash_endorsement(vote: &u64, creator: ValidatorIndex) -> u64 {
        vote.wrapping_mul(31).wrapping_add(creator.0 as u64)
    }

    fn verify_signature(hash: &u64, public_key: &u32, signature: &u64) -> bool {
        hash.wrapping_add(*public_key as u64) == *signature
    }
}

struct TestSecret(u32);

impl TestSecret {
    fn sign(&self, hash: &u64) -> u64 {
        hash.wrapping_add(self.0 as u64)
    }
}

const WEIGHTS: [u64; 3] = [3, 4, 5];

const ALICE: ValidatorIndex = ValidatorIndex(0);
const BOB: ValidatorIndex = ValidatorIndex(1);
const CAROL: ValidatorIndex = ValidatorIndex(2);

const ALICE_SEC: TestSecret = TestSecret(0);
const BOB_SEC: TestSecret = TestSecret(1);
const CAROL_SEC: TestSecret = TestSecret(2);

fn test_validators() -> Validators<u32> {
    let vid_weights: Vec<(u32, u64)> = vec![(ALICE_SEC, ALICE), (BOB_SEC, BOB), (CAROL_SEC, CAROL)]
        .into_iter()
        .map(|(sk, vid)| {
            assert_eq!(sk.0, vid.0);
            (sk.0, WEIGHTS[vid.0 as usize])
        })
        .collect();
    Validators::from_weights(&vid_weights)
}

fn test_highway() -> Highway<TestContext> {
    let params = Params::new(
        0,
        1_000_000_000_000,
        200_000_000_000,
        4,
        u64::MAX,
        Timestamp(0),
        Timestamp(u64::MAX),
    );
    Highway::new(1, test_validators(), params)
}

fn carols_vote(value: u32) -> WireVote<TestContext> {
    WireVote {
        panorama: Rc::new(Panorama::new(WEIGHTS.len())),
        creator: CAROL,
        instance_id: 1,
        value: Some(value),
        seq_number: 0,
        timestamp: Timestamp::zero(),
        round_exp: 4,
        endorsed: vec![],
    }
}

fn copy_vote(vote: &WireVote<TestContext>) -> WireVote<TestContext> {
    WireVote {
        panorama: vote.panorama.clone(),
        creator: vote.creator,
        instance_id: vote.instance_id,
        value: vote.value,
        seq_number: vote.seq_number,
        timestamp: vote.timestamp,
        round_exp: vote.round_exp,
        endorsed: vote.endorsed.clone(),
    }
}

fn signed(vote: &WireVote<TestContext>, signer: &TestSecret) -> Rc<SignedWireVote<TestContext>> {
    let signature = signer.sign(&vote.hash());
    Rc::new(SignedWireVote {
        wire_vote: copy_vote(vote),
        signature,
    })
}

fn info() -> RoundInfo {
    RoundInfo {
        leader: CAROL,
        terminal: false,
    }
}

#[test]
fn invalid_signature_error() {
    let now: Timestamp = 500.into();
    let mut highway = test_highway();
    let wvote = carols_vote(0);
    let invalid_signature = 1u64;
    let invalid_signature_vote = Rc::new(SignedWireVote {
        wire_vote: copy_vote(&wvote),
        signature: invalid_signature,
    });
    let invalid_vertex = Vertex::Vote(invalid_signature_vote.clone());
    match highway.pre_validate_vertex(invalid_vertex) {
        Err((Vertex::Vote(vote), err)) => {
            assert!(vote.same_signed_vote(&invalid_signature_vote));
            assert!(matches!(err, VertexError::Vote(VoteError::Signature)));
        }
        _ => panic!("the signature is invalid"),
    }

    let valid_vertex = Vertex::Vote(signed(&wvote, &CAROL_SEC));
    let pvv = match highway.pre_validate_vertex(valid_vertex) {
        Ok(pvv) => pvv,
        Err(_) => panic!("the vertex is valid"),
    };
    assert!(highway.missing_dependency(&pvv).is_none());
    let vv = match highway.validate_vertex(pvv, &info()) {
        Ok(vv) => vv,
        Err(_) => panic!("the vertex is valid"),
    };
    assert!(highway.add_valid_vertex(vv, now, None).is_empty());
}

#[test]
fn invalid_evidence() {
    let highway = test_highway();

    let validate = |wvote0: &WireVote<TestContext>,
                    signer0: &TestSecret,
                    wvote1: &WireVote<TestContext>,
                    signer1: &TestSecret| {
        let evidence = Rc::new(Evidence::Equivocation(
            signed(wvote0, signer0),
            signed(wvote1, signer1),
        ));
        match highway.pre_validate_vertex(Vertex::Evidence(evidence.clone())) {
            Ok(_) => Ok(()),
            Err((Vertex::Evidence(ev), err)) => {
                assert!(Rc::ptr_eq(&ev, &evidence));
                Err(err)
            }
            Err(_) => panic!("another vertex came back"),
        }
    };

    // Two votes with different values and the same sequence number. Carol equivocated!
    let mut wvote0 = carols_vote(0);
    let wvote1 = carols_vote(1);

    assert!(validate(&wvote0, &CAROL_SEC, &wvote1, &CAROL_SEC).is_ok());

    // It's only an equivocation if the two votes are different.
    assert!(matches!(
        validate(&wvote0, &CAROL_SEC, &wvote0, &CAROL_SEC),
        Err(VertexError::Evidence(EvidenceError::EquivocationSameVote))
    ));

    // Both votes have Carol as their creator; Bob's signature would be invalid.
    assert!(matches!(
        validate(&wvote0, &CAROL_SEC, &wvote1, &BOB_SEC),
        Err(VertexError::Evidence(EvidenceError::Signature))
    ));
    assert!(matches!(
        validate(&wvote0, &BOB_SEC, &wvote1, &CAROL_SEC),
        Err(VertexError::Evidence(EvidenceError::Signature))
    ));

    // If the first vote was actually Bob's and the second Carol's, nobody equivocated.
    wvote0.creator = BOB;
    assert!(matches!(
        validate(&wvote0, &BOB_SEC, &wvote1, &CAROL_SEC),
        Err(VertexError::Evidence(
            EvidenceError::EquivocationDifferentCreators
        ))
    ));
    wvote0.creator = CAROL;

    // If the votes have different sequence numbers they might belong to the same fork.
    wvote0.seq_number = 1;
    assert!(matches!(
        validate(&wvote0, &CAROL_SEC, &wvote1, &CAROL_SEC),
        Err(VertexError::Evidence(
            EvidenceError::EquivocationDifferentSeqNumbers
        ))
    ));
    wvote0.seq_number = 0;

    // If the votes are from a different network or era we don't accept the evidence.
    wvote0.instance_id = 2;
    assert!(matches!(
        validate(&wvote0, &CAROL_SEC, &wvote1, &CAROL_SEC),
        Err(VertexError::Evidence(EvidenceError::EquivocationInstanceId))
    ));
}

#[test]
fn evidence_against_a_stranger_is_refused() {
    let highway = test_highway();
    let mut wvote0 = carols_vote(0);
    let mut wvote1 = carols_vote(1);
    wvote0.creator = ValidatorIndex(3);
    wvote1.creator = ValidatorIndex(3);
    let evidence = Evidence::Equivocation(signed(&wvote0, &CAROL_SEC), signed(&wvote1, &CAROL_SEC));
    assert!(matches!(
        highway.pre_validate_vertex(Vertex::Evidence(Rc::new(evidence))),
        Err((_, VertexError::Evidence(EvidenceError::UnknownPerpetrator)))
    ));
}

#[test]
fn bad_votes_are_refused() {
    let highway = test_highway();
    let refuse = |vote: &WireVote<TestContext>| match highway
        .pre_validate_vertex(Vertex::Vote(signed(vote, &CAROL_SEC)))
    {
        Ok(_) => panic!("the vote should be refused"),
        Err((_, VertexError::Vote(err))) => err,
        Err(_) => panic!("another error was expected"),
    };
    let mut wvote = carols_vote(0);
    wvote.creator = ValidatorIndex(7);
    assert!(matches!(refuse(&wvote), VoteError::Creator));
    let mut wvote = carols_vote(0);
    wvote.instance_id = 2;
    assert!(matches!(refuse(&wvote), VoteError::InstanceId));
    let mut wvote = carols_vote(0);
    wvote.round_exp = 3;
    assert!(matches!(refuse(&wvote), VoteError::RoundLengthExpLessThanMinimum));
    let mut wvote = carols_vote(0);
    wvote.panorama = Rc::new(Panorama::new(2));
    assert!(matches!(refuse(&wvote), VoteError::PanoramaLength));
}

#[test]
fn endorsements_need_known_signers() {
    let highway = test_highway();
    let vote = 17u64;
    let by = |creator: ValidatorIndex, signature: u64| {
        Vertex::Endorsements(Rc::new(Endorsements {
            vote,
            endorsers: vec![(creator, signature)],
        }))
    };
    let alice_hash = TestContext::hash_endorsement(&vote, ALICE);
    assert!(highway
        .pre_validate_vertex(by(ALICE, ALICE_SEC.sign(&alice_hash)))
        .is_ok());
    assert!(matches!(
        highway.pre_validate_vertex(by(ALICE, BOB_SEC.sign(&alice_hash))),
        Err((_, VertexError::Endorsement(EndorsementError::Signature)))
    ));
    assert!(matches!(
        highway.pre_validate_vertex(by(ValidatorIndex(9), 0)),
        Err((_, VertexError::Endorsement(EndorsementError::Creator)))
    ));
}

#[test]
fn added_vote_is_there() {
    let mut highway = test_highway();
    let wvote = carols_vote(0);
    let hash = wvote.hash();
    let vertex = Vertex::Vote(signed(&wvote, &CAROL_SEC));
    assert!(!highway.has_vertex(&vertex));
    assert!(matches!(
        highway.get_dependency(&Dependency::Vote(hash)),
        GetDepOutcome::Missing
    ));
    let pvv = match highway.pre_validate_vertex(vertex) {
        Ok(pvv) => pvv,
        Err(_) => panic!("the vertex is valid"),
    };
    let vv = match highway.validate_vertex(pvv, &info()) {
        Ok(vv) => vv,
        Err(_) => panic!("the vertex is valid"),
    };
    assert!(vv.is_proposal());
    highway.add_valid_vertex(vv, Timestamp(1), None);
    assert!(highway.has_dependency(&Dependency::Vote(hash)));
    match highway.get_dependency(&Dependency::Vote(hash)) {
        GetDepOutcome::Vertex(found) => match found.inner() {
            Vertex::Vote(vote) => assert_eq!(vote.hash(), hash),
            _ => panic!("a vote was expected"),
        },
        _ => panic!("the vote should be there"),
    }
}

#[test]
fn equivocation_becomes_evidence() {
    let mut highway = test_highway();
    for value in [0u32, 1u32].iter() {
        let vertex = Vertex::Vote(signed(&carols_vote(*value), &CAROL_SEC));
        let pvv = match highway.pre_validate_vertex(vertex) {
            Ok(pvv) => pvv,
            Err(_) => panic!("the vertex is valid"),
        };
        let vv = match highway.validate_vertex(pvv, &info()) {
            Ok(vv) => vv,
            Err(_) => panic!("the vertex is valid"),
        };
        highway.add_valid_vertex(vv, Timestamp(1), None);
    }
    assert!(highway.has_evidence(&CAROL_SEC.0));
    assert!(!highway.has_evidence(&BOB_SEC.0));
    assert_eq!(highway.validators_with_evidence(), vec![CAROL_SEC.0]);
    assert!(highway.has_dependency(&Dependency::Evidence(CAROL)));
}

#[test]
fn marked_validators_are_faulty_without_evidence() {
    let mut highway = test_highway();
    highway.mark_faulty(&BOB_SEC.0);
    assert!(highway.state().is_faulty(BOB));
    assert!(!highway.has_evidence(&BOB_SEC.0));
    assert!(!highway.state().is_faulty(ALICE));
}

#[test]
fn activation_starts_with_the_era() {
    let params = Params::new(0, 1, 1, 4, 10, Timestamp(1_000), Timestamp(2_000));
    let mut highway: Highway<TestContext> = Highway::new(1, test_validators(), params);
    assert_eq!(
        highway.activate_validator(BOB_SEC.0, Timestamp(500), 4),
        (BOB, Timestamp(1_000))
    );
    assert!(matches!(
        highway.handle_timer(Timestamp(1_016)),
        Some(Action::HandleTimer(Timestamp(1_016)))
    ));
    highway.deactivate_validator();
    assert!(highway.handle_timer(Timestamp(1_016)).is_none());
}

#[test]
fn rounds_are_aligned() {
    assert_eq!(round_len(4), TimeDiff(16));
    assert_eq!(round_id(Timestamp(100), 4), Timestamp(96));
    assert_eq!(round_id(Timestamp(96), 4), Timestamp(96));
}

#[test]
fn validators_are_found_by_their_ids() {
    let validators = test_validators();
    assert_eq!(validators.total_weight(), 12);
    assert_eq!(validators.get_index(&2), Some(CAROL));
    assert_eq!(validators.get_index(&3), None);
    assert_eq!(validators.id(BOB), Some(&1));
    assert!(BOB.same(&ValidatorIndex(1)));
}

/// Returns a vote that proposes `value` if it is not zero.
fn vote(
    creator: ValidatorIndex,
    seq_number: u64,
    timestamp: u64,
    value: u32,
    observations: Vec<Observation<u64>>,
) -> WireVote<TestContext> {
    WireVote {
        panorama: Rc::new(Panorama { observations }),
        creator,
        instance_id: 1,
        value: if value == 0 { None } else { Some(value) },
        seq_number,
        timestamp: Timestamp(timestamp),
        round_exp: 4,
        endorsed: vec![],
    }
}

fn add(highway: &mut Highway<TestContext>, vote: &WireVote<TestContext>) -> u64 {
    let vertex = Vertex::Vote(signed(vote, &TestSecret(vote.creator.0)));
    highway.add_valid_vertex(ValidVertex(vertex), Timestamp(1), Some(17));
    vote.hash()
}

fn unseen() -> Observation<u64> {
    Observation::Unseen
}

fn seen(hash: u64) -> Observation<u64> {
    Observation::Correct(hash)
}

fn faulty() -> Observation<u64> {
    Observation::Faulty
}

#[test]
fn skip_lists_reach_back() {
    let mut highway = test_highway();
    let mut hashes = vec![];
    for i in 0..9u64 {
        let previous = match hashes.last() {
            Some(hash) => seen(*hash),
            None => unseen(),
        };
        let wvote = vote(CAROL, i, 16 * i, 1, vec![unseen(), unseen(), previous]);
        hashes.push(add(&mut highway, &wvote));
    }
    let graph = highway.state().graph();
    let unit = graph.unit(&hashes[8]);
    assert_eq!(
        unit.skip_idx,
        vec![hashes[7], hashes[6], hashes[4], hashes[0]]
    );
    assert_eq!(unit.previous(), Some(hashes[7]));
    assert_eq!(graph.unit(&hashes[5]).skip_idx, vec![hashes[4]]);
    assert_eq!(graph.unit(&hashes[0]).previous(), None);
    assert_eq!(graph.find_in_swimlane(&hashes[8], 3), Some(hashes[3]));
    assert_eq!(graph.find_in_swimlane(&hashes[3], 8), None);
    // A unit with a new block votes for itself.
    assert_eq!(unit.block, hashes[8]);
    assert_eq!(unit.round_id(), Timestamp(128));
    assert_eq!(unit.round_len(), TimeDiff(16));
}

#[test]
fn new_observations_are_noticed() {
    let mut highway = test_highway();
    let c0 = add(
        &mut highway,
        &vote(CAROL, 0, 0, 1, vec![unseen(), unseen(), unseen()]),
    );
    let c1 = add(
        &mut highway,
        &vote(CAROL, 1, 16, 2, vec![unseen(), unseen(), seen(c0)]),
    );
    let b0 = add(
        &mut highway,
        &vote(BOB, 0, 20, 0, vec![unseen(), unseen(), seen(c0)]),
    );
    let b1 = add(
        &mut highway,
        &vote(BOB, 1, 40, 0, vec![unseen(), seen(b0), seen(c1)]),
    );
    let b2 = add(
        &mut highway,
        &vote(BOB, 2, 60, 0, vec![unseen(), seen(b1), seen(c1)]),
    );
    let graph = highway.state().graph();
    assert!(!graph.unit(&b0).new_hash_obs(graph.units(), CAROL));
    assert!(graph.unit(&b1).new_hash_obs(graph.units(), CAROL));
    assert!(!graph.unit(&b2).new_hash_obs(graph.units(), CAROL));
    assert!(!graph.unit(&b2).new_hash_obs(graph.units(), ALICE));
    // A unit without a new block votes for the fork choice.
    assert_eq!(graph.unit(&b2).block, 17);
}

#[test]
fn forks_are_found() {
    let mut highway = test_highway();
    let c0 = add(
        &mut highway,
        &vote(CAROL, 0, 0, 1, vec![unseen(), unseen(), unseen()]),
    );
    let other_c0 = add(
        &mut highway,
        &vote(CAROL, 0, 0, 2, vec![unseen(), unseen(), unseen()]),
    );
    let c1 = add(
        &mut highway,
        &vote(CAROL, 1, 16, 3, vec![unseen(), unseen(), seen(c0)]),
    );
    let a0 = add(
        &mut highway,
        &vote(ALICE, 0, 20, 0, vec![unseen(), unseen(), seen(c0)]),
    );
    let b0 = add(
        &mut highway,
        &vote(BOB, 0, 20, 0, vec![unseen(), unseen(), seen(other_c0)]),
    );
    let a1 = add(
        &mut highway,
        &vote(ALICE, 1, 40, 0, vec![seen(a0), seen(b0), faulty()]),
    );
    let later_b0 = add(
        &mut highway,
        &vote(BOB, 0, 20, 0, vec![unseen(), unseen(), seen(c1)]),
    );
    let graph = highway.state().graph();
    let forks = |observations: Vec<Observation<u64>>, endorsed: Vec<u64>| {
        match find_forks(&Panorama { observations }, &endorsed, CAROL, graph) {
            LncForks::NoFork => vec![],
            LncForks::Single(hash) => vec![hash],
            LncForks::Multiple => vec![0, 0],
        }
    };
    assert_eq!(forks(vec![seen(a0), unseen(), faulty()], vec![]), vec![c0]);
    assert_eq!(forks(vec![seen(a0), seen(b0), faulty()], vec![]).len(), 2);
    // The forks are found further down, too.
    assert_eq!(forks(vec![seen(a1), unseen(), faulty()], vec![]).len(), 2);
    // What endorsed units see is not cited naively.
    assert_eq!(
        forks(vec![seen(a0), seen(b0), faulty()], vec![a0]),
        vec![other_c0]
    );
    assert!(forks(vec![seen(a0), seen(b0), faulty()], vec![a0, b0]).is_empty());
    assert!(forks(vec![unseen(), unseen(), faulty()], vec![]).is_empty());
    // Two units of one fork are one fork, and the later one is its tip.
    assert_eq!(
        forks(vec![seen(a0), seen(later_b0), faulty()], vec![]),
        vec![c1]
    );
    assert!(graph.sees(&a1, &other_c0));
    assert!(!graph.sees_correct(&a1, &other_c0));
    assert!(!graph.sees(&a0, &other_c0));
}

#[test]
fn misplaced_votes_are_refused() {
    let mut highway = test_highway();
    let c0 = add(
        &mut highway,
        &vote(CAROL, 0, 32, 1, vec![unseen(), unseen(), unseen()]),
    );
    let refuse = |vote: &WireVote<TestContext>, info: &RoundInfo| {
        let vertex = Vertex::Vote(signed(vote, &TestSecret(vote.creator.0)));
        match highway.validate_vertex(PreValidatedVertex(vertex), info) {
            Ok(_) => None,
            Err((_, VertexError::Vote(err))) => Some(err),
            Err(_) => panic!("another error was expected"),
        }
    };
    let wvote = vote(BOB, 0, 40, 0, vec![unseen(), unseen(), seen(c0)]);
    assert_eq!(refuse(&wvote, &info()), None);
    let wvote = vote(BOB, 0, 40, 0, vec![seen(c0), unseen(), unseen()]);
    assert_eq!(refuse(&wvote, &info()), Some(VoteError::PanoramaIndex));
    let wvote = vote(BOB, 0, 31, 0, vec![unseen(), unseen(), seen(c0)]);
    assert_eq!(refuse(&wvote, &info()), Some(VoteError::Timestamps));
    let wvote = vote(CAROL, 5, 40, 0, vec![unseen(), unseen(), seen(c0)]);
    assert_eq!(refuse(&wvote, &info()), Some(VoteError::SequenceNumber));
    let mut wvote = vote(CAROL, 1, 40, 0, vec![unseen(), unseen(), seen(c0)]);
    wvote.round_exp = 5;
    assert_eq!(refuse(&wvote, &info()), Some(VoteError::RoundLength));
    // Bob is not the leader, and Carol has voted in this round already.
    let wvote = vote(BOB, 0, 48, 5, vec![unseen(), unseen(), seen(c0)]);
    assert_eq!(refuse(&wvote, &info()), Some(VoteError::UnexpectedBlock));
    let wvote = vote(CAROL, 1, 40, 5, vec![unseen(), unseen(), seen(c0)]);
    assert_eq!(refuse(&wvote, &info()), Some(VoteError::UnexpectedBlock));
    let wvote = vote(CAROL, 1, 48, 5, vec![unseen(), unseen(), seen(c0)]);
    assert_eq!(refuse(&wvote, &info()), None);
    let terminal = RoundInfo {
        leader: CAROL,
        terminal: true,
    };
    assert_eq!(
        refuse(&wvote, &terminal),
        Some(VoteError::ValueAfterTerminalBlock)
    );
    let c1 = add(
        &mut highway,
        &vote(CAROL, 1, 40, 0, vec![unseen(), unseen(), seen(c0)]),
    );
    let third = vote(CAROL, 2, 44, 0, vec![unseen(), unseen(), seen(c1)]);
    let vertex = Vertex::Vote(signed(&third, &CAROL_SEC));
    assert!(matches!(
        highway.validate_vertex(PreValidatedVertex(vertex), &info()),
        Err((_, VertexError::Vote(VoteError::ThreeVotesInRound)))
    ));
}

#[test]
fn votes_with_flaws_of_their_own_are_refused() {
    let highway = test_highway();
    let refuse = |vote: &WireVote<TestContext>| {
        let vertex = Vertex::Vote(signed(vote, &TestSecret(vote.creator.0)));
        match highway.pre_validate_vertex(vertex) {
            Ok(_) => None,
            Err((_, VertexError::Vote(err))) => Some(err),
            Err(_) => panic!("another error was expected"),
        }
    };
    let wvote = vote(BOB, 0, 40, 0, vec![unseen(), unseen(), unseen()]);
    assert_eq!(refuse(&wvote), Some(VoteError::MissingBlock));
    let wvote = vote(BOB, 0, 40, 0, vec![unseen(), faulty(), seen(3)]);
    assert_eq!(refuse(&wvote), Some(VoteError::FaultyCreator));
    let mut wvote = vote(BOB, 0, 40, 1, vec![unseen(), unseen(), unseen()]);
    wvote.round_exp = 64;
    assert_eq!(
        refuse(&wvote),
        Some(VoteError::RoundLengthExpGreaterThanMaximum)
    );
}

#[test]
fn dependencies_can_be_provided() {
    let mut highway = test_highway();
    let peer = test_highway();
    let c0 = add(
        &mut highway,
        &vote(CAROL, 0, 0, 1, vec![unseen(), unseen(), unseen()]),
    );
    let mut wvote = vote(BOB, 0, 20, 0, vec![unseen(), unseen(), seen(c0)]);
    wvote.endorsed = vec![c0];
    let endorsement = |idx: ValidatorIndex| {
        let signature = TestSecret(idx.0).sign(&TestContext::hash_endorsement(&c0, idx));
        (idx, signature)
    };
    let endorsements = Endorsements {
        vote: c0,
        endorsers: vec![endorsement(ALICE), endorsement(CAROL)],
    };
    let vertex = Vertex::Endorsements(Rc::new(endorsements));
    assert!(!highway.has_dependency(&Dependency::Endorsement(c0)));
    highway.add_valid_vertex(ValidVertex(vertex), Timestamp(1), None);
    add(&mut highway, &wvote);
    // The peer misses Carol's vote first.
    let pvv = PreValidatedVertex(Vertex::Vote(signed(&wvote, &BOB_SEC)));
    assert!(highway.missing_dependency(&pvv).is_none());
    match peer.missing_dependency(&pvv) {
        Some(Dependency::Vote(hash)) => {
            assert_eq!(hash, c0);
            assert!(matches!(
                highway.get_dependency(&Dependency::Vote(hash)),
                GetDepOutcome::Vertex(_)
            ));
        }
        _ => panic!("a vote is missing"),
    }
    let mut peer = test_highway();
    add(
        &mut peer,
        &vote(CAROL, 0, 0, 1, vec![unseen(), unseen(), unseen()]),
    );
    match peer.missing_dependency(&pvv) {
        Some(Dependency::Endorsement(hash)) => {
            assert_eq!(hash, c0);
            assert!(matches!(
                highway.get_dependency(&Dependency::Endorsement(hash)),
                GetDepOutcome::Vertex(_)
            ));
        }
        _ => panic!("endorsements are missing"),
    }
    highway.mark_faulty(&ALICE_SEC.0);
    assert!(matches!(
        highway.get_dependency(&Dependency::Evidence(ALICE)),
        GetDepOutcome::Evidence(0)
    ));
}

#[test]
fn effects_of_the_active_validator_are_taken_in() {
    let mut highway = test_highway();
    let c0 = carols_vote(1);
    highway.activate_validator(BOB_SEC.0, Timestamp(0), 4);
    highway.set_round_exp(5);
    let vertex = ValidVertex(Vertex::Vote(signed(&c0, &CAROL_SEC)));
    let actions = highway.add_valid_vertex(vertex.share(), Timestamp(3), None);
    assert!(matches!(
        actions[..],
        [Action::OnNewVote {
            timestamp: Timestamp(3),
            ..
        }]
    ));
    let effects = vec![
        Effect::ScheduleTimer(Timestamp(16)),
        Effect::NewVertex(vertex),
    ];
    let actions = Highway::apply_active_effects(effects, Timestamp(3));
    assert!(matches!(
        actions[..],
        [
            Action::AddVertex(_, Timestamp(3)),
            Action::Emit(Effect::ScheduleTimer(Timestamp(16))),
            Action::Emit(Effect::NewVertex(_))
        ]
    ));
    // New evidence is shown to the active validator and gossiped; endorsements that follow from
    // it are taken in at once.
    let other = ValidVertex(Vertex::Vote(signed(&carols_vote(2), &CAROL_SEC)));
    let actions = highway.add_valid_vertex(other, Timestamp(4), None);
    assert!(matches!(
        actions[..],
        [
            Action::OnNewEvidence(_),
            Action::Emit(Effect::NewVertex(_)),
            Action::OnNewVote { .. }
        ]
    ));
    let endorsements = Endorsements {
        vote: c0.hash(),
        endorsers: vec![(BOB, 1), (CAROL, 2)],
    };
    let effects = vec![Effect::NewVertex(ValidVertex(Vertex::Endorsements(
        Rc::new(endorsements),
    )))];
    assert_eq!(highway.apply_evidence_effects(effects).len(), 1);
    assert!(highway.has_dependency(&Dependency::Endorsement(c0.hash())));
}

#[test]
fn votes_of_the_banned_are_refused() {
    let params = Params::new(0, 1, 1, 4, 10, Timestamp(0), Timestamp(u64::MAX));
    let mut validators = test_validators();
    validators.ban(&BOB_SEC.0);
    let highway: Highway<TestContext> = Highway::new(1, validators, params);
    assert!(highway.state().is_faulty(BOB));
    assert!(!highway.has_evidence(&BOB_SEC.0));
    let bobs = vote(BOB, 0, 40, 1, vec![unseen(), unseen(), unseen()]);
    assert!(matches!(
        highway.pre_validate_vertex(Vertex::Vote(signed(&bobs, &BOB_SEC))),
        Err((_, VertexError::Vote(VoteError::Banned)))
    ));
    // The other validators are not concerned.
    let alices = signed(
        &vote(ALICE, 0, 40, 1, vec![unseen(), faulty(), unseen()]),
        &ALICE_SEC,
    );
    match highway.pre_validate_vertex(Vertex::Vote(alices.clone())) {
        Ok(pvv) => match pvv.into_vertex() {
            Vertex::Vote(vote) => assert!(vote.same_signed_vote(&alices)),
            _ => panic!("another vertex came back"),
        },
        Err(_) => panic!("the vote is valid"),
    }
}

#[test]
fn provided_vertices_satisfy_the_dependency() {
    let mut highway = test_highway();
    let wvote = carols_vote(1);
    let c0 = add(&mut highway, &wvote);
    match highway.get_dependency(&Dependency::Vote(c0)) {
        GetDepOutcome::Vertex(vv) => {
            assert!(highway.has_vertex(vv.inner()));
            match vv.inner() {
                Vertex::Vote(vote) => assert_eq!(vote.hash(), c0),
                _ => panic!("a vote was asked for"),
            }
        }
        _ => panic!("the vote is there"),
    }
    assert!(matches!(
        highway.get_dependency(&Dependency::Vote(c0.wrapping_add(1))),
        GetDepOutcome::Missing
    ));
    assert!(matches!(
        highway.get_dependency(&Dependency::Evidence(CAROL)),
        GetDepOutcome::Missing
    ));
    // A second vote with the same sequence number is evidence against Carol.
    add(&mut highway, &carols_vote(2));
    match highway.get_dependency(&Dependency::Evidence(CAROL)) {
        GetDepOutcome::Vertex(vv) => {
            assert!(highway.has_vertex(vv.inner()));
            match vv.inner() {
                Vertex::Evidence(evidence) => assert_eq!(evidence.perpetrator(), CAROL),
                _ => panic!("evidence was asked for"),
            }
        }
        _ => panic!("the evidence is there"),
    }
}

#[test]
fn validated_votes_still_fit_later() {
    let mut highway = test_highway();
    let c0 = add(
        &mut highway,
        &vote(CAROL, 0, 32, 1, vec![unseen(), unseen(), unseen()]),
    );
    let bobs = vote(BOB, 0, 40, 0, vec![unseen(), unseen(), seen(c0)]);
    let vertex = Vertex::Vote(signed(&bobs, &BOB_SEC));
    let vv = match highway.validate_vertex(PreValidatedVertex(vertex), &info()) {
        Ok(vv) => vv,
        Err(_) => panic!("the vote is valid"),
    };
    // Other vertices come first.
    add(
        &mut highway,
        &vote(ALICE, 0, 36, 0, vec![unseen(), unseen(), seen(c0)]),
    );
    add(
        &mut highway,
        &vote(CAROL, 1, 40, 0, vec![unseen(), unseen(), seen(c0)]),
    );
    highway.add_valid_vertex(vv, Timestamp(50), Some(c0));
    assert!(highway.has_dependency(&Dependency::Vote(bobs.hash())));
}

#[test]
fn endorsed_votes_can_be_provided() {
    let mut highway = test_highway();
    let c0 = add(&mut highway, &carols_vote(1));
    let idx = ALICE;
    let signature = ALICE_SEC.sign(&TestContext::hash_endorsement(&c0, idx));
    let endorsements = Rc::new(Endorsements {
        vote: c0,
        endorsers: vec![(idx, signature)],
    });
    let vertex = Vertex::Endorsements(endorsements.clone());
    highway.add_valid_vertex(ValidVertex(vertex), Timestamp(1), None);
    let peer = test_highway();
    let pvv = PreValidatedVertex(Vertex::Endorsements(endorsements));
    match peer.missing_dependency(&pvv) {
        Some(Dependency::Vote(hash)) => {
            assert_eq!(hash, c0);
            assert!(matches!(
                highway.get_dependency(&Dependency::Vote(hash)),
                GetDepOutcome::Vertex(_)
            ));
        }
        _ => panic!("the endorsed vote is missing"),
    }
}

#[test]
fn correct_hashes_come_in_order() {
    let panorama: Panorama<TestContext> = Panorama {
        observations: vec![seen(9), faulty(), unseen(), seen(2), seen(9)],
    };
    assert_eq!(panorama.correct_hashes(), vec![9, 2, 9]);
}

//! Unit tests of the smaller pieces: replica validity, event names, the
//! scheduler's ordering, certificates, reset idempotence and the
//! highest-certificate rule.

use optrand::config::Node;
use optrand::config::is_valid_replica;
use optrand::msg::sign_bytes;
use optrand::msg::verify_signature;
use optrand::msg::vote_keygen;
use optrand::events::Event;
use optrand::msg::Certificate;
use optrand::msg::MsgBuf;
use optrand::msg::Vote;
use optrand::pvss::PvssContext;
use optrand::sched::EventQueue;
use optrand::state::Context;
use optrand::state::ProtoError;
use optrand::state::RoundContext;

#[test]
fn replica_validity() {
    assert!(is_valid_replica(0, 4));
    assert!(is_valid_replica(3, 4));
    assert!(!is_valid_replica(4, 4));
    assert!(!is_valid_replica(7, 4));
}

#[test]
fn event_names() {
    assert_eq!(Event::Propose.to_string(), "Propose");
    assert_eq!(Event::EpochEnd.to_string(), "Epoch Ended");
    assert_eq!(Event::ProposeTimeout.to_string(), "Propose Timed out");
    assert_eq!(Event::VoteTimeout(vec![1]).to_string(), "Vote Timed out");
}

#[test]
fn leader_rotates_round_robin() {
    let cfg = Node { id: 0, num_nodes: 4, delta: 50 };
    assert_eq!(cfg.leader_of(0), 0);
    assert_eq!(cfg.leader_of(1), 1);
    assert_eq!(cfg.leader_of(5), 1);
    assert_eq!(cfg.leader_of(7), 3);
    assert_eq!(cfg.num_faults(), 1);
    assert_eq!(cfg.threshold(), 1);
}

#[test]
fn scheduler_orders_by_deadline_then_fifo() {
    let mut q = EventQueue::new(0);
    q.add_timeout(Event::EpochEnd, 550);
    q.add_timeout(Event::ProposeTimeout, 200);
    q.add_timeout(Event::Propose, 100);
    assert_eq!(q.next_deadline(), Some(100));
    // nothing fires before its time
    assert!(q.pop_next().is_none());
    q.advance_time(250);
    assert_eq!(q.pop_next().map(|e| e.to_string()), Some("Propose"));
    assert_eq!(q.pop_next().map(|e| e.to_string()), Some("Propose Timed out"));
    assert!(q.pop_next().is_none());
    // ready events come first, in order of arrival
    q.add_event(Event::Propose);
    q.add_event(Event::EpochEnd);
    assert_eq!(q.pop_next().map(|e| e.to_string()), Some("Propose"));
    assert_eq!(q.pop_next().map(|e| e.to_string()), Some("Epoch Ended"));
    q.advance_time(600);
    assert_eq!(q.pop_next().map(|e| e.to_string()), Some("Epoch Ended"));
    assert!(q.pop_next().is_none());
}

#[test]
fn certificate_quorum_and_signatures() {
    let mut sks = Vec::new();
    let mut pks = Vec::new();
    for _ in 0..4 {
        let (sk, pk) = vote_keygen();
        sks.push(sk);
        pks.push(pk);
    }
    let msg = vec![1, 2, 3];
    let c = Certificate {
        msg: msg.clone(),
        signers: vec![0, 2],
        sigs: vec![sign_bytes(&sks[0], &msg), sign_bytes(&sks[2], &msg)],
    };
    assert!(c.verify(&pks, 2));
    assert!(!c.verify(&pks, 3));
    // a duplicated signer is refused
    let dup = Certificate {
        msg: msg.clone(),
        signers: vec![0, 0],
        sigs: vec![sign_bytes(&sks[0], &msg), sign_bytes(&sks[0], &msg)],
    };
    assert!(!dup.verify(&pks, 2));
    // a signature by the wrong key is refused
    let wrong = Certificate {
        msg: msg.clone(),
        signers: vec![0, 2],
        sigs: vec![sign_bytes(&sks[0], &msg), sign_bytes(&sks[1], &msg)],
    };
    assert!(!wrong.verify(&pks, 2));
    assert!(verify_signature(&pks[0], &msg, &sign_bytes(&sks[0], &msg)));
}

fn small_context() -> Context {
    let n = 4;
    let mut vote_sks = Vec::new();
    let mut vote_pks = Vec::new();
    for _ in 0..n {
        let (sk, pk) = vote_keygen();
        vote_sks.push(sk);
        vote_pks.push(pk);
    }
    let mut pvss_sks = Vec::new();
    let mut pvss_pks = Vec::new();
    for _ in 0..n {
        let (sk, pk) = PvssContext::keygen();
        pvss_sks.push(sk);
        pvss_pks.push(pk);
    }
    let h2 = PvssContext::genesis_h2();
    Context {
        config: Node { id: 0, num_nodes: n, delta: 50 },
        pvss_ctx: PvssContext::new(0, 1, h2, pvss_pks, pvss_sks[0].clone()).unwrap(),
        my_vote_sk: vote_sks[0].clone(),
        vote_pks,
        epoch: 2,
        epoch_timer: 0,
        last_leader: 0,
        last_leader_epoch: 0,
        highest_cert: Certificate::empty(),
        highest_cert_vote: Vote {
            epoch: 0,
            block_hash: vec![0u8; 32],
            height: 0,
            voter: 0,
            signature: Vec::new(),
        },
        highest_height: 0,
        pvss_shares: Vec::new(),
        pvss_indices: Vec::new(),
        rnd_ctx: RoundContext {
            stop_accepting_sync_certs: false,
            received_sync_cert_directly: false,
            committed_this_epoch: false,
            proposed_this_epoch: false,
        },
        sync_cert_store: Vec::new(),
        decryption_shares: vec![None, None, None, None],
        current_agg: None,
        current_block_hash: None,
        votes_received: Vec::new(),
        committed: Vec::new(),
        beacons: Vec::new(),
        equivocation_seen: false,
    }
}

#[test]
fn epoch_reset_is_idempotent() {
    let mut c = small_context();
    c.rnd_ctx.stop_accepting_sync_certs = true;
    c.equivocation_seen = true;
    c.votes_received.push(Vote {
        epoch: 2,
        block_hash: vec![1],
        height: 1,
        voter: 1,
        signature: vec![2],
    });
    c.epoch_reset();
    let flags1 = c.rnd_ctx;
    let shares1 = c.decryption_shares.len();
    let votes1 = c.votes_received.len();
    let epoch1 = c.epoch;
    c.epoch_reset();
    assert_eq!(c.rnd_ctx, flags1);
    assert_eq!(c.decryption_shares.len(), shares1);
    assert!(c.decryption_shares.iter().all(|s| s.is_none()));
    assert_eq!(c.votes_received.len(), votes1);
    assert_eq!(c.epoch, epoch1);
}

#[test]
fn highest_cert_is_monotone() {
    let mut c = small_context();
    let v1 = Vote { epoch: 3, block_hash: vec![1], height: 2, voter: 1, signature: vec![] };
    c.update_highest_cert(v1, Certificate::empty());
    assert_eq!(c.highest_cert_vote.epoch, 3);
    assert_eq!(c.highest_height, 2);
    // a lower pair never replaces a higher one
    let v2 = Vote { epoch: 2, block_hash: vec![2], height: 9, voter: 1, signature: vec![] };
    c.update_highest_cert(v2, Certificate::empty());
    assert_eq!(c.highest_cert_vote.epoch, 3);
    assert_eq!(c.highest_height, 2);
    // same epoch, higher height replaces
    let v3 = Vote { epoch: 3, block_hash: vec![3], height: 5, voter: 1, signature: vec![] };
    c.update_highest_cert(v3, Certificate::empty());
    assert_eq!(c.highest_height, 5);
}

#[test]
fn stop_accepting_checks_epoch() {
    let mut c = small_context();
    assert_eq!(c.stop_accepting_sync_certs(1), Err(ProtoError::WrongEpoch));
    assert!(!c.rnd_ctx.stop_accepting_sync_certs);
    assert_eq!(c.stop_accepting_sync_certs(2), Ok(()));
    assert!(c.rnd_ctx.stop_accepting_sync_certs);
}

#[test]
fn new_epoch_arms_timers_and_reports_status() {
    let mut c = small_context();
    let mut q = EventQueue::new(0);
    let mut buf = MsgBuf::new();
    // next epoch is 3, led by replica 3: this replica reports to it
    c.new_epoch(&mut q, &mut buf);
    assert_eq!(c.epoch, 3);
    assert_eq!(c.last_leader, 3);
    assert_eq!(buf.msgs.len(), 2);
    assert_eq!(buf.msgs[0].0, 3);
    assert_eq!(buf.msgs[1].0, 3);
    assert!(matches!(buf.msgs[0].1, optrand::msg::ProtocolMsg::RawEpochPVSSSharing(_)));
    match &buf.msgs[1].1 {
        optrand::msg::ProtocolMsg::RawStatus(e, h, _) => {
            assert_eq!(*e, 2);
            assert_eq!(*h, 0);
        },
        _ => panic!("expected a status report"),
    }
    assert_eq!(q.next_deadline(), Some(200));
}

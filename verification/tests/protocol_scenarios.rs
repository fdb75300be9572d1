//! End-to-end scenarios over a committee of four replicas with `f = t = 1`
//! and `delta = 50` ms of logical time.

use optrand::config::Node;
use optrand::msg::hash_bytes;
use optrand::msg::sign_bytes;
use optrand::msg::vote_keygen;
use optrand::events::Event;
use optrand::msg::Certificate;
use optrand::msg::MsgBuf;
use optrand::msg::ProtocolMsg;
use optrand::msg::Vote;
use optrand::pvss::PvssContext;
use optrand::sched::EventQueue;
use optrand::state::Context;
use optrand::state::ProtoError;
use optrand::state::RoundContext;
use optrand::wire::decode_msg;
use optrand::wire::enc_block;
use optrand::wire::encode_msg;

const N: usize = 4;
const DELTA: u64 = 50;

fn make_committee(start_epoch: u64) -> (Vec<Context>, Vec<EventQueue>, Vec<MsgBuf>) {
    let mut vote_sks = Vec::new();
    let mut vote_pks = Vec::new();
    for _ in 0..N {
        let (sk, pk) = vote_keygen();
        vote_sks.push(sk);
        vote_pks.push(pk);
    }
    let mut pvss_sks = Vec::new();
    let mut pvss_pks = Vec::new();
    for _ in 0..N {
        let (sk, pk) = PvssContext::keygen();
        pvss_sks.push(sk);
        pvss_pks.push(pk);
    }
    let h2 = PvssContext::genesis_h2();
    let mut ctxs = Vec::new();
    let mut queues = Vec::new();
    let mut bufs = Vec::new();
    for i in 0..N {
        let pvss_ctx =
            PvssContext::new(i, 1, h2.clone(), pvss_pks.clone(), pvss_sks[i].clone()).unwrap();
        ctxs.push(Context {
            config: Node { id: i, num_nodes: N, delta: DELTA },
            pvss_ctx,
            my_vote_sk: vote_sks[i].clone(),
            vote_pks: vote_pks.clone(),
            epoch: start_epoch,
            epoch_timer: 0,
            last_leader: 0,
            last_leader_epoch: 0,
            highest_cert: Certificate::empty(),
            highest_cert_vote: Vote {
                epoch: 0,
                block_hash: vec![0u8; 32],
                height: 0,
                voter: 0,
                signature: Vec::new(),
            },
            highest_height: 0,
            pvss_shares: Vec::new(),
            pvss_indices: Vec::new(),
            rnd_ctx: RoundContext {
                stop_accepting_sync_certs: false,
                received_sync_cert_directly: false,
                committed_this_epoch: false,
                proposed_this_epoch: false,
            },
            sync_cert_store: Vec::new(),
            decryption_shares: vec![None; N],
            current_agg: None,
            current_block_hash: None,
            votes_received: Vec::new(),
            committed: Vec::new(),
            beacons: Vec::new(),
            equivocation_seen: false,
        });
        queues.push(EventQueue::new(0));
        bufs.push(MsgBuf::new());
    }
    (ctxs, queues, bufs)
}

fn clone_msg(m: &ProtocolMsg) -> ProtocolMsg {
    decode_msg(&encode_msg(m)).unwrap()
}

/// Move every buffered outbound message into the addressees' queues.
/// `to == N` is broadcast to everyone but the sender.
fn route_all(bufs: &mut Vec<MsgBuf>, queues: &mut Vec<EventQueue>, skip: Option<usize>) {
    for i in 0..N {
        let msgs = std::mem::replace(&mut bufs[i].msgs, Vec::new());
        for (to, m) in msgs {
            if to == N {
                for j in 0..N {
                    if j != i && Some(j) != skip {
                        queues[j].add_event(Event::Message(i, clone_msg(&m)));
                    }
                }
            } else if Some(to) != skip {
                queues[to].add_event(Event::Message(i, clone_msg(&m)));
            }
        }
    }
}

/// Process ready events and expired timers everywhere until quiescent,
/// routing outbound messages between rounds.  Replicas in `skip` neither
/// run nor receive anything (a crashed or silent node).
fn pump(
    ctxs: &mut Vec<Context>,
    queues: &mut Vec<EventQueue>,
    bufs: &mut Vec<MsgBuf>,
    skip: Option<usize>,
) {
    loop {
        let mut any = false;
        for i in 0..N {
            if Some(i) == skip {
                continue;
            }
            while let Some(ev) = queues[i].pop_next() {
                let _ = ctxs[i].on_event(ev, &mut queues[i], &mut bufs[i]);
                any = true;
            }
        }
        let pending: usize = bufs.iter().map(|b| b.msgs.len()).sum();
        route_all(bufs, queues, skip);
        if !any && pending == 0 {
            break;
        }
    }
}

fn advance(queues: &mut Vec<EventQueue>, t: u64) {
    for q in queues.iter_mut() {
        q.advance_time(t);
    }
}

/// Happy path: an honest leader proposes, everyone votes, the sync
/// certificate forms and rests, all four replicas commit the same block
/// and reconstruct byte-identical beacons.
#[test]
fn happy_path_honest_leader() {
    // next epoch is 4, whose leader is replica 0
    let (mut ctxs, mut queues, mut bufs) = make_committee(3);
    for i in 0..N {
        ctxs[i].new_epoch(&mut queues[i], &mut bufs[i]);
    }
    route_all(&mut bufs, &mut queues, None);
    pump(&mut ctxs, &mut queues, &mut bufs, None);
    // status round done; the leader proposes at two delays
    advance(&mut queues, 2 * DELTA);
    pump(&mut ctxs, &mut queues, &mut bufs, None);
    // sync certs are out; commit timers fire two delays later
    advance(&mut queues, 4 * DELTA);
    pump(&mut ctxs, &mut queues, &mut bufs, None);
    for i in 0..N {
        assert_eq!(ctxs[i].epoch, 4);
        assert_eq!(ctxs[i].committed.len(), 1, "replica {} did not commit", i);
        assert_eq!(ctxs[i].committed[0].0, 4);
        assert_eq!(ctxs[i].committed[0].1, ctxs[0].committed[0].1);
        assert_eq!(ctxs[i].beacons.len(), 1, "replica {} has no beacon", i);
        assert_eq!(ctxs[i].beacons[0].1, ctxs[0].beacons[0].1);
    }
}

/// Silent leader: nothing is proposed, nobody votes or commits, and the
/// epoch ends on its timer with `highest_cert` unchanged.
#[test]
fn silent_leader_epoch_times_out() {
    // next epoch is 5, whose leader is replica 1; replica 1 stays silent
    let (mut ctxs, mut queues, mut bufs) = make_committee(4);
    for i in 0..N {
        if i != 1 {
            ctxs[i].new_epoch(&mut queues[i], &mut bufs[i]);
        }
    }
    route_all(&mut bufs, &mut queues, Some(1));
    pump(&mut ctxs, &mut queues, &mut bufs, Some(1));
    advance(&mut queues, 4 * DELTA);
    pump(&mut ctxs, &mut queues, &mut bufs, Some(1));
    advance(&mut queues, 11 * DELTA);
    pump(&mut ctxs, &mut queues, &mut bufs, Some(1));
    for i in 0..N {
        if i == 1 {
            continue;
        }
        assert_eq!(ctxs[i].committed.len(), 0);
        assert_eq!(ctxs[i].beacons.len(), 0);
        assert_eq!(ctxs[i].epoch, 6, "replica {} did not move on", i);
        assert_eq!(ctxs[i].highest_height, 0);
    }
}

/// Equivocating leader: block `B` goes to replicas 1 and 2, a different
/// `B2` to replica 3.  `B` gathers the certificate and commits at 1 and 2;
/// replica 3 observes the equivocation and commits nothing.
#[test]
fn equivocating_leader() {
    let (mut ctxs, mut queues, mut bufs) = make_committee(3);
    for i in 0..N {
        ctxs[i].new_epoch(&mut queues[i], &mut bufs[i]);
    }
    route_all(&mut bufs, &mut queues, None);
    pump(&mut ctxs, &mut queues, &mut bufs, None);
    // let only the leader run its propose timer
    advance(&mut queues, 2 * DELTA);
    while let Some(ev) = queues[0].pop_next() {
        let _ = ctxs[0].on_event(ev, &mut queues[0], &mut bufs[0]);
    }
    // take the proposal out of the leader's buffer
    let msgs = std::mem::replace(&mut bufs[0].msgs, Vec::new());
    let mut proposal = None;
    for (_, m) in msgs {
        if let ProtocolMsg::Proposal(e, b, s) = m {
            proposal = Some((e, b, s));
        }
    }
    let (e, block, sig) = proposal.expect("no proposal from the leader");
    // forge the second block: same aggregate, different payload
    let block2 = optrand::msg::Block {
        parent_hash: block.parent_hash.clone(),
        height: block.height,
        payload: vec![1u8],
        aggregate: block.aggregate.clone(),
        decomposition: block.decomposition.clone(),
    };
    let mut b2bytes = Vec::new();
    enc_block(&mut b2bytes, &block2);
    let h2 = hash_bytes(&b2bytes);
    let mut smsg = Vec::new();
    smsg.extend_from_slice(&e.to_be_bytes());
    smsg.extend_from_slice(&h2);
    let sig2 = sign_bytes(&ctxs[0].my_vote_sk, &smsg);
    // B to replicas 1 and 2, B2 to replica 3
    for j in [1usize, 2] {
        let m = ProtocolMsg::Proposal(e, clone_block(&block), sig.clone());
        queues[j].add_event(Event::Message(0, m));
    }
    queues[3].add_event(Event::Message(0, ProtocolMsg::Proposal(e, clone_block(&block2), sig2)));
    pump(&mut ctxs, &mut queues, &mut bufs, None);
    // replica 3 now also sees B: equivocation observed
    queues[3].add_event(
        Event::Message(0, ProtocolMsg::Proposal(e, clone_block(&block), sig.clone())),
    );
    pump(&mut ctxs, &mut queues, &mut bufs, None);
    assert!(ctxs[3].equivocation_seen);
    advance(&mut queues, 5 * DELTA);
    pump(&mut ctxs, &mut queues, &mut bufs, None);
    assert_eq!(ctxs[1].committed.len(), 1);
    assert_eq!(ctxs[2].committed.len(), 1);
    assert_eq!(ctxs[1].committed[0].1, ctxs[2].committed[0].1);
    assert_eq!(ctxs[3].committed.len(), 0);
}

fn clone_block(b: &optrand::msg::Block) -> optrand::msg::Block {
    optrand::msg::Block {
        parent_hash: b.parent_hash.clone(),
        height: b.height,
        payload: b.payload.clone(),
        aggregate: b.aggregate.clone(),
        decomposition: b.decomposition.clone(),
    }
}

/// A sync certificate that arrives after `StopAcceptingSyncCerts` is
/// refused as too late, and the receiver does not commit.
#[test]
fn late_sync_cert_is_refused() {
    let (mut ctxs, mut queues, mut bufs) = make_committee(3);
    for i in 0..N {
        ctxs[i].new_epoch(&mut queues[i], &mut bufs[i]);
    }
    // replica 3 receives nothing all epoch
    route_all(&mut bufs, &mut queues, Some(3));
    pump(&mut ctxs, &mut queues, &mut bufs, Some(3));
    advance(&mut queues, 2 * DELTA);
    pump(&mut ctxs, &mut queues, &mut bufs, Some(3));
    // capture a sync certificate from what replicas 0..2 produced
    let mut sync_cert = None;
    for i in 0..3 {
        for (v, c) in &ctxs[i].sync_cert_store {
            sync_cert = Some((v.clone_vote(), c.clone_cert()));
        }
    }
    let (v, c) = sync_cert.expect("no sync certificate formed");
    // rebuild the leader's delivery proof for it
    let sb = {
        let mut out = Vec::new();
        out.extend_from_slice(&v.epoch.to_be_bytes());
        out.extend_from_slice(&v.block_hash);
        out
    };
    let acc = hash_bytes(&sb);
    let mut smsg = Vec::new();
    smsg.extend_from_slice(&v.epoch.to_be_bytes());
    smsg.extend_from_slice(&acc);
    let lsig = sign_bytes(&ctxs[0].my_vote_sk, &smsg);
    let pf = optrand::msg::Proof {
        acc,
        sign: Certificate { msg: smsg, signers: vec![0], sigs: vec![lsig] },
    };
    let prop = optrand::msg::SyncCertProposal {
        data: optrand::msg::SyncCertData { vote: v, cert: c },
    };
    // replica 3's cutoff fires at seven delays
    advance(&mut queues, 8 * DELTA);
    while let Some(ev) = queues[3].pop_next() {
        let _ = ctxs[3].on_event(ev, &mut queues[3], &mut bufs[3]);
    }
    assert!(ctxs[3].rnd_ctx.stop_accepting_sync_certs);
    let r = ctxs[3].verify_sync_cert(0, &prop, &pf);
    assert_eq!(r, Err(ProtoError::TooLate));
    assert_eq!(ctxs[3].committed.len(), 0);
}

/// With only one decryption share (t = 1), no beacon is emitted, and the
/// epoch still ends on its timer.
#[test]
fn decryption_share_shortage() {
    let (mut ctxs, mut queues, mut bufs) = make_committee(3);
    for i in 0..N {
        ctxs[i].new_epoch(&mut queues[i], &mut bufs[i]);
    }
    route_all(&mut bufs, &mut queues, None);
    pump(&mut ctxs, &mut queues, &mut bufs, None);
    advance(&mut queues, 2 * DELTA);
    pump(&mut ctxs, &mut queues, &mut bufs, None);
    // commit fires, but every decryption share is dropped in transit
    advance(&mut queues, 4 * DELTA);
    loop {
        let mut any = false;
        for i in 0..N {
            while let Some(ev) = queues[i].pop_next() {
                let _ = ctxs[i].on_event(ev, &mut queues[i], &mut bufs[i]);
                any = true;
            }
        }
        let pending: usize = bufs.iter().map(|b| b.msgs.len()).sum();
        for i in 0..N {
            let msgs = std::mem::replace(&mut bufs[i].msgs, Vec::new());
            for (to, m) in msgs {
                if matches!(m, ProtocolMsg::DecryptionShare(_, _)) {
                    continue;
                }
                if to == N {
                    for j in 0..N {
                        if j != i {
                            queues[j].add_event(Event::Message(i, clone_msg(&m)));
                        }
                    }
                } else {
                    queues[to].add_event(Event::Message(i, clone_msg(&m)));
                }
            }
        }
        if !any && pending == 0 {
            break;
        }
    }
    for i in 0..N {
        assert_eq!(ctxs[i].committed.len(), 1);
        assert_eq!(ctxs[i].beacons.len(), 0, "replica {} built a beacon from one share", i);
    }
    // the epoch still ends and the committee moves on
    advance(&mut queues, 11 * DELTA);
    pump(&mut ctxs, &mut queues, &mut bufs, None);
    for i in 0..N {
        assert_eq!(ctxs[i].epoch, 5);
    }
}

/// Cross-epoch catch-up: a restarted replica raises `highest_cert`
/// monotonically from peers' status reports and does not jump epochs.
#[test]
fn cross_epoch_catch_up() {
    let (mut ctxs, mut queues, mut bufs) = make_committee(3);
    for i in 0..N {
        ctxs[i].new_epoch(&mut queues[i], &mut bufs[i]);
    }
    route_all(&mut bufs, &mut queues, None);
    pump(&mut ctxs, &mut queues, &mut bufs, None);
    advance(&mut queues, 2 * DELTA);
    pump(&mut ctxs, &mut queues, &mut bufs, None);
    let (v, c) = {
        let (v, c) = &ctxs[0].sync_cert_store[0];
        (v.clone_vote(), c.clone_cert())
    };
    assert!(v.height >= 1);
    // a freshly started replica at (0, 0)
    let (mut fresh, _q2, _b2) = make_committee(0);
    let mut r = fresh.remove(3);
    assert_eq!(r.highest_height, 0);
    // peers' vote keys differ, so graft the running committee's key set
    r.vote_pks = ctxs[3].vote_pks.clone();
    r.my_vote_sk = ctxs[3].my_vote_sk.clone();
    let before_epoch = r.epoch;
    let res = r.on_status(1, v.height, c.clone_cert());
    assert!(res.is_ok());
    assert_eq!(r.highest_height, v.height);
    assert_eq!(r.highest_cert_vote.epoch, v.epoch);
    // a stale (lower) status changes nothing
    let res2 = r.on_status(2, v.height, c.clone_cert());
    assert!(res2.is_ok());
    assert_eq!(r.highest_height, v.height);
    // catching up on certificates does not advance the local epoch clock
    assert_eq!(r.epoch, before_epoch);
}

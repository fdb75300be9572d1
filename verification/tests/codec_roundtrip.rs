//! Round trips of the wire codec for every message variant, exercised on
//! concrete values; the general law is proved in the library.

use optrand::msg::Block;
use optrand::msg::Certificate;
use optrand::msg::Proof;
use optrand::msg::ProtocolMsg;
use optrand::msg::SyncCertData;
use optrand::msg::SyncCertProposal;
use optrand::msg::Vote;
use optrand::pvss::AggregatePVSS;
use optrand::pvss::Beacon;
use optrand::pvss::DecompositionProof;
use optrand::pvss::Decryption;
use optrand::pvss::DleqProof;
use optrand::pvss::PVSSVec;
use optrand::wire::decode_msg;
use optrand::wire::encode_msg;

fn sample_vote() -> Vote {
    Vote {
        epoch: 7,
        block_hash: vec![1, 2, 3, 4],
        height: 9,
        voter: 2,
        signature: vec![5; 64],
    }
}

fn sample_cert() -> Certificate {
    Certificate {
        msg: vec![9, 9, 9],
        signers: vec![0, 2, 3],
        sigs: vec![vec![1; 64], vec![2; 64], vec![3; 64]],
    }
}

fn sample_pvss() -> PVSSVec {
    PVSSVec {
        comms: vec![vec![10; 48], vec![11; 48]],
        encs: vec![vec![12; 48], vec![13; 48]],
        proofs: vec![
            DleqProof { challenge: vec![1; 32], response: vec![2; 32] },
            DleqProof { challenge: vec![3; 32], response: vec![4; 32] },
        ],
    }
}

fn sample_agg() -> AggregatePVSS {
    AggregatePVSS { encs: vec![vec![20; 48]], comms: vec![vec![21; 48]] }
}

fn sample_decomp() -> DecompositionProof {
    DecompositionProof {
        idx: 1,
        indices: vec![0, 3],
        comms: vec![vec![30; 48], vec![31; 48]],
        encs: vec![vec![32; 48], vec![33; 48]],
        dleq_proofs: vec![
            DleqProof { challenge: vec![5; 32], response: vec![6; 32] },
            DleqProof { challenge: vec![7; 32], response: vec![8; 32] },
        ],
    }
}

/// Encoding is canonical, so re-encoding a decoded message must give back
/// the exact bytes; spot-check fields as well.
fn roundtrip(m: &ProtocolMsg) -> ProtocolMsg {
    let bytes = encode_msg(m);
    let m2 = decode_msg(&bytes).expect("decode failed");
    assert_eq!(encode_msg(&m2), bytes);
    m2
}

#[test]
fn roundtrip_raw_sharing() {
    let m = ProtocolMsg::RawEpochPVSSSharing(sample_pvss());
    match roundtrip(&m) {
        ProtocolMsg::RawEpochPVSSSharing(p) => {
            assert_eq!(p.comms, sample_pvss().comms);
            assert_eq!(p.proofs.len(), 2);
            assert_eq!(p.proofs[1].response, vec![4; 32]);
        },
        _ => panic!("wrong variant"),
    }
}

#[test]
fn roundtrip_raw_status() {
    let m = ProtocolMsg::RawStatus(4, 2, sample_cert());
    match roundtrip(&m) {
        ProtocolMsg::RawStatus(e, h, c) => {
            assert_eq!(e, 4);
            assert_eq!(h, 2);
            assert_eq!(c.signers, vec![0, 2, 3]);
            assert_eq!(c.sigs[2], vec![3; 64]);
        },
        _ => panic!("wrong variant"),
    }
}

#[test]
fn roundtrip_proposal() {
    let b = Block {
        parent_hash: vec![8; 32],
        height: 3,
        payload: vec![1, 2],
        aggregate: sample_agg(),
        decomposition: sample_decomp(),
    };
    let m = ProtocolMsg::Proposal(5, b, vec![7; 64]);
    match roundtrip(&m) {
        ProtocolMsg::Proposal(e, b2, s) => {
            assert_eq!(e, 5);
            assert_eq!(b2.height, 3);
            assert_eq!(b2.payload, vec![1, 2]);
            assert_eq!(b2.decomposition.indices, vec![0, 3]);
            assert_eq!(s, vec![7; 64]);
        },
        _ => panic!("wrong variant"),
    }
}

#[test]
fn roundtrip_vote() {
    let m = ProtocolMsg::Vote(sample_vote());
    match roundtrip(&m) {
        ProtocolMsg::Vote(v) => {
            assert_eq!(v.epoch, 7);
            assert_eq!(v.block_hash, vec![1, 2, 3, 4]);
            assert_eq!(v.height, 9);
            assert_eq!(v.voter, 2);
        },
        _ => panic!("wrong variant"),
    }
}

#[test]
fn roundtrip_sync_cert() {
    let prop = SyncCertProposal {
        data: SyncCertData { vote: sample_vote(), cert: sample_cert() },
    };
    let pf = Proof {
        acc: vec![6; 32],
        sign: Certificate { msg: vec![1], signers: vec![0], sigs: vec![vec![2; 64]] },
    };
    let m = ProtocolMsg::SyncCert(prop, pf);
    match roundtrip(&m) {
        ProtocolMsg::SyncCert(p, pf2) => {
            assert_eq!(p.data.vote.epoch, 7);
            assert_eq!(p.data.cert.signers, vec![0, 2, 3]);
            assert_eq!(pf2.acc, vec![6; 32]);
            assert_eq!(pf2.sign.signers, vec![0]);
        },
        _ => panic!("wrong variant"),
    }
}

#[test]
fn roundtrip_deliver() {
    let m = ProtocolMsg::Deliver(9, vec![1, 2, 3]);
    match roundtrip(&m) {
        ProtocolMsg::Deliver(e, b) => {
            assert_eq!(e, 9);
            assert_eq!(b, vec![1, 2, 3]);
        },
        _ => panic!("wrong variant"),
    }
}

#[test]
fn roundtrip_decryption_share() {
    let d = Decryption {
        dec: vec![40; 48],
        dleq_proof: DleqProof { challenge: vec![41; 32], response: vec![42; 32] },
    };
    let m = ProtocolMsg::DecryptionShare(3, d);
    match roundtrip(&m) {
        ProtocolMsg::DecryptionShare(e, d2) => {
            assert_eq!(e, 3);
            assert_eq!(d2.dec, vec![40; 48]);
            assert_eq!(d2.dleq_proof.challenge, vec![41; 32]);
        },
        _ => panic!("wrong variant"),
    }
}

#[test]
fn roundtrip_beacon() {
    let m = ProtocolMsg::Beacon(8, vec![9; 48]);
    match roundtrip(&m) {
        ProtocolMsg::Beacon(e, v) => {
            assert_eq!(e, 8);
            assert_eq!(v, vec![9; 48]);
        },
        _ => panic!("wrong variant"),
    }
}

#[test]
fn roundtrip_beacon_struct_value() {
    // the beacon object's fields survive the wire pair-wise
    let b = Beacon { beacon: vec![1; 576], value: vec![2; 48] };
    let m = ProtocolMsg::Beacon(1, b.value.clone());
    match roundtrip(&m) {
        ProtocolMsg::Beacon(_, v) => assert_eq!(v, b.value),
        _ => panic!("wrong variant"),
    }
}

#[test]
fn framing_roundtrip() {
    let m = ProtocolMsg::Vote(sample_vote());
    let framed = optrand::wire::frame_msg(&m).unwrap();
    assert_eq!(
        u32::from_be_bytes([framed[0], framed[1], framed[2], framed[3]]) as usize,
        framed.len() - 4
    );
    let m2 = optrand::wire::deframe_msg(&framed).expect("deframe failed");
    assert_eq!(encode_msg(&m2), encode_msg(&m));
    // a frame with a wrong length prefix is refused
    let mut bad = framed.clone();
    bad[3] = bad[3].wrapping_add(1);
    assert!(optrand::wire::deframe_msg(&bad).is_none());
}

#[test]
fn truncated_buffer_is_rejected() {
    let m = ProtocolMsg::Vote(sample_vote());
    let mut bytes = encode_msg(&m);
    bytes.pop();
    assert!(decode_msg(&bytes).is_none());
}

#[test]
fn trailing_garbage_is_rejected() {
    let m = ProtocolMsg::Vote(sample_vote());
    let mut bytes = encode_msg(&m);
    bytes.push(0);
    assert!(decode_msg(&bytes).is_none());
}

#[test]
fn unknown_tag_is_rejected() {
    let mut bytes = vec![0u8; 8];
    bytes[7] = 99;
    assert!(decode_msg(&bytes).is_none());
}

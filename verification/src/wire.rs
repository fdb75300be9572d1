//! Wire format of protocol messages and crypto objects, built from the
//! primitives in `codec`.
//!
//! Every object has a ghost view (its fields as sequences), an encoder, a
//! decoder, and a round-trip lemma: decoding an encoding yields the view of
//! what was encoded.  Decoders return `None` on malformed input; their
//! contracts pin the successful case exactly.

use vstd::prelude::*;

use crate::codec::spec_enc_u64;
use crate::codec::spec_enc_bytes;
use crate::codec::spec_enc_vecbytes;
use crate::codec::spec_enc_vecu64;
use crate::codec::spec_dec_u64;
use crate::codec::spec_dec_bytes;
use crate::codec::spec_dec_vecbytes;
use crate::codec::spec_dec_vecu64;
use crate::codec::lemma_enc_dec_u64;
use crate::codec::lemma_enc_dec_bytes;
use crate::codec::lemma_enc_dec_vecbytes;
use crate::codec::lemma_enc_dec_vecu64;
use crate::codec::enc_u64;
use crate::codec::enc_bytes;
use crate::codec::enc_vecbytes;
use crate::codec::enc_vec_replica;
use crate::codec::dec_u64;
use crate::codec::dec_bytes;
use crate::codec::dec_vecbytes;
use crate::codec::dec_vec_replica;
use crate::codec::u64_views;
use crate::msg::Vote;
use crate::msg::Certificate;
use crate::pvss::byte_views;

verus! {

/// Ghost view of a vote.
#[verifier::ext_equal]
pub struct VoteW {
    pub epoch: u64,
    pub block_hash: Seq<u8>,
    pub height: u64,
    pub voter: u64,
    pub signature: Seq<u8>,
}

/// Ghost view of a certificate.
#[verifier::ext_equal]
pub struct CertW {
    pub msg: Seq<u8>,
    pub signers: Seq<u64>,
    pub sigs: Seq<Seq<u8>>,
}

pub open spec fn vote_view(v: Vote) -> VoteW {
    VoteW {
        epoch: v.epoch,
        block_hash: v.block_hash@,
        height: v.height,
        voter: v.voter as u64,
        signature: v.signature@,
    }
}

pub open spec fn cert_view(c: Certificate) -> CertW {
    CertW { msg: c.msg@, signers: u64_views(c.signers@), sigs: byte_views(c.sigs@) }
}

/// Structural bounds every vote that exists in memory satisfies.
pub open spec fn vote_w_wf(w: VoteW) -> bool {
    w.block_hash.len() <= u64::MAX && w.signature.len() <= u64::MAX && w.voter < 0x1_0000_0000
}

/// Structural bounds every certificate in memory satisfies.
pub open spec fn cert_w_wf(w: CertW) -> bool {
    &&& w.msg.len() <= u64::MAX
    &&& w.signers.len() <= u64::MAX
    &&& w.sigs.len() <= u64::MAX
    &&& forall|j: int| 0 <= j < w.signers.len() ==> (#[trigger] w.signers[j]) < 0x1_0000_0000
    &&& forall|j: int| 0 <= j < w.sigs.len() ==> (#[trigger] w.sigs[j]).len() <= u64::MAX
}

pub open spec fn spec_enc_vote(w: VoteW) -> Seq<u8> {
    spec_enc_u64(w.epoch) + spec_enc_bytes(w.block_hash) + spec_enc_u64(w.height) + spec_enc_u64(
        w.voter,
    ) + spec_enc_bytes(w.signature)
}

pub open spec fn spec_dec_vote(s: Seq<u8>) -> Option<(VoteW, Seq<u8>)> {
    match spec_dec_u64(s) {
        Option::None => Option::None,
        Option::Some((epoch, r1)) => match spec_dec_bytes(r1) {
            Option::None => Option::None,
            Option::Some((bh, r2)) => match spec_dec_u64(r2) {
                Option::None => Option::None,
                Option::Some((height, r3)) => match spec_dec_u64(r3) {
                    Option::None => Option::None,
                    Option::Some((voter, r4)) => if voter < 0x1_0000_0000 {
                        match spec_dec_bytes(r4) {
                            Option::None => Option::None,
                            Option::Some((sig, r5)) => Option::Some(
                                (
                                    VoteW {
                                        epoch,
                                        block_hash: bh,
                                        height,
                                        voter,
                                        signature: sig,
                                    },
                                    r5,
                                ),
                            ),
                        }
                    } else {
                        Option::None
                    },
                },
            },
        },
    }
}

/// Round trip for votes.
pub proof fn lemma_enc_dec_vote(w: VoteW, rest: Seq<u8>)
    requires
        vote_w_wf(w),
    ensures
        spec_dec_vote(spec_enc_vote(w) + rest) == Some((w, rest)),
{
    let t4 = spec_enc_bytes(w.signature) + rest;
    let t3 = spec_enc_u64(w.voter) + t4;
    let t2 = spec_enc_u64(w.height) + t3;
    let t1 = spec_enc_bytes(w.block_hash) + t2;
    assert(spec_enc_vote(w) + rest =~= spec_enc_u64(w.epoch) + t1);
    lemma_enc_dec_u64(w.epoch, t1);
    assert(t1 =~= spec_enc_bytes(w.block_hash) + t2);
    lemma_enc_dec_bytes(w.block_hash, t2);
    lemma_enc_dec_u64(w.height, t3);
    lemma_enc_dec_u64(w.voter, t4);
    lemma_enc_dec_bytes(w.signature, rest);
}

/// Append the encoding of a vote.
pub fn enc_vote(out: &mut Vec<u8>, v: &Vote)
    ensures
        final(out)@ == old(out)@ + spec_enc_vote(vote_view(*v)),
{
    enc_u64(out, v.epoch);
    enc_bytes(out, &v.block_hash);
    enc_u64(out, v.height);
    enc_u64(out, v.voter as u64);
    enc_bytes(out, &v.signature);
    proof {
        assert(out@ =~= old(out)@ + spec_enc_vote(vote_view(*v)));
    }
}

/// Read a vote at `pos`.
pub fn dec_vote(buf: &Vec<u8>, pos: usize) -> (r: Option<(Vote, usize)>)
    requires
        pos <= buf@.len(),
    ensures
        r matches Some((v, p)) ==> pos <= p <= buf@.len() && spec_dec_vote(buf@.skip(pos as int))
            == Some((vote_view(v), buf@.skip(p as int))),
        r is None ==> spec_dec_vote(buf@.skip(pos as int)) is None,
{
    let (epoch, p1) = match dec_u64(buf, pos) {
        Some(x) => x,
        None => {
            return None;
        },
    };
    let (bh, p2) = match dec_bytes(buf, p1) {
        Some(x) => x,
        None => {
            return None;
        },
    };
    let (height, p3) = match dec_u64(buf, p2) {
        Some(x) => x,
        None => {
            return None;
        },
    };
    let (voter, p4) = match dec_u64(buf, p3) {
        Some(x) => x,
        None => {
            return None;
        },
    };
    if voter >= 0x1_0000_0000u64 {
        return None;
    }
    let (sig, p5) = match dec_bytes(buf, p4) {
        Some(x) => x,
        None => {
            return None;
        },
    };
    Some(
        (
            Vote {
                epoch,
                block_hash: bh,
                height,
                voter: voter as usize,
                signature: sig,
            },
            p5,
        ),
    )
}

pub open spec fn spec_enc_cert(w: CertW) -> Seq<u8> {
    spec_enc_bytes(w.msg) + spec_enc_vecu64(w.signers) + spec_enc_vecbytes(w.sigs)
}

pub open spec fn spec_dec_cert(s: Seq<u8>) -> Option<(CertW, Seq<u8>)> {
    match spec_dec_bytes(s) {
        Option::None => Option::None,
        Option::Some((m, r1)) => match spec_dec_vecu64(r1) {
            Option::None => Option::None,
            Option::Some((signers, r2)) => match spec_dec_vecbytes(r2) {
                Option::None => Option::None,
                Option::Some((sigs, r3)) => if forall|j: int|
                    0 <= j < signers.len() ==> (#[trigger] signers[j]) < 0x1_0000_0000 {
                    Option::Some((CertW { msg: m, signers, sigs }, r3))
                } else {
                    Option::None
                },
            },
        },
    }
}

/// Round trip for certificates.
pub proof fn lemma_enc_dec_cert(w: CertW, rest: Seq<u8>)
    requires
        cert_w_wf(w),
    ensures
        spec_dec_cert(spec_enc_cert(w) + rest) == Some((w, rest)),
{
    let t2 = spec_enc_vecbytes(w.sigs) + rest;
    let t1 = spec_enc_vecu64(w.signers) + t2;
    assert(spec_enc_cert(w) + rest =~= spec_enc_bytes(w.msg) + t1);
    lemma_enc_dec_bytes(w.msg, t1);
    lemma_enc_dec_vecu64(w.signers, t2);
    lemma_enc_dec_vecbytes(w.sigs, rest);
}

/// Append the encoding of a certificate.
pub fn enc_cert(out: &mut Vec<u8>, c: &Certificate)
    ensures
        final(out)@ == old(out)@ + spec_enc_cert(cert_view(*c)),
{
    enc_bytes(out, &c.msg);
    enc_vec_replica(out, &c.signers);
    enc_vecbytes(out, &c.sigs);
    proof {
        assert(out@ =~= old(out)@ + spec_enc_cert(cert_view(*c)));
    }
}

/// Read a certificate at `pos`.
pub fn dec_cert(buf: &Vec<u8>, pos: usize) -> (r: Option<(Certificate, usize)>)
    requires
        pos <= buf@.len(),
    ensures
        r matches Some((c, p)) ==> pos <= p <= buf@.len() && spec_dec_cert(buf@.skip(pos as int))
            == Some((cert_view(c), buf@.skip(p as int))),
        r is None ==> spec_dec_cert(buf@.skip(pos as int)) is None,
{
    let (m, p1) = match dec_bytes(buf, pos) {
        Some(x) => x,
        None => {
            return None;
        },
    };
    let (signers, p2) = match dec_vec_replica(buf, p1) {
        Some(x) => x,
        None => {
            return None;
        },
    };
    let (sigs, p3) = match dec_vecbytes(buf, p2) {
        Some(x) => x,
        None => {
            return None;
        },
    };
    let c = Certificate { msg: m, signers, sigs };
    proof {
        assert(forall|j: int|
            0 <= j < u64_views(c.signers@).len() ==> (#[trigger] u64_views(c.signers@)[j])
                < 0x1_0000_0000);
    }
    Some((c, p3))
}

/// Ghost view of a dealing: commitments, encryptions, and the two columns
/// of its DLEQ proofs.
#[verifier::ext_equal]
pub struct PvssW {
    pub comms: Seq<Seq<u8>>,
    pub encs: Seq<Seq<u8>>,
    pub challenges: Seq<Seq<u8>>,
    pub responses: Seq<Seq<u8>>,
}

/// Ghost view of an aggregate.
#[verifier::ext_equal]
pub struct AggW {
    pub encs: Seq<Seq<u8>>,
    pub comms: Seq<Seq<u8>>,
}

/// Ghost view of a decomposition proof.
#[verifier::ext_equal]
pub struct DecompW {
    pub idx: u64,
    pub indices: Seq<u64>,
    pub comms: Seq<Seq<u8>>,
    pub encs: Seq<Seq<u8>>,
    pub challenges: Seq<Seq<u8>>,
    pub responses: Seq<Seq<u8>>,
}

/// Ghost view of a decryption share.
#[verifier::ext_equal]
pub struct DecryW {
    pub dec: Seq<u8>,
    pub challenge: Seq<u8>,
    pub response: Seq<u8>,
}

/// Ghost view of a beacon.
#[verifier::ext_equal]
pub struct BeaconW {
    pub beacon: Seq<u8>,
    pub value: Seq<u8>,
}

/// Ghost view of a block.
#[verifier::ext_equal]
pub struct BlockW {
    pub parent_hash: Seq<u8>,
    pub height: u64,
    pub payload: Seq<u8>,
    pub aggregate: AggW,
    pub decomposition: DecompW,
}

/// Ghost view of a delivery proof.
#[verifier::ext_equal]
pub struct ProofW {
    pub acc: Seq<u8>,
    pub sign: CertW,
}

pub open spec fn challenge_views(v: Seq<crate::pvss::DleqProof>) -> Seq<Seq<u8>> {
    Seq::new(v.len(), |i: int| v[i].challenge@)
}

pub open spec fn response_views(v: Seq<crate::pvss::DleqProof>) -> Seq<Seq<u8>> {
    Seq::new(v.len(), |i: int| v[i].response@)
}

pub open spec fn pvss_view(p: crate::pvss::PVSSVec) -> PvssW {
    PvssW {
        comms: byte_views(p.comms@),
        encs: byte_views(p.encs@),
        challenges: challenge_views(p.proofs@),
        responses: response_views(p.proofs@),
    }
}

pub open spec fn agg_view(a: crate::pvss::AggregatePVSS) -> AggW {
    AggW { encs: byte_views(a.encs@), comms: byte_views(a.comms@) }
}

pub open spec fn decomp_view(d: crate::pvss::DecompositionProof) -> DecompW {
    DecompW {
        idx: d.idx as u64,
        indices: u64_views(d.indices@),
        comms: byte_views(d.comms@),
        encs: byte_views(d.encs@),
        challenges: challenge_views(d.dleq_proofs@),
        responses: response_views(d.dleq_proofs@),
    }
}

pub open spec fn decry_view(d: crate::pvss::Decryption) -> DecryW {
    DecryW {
        dec: d.dec@,
        challenge: d.dleq_proof.challenge@,
        response: d.dleq_proof.response@,
    }
}

pub open spec fn beacon_view(b: crate::pvss::Beacon) -> BeaconW {
    BeaconW { beacon: b.beacon@, value: b.value@ }
}

pub open spec fn block_view(b: crate::msg::Block) -> BlockW {
    BlockW {
        parent_hash: b.parent_hash@,
        height: b.height,
        payload: b.payload@,
        aggregate: agg_view(b.aggregate),
        decomposition: decomp_view(b.decomposition),
    }
}

pub open spec fn proof_view(p: crate::msg::Proof) -> ProofW {
    ProofW { acc: p.acc@, sign: cert_view(p.sign) }
}

/// Byte strings all short enough to carry a length prefix.
pub open spec fn seqs_w_wf(v: Seq<Seq<u8>>) -> bool {
    v.len() <= u64::MAX && forall|j: int| 0 <= j < v.len() ==> (#[trigger] v[j]).len() <= u64::MAX
}

pub open spec fn pvss_w_wf(w: PvssW) -> bool {
    &&& seqs_w_wf(w.comms)
    &&& seqs_w_wf(w.encs)
    &&& seqs_w_wf(w.challenges)
    &&& seqs_w_wf(w.responses)
    &&& w.challenges.len() == w.responses.len()
}

pub open spec fn agg_w_wf(w: AggW) -> bool {
    seqs_w_wf(w.encs) && seqs_w_wf(w.comms)
}

pub open spec fn decomp_w_wf(w: DecompW) -> bool {
    &&& w.idx < 0x1_0000_0000
    &&& w.indices.len() <= u64::MAX
    &&& forall|j: int| 0 <= j < w.indices.len() ==> (#[trigger] w.indices[j]) < 0x1_0000_0000
    &&& seqs_w_wf(w.comms)
    &&& seqs_w_wf(w.encs)
    &&& seqs_w_wf(w.challenges)
    &&& seqs_w_wf(w.responses)
    &&& w.challenges.len() == w.responses.len()
}

pub open spec fn decry_w_wf(w: DecryW) -> bool {
    w.dec.len() <= u64::MAX && w.challenge.len() <= u64::MAX && w.response.len() <= u64::MAX
}

pub open spec fn beacon_w_wf(w: BeaconW) -> bool {
    w.beacon.len() <= u64::MAX && w.value.len() <= u64::MAX
}

pub open spec fn block_w_wf(w: BlockW) -> bool {
    &&& w.parent_hash.len() <= u64::MAX
    &&& w.payload.len() <= u64::MAX
    &&& agg_w_wf(w.aggregate)
    &&& decomp_w_wf(w.decomposition)
}

pub open spec fn proof_w_wf(w: ProofW) -> bool {
    w.acc.len() <= u64::MAX && cert_w_wf(w.sign)
}

pub open spec fn spec_enc_pvss(w: PvssW) -> Seq<u8> {
    spec_enc_vecbytes(w.comms) + spec_enc_vecbytes(w.encs) + spec_enc_vecbytes(w.challenges)
        + spec_enc_vecbytes(w.responses)
}

pub open spec fn spec_dec_pvss(s: Seq<u8>) -> Option<(PvssW, Seq<u8>)> {
    match spec_dec_vecbytes(s) {
        Option::None => Option::None,
        Option::Some((comms, r1)) => match spec_dec_vecbytes(r1) {
            Option::None => Option::None,
            Option::Some((encs, r2)) => match spec_dec_vecbytes(r2) {
                Option::None => Option::None,
                Option::Some((challenges, r3)) => match spec_dec_vecbytes(r3) {
                    Option::None => Option::None,
                    Option::Some((responses, r4)) => if challenges.len() == responses.len() {
                        Option::Some((PvssW { comms, encs, challenges, responses }, r4))
                    } else {
                        Option::None
                    },
                },
            },
        },
    }
}

pub proof fn lemma_enc_dec_pvss(w: PvssW, rest: Seq<u8>)
    requires
        pvss_w_wf(w),
    ensures
        spec_dec_pvss(spec_enc_pvss(w) + rest) == Some((w, rest)),
{
    let t3 = spec_enc_vecbytes(w.responses) + rest;
    let t2 = spec_enc_vecbytes(w.challenges) + t3;
    let t1 = spec_enc_vecbytes(w.encs) + t2;
    assert(spec_enc_pvss(w) + rest =~= spec_enc_vecbytes(w.comms) + t1);
    lemma_enc_dec_vecbytes(w.comms, t1);
    lemma_enc_dec_vecbytes(w.encs, t2);
    lemma_enc_dec_vecbytes(w.challenges, t3);
    lemma_enc_dec_vecbytes(w.responses, rest);
}

pub open spec fn spec_enc_agg(w: AggW) -> Seq<u8> {
    spec_enc_vecbytes(w.encs) + spec_enc_vecbytes(w.comms)
}

pub open spec fn spec_dec_agg(s: Seq<u8>) -> Option<(AggW, Seq<u8>)> {
    match spec_dec_vecbytes(s) {
        Option::None => Option::None,
        Option::Some((encs, r1)) => match spec_dec_vecbytes(r1) {
            Option::None => Option::None,
            Option::Some((comms, r2)) => Option::Some((AggW { encs, comms }, r2)),
        },
    }
}

pub proof fn lemma_enc_dec_agg(w: AggW, rest: Seq<u8>)
    requires
        agg_w_wf(w),
    ensures
        spec_dec_agg(spec_enc_agg(w) + rest) == Some((w, rest)),
{
    let t1 = spec_enc_vecbytes(w.comms) + rest;
    assert(spec_enc_agg(w) + rest =~= spec_enc_vecbytes(w.encs) + t1);
    lemma_enc_dec_vecbytes(w.encs, t1);
    lemma_enc_dec_vecbytes(w.comms, rest);
}

pub open spec fn spec_enc_decomp(w: DecompW) -> Seq<u8> {
    spec_enc_u64(w.idx) + spec_enc_vecu64(w.indices) + spec_enc_vecbytes(w.comms)
        + spec_enc_vecbytes(w.encs) + spec_enc_vecbytes(w.challenges) + spec_enc_vecbytes(
        w.responses,
    )
}

pub open spec fn spec_dec_decomp(s: Seq<u8>) -> Option<(DecompW, Seq<u8>)> {
    match spec_dec_u64(s) {
        Option::None => Option::None,
        Option::Some((idx, r0)) => if idx < 0x1_0000_0000 {
            match spec_dec_vecu64(r0) {
                Option::None => Option::None,
                Option::Some((indices, r1)) => if forall|j: int|
                    0 <= j < indices.len() ==> (#[trigger] indices[j]) < 0x1_0000_0000 {
                    match spec_dec_vecbytes(r1) {
                        Option::None => Option::None,
                        Option::Some((comms, r2)) => match spec_dec_vecbytes(r2) {
                            Option::None => Option::None,
                            Option::Some((encs, r3)) => match spec_dec_vecbytes(r3) {
                                Option::None => Option::None,
                                Option::Some((challenges, r4)) => match spec_dec_vecbytes(r4) {
                                    Option::None => Option::None,
                                    Option::Some((responses, r5)) => if challenges.len()
                                        == responses.len() {
                                        Option::Some(
                                            (
                                                DecompW {
                                                    idx,
                                                    indices,
                                                    comms,
                                                    encs,
                                                    challenges,
                                                    responses,
                                                },
                                                r5,
                                            ),
                                        )
                                    } else {
                                        Option::None
                                    },
                                },
                            },
                        },
                    }
                } else {
                    Option::None
                },
            }
        } else {
            Option::None
        },
    }
}

pub proof fn lemma_enc_dec_decomp(w: DecompW, rest: Seq<u8>)
    requires
        decomp_w_wf(w),
    ensures
        spec_dec_decomp(spec_enc_decomp(w) + rest) == Some((w, rest)),
{
    let t5 = spec_enc_vecbytes(w.responses) + rest;
    let t4 = spec_enc_vecbytes(w.challenges) + t5;
    let t3 = spec_enc_vecbytes(w.encs) + t4;
    let t2 = spec_enc_vecbytes(w.comms) + t3;
    let t1 = spec_enc_vecu64(w.indices) + t2;
    assert(spec_enc_decomp(w) + rest =~= spec_enc_u64(w.idx) + t1);
    lemma_enc_dec_u64(w.idx, t1);
    lemma_enc_dec_vecu64(w.indices, t2);
    lemma_enc_dec_vecbytes(w.comms, t3);
    lemma_enc_dec_vecbytes(w.encs, t4);
    lemma_enc_dec_vecbytes(w.challenges, t5);
    lemma_enc_dec_vecbytes(w.responses, rest);
}

pub open spec fn spec_enc_decry(w: DecryW) -> Seq<u8> {
    spec_enc_bytes(w.dec) + spec_enc_bytes(w.challenge) + spec_enc_bytes(w.response)
}

pub open spec fn spec_dec_decry(s: Seq<u8>) -> Option<(DecryW, Seq<u8>)> {
    match spec_dec_bytes(s) {
        Option::None => Option::None,
        Option::Some((dec, r1)) => match spec_dec_bytes(r1) {
            Option::None => Option::None,
            Option::Some((challenge, r2)) => match spec_dec_bytes(r2) {
                Option::None => Option::None,
                Option::Some((response, r3)) => Option::Some(
                    (DecryW { dec, challenge, response }, r3),
                ),
            },
        },
    }
}

pub proof fn lemma_enc_dec_decry(w: DecryW, rest: Seq<u8>)
    requires
        decry_w_wf(w),
    ensures
        spec_dec_decry(spec_enc_decry(w) + rest) == Some((w, rest)),
{
    let t2 = spec_enc_bytes(w.response) + rest;
    let t1 = spec_enc_bytes(w.challenge) + t2;
    assert(spec_enc_decry(w) + rest =~= spec_enc_bytes(w.dec) + t1);
    lemma_enc_dec_bytes(w.dec, t1);
    lemma_enc_dec_bytes(w.challenge, t2);
    lemma_enc_dec_bytes(w.response, rest);
}

pub open spec fn spec_enc_beacon(w: BeaconW) -> Seq<u8> {
    spec_enc_bytes(w.beacon) + spec_enc_bytes(w.value)
}

pub open spec fn spec_dec_beacon(s: Seq<u8>) -> Option<(BeaconW, Seq<u8>)> {
    match spec_dec_bytes(s) {
        Option::None => Option::None,
        Option::Some((beacon, r1)) => match spec_dec_bytes(r1) {
            Option::None => Option::None,
            Option::Some((value, r2)) => Option::Some((BeaconW { beacon, value }, r2)),
        },
    }
}

pub proof fn lemma_enc_dec_beacon(w: BeaconW, rest: Seq<u8>)
    requires
        beacon_w_wf(w),
    ensures
        spec_dec_beacon(spec_enc_beacon(w) + rest) == Some((w, rest)),
{
    let t1 = spec_enc_bytes(w.value) + rest;
    assert(spec_enc_beacon(w) + rest =~= spec_enc_bytes(w.beacon) + t1);
    lemma_enc_dec_bytes(w.beacon, t1);
    lemma_enc_dec_bytes(w.value, rest);
}

pub open spec fn spec_enc_block(w: BlockW) -> Seq<u8> {
    spec_enc_bytes(w.parent_hash) + spec_enc_u64(w.height) + spec_enc_bytes(w.payload)
        + spec_enc_agg(w.aggregate) + spec_enc_decomp(w.decomposition)
}

pub open spec fn spec_dec_block(s: Seq<u8>) -> Option<(BlockW, Seq<u8>)> {
    match spec_dec_bytes(s) {
        Option::None => Option::None,
        Option::Some((ph, r1)) => match spec_dec_u64(r1) {
            Option::None => Option::None,
            Option::Some((height, r2)) => match spec_dec_bytes(r2) {
                Option::None => Option::None,
                Option::Some((payload, r3)) => match spec_dec_agg(r3) {
                    Option::None => Option::None,
                    Option::Some((aggregate, r4)) => match spec_dec_decomp(r4) {
                        Option::None => Option::None,
                        Option::Some((decomposition, r5)) => Option::Some(
                            (
                                BlockW {
                                    parent_hash: ph,
                                    height,
                                    payload,
                                    aggregate,
                                    decomposition,
                                },
                                r5,
                            ),
                        ),
                    },
                },
            },
        },
    }
}

pub proof fn lemma_enc_dec_block(w: BlockW, rest: Seq<u8>)
    requires
        block_w_wf(w),
    ensures
        spec_dec_block(spec_enc_block(w) + rest) == Some((w, rest)),
{
    let t4 = spec_enc_decomp(w.decomposition) + rest;
    let t3 = spec_enc_agg(w.aggregate) + t4;
    let t2 = spec_enc_bytes(w.payload) + t3;
    let t1 = spec_enc_u64(w.height) + t2;
    assert(spec_enc_block(w) + rest =~= spec_enc_bytes(w.parent_hash) + t1);
    lemma_enc_dec_bytes(w.parent_hash, t1);
    lemma_enc_dec_u64(w.height, t2);
    lemma_enc_dec_bytes(w.payload, t3);
    lemma_enc_dec_agg(w.aggregate, t4);
    lemma_enc_dec_decomp(w.decomposition, rest);
}

pub open spec fn spec_enc_proof(w: ProofW) -> Seq<u8> {
    spec_enc_bytes(w.acc) + spec_enc_cert(w.sign)
}

pub open spec fn spec_dec_proof(s: Seq<u8>) -> Option<(ProofW, Seq<u8>)> {
    match spec_dec_bytes(s) {
        Option::None => Option::None,
        Option::Some((acc, r1)) => match spec_dec_cert(r1) {
            Option::None => Option::None,
            Option::Some((sign, r2)) => Option::Some((ProofW { acc, sign }, r2)),
        },
    }
}

pub proof fn lemma_enc_dec_proof(w: ProofW, rest: Seq<u8>)
    requires
        proof_w_wf(w),
    ensures
        spec_dec_proof(spec_enc_proof(w) + rest) == Some((w, rest)),
{
    let t1 = spec_enc_cert(w.sign) + rest;
    assert(spec_enc_proof(w) + rest =~= spec_enc_bytes(w.acc) + t1);
    lemma_enc_dec_bytes(w.acc, t1);
    lemma_enc_dec_cert(w.sign, rest);
}

/// Append the challenge column of a proof vector as a counted vector.
fn enc_challenges(out: &mut Vec<u8>, proofs: &Vec<crate::pvss::DleqProof>)
    ensures
        final(out)@ == old(out)@ + spec_enc_vecbytes(challenge_views(proofs@)),
{
    enc_u64(out, proofs.len() as u64);
    let ghost cv = challenge_views(proofs@);
    let n = proofs.len();
    let mut i: usize = 0;
    while i < n
        invariant
            i <= n,
            n == proofs@.len(),
            cv == challenge_views(proofs@),
            out@ == old(out)@ + spec_enc_u64(n as u64) + crate::codec::spec_enc_bytes_list(
                cv.take(i as int),
            ),
        decreases n - i,
    {
        enc_bytes(out, &proofs[i].challenge);
        proof {
            crate::codec::lemma_enc_bytes_list_push(cv.take(i as int), cv[i as int]);
            assert(cv.take(i + 1 as int) =~= cv.take(i as int).push(cv[i as int]));
        }
        i += 1;
    }
    proof {
        assert(cv.take(n as int) =~= cv);
        assert(out@ =~= old(out)@ + spec_enc_vecbytes(cv));
    }
}

/// Append the response column of a proof vector as a counted vector.
fn enc_responses(out: &mut Vec<u8>, proofs: &Vec<crate::pvss::DleqProof>)
    ensures
        final(out)@ == old(out)@ + spec_enc_vecbytes(response_views(proofs@)),
{
    enc_u64(out, proofs.len() as u64);
    let ghost cv = response_views(proofs@);
    let n = proofs.len();
    let mut i: usize = 0;
    while i < n
        invariant
            i <= n,
            n == proofs@.len(),
            cv == response_views(proofs@),
            out@ == old(out)@ + spec_enc_u64(n as u64) + crate::codec::spec_enc_bytes_list(
                cv.take(i as int),
            ),
        decreases n - i,
    {
        enc_bytes(out, &proofs[i].response);
        proof {
            crate::codec::lemma_enc_bytes_list_push(cv.take(i as int), cv[i as int]);
            assert(cv.take(i + 1 as int) =~= cv.take(i as int).push(cv[i as int]));
        }
        i += 1;
    }
    proof {
        assert(cv.take(n as int) =~= cv);
        assert(out@ =~= old(out)@ + spec_enc_vecbytes(cv));
    }
}

/// Turn two decoded columns back into a proof vector.
fn zip_proofs(ch: &Vec<Vec<u8>>, rs: &Vec<Vec<u8>>) -> (r: Option<Vec<crate::pvss::DleqProof>>)
    ensures
        r matches Some(v) ==> {
            &&& ch@.len() == rs@.len()
            &&& challenge_views(v@) == byte_views(ch@)
            &&& response_views(v@) == byte_views(rs@)
        },
        r is None ==> ch@.len() != rs@.len(),
{
    let n = ch.len();
    if rs.len() != n {
        return None;
    }
    let mut out: Vec<crate::pvss::DleqProof> = Vec::new();
    let mut i: usize = 0;
    while i < n
        invariant
            i <= n,
            n == ch@.len() == rs@.len(),
            out@.len() == i,
            forall|j: int|
                0 <= j < i ==> (#[trigger] out@[j]).challenge@ == ch@[j]@ && out@[j].response@
                    == rs@[j]@,
        decreases n - i,
    {
        out.push(
            crate::pvss::DleqProof {
                challenge: crate::pvss::clone_bytes(&ch[i]),
                response: crate::pvss::clone_bytes(&rs[i]),
            },
        );
        i += 1;
    }
    proof {
        assert(challenge_views(out@) =~= byte_views(ch@));
        assert(response_views(out@) =~= byte_views(rs@));
    }
    Some(out)
}

/// Append the encoding of a dealing.
pub fn enc_pvss(out: &mut Vec<u8>, p: &crate::pvss::PVSSVec)
    ensures
        final(out)@ == old(out)@ + spec_enc_pvss(pvss_view(*p)),
{
    enc_vecbytes(out, &p.comms);
    enc_vecbytes(out, &p.encs);
    enc_challenges(out, &p.proofs);
    enc_responses(out, &p.proofs);
    proof {
        assert(out@ =~= old(out)@ + spec_enc_pvss(pvss_view(*p)));
    }
}

/// Read a dealing at `pos`.
pub fn dec_pvss(buf: &Vec<u8>, pos: usize) -> (r: Option<(crate::pvss::PVSSVec, usize)>)
    requires
        pos <= buf@.len(),
    ensures
        r matches Some((v, p)) ==> pos <= p <= buf@.len() && spec_dec_pvss(buf@.skip(pos as int))
            == Some((pvss_view(v), buf@.skip(p as int))),
        r is None ==> spec_dec_pvss(buf@.skip(pos as int)) is None,
{
    let (comms, p1) = match dec_vecbytes(buf, pos) {
        Some(x) => x,
        None => {
            return None;
        },
    };
    let (encs, p2) = match dec_vecbytes(buf, p1) {
        Some(x) => x,
        None => {
            return None;
        },
    };
    let (ch, p3) = match dec_vecbytes(buf, p2) {
        Some(x) => x,
        None => {
            return None;
        },
    };
    let (rs, p4) = match dec_vecbytes(buf, p3) {
        Some(x) => x,
        None => {
            return None;
        },
    };
    let proofs = match zip_proofs(&ch, &rs) {
        Some(x) => x,
        None => {
            return None;
        },
    };
    Some((crate::pvss::PVSSVec { comms, encs, proofs }, p4))
}

/// Append the encoding of an aggregate.
pub fn enc_agg(out: &mut Vec<u8>, a: &crate::pvss::AggregatePVSS)
    ensures
        final(out)@ == old(out)@ + spec_enc_agg(agg_view(*a)),
{
    enc_vecbytes(out, &a.encs);
    enc_vecbytes(out, &a.comms);
    proof {
        assert(out@ =~= old(out)@ + spec_enc_agg(agg_view(*a)));
    }
}

/// Read an aggregate at `pos`.
pub fn dec_agg(buf: &Vec<u8>, pos: usize) -> (r: Option<(crate::pvss::AggregatePVSS, usize)>)
    requires
        pos <= buf@.len(),
    ensures
        r matches Some((v, p)) ==> pos <= p <= buf@.len() && spec_dec_agg(buf@.skip(pos as int))
            == Some((agg_view(v), buf@.skip(p as int))),
        r is None ==> spec_dec_agg(buf@.skip(pos as int)) is None,
{
    let (encs, p1) = match dec_vecbytes(buf, pos) {
        Some(x) => x,
        None => {
            return None;
        },
    };
    let (comms, p2) = match dec_vecbytes(buf, p1) {
        Some(x) => x,
        None => {
            return None;
        },
    };
    Some((crate::pvss::AggregatePVSS { encs, comms }, p2))
}

/// Append the encoding of a decomposition proof.
pub fn enc_decomp(out: &mut Vec<u8>, d: &crate::pvss::DecompositionProof)
    ensures
        final(out)@ == old(out)@ + spec_enc_decomp(decomp_view(*d)),
{
    enc_u64(out, d.idx as u64);
    enc_vec_replica(out, &d.indices);
    enc_vecbytes(out, &d.comms);
    enc_vecbytes(out, &d.encs);
    enc_challenges(out, &d.dleq_proofs);
    enc_responses(out, &d.dleq_proofs);
    proof {
        assert(out@ =~= old(out)@ + spec_enc_decomp(decomp_view(*d)));
    }
}

/// Read a decomposition proof at `pos`.
pub fn dec_decomp(buf: &Vec<u8>, pos: usize) -> (r: Option<
    (crate::pvss::DecompositionProof, usize),
>)
    requires
        pos <= buf@.len(),
    ensures
        r matches Some((v, p)) ==> pos <= p <= buf@.len() && spec_dec_decomp(
            buf@.skip(pos as int),
        ) == Some((decomp_view(v), buf@.skip(p as int))),
        r is None ==> spec_dec_decomp(buf@.skip(pos as int)) is None,
{
    let (idx, p0) = match dec_u64(buf, pos) {
        Some(x) => x,
        None => {
            return None;
        },
    };
    if idx >= 0x1_0000_0000u64 {
        return None;
    }
    let (indices, p1) = match dec_vec_replica(buf, p0) {
        Some(x) => x,
        None => {
            return None;
        },
    };
    let (comms, p2) = match dec_vecbytes(buf, p1) {
        Some(x) => x,
        None => {
            return None;
        },
    };
    let (encs, p3) = match dec_vecbytes(buf, p2) {
        Some(x) => x,
        None => {
            return None;
        },
    };
    let (ch, p4) = match dec_vecbytes(buf, p3) {
        Some(x) => x,
        None => {
            return None;
        },
    };
    let (rs, p5) = match dec_vecbytes(buf, p4) {
        Some(x) => x,
        None => {
            return None;
        },
    };
    let proofs = match zip_proofs(&ch, &rs) {
        Some(x) => x,
        None => {
            return None;
        },
    };
    Some(
        (
            crate::pvss::DecompositionProof {
                idx: idx as usize,
                indices,
                comms,
                encs,
                dleq_proofs: proofs,
            },
            p5,
        ),
    )
}

/// Append the encoding of a decryption share.
pub fn enc_decry(out: &mut Vec<u8>, d: &crate::pvss::Decryption)
    ensures
        final(out)@ == old(out)@ + spec_enc_decry(decry_view(*d)),
{
    enc_bytes(out, &d.dec);
    enc_bytes(out, &d.dleq_proof.challenge);
    enc_bytes(out, &d.dleq_proof.response);
    proof {
        assert(out@ =~= old(out)@ + spec_enc_decry(decry_view(*d)));
    }
}

/// Read a decryption share at `pos`.
pub fn dec_decry(buf: &Vec<u8>, pos: usize) -> (r: Option<(crate::pvss::Decryption, usize)>)
    requires
        pos <= buf@.len(),
    ensures
        r matches Some((v, p)) ==> pos <= p <= buf@.len() && spec_dec_decry(buf@.skip(pos as int))
            == Some((decry_view(v), buf@.skip(p as int))),
        r is None ==> spec_dec_decry(buf@.skip(pos as int)) is None,
{
    let (dec, p1) = match dec_bytes(buf, pos) {
        Some(x) => x,
        None => {
            return None;
        },
    };
    let (challenge, p2) = match dec_bytes(buf, p1) {
        Some(x) => x,
        None => {
            return None;
        },
    };
    let (response, p3) = match dec_bytes(buf, p2) {
        Some(x) => x,
        None => {
            return None;
        },
    };
    Some(
        (
            crate::pvss::Decryption {
                dec,
                dleq_proof: crate::pvss::DleqProof { challenge, response },
            },
            p3,
        ),
    )
}

/// Append the encoding of a block.
pub fn enc_block(out: &mut Vec<u8>, b: &crate::msg::Block)
    ensures
        final(out)@ == old(out)@ + spec_enc_block(block_view(*b)),
{
    enc_bytes(out, &b.parent_hash);
    enc_u64(out, b.height);
    enc_bytes(out, &b.payload);
    enc_agg(out, &b.aggregate);
    enc_decomp(out, &b.decomposition);
    proof {
        assert(out@ =~= old(out)@ + spec_enc_block(block_view(*b)));
    }
}

/// Read a block at `pos`.
pub fn dec_block(buf: &Vec<u8>, pos: usize) -> (r: Option<(crate::msg::Block, usize)>)
    requires
        pos <= buf@.len(),
    ensures
        r matches Some((v, p)) ==> pos <= p <= buf@.len() && spec_dec_block(buf@.skip(pos as int))
            == Some((block_view(v), buf@.skip(p as int))),
        r is None ==> spec_dec_block(buf@.skip(pos as int)) is None,
{
    let (ph, p1) = match dec_bytes(buf, pos) {
        Some(x) => x,
        None => {
            return None;
        },
    };
    let (height, p2) = match dec_u64(buf, p1) {
        Some(x) => x,
        None => {
            return None;
        },
    };
    let (payload, p3) = match dec_bytes(buf, p2) {
        Some(x) => x,
        None => {
            return None;
        },
    };
    let (aggregate, p4) = match dec_agg(buf, p3) {
        Some(x) => x,
        None => {
            return None;
        },
    };
    let (decomposition, p5) = match dec_decomp(buf, p4) {
        Some(x) => x,
        None => {
            return None;
        },
    };
    Some(
        (
            crate::msg::Block { parent_hash: ph, height, payload, aggregate, decomposition },
            p5,
        ),
    )
}

/// Append the encoding of a delivery proof.
pub fn enc_proof(out: &mut Vec<u8>, p: &crate::msg::Proof)
    ensures
        final(out)@ == old(out)@ + spec_enc_proof(proof_view(*p)),
{
    enc_bytes(out, &p.acc);
    enc_cert(out, &p.sign);
    proof {
        assert(out@ =~= old(out)@ + spec_enc_proof(proof_view(*p)));
    }
}

/// Read a delivery proof at `pos`.
pub fn dec_proof(buf: &Vec<u8>, pos: usize) -> (r: Option<(crate::msg::Proof, usize)>)
    requires
        pos <= buf@.len(),
    ensures
        r matches Some((v, p)) ==> pos <= p <= buf@.len() && spec_dec_proof(buf@.skip(pos as int))
            == Some((proof_view(v), buf@.skip(p as int))),
        r is None ==> spec_dec_proof(buf@.skip(pos as int)) is None,
{
    let (acc, p1) = match dec_bytes(buf, pos) {
        Some(x) => x,
        None => {
            return None;
        },
    };
    let (sign, p2) = match dec_cert(buf, p1) {
        Some(x) => x,
        None => {
            return None;
        },
    };
    Some((crate::msg::Proof { acc, sign }, p2))
}

/// Ghost view of a protocol message.
#[verifier::ext_equal]
pub enum MsgW {
    RawEpochPVSSSharing(PvssW),
    RawStatus(u64, u64, CertW),
    Proposal(u64, BlockW, Seq<u8>),
    Vote(VoteW),
    SyncCert(VoteW, CertW, ProofW),
    Deliver(u64, Seq<u8>),
    DecryptionShare(u64, DecryW),
    Beacon(u64, Seq<u8>),
}

pub open spec fn msg_view(m: crate::msg::ProtocolMsg) -> MsgW {
    match m {
        crate::msg::ProtocolMsg::RawEpochPVSSSharing(p) => MsgW::RawEpochPVSSSharing(pvss_view(p)),
        crate::msg::ProtocolMsg::RawStatus(e, h, c) => MsgW::RawStatus(e, h, cert_view(c)),
        crate::msg::ProtocolMsg::Proposal(e, b, s) => MsgW::Proposal(e, block_view(b), s@),
        crate::msg::ProtocolMsg::Vote(v) => MsgW::Vote(vote_view(v)),
        crate::msg::ProtocolMsg::SyncCert(p, pf) => MsgW::SyncCert(
            vote_view(p.data.vote),
            cert_view(p.data.cert),
            proof_view(pf),
        ),
        crate::msg::ProtocolMsg::Deliver(e, b) => MsgW::Deliver(e, b@),
        crate::msg::ProtocolMsg::DecryptionShare(e, d) => MsgW::DecryptionShare(e, decry_view(d)),
        crate::msg::ProtocolMsg::Beacon(e, v) => MsgW::Beacon(e, v@),
    }
}

/// Structural bounds every message in memory satisfies.
pub open spec fn msg_w_wf(w: MsgW) -> bool {
    match w {
        MsgW::RawEpochPVSSSharing(p) => pvss_w_wf(p),
        MsgW::RawStatus(_, _, c) => cert_w_wf(c),
        MsgW::Proposal(_, b, s) => block_w_wf(b) && s.len() <= u64::MAX,
        MsgW::Vote(v) => vote_w_wf(v),
        MsgW::SyncCert(v, c, pf) => vote_w_wf(v) && cert_w_wf(c) && proof_w_wf(pf),
        MsgW::Deliver(_, b) => b.len() <= u64::MAX,
        MsgW::DecryptionShare(_, d) => decry_w_wf(d),
        MsgW::Beacon(_, v) => v.len() <= u64::MAX,
    }
}

pub open spec fn spec_enc_msg(w: MsgW) -> Seq<u8> {
    match w {
        MsgW::RawEpochPVSSSharing(p) => spec_enc_u64(1) + spec_enc_pvss(p),
        MsgW::RawStatus(e, h, c) => spec_enc_u64(2) + spec_enc_u64(e) + spec_enc_u64(h)
            + spec_enc_cert(c),
        MsgW::Proposal(e, b, s) => spec_enc_u64(3) + spec_enc_u64(e) + spec_enc_block(b)
            + spec_enc_bytes(s),
        MsgW::Vote(v) => spec_enc_u64(4) + spec_enc_vote(v),
        MsgW::SyncCert(v, c, pf) => spec_enc_u64(5) + spec_enc_vote(v) + spec_enc_cert(c)
            + spec_enc_proof(pf),
        MsgW::Deliver(e, b) => spec_enc_u64(6) + spec_enc_u64(e) + spec_enc_bytes(b),
        MsgW::DecryptionShare(e, d) => spec_enc_u64(7) + spec_enc_u64(e) + spec_enc_decry(d),
        MsgW::Beacon(e, v) => spec_enc_u64(8) + spec_enc_u64(e) + spec_enc_bytes(v),
    }
}

pub open spec fn spec_dec_msg(s: Seq<u8>) -> Option<(MsgW, Seq<u8>)> {
    match spec_dec_u64(s) {
        Option::None => Option::None,
        Option::Some((tag, r0)) => if tag == 1 {
            match spec_dec_pvss(r0) {
                Option::None => Option::None,
                Option::Some((p, r1)) => Option::Some((MsgW::RawEpochPVSSSharing(p), r1)),
            }
        } else if tag == 2 {
            match spec_dec_u64(r0) {
                Option::None => Option::None,
                Option::Some((e, r1)) => match spec_dec_u64(r1) {
                    Option::None => Option::None,
                    Option::Some((h, r2)) => match spec_dec_cert(r2) {
                        Option::None => Option::None,
                        Option::Some((c, r3)) => Option::Some((MsgW::RawStatus(e, h, c), r3)),
                    },
                },
            }
        } else if tag == 3 {
            match spec_dec_u64(r0) {
                Option::None => Option::None,
                Option::Some((e, r1)) => match spec_dec_block(r1) {
                    Option::None => Option::None,
                    Option::Some((b, r2)) => match spec_dec_bytes(r2) {
                        Option::None => Option::None,
                        Option::Some((s2, r3)) => Option::Some((MsgW::Proposal(e, b, s2), r3)),
                    },
                },
            }
        } else if tag == 4 {
            match spec_dec_vote(r0) {
                Option::None => Option::None,
                Option::Some((v, r1)) => Option::Some((MsgW::Vote(v), r1)),
            }
        } else if tag == 5 {
            match spec_dec_vote(r0) {
                Option::None => Option::None,
                Option::Some((v, r1)) => match spec_dec_cert(r1) {
                    Option::None => Option::None,
                    Option::Some((c, r2)) => match spec_dec_proof(r2) {
                        Option::None => Option::None,
                        Option::Some((pf, r3)) => Option::Some((MsgW::SyncCert(v, c, pf), r3)),
                    },
                },
            }
        } else if tag == 6 {
            match spec_dec_u64(r0) {
                Option::None => Option::None,
                Option::Some((e, r1)) => match spec_dec_bytes(r1) {
                    Option::None => Option::None,
                    Option::Some((b, r2)) => Option::Some((MsgW::Deliver(e, b), r2)),
                },
            }
        } else if tag == 7 {
            match spec_dec_u64(r0) {
                Option::None => Option::None,
                Option::Some((e, r1)) => match spec_dec_decry(r1) {
                    Option::None => Option::None,
                    Option::Some((d, r2)) => Option::Some((MsgW::DecryptionShare(e, d), r2)),
                },
            }
        } else if tag == 8 {
            match spec_dec_u64(r0) {
                Option::None => Option::None,
                Option::Some((e, r1)) => match spec_dec_bytes(r1) {
                    Option::None => Option::None,
                    Option::Some((v, r2)) => Option::Some((MsgW::Beacon(e, v), r2)),
                },
            }
        } else {
            Option::None
        },
    }
}

/// Round trip for whole protocol messages: decoding the encoding of any
/// message followed by any suffix returns the message and the suffix.
pub proof fn lemma_enc_dec_msg(w: MsgW, rest: Seq<u8>)
    requires
        msg_w_wf(w),
    ensures
        spec_dec_msg(spec_enc_msg(w) + rest) == Some((w, rest)),
{
    match w {
        MsgW::RawEpochPVSSSharing(p) => lemma_enc_dec_msg_pvss(p, rest),
        MsgW::RawStatus(e, h, c) => lemma_enc_dec_msg_status(e, h, c, rest),
        MsgW::Proposal(e, b, s2) => lemma_enc_dec_msg_proposal(e, b, s2, rest),
        MsgW::Vote(v) => lemma_enc_dec_msg_vote(v, rest),
        MsgW::SyncCert(v, c, pf) => lemma_enc_dec_msg_sync(v, c, pf, rest),
        MsgW::Deliver(e, b) => lemma_enc_dec_msg_deliver(e, b, rest),
        MsgW::DecryptionShare(e, d) => lemma_enc_dec_msg_share(e, d, rest),
        MsgW::Beacon(e, v) => lemma_enc_dec_msg_beacon(e, v, rest),
    }
}

#[verifier::rlimit(100)]
proof fn lemma_enc_dec_msg_pvss(p: PvssW, rest: Seq<u8>)
    requires
        pvss_w_wf(p),
    ensures
        spec_dec_msg(spec_enc_msg(MsgW::RawEpochPVSSSharing(p)) + rest) == Some(
            (MsgW::RawEpochPVSSSharing(p), rest),
        ),
{
    let t0 = spec_enc_pvss(p) + rest;
    assert(spec_enc_msg(MsgW::RawEpochPVSSSharing(p)) + rest =~= spec_enc_u64(1) + t0);
    lemma_enc_dec_u64(1, t0);
    lemma_enc_dec_pvss(p, rest);
}

#[verifier::rlimit(100)]
proof fn lemma_enc_dec_msg_status(e: u64, h: u64, c: CertW, rest: Seq<u8>)
    requires
        cert_w_wf(c),
    ensures
        spec_dec_msg(spec_enc_msg(MsgW::RawStatus(e, h, c)) + rest) == Some(
            (MsgW::RawStatus(e, h, c), rest),
        ),
{
    let t2 = spec_enc_cert(c) + rest;
    let t1 = spec_enc_u64(h) + t2;
    let t0 = spec_enc_u64(e) + t1;
    assert(spec_enc_msg(MsgW::RawStatus(e, h, c)) + rest =~= spec_enc_u64(2) + t0);
    lemma_enc_dec_u64(2, t0);
    lemma_enc_dec_u64(e, t1);
    lemma_enc_dec_u64(h, t2);
    lemma_enc_dec_cert(c, rest);
}

#[verifier::rlimit(100)]
proof fn lemma_enc_dec_msg_proposal(e: u64, b: BlockW, s2: Seq<u8>, rest: Seq<u8>)
    requires
        block_w_wf(b),
        s2.len() <= u64::MAX,
    ensures
        spec_dec_msg(spec_enc_msg(MsgW::Proposal(e, b, s2)) + rest) == Some(
            (MsgW::Proposal(e, b, s2), rest),
        ),
{
    let t2 = spec_enc_bytes(s2) + rest;
    let t1 = spec_enc_block(b) + t2;
    let t0 = spec_enc_u64(e) + t1;
    assert(spec_enc_msg(MsgW::Proposal(e, b, s2)) + rest =~= spec_enc_u64(3) + t0);
    lemma_enc_dec_u64(3, t0);
    lemma_enc_dec_u64(e, t1);
    lemma_enc_dec_block(b, t2);
    lemma_enc_dec_bytes(s2, rest);
}

#[verifier::rlimit(100)]
#[verifier::spinoff_prover]
proof fn lemma_enc_dec_msg_vote(v: VoteW, rest: Seq<u8>)
    requires
        vote_w_wf(v),
    ensures
        spec_dec_msg(spec_enc_msg(MsgW::Vote(v)) + rest) == Some((MsgW::Vote(v), rest)),
{
    let t0 = spec_enc_vote(v) + rest;
    assert(spec_enc_msg(MsgW::Vote(v)) + rest =~= spec_enc_u64(4) + t0);
    lemma_enc_dec_u64(4, t0);
    lemma_enc_dec_vote(v, rest);
}

#[verifier::rlimit(100)]
#[verifier::spinoff_prover]
proof fn lemma_enc_dec_msg_sync(v: VoteW, c: CertW, pf: ProofW, rest: Seq<u8>)
    requires
        vote_w_wf(v),
        cert_w_wf(c),
        proof_w_wf(pf),
    ensures
        spec_dec_msg(spec_enc_msg(MsgW::SyncCert(v, c, pf)) + rest) == Some(
            (MsgW::SyncCert(v, c, pf), rest),
        ),
{
    let t2 = spec_enc_proof(pf) + rest;
    let t1 = spec_enc_cert(c) + t2;
    let t0 = spec_enc_vote(v) + t1;
    assert(spec_enc_msg(MsgW::SyncCert(v, c, pf)) + rest =~= spec_enc_u64(5) + t0);
    lemma_enc_dec_u64(5, t0);
    lemma_enc_dec_vote(v, t1);
    lemma_enc_dec_cert(c, t2);
    lemma_enc_dec_proof(pf, rest);
}

#[verifier::rlimit(100)]
proof fn lemma_enc_dec_msg_deliver(e: u64, b: Seq<u8>, rest: Seq<u8>)
    requires
        b.len() <= u64::MAX,
    ensures
        spec_dec_msg(spec_enc_msg(MsgW::Deliver(e, b)) + rest) == Some(
            (MsgW::Deliver(e, b), rest),
        ),
{
    let t1 = spec_enc_bytes(b) + rest;
    let t0 = spec_enc_u64(e) + t1;
    assert(spec_enc_msg(MsgW::Deliver(e, b)) + rest =~= spec_enc_u64(6) + t0);
    lemma_enc_dec_u64(6, t0);
    lemma_enc_dec_u64(e, t1);
    lemma_enc_dec_bytes(b, rest);
}

#[verifier::rlimit(100)]
proof fn lemma_enc_dec_msg_share(e: u64, d: DecryW, rest: Seq<u8>)
    requires
        decry_w_wf(d),
    ensures
        spec_dec_msg(spec_enc_msg(MsgW::DecryptionShare(e, d)) + rest) == Some(
            (MsgW::DecryptionShare(e, d), rest),
        ),
{
    let t1 = spec_enc_decry(d) + rest;
    let t0 = spec_enc_u64(e) + t1;
    assert(spec_enc_msg(MsgW::DecryptionShare(e, d)) + rest =~= spec_enc_u64(7) + t0);
    lemma_enc_dec_u64(7, t0);
    lemma_enc_dec_u64(e, t1);
    lemma_enc_dec_decry(d, rest);
}

#[verifier::rlimit(100)]
proof fn lemma_enc_dec_msg_beacon(e: u64, v: Seq<u8>, rest: Seq<u8>)
    requires
        v.len() <= u64::MAX,
    ensures
        spec_dec_msg(spec_enc_msg(MsgW::Beacon(e, v)) + rest) == Some((MsgW::Beacon(e, v), rest)),
{
    let t1 = spec_enc_bytes(v) + rest;
    let t0 = spec_enc_u64(e) + t1;
    assert(spec_enc_msg(MsgW::Beacon(e, v)) + rest =~= spec_enc_u64(8) + t0);
    lemma_enc_dec_u64(8, t0);
    lemma_enc_dec_u64(e, t1);
    lemma_enc_dec_bytes(v, rest);
}

/// Encode a whole protocol message canonically.
pub fn encode_msg(m: &crate::msg::ProtocolMsg) -> (r: Vec<u8>)
    ensures
        r@ == spec_enc_msg(msg_view(*m)),
{
    let mut out: Vec<u8> = Vec::new();
    match m {
        crate::msg::ProtocolMsg::RawEpochPVSSSharing(p) => {
            enc_u64(&mut out, 1);
            enc_pvss(&mut out, p);
        },
        crate::msg::ProtocolMsg::RawStatus(e, h, c) => {
            enc_u64(&mut out, 2);
            enc_u64(&mut out, *e);
            enc_u64(&mut out, *h);
            enc_cert(&mut out, c);
        },
        crate::msg::ProtocolMsg::Proposal(e, b, s) => {
            enc_u64(&mut out, 3);
            enc_u64(&mut out, *e);
            enc_block(&mut out, b);
            enc_bytes(&mut out, s);
        },
        crate::msg::ProtocolMsg::Vote(v) => {
            enc_u64(&mut out, 4);
            enc_vote(&mut out, v);
        },
        crate::msg::ProtocolMsg::SyncCert(p, pf) => {
            enc_u64(&mut out, 5);
            enc_vote(&mut out, &p.data.vote);
            enc_cert(&mut out, &p.data.cert);
            enc_proof(&mut out, pf);
        },
        crate::msg::ProtocolMsg::Deliver(e, b) => {
            enc_u64(&mut out, 6);
            enc_u64(&mut out, *e);
            enc_bytes(&mut out, b);
        },
        crate::msg::ProtocolMsg::DecryptionShare(e, d) => {
            enc_u64(&mut out, 7);
            enc_u64(&mut out, *e);
            enc_decry(&mut out, d);
        },
        crate::msg::ProtocolMsg::Beacon(e, v) => {
            enc_u64(&mut out, 8);
            enc_u64(&mut out, *e);
            enc_bytes(&mut out, v);
        },
    }
    proof {
        assert(out@ =~= spec_enc_msg(msg_view(*m)));
    }
    out
}

/// The executable round trip behind the codec law: encoding any message
/// and decoding the bytes always succeeds and returns a message with the
/// same view.
pub fn msg_roundtrip(m: &crate::msg::ProtocolMsg) -> (r: crate::msg::ProtocolMsg)
    requires
        msg_w_wf(msg_view(*m)),
    ensures
        msg_view(r) == msg_view(*m),
{
    let bytes = encode_msg(m);
    proof {
        lemma_enc_dec_msg(msg_view(*m), Seq::empty());
        assert(spec_enc_msg(msg_view(*m)) + Seq::<u8>::empty() =~= spec_enc_msg(msg_view(*m)));
        assert(spec_dec_msg(bytes@) == Some((msg_view(*m), Seq::<u8>::empty())));
    }
    match decode_msg(&bytes) {
        Some(m2) => {
            proof {
                assert(bytes@.skip(bytes@.len() as int) =~= Seq::<u8>::empty());
            }
            m2
        },
        None => {
            proof {
                assert(false);
            }
            vstd::pervasive::unreached()
        },
    }
}

/// Decode the fields of one message variant, `tag` already consumed.
#[verifier::rlimit(100)]
fn dec_msg_body(buf: &Vec<u8>, tag: u64, p0: usize) -> (r: Option<
    (crate::msg::ProtocolMsg, usize),
>)
    requires
        p0 <= buf@.len(),
        spec_dec_u64(buf@) == Some((tag, buf@.skip(p0 as int))),
    ensures
        r is None ==> spec_dec_msg(buf@) is None,
        r matches Some((m, p)) ==> p0 <= p <= buf@.len() && ({
            let s0 = buf@.skip(p0 as int);
            let sp = buf@.skip(p as int);
            match msg_view(m) {
                MsgW::RawEpochPVSSSharing(pw) => tag == 1 && spec_dec_pvss(s0) == Some((pw, sp)),
                MsgW::RawStatus(e, h, c) => tag == 2 && (spec_dec_u64(s0) matches Some((e1, r1))
                    && e1 == e && (spec_dec_u64(r1) matches Some((h1, r2)) && h1 == h
                    && spec_dec_cert(r2) == Some((c, sp)))),
                MsgW::Proposal(e, b, s2) => tag == 3 && (spec_dec_u64(s0) matches Some((e1, r1))
                    && e1 == e && (spec_dec_block(r1) matches Some((b1, r2)) && b1 == b
                    && spec_dec_bytes(r2) == Some((s2, sp)))),
                MsgW::Vote(v) => tag == 4 && spec_dec_vote(s0) == Some((v, sp)),
                MsgW::SyncCert(v, c, pf) => tag == 5 && (spec_dec_vote(s0) matches Some((v1, r1))
                    && v1 == v && (spec_dec_cert(r1) matches Some((c1, r2)) && c1 == c
                    && spec_dec_proof(r2) == Some((pf, sp)))),
                MsgW::Deliver(e, b) => tag == 6 && (spec_dec_u64(s0) matches Some((e1, r1)) && e1
                    == e && spec_dec_bytes(r1) == Some((b, sp))),
                MsgW::DecryptionShare(e, d) => tag == 7 && (spec_dec_u64(s0) matches Some((e1, r1))
                    && e1 == e && spec_dec_decry(r1) == Some((d, sp))),
                MsgW::Beacon(e, v) => tag == 8 && (spec_dec_u64(s0) matches Some((e1, r1)) && e1
                    == e && spec_dec_bytes(r1) == Some((v, sp))),
            }
        }),
{
    if tag == 1 {
        match dec_pvss(buf, p0) {
            Some((v, p)) => Some((crate::msg::ProtocolMsg::RawEpochPVSSSharing(v), p)),
            None => None,
        }
    } else if tag == 2 {
        let (e, p1) = match dec_u64(buf, p0) {
            Some(x) => x,
            None => {
                return None;
            },
        };
        let (h, p2) = match dec_u64(buf, p1) {
            Some(x) => x,
            None => {
                return None;
            },
        };
        match dec_cert(buf, p2) {
            Some((c, p)) => Some((crate::msg::ProtocolMsg::RawStatus(e, h, c), p)),
            None => None,
        }
    } else if tag == 3 {
        let (e, p1) = match dec_u64(buf, p0) {
            Some(x) => x,
            None => {
                return None;
            },
        };
        let (b, p2) = match dec_block(buf, p1) {
            Some(x) => x,
            None => {
                return None;
            },
        };
        match dec_bytes(buf, p2) {
            Some((s2, p)) => Some((crate::msg::ProtocolMsg::Proposal(e, b, s2), p)),
            None => None,
        }
    } else if tag == 4 {
        match dec_vote(buf, p0) {
            Some((v, p)) => Some((crate::msg::ProtocolMsg::Vote(v), p)),
            None => None,
        }
    } else if tag == 5 {
        let (v, p1) = match dec_vote(buf, p0) {
            Some(x) => x,
            None => {
                return None;
            },
        };
        let (c, p2) = match dec_cert(buf, p1) {
            Some(x) => x,
            None => {
                return None;
            },
        };
        match dec_proof(buf, p2) {
            Some((pf, p)) => Some(
                (
                    crate::msg::ProtocolMsg::SyncCert(
                        crate::msg::SyncCertProposal {
                            data: crate::msg::SyncCertData { vote: v, cert: c },
                        },
                        pf,
                    ),
                    p,
                ),
            ),
            None => None,
        }
    } else if tag == 6 {
        let (e, p1) = match dec_u64(buf, p0) {
            Some(x) => x,
            None => {
                return None;
            },
        };
        match dec_bytes(buf, p1) {
            Some((b, p)) => Some((crate::msg::ProtocolMsg::Deliver(e, b), p)),
            None => None,
        }
    } else if tag == 7 {
        let (e, p1) = match dec_u64(buf, p0) {
            Some(x) => x,
            None => {
                return None;
            },
        };
        match dec_decry(buf, p1) {
            Some((d, p)) => Some((crate::msg::ProtocolMsg::DecryptionShare(e, d), p)),
            None => None,
        }
    } else if tag == 8 {
        let (e, p1) = match dec_u64(buf, p0) {
            Some(x) => x,
            None => {
                return None;
            },
        };
        match dec_bytes(buf, p1) {
            Some((v, p)) => Some((crate::msg::ProtocolMsg::Beacon(e, v), p)),
            None => None,
        }
    } else {
        None
    }
}

/// Decode a whole protocol message; the buffer must hold exactly one.
pub fn decode_msg(buf: &Vec<u8>) -> (r: Option<crate::msg::ProtocolMsg>)
    ensures
        r matches Some(m) ==> spec_dec_msg(buf@) == Some(
            (msg_view(m), buf@.skip(buf@.len() as int)),
        ),
        r is None ==> !(spec_dec_msg(buf@) matches Some((w, rest)) && rest.len() == 0),
{
    let (tag, p0) = match dec_u64(buf, 0) {
        Some(x) => x,
        None => {
            return None;
        },
    };
    proof {
        assert(buf@.skip(0) =~= buf@);
    }
    let (m, p) = match dec_msg_body(buf, tag, p0) {
        Some(x) => x,
        None => {
            return None;
        },
    };
    if p != buf.len() {
        return None;
    }
    Some(m)
}


/// The 4 big-endian bytes of a frame length.
pub open spec fn spec_enc_u32(x: u32) -> Seq<u8> {
    seq![(x >> 24) as u8, (x >> 16) as u8, (x >> 8) as u8, x as u8]
}

/// The integer held by 4 big-endian bytes.
pub open spec fn spec_u32_of(b0: u8, b1: u8, b2: u8, b3: u8) -> u32 {
    ((b0 as u32) << 24) | ((b1 as u32) << 16) | ((b2 as u32) << 8) | (b3 as u32)
}

/// A framed message: a 4-byte big-endian length prefix, then the body.
pub open spec fn spec_frame(body: Seq<u8>) -> Seq<u8> {
    spec_enc_u32(body.len() as u32) + body
}

/// Frame an encoded message for the transport; `None` only when the body
/// cannot carry a 32-bit length.
pub fn frame_msg(m: &crate::msg::ProtocolMsg) -> (r: Option<Vec<u8>>)
    ensures
        r matches Some(v) ==> spec_enc_msg(msg_view(*m)).len() <= u32::MAX && v@ == spec_frame(
            spec_enc_msg(msg_view(*m)),
        ),
{
    let body = encode_msg(m);
    if body.len() > 0xffff_ffffusize {
        return None;
    }
    let len = body.len() as u32;
    let mut out: Vec<u8> = Vec::new();
    out.push((len >> 24) as u8);
    out.push((len >> 16) as u8);
    out.push((len >> 8) as u8);
    out.push(len as u8);
    crate::pvss::append_bytes(&mut out, &body);
    proof {
        assert(out@ =~= spec_frame(body@));
    }
    Some(out)
}

/// Strip a frame and decode its body; exactly one whole frame must be
/// present.
pub fn deframe_msg(buf: &Vec<u8>) -> (r: Option<crate::msg::ProtocolMsg>)
    ensures
        r matches Some(m) ==> spec_dec_msg(buf@.skip(4)) == Some(
            (msg_view(m), buf@.skip(buf@.len() as int)),
        ),
        r is None ==> (buf@.len() < 4 || spec_u32_of(buf@[0], buf@[1], buf@[2], buf@[3])
            != buf@.len() - 4 || !(spec_dec_msg(buf@.skip(4)) matches Some((w, rest))
            && rest.len() == 0)),
{
    if buf.len() < 4 {
        return None;
    }
    let len = ((buf[0] as u32) << 24) | ((buf[1] as u32) << 16) | ((buf[2] as u32) << 8) | (
    buf[3] as u32);
    if (len as usize) != buf.len() - 4 {
        return None;
    }
    let mut body: Vec<u8> = Vec::new();
    let n = buf.len();
    let mut i: usize = 4;
    while i < n
        invariant
            4 <= i <= n,
            n == buf@.len(),
            body@.len() == i - 4,
            forall|j: int| 0 <= j < i - 4 ==> body@[j] == buf@[j + 4],
        decreases n - i,
    {
        body.push(buf[i]);
        i += 1;
    }
    proof {
        assert(body@ =~= buf@.skip(4));
        assert(body@.skip(body@.len() as int) =~= buf@.skip(buf@.len() as int));
    }
    decode_msg(&body)
}

/// Round trip of the framing itself.
pub proof fn lemma_frame_roundtrip(body: Seq<u8>)
    requires
        body.len() <= u32::MAX,
    ensures
        spec_frame(body).skip(4) == body,
        spec_frame(body).len() == body.len() + 4,
{
    assert(spec_frame(body).skip(4) =~= body);
}

} // verus!

//! Protocol messages, votes, certificates and blocks.
//!
//! A certificate is a set of signatures by distinct replicas over one
//! message; `f + 1` of them make a quorum.  Two quorums out of `n <= 2f + 1`
//! replicas always share a signer, which is the counting heart of the
//! protocol's safety.

use vstd::prelude::*;
use vstd::set_lib::set_int_range;
use vstd::set_lib::lemma_int_range;
use vstd::set_lib::lemma_len_subset;

use crate::codec::spec_enc_u64;
use crate::codec::enc_u64;
use crate::config::Epoch;
use crate::config::Height;
use crate::config::Replica;
use crate::crypto::spec_ed_valid;
use crate::crypto::ed_verify;
use crate::pvss::AggregatePVSS;
use crate::pvss::Beacon;
use crate::pvss::DecompositionProof;
use crate::pvss::Decryption;
use crate::pvss::PVSSVec;
use crate::pvss::append_bytes;
use crate::pvss::clone_bytes;

verus! {

/// A 32-byte content digest.
pub type Hash = Vec<u8>;

/// A fresh vote-signing keypair `(secret, public)`.
pub fn vote_keygen() -> (r: (Vec<u8>, Vec<u8>))
    ensures
        r.1@ == crate::crypto::spec_ed_pk(r.0@),
        r.0@.len() == crate::crypto::ED_SK_BYTES,
        r.1@.len() == crate::crypto::ED_PK_BYTES,
{
    crate::crypto::ed_keygen()
}

/// Sign arbitrary bytes with a vote-signing key; the signature verifies
/// under the matching public key.
pub fn sign_bytes(sk: &Vec<u8>, msg: &Vec<u8>) -> (r: Vec<u8>)
    requires
        sk@.len() == crate::crypto::ED_SK_BYTES,
    ensures
        r@ == crate::crypto::spec_ed_sign(sk@, msg@),
        spec_ed_valid(crate::crypto::spec_ed_pk(sk@), msg@, r@),
        r@.len() == crate::crypto::ED_SIG_BYTES,
{
    crate::crypto::ed_sign(sk, msg)
}

/// Check one signature against one public key.
pub fn verify_signature(pk: &Vec<u8>, msg: &Vec<u8>, sig: &Vec<u8>) -> (r: bool)
    ensures
        r == spec_ed_valid(pk@, msg@, sig@),
{
    crate::crypto::ed_verify(pk, msg, sig)
}

/// The 32-byte content digest the protocol hashes with.
pub fn hash_bytes(d: &Vec<u8>) -> (r: Vec<u8>)
    ensures
        r@ == crate::crypto::spec_sha256(d@),
        r@.len() == crate::crypto::HASH_BYTES,
{
    crate::crypto::sha256(d)
}

/// An Ed25519 signature.
pub type SignatureBytes = Vec<u8>;

/// A signed vote for a block in an epoch.  The signature covers
/// `epoch || block_hash`.
#[derive(Debug)]
pub struct Vote {
    pub epoch: Epoch,
    pub block_hash: Hash,
    pub height: Height,
    pub voter: Replica,
    pub signature: SignatureBytes,
}

/// One vote is higher than another when its `(epoch, height)` pair is
/// lexicographically greater.
pub open spec fn spec_higher(e1: Epoch, h1: Height, e2: Epoch, h2: Height) -> bool {
    e1 > e2 || (e1 == e2 && h1 > h2)
}

impl Vote {
    /// The bytes a vote's signature covers.
    pub open spec fn spec_signed_bytes(self) -> Seq<u8> {
        spec_enc_u64(self.epoch) + self.block_hash@
    }

    pub fn signed_bytes(&self) -> (r: Vec<u8>)
        ensures
            r@ == self.spec_signed_bytes(),
    {
        let mut out: Vec<u8> = Vec::new();
        enc_u64(&mut out, self.epoch);
        append_bytes(&mut out, &self.block_hash);
        out
    }

    /// Lexicographic comparison against a `(epoch, height)` pair.
    pub fn higher_than(&self, e: Epoch, h: Height) -> (r: bool)
        ensures
            r == spec_higher(self.epoch, self.height, e, h),
    {
        self.epoch > e || (self.epoch == e && self.height > h)
    }

    pub fn clone_vote(&self) -> (r: Vote)
        ensures
            r.epoch == self.epoch,
            r.block_hash@ == self.block_hash@,
            r.height == self.height,
            r.voter == self.voter,
            r.signature@ == self.signature@,
    {
        Vote {
            epoch: self.epoch,
            block_hash: clone_bytes(&self.block_hash),
            height: self.height,
            voter: self.voter,
            signature: clone_bytes(&self.signature),
        }
    }
}

/// A set of signatures by distinct replicas over one message.
#[derive(Debug)]
pub struct Certificate {
    /// the signed bytes
    pub msg: Vec<u8>,
    /// who signed, pairwise distinct
    pub signers: Vec<Replica>,
    /// the signatures, aligned with `signers`
    pub sigs: Vec<SignatureBytes>,
}

/// No replica occurs twice.
pub open spec fn spec_signers_distinct(s: Seq<Replica>) -> bool {
    forall|a: int, b: int| 0 <= a < b < s.len() ==> s[a] != s[b]
}

/// Validity of a certificate against the committee's vote-signing keys:
/// at least `quorum` aligned signatures, all signers in range and pairwise
/// distinct, every signature valid for `msg` under its signer's key.
pub open spec fn spec_cert_valid(c: Certificate, pks: Seq<Seq<u8>>, quorum: int) -> bool {
    &&& c.signers@.len() == c.sigs@.len()
    &&& c.signers@.len() >= quorum
    &&& forall|j: int| 0 <= j < c.signers@.len() ==> (#[trigger] c.signers@[j]) < pks.len()
    &&& spec_signers_distinct(c.signers@)
    &&& forall|j: int|
        0 <= j < c.signers@.len() ==> spec_ed_valid(
            pks[(#[trigger] c.signers@[j]) as int],
            c.msg@,
            c.sigs@[j]@,
        )
}

impl Certificate {
    /// An empty certificate (the genesis `highest_cert`).
    pub fn empty() -> (r: Certificate)
        ensures
            r.msg@.len() == 0,
            r.signers@.len() == 0,
            r.sigs@.len() == 0,
    {
        Certificate { msg: Vec::new(), signers: Vec::new(), sigs: Vec::new() }
    }

    pub fn clone_cert(&self) -> (r: Certificate)
        ensures
            r.msg@ == self.msg@,
            r.signers@ == self.signers@,
            forall|j: int|
                0 <= j < self.sigs@.len() ==> (#[trigger] r.sigs@[j])@ == self.sigs@[j]@,
            r.sigs@.len() == self.sigs@.len(),
    {
        let mut signers: Vec<Replica> = Vec::new();
        let mut sigs: Vec<SignatureBytes> = Vec::new();
        let mut i: usize = 0;
        while i < self.signers.len()
            invariant
                i <= self.signers@.len(),
                signers@.len() == i,
                forall|j: int| 0 <= j < i ==> (#[trigger] signers@[j]) == self.signers@[j],
            decreases self.signers@.len() - i,
        {
            signers.push(self.signers[i]);
            i += 1;
        }
        let mut k: usize = 0;
        while k < self.sigs.len()
            invariant
                k <= self.sigs@.len(),
                sigs@.len() == k,
                forall|j: int| 0 <= j < k ==> (#[trigger] sigs@[j])@ == self.sigs@[j]@,
            decreases self.sigs@.len() - k,
        {
            sigs.push(clone_bytes(&self.sigs[k]));
            k += 1;
        }
        proof {
            assert(signers@ =~= self.signers@);
        }
        Certificate { msg: clone_bytes(&self.msg), signers, sigs }
    }

    /// Decide `spec_cert_valid` exactly.
    pub fn verify(&self, pks: &Vec<Vec<u8>>, quorum: usize) -> (r: bool)
        ensures
            r == spec_cert_valid(*self, crate::pvss::byte_views(pks@), quorum as int),
    {
        let ghost pkv = crate::pvss::byte_views(pks@);
        let k = self.signers.len();
        if self.sigs.len() != k || k < quorum {
            return false;
        }
        let mut a: usize = 0;
        while a < k
            invariant
                a <= k,
                k == self.signers@.len() == self.sigs@.len(),
                pkv == crate::pvss::byte_views(pks@),
                forall|j: int| 0 <= j < a ==> (#[trigger] self.signers@[j]) < pks@.len(),
                forall|j1: int, j2: int|
                    0 <= j1 < j2 < a ==> self.signers@[j1] != self.signers@[j2],
                forall|j: int|
                    0 <= j < a ==> spec_ed_valid(
                        pkv[(#[trigger] self.signers@[j]) as int],
                        self.msg@,
                        self.sigs@[j]@,
                    ),
            decreases k - a,
        {
            let s = self.signers[a];
            if s >= pks.len() {
                return false;
            }
            if !ed_verify(&pks[s], &self.msg, &self.sigs[a]) {
                return false;
            }
            let mut b: usize = 0;
            while b < a
                invariant
                    b <= a < k,
                    k == self.signers@.len(),
                    forall|j: int| 0 <= j < b ==> self.signers@[j] != self.signers@[a as int],
                decreases a - b,
            {
                if self.signers[b] == self.signers[a] {
                    return false;
                }
                b += 1;
            }
            a += 1;
        }
        true
    }
}

/// Distinct values below `n`, avoiding a finite set that also lies below
/// `n`: together they cannot exceed `n`.
proof fn lemma_distinct_avoid_bound(s: Seq<int>, avoid: Set<int>, n: int)
    requires
        s.no_duplicates(),
        forall|j: int| 0 <= j < s.len() ==> 0 <= #[trigger] s[j] < n,
        avoid.finite(),
        avoid.subset_of(set_int_range(0, n)),
        forall|j: int| 0 <= j < s.len() ==> !avoid.contains(#[trigger] s[j]),
        n >= 0,
    ensures
        avoid.len() + s.len() <= n,
    decreases s.len(),
{
    if s.len() == 0 {
        lemma_int_range(0, n);
        lemma_len_subset(avoid, set_int_range(0, n));
    } else {
        let x = s.last();
        let rest = s.drop_last();
        assert(forall|j: int| 0 <= j < rest.len() ==> rest[j] == s[j]);
        lemma_distinct_avoid_bound(rest, avoid.insert(x), n);
    }
}

/// Quorum intersection: two sets of at least `f + 1` distinct replicas out
/// of a committee of `n <= 2f + 1` share a member.  This is why two
/// conflicting certificates in one epoch would need a signer that signed
/// both.
pub proof fn lemma_quorum_intersection(s1: Seq<Replica>, s2: Seq<Replica>, n: int, f: int)
    requires
        spec_signers_distinct(s1),
        spec_signers_distinct(s2),
        forall|j: int| 0 <= j < s1.len() ==> (#[trigger] s1[j]) < n,
        forall|j: int| 0 <= j < s2.len() ==> (#[trigger] s2[j]) < n,
        s1.len() >= f + 1,
        s2.len() >= f + 1,
        0 <= n <= 2 * f + 1,
    ensures
        exists|r: Replica| s1.contains(r) && s2.contains(r),
{
    if !(exists|r: Replica| s1.contains(r) && s2.contains(r)) {
        let t1 = Seq::new(s1.len(), |i: int| s1[i] as int);
        let t2 = Seq::new(s2.len(), |i: int| s2[i] as int);
        assert(t1.no_duplicates()) by {
            assert(forall|a: int, b: int|
                0 <= a < b < t1.len() ==> t1[a] != t1[b]) by {
                assert(forall|a: int, b: int| 0 <= a < b < s1.len() ==> s1[a] != s1[b]);
            }
        }
        assert(t2.no_duplicates()) by {
            assert(forall|a: int, b: int|
                0 <= a < b < t2.len() ==> t2[a] != t2[b]) by {
                assert(forall|a: int, b: int| 0 <= a < b < s2.len() ==> s2[a] != s2[b]);
            }
        }
        t1.unique_seq_to_set();
        assert(t1.to_set().subset_of(set_int_range(0, n))) by {
            assert(forall|x: int|
                t1.to_set().contains(x) ==> 0 <= x < n) by {
                assert(forall|j: int| 0 <= j < t1.len() ==> 0 <= #[trigger] t1[j] < n);
            }
        }
        assert(forall|j: int|
            0 <= j < t2.len() ==> !t1.to_set().contains(#[trigger] t2[j])) by {
            assert(forall|j: int|
                0 <= j < t2.len() ==> {
                    let x = #[trigger] t2[j];
                    !s1.contains((x as Replica))
                }) by {
                assert(forall|j: int| 0 <= j < s2.len() ==> s2.contains(#[trigger] s2[j]));
            }
            assert(forall|x: int|
                t1.to_set().contains(x) ==> s1.contains((x as Replica))) by {
                assert(forall|j: int|
                    0 <= j < t1.len() ==> s1.contains(#[trigger] s1[j]) && t1[j] == s1[j] as int);
            }
        }
        lemma_distinct_avoid_bound(t2, t1.to_set(), n);
        assert(false);
    }
}

/// Safety kernel: two valid certificates in a committee of `n <= 2f + 1`
/// always share a signer, so two certificates over different messages mean
/// that some single replica signed both messages.  With honest replicas
/// voting at most once per epoch, no two different blocks can both gather a
/// certificate in one epoch.
pub proof fn lemma_conflicting_certs_share_signer(
    c1: Certificate,
    c2: Certificate,
    pks: Seq<Seq<u8>>,
    n: int,
    f: int,
)
    requires
        spec_cert_valid(c1, pks, f + 1),
        spec_cert_valid(c2, pks, f + 1),
        pks.len() == n,
        0 <= n <= 2 * f + 1,
    ensures
        exists|r: Replica|
            #![auto]
            c1.signers@.contains(r) && c2.signers@.contains(r) && spec_ed_valid(
                pks[r as int],
                c1.msg@,
                c1.sigs@[c1.signers@.index_of(r)]@,
            ) && spec_ed_valid(pks[r as int], c2.msg@, c2.sigs@[c2.signers@.index_of(r)]@),
{
    lemma_quorum_intersection(c1.signers@, c2.signers@, n, f);
    let r = choose|r: Replica| c1.signers@.contains(r) && c2.signers@.contains(r);
    let i1 = c1.signers@.index_of(r);
    let i2 = c2.signers@.index_of(r);
    assert(0 <= i1 < c1.signers@.len() && c1.signers@[i1] == r);
    assert(0 <= i2 < c2.signers@.len() && c2.signers@[i2] == r);
    assert(spec_ed_valid(pks[c1.signers@[i1] as int], c1.msg@, c1.sigs@[i1]@));
    assert(spec_ed_valid(pks[c2.signers@[i2] as int], c2.msg@, c2.sigs@[i2]@));
}

/// The data a sync certificate carries: the certified vote and the vote
/// certificate itself.
#[derive(Debug)]
pub struct SyncCertData {
    pub vote: Vote,
    pub cert: Certificate,
}

/// The proposal form in which a sync certificate is delivered.
#[derive(Debug)]
pub struct SyncCertProposal {
    pub data: SyncCertData,
}

/// The leader's accompanying evidence: a digest of the delivered proposal
/// and the sender's own certificate over `(epoch, acc)`.
#[derive(Debug)]
pub struct Proof {
    pub acc: Hash,
    pub sign: Certificate,
}

/// A block: parent link, height, opaque payload, and the PVSS aggregate
/// with its decomposition evidence.
#[derive(Debug)]
pub struct Block {
    pub parent_hash: Hash,
    pub height: Height,
    pub payload: Vec<u8>,
    pub aggregate: AggregatePVSS,
    pub decomposition: DecompositionProof,
}

/// Every message of the protocol.
#[derive(Debug)]
pub enum ProtocolMsg {
    /// a fresh dealing sent to the epoch leader
    RawEpochPVSSSharing(PVSSVec),
    /// `(previous epoch, highest height, highest certificate)`
    RawStatus(Epoch, Height, Certificate),
    /// the leader's proposal: epoch, block, leader signature
    Proposal(Epoch, Block, SignatureBytes),
    /// a vote for a block
    Vote(Vote),
    /// a sync certificate with its delivery proof
    SyncCert(SyncCertProposal, Proof),
    /// a re-broadcast fragment of an encoded sync certificate
    Deliver(Epoch, Vec<u8>),
    /// a decryption share for the epoch's aggregate
    DecryptionShare(Epoch, Decryption),
    /// the reconstructed beacon value for an epoch
    Beacon(Epoch, Vec<u8>),
}

/// An outbound message: the destination, or `num_nodes` for broadcast, with
/// the payload.
pub type OutMsg = (Replica, ProtocolMsg);

/// The outbound buffer the state machine fills and the transport drains.
pub struct MsgBuf {
    pub msgs: Vec<OutMsg>,
}

impl MsgBuf {
    pub fn new() -> (r: MsgBuf)
        ensures
            r.msgs@.len() == 0,
    {
        MsgBuf { msgs: Vec::new() }
    }

    pub fn push_back(&mut self, m: OutMsg)
        ensures
            final(self).msgs@ == old(self).msgs@.push(m),
    {
        self.msgs.push(m);
    }

    pub fn len(&self) -> (r: usize)
        ensures
            r == self.msgs@.len(),
    {
        self.msgs.len()
    }
}

} // verus!

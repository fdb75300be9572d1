//! Publicly verifiable secret sharing: dealings, aggregation, decryption
//! shares and beacon reconstruction.
//!
//! Group elements and scalars are canonical byte encodings (see `crypto`),
//! so equality of encodings is equality of values.  A dealing commits a
//! degree-`t` polynomial `p` in the exponent: `comms[i] = g1^p(i+1)` and
//! `encs[i] = pk_i^p(i+1)`, tied together by one DLEQ proof per share.

use vstd::prelude::*;

use crate::config::Replica;
use crate::crypto::{
    spec_fr_ok, spec_fr_is_zero, spec_fr_add, spec_fr_sub, spec_fr_mul, spec_fr_inv,
    spec_fr_from_u64, spec_hash_to_fr, spec_g1_ok, spec_g1_mul, spec_g1_add, spec_g1_is_id,
    spec_g2_ok, spec_pairing, FR_BYTES, G1_BYTES, G2_BYTES, GT_BYTES, fr_random, fr_check,
    fr_add, fr_sub, fr_mul, fr_inv, fr_from_u64, hash_to_fr, g1_generator, g1_check, g1_mul,
    g1_add, g1_is_identity, g2_check, g2_random_element, pairing, bytes_eq,
};

verus! {

/// Canonical encoding of a field scalar.
pub type Scalar = Vec<u8>;

/// Canonical encoding of a commitment `g1^p(i)`.
pub type Commitment = Vec<u8>;

/// Canonical encoding of an encrypted share `pk_i^p(i)`.
pub type Encryptions = Vec<u8>;

/// Canonical encoding of a decrypted share (a first-group point).
pub type Share = Vec<u8>;

/// Canonical encoding of a target-group element.
pub type Secret = Vec<u8>;

/// A non-interactive Chaum-Pedersen proof of discrete-log equality in the
/// challenge/response form: the verifier recomputes the two announcements
/// from `(challenge, response)` and checks the Fiat-Shamir hash.
#[derive(Clone, Debug)]
pub struct DleqProof {
    pub challenge: Scalar,
    pub response: Scalar,
}

/// One replica's PVSS contribution for one epoch.
#[derive(Clone, Debug)]
pub struct PVSSVec {
    pub comms: Vec<Commitment>,
    pub encs: Vec<Encryptions>,
    pub proofs: Vec<DleqProof>,
}

/// Componentwise product of `t+1` constituent dealings.
#[derive(Clone, Debug)]
pub struct AggregatePVSS {
    /// combined encryptions `c := (c_1, ..., c_n)`
    pub encs: Vec<Encryptions>,
    /// combined commitments `v := (v_1, ..., v_n)`
    pub comms: Vec<Commitment>,
}

/// Evidence that an aggregate was formed from a named set of dealings,
/// focused on one target index of the combined vectors.
#[derive(Clone, Debug)]
pub struct DecompositionProof {
    /// the index in the combined vector this decomposition speaks about
    pub idx: usize,
    /// indices of the replicas whose dealings were combined
    pub indices: Vec<Replica>,
    /// constituent commitments at `idx`, one per contributor
    pub comms: Vec<Commitment>,
    /// constituent encryptions at `idx`, one per contributor
    pub encs: Vec<Encryptions>,
    /// the contributors' DLEQ proofs at `idx`
    pub dleq_proofs: Vec<DleqProof>,
}

/// A decrypted share together with a proof of correct decryption.
#[derive(Clone, Debug)]
pub struct Decryption {
    /// the decrypted share
    pub dec: Share,
    /// DLEQ proof binding `dec` to the decrypter's public key
    pub dleq_proof: DleqProof,
}

/// The per-epoch beacon output: the reconstructed group point and its
/// pairing with the fixed `h2`.
#[derive(Clone, Debug)]
pub struct Beacon {
    /// `e(value, h2)`, the unpredictable output
    pub beacon: Secret,
    /// the Lagrange-reconstructed constant term in the first group
    pub value: Vec<u8>,
}

/// Why a PVSS object was rejected.
#[derive(Clone, Copy, Debug, PartialEq, Eq, Structural)]
pub enum PvssError {
    /// wrong vector length or a group element that does not decode
    Malformed,
    /// a DLEQ proof failed to verify
    InvalidDleq,
    /// the commitment vector is not a degree-`t` polynomial in the exponent
    NotOnPolynomial,
}

/// Append `a` to `out`.
pub fn append_bytes(out: &mut Vec<u8>, a: &Vec<u8>)
    ensures
        final(out)@ == old(out)@ + a@,
{
    let n = a.len();
    let mut i: usize = 0;
    while i < n
        invariant
            i <= n,
            n == a@.len(),
            out@ == old(out)@ + a@.take(i as int),
        decreases n - i,
    {
        out.push(a[i]);
        proof {
            assert(a@.take(i + 1 as int) =~= a@.take(i as int).push(a@[i as int]));
        }
        i += 1;
    }
    proof {
        assert(a@.take(n as int) =~= a@);
    }
}

/// Copy of a byte string.
pub fn clone_bytes(a: &Vec<u8>) -> (r: Vec<u8>)
    ensures
        r@ == a@,
{
    let mut out: Vec<u8> = Vec::new();
    append_bytes(&mut out, a);
    out
}

/// Copy of a DLEQ proof.
pub fn clone_dleq(p: &DleqProof) -> (r: DleqProof)
    ensures
        r.challenge@ == p.challenge@,
        r.response@ == p.response@,
{
    DleqProof { challenge: clone_bytes(&p.challenge), response: clone_bytes(&p.response) }
}

/// The Fiat-Shamir transcript of a DLEQ instance with announcements
/// `a1`, `a2`: the plain concatenation of the six encodings (all of fixed
/// width, so the framing is unambiguous).
pub open spec fn spec_dleq_transcript(
    g: Seq<u8>,
    v: Seq<u8>,
    h: Seq<u8>,
    e: Seq<u8>,
    a1: Seq<u8>,
    a2: Seq<u8>,
) -> Seq<u8> {
    g + v + h + e + a1 + a2
}

/// Validity of a DLEQ proof `(c, z)` for the claim
/// `log_g v == log_h e`: recompute the announcements
/// `a1 = g^z * v^c`, `a2 = h^z * e^c` and check that `c` is the Fiat-Shamir
/// challenge of the transcript.
pub open spec fn spec_dleq_ok(
    g: Seq<u8>,
    v: Seq<u8>,
    h: Seq<u8>,
    e: Seq<u8>,
    c: Seq<u8>,
    z: Seq<u8>,
) -> bool {
    c == spec_hash_to_fr(
        spec_dleq_transcript(
            g,
            v,
            h,
            e,
            spec_g1_add(spec_g1_mul(g, z), spec_g1_mul(v, c)),
            spec_g1_add(spec_g1_mul(h, z), spec_g1_mul(e, c)),
        ),
    )
}

/// Structural validity of one group-element encoding.
pub open spec fn spec_point_ok(a: Seq<u8>) -> bool {
    spec_g1_ok(a) && a.len() == G1_BYTES
}

/// Structural validity of one scalar encoding.
pub open spec fn spec_scalar_ok(a: Seq<u8>) -> bool {
    spec_fr_ok(a) && a.len() == FR_BYTES
}

impl DleqProof {
    /// Both fields decode as scalars.
    pub open spec fn wf(self) -> bool {
        spec_scalar_ok(self.challenge@) && spec_scalar_ok(self.response@)
    }
}

impl PVSSVec {
    /// All three vectors have length `n` and every entry decodes.
    pub open spec fn wf(self, n: int) -> bool {
        &&& self.comms@.len() == n
        &&& self.encs@.len() == n
        &&& self.proofs@.len() == n
        &&& forall|i: int| 0 <= i < n ==> spec_point_ok(#[trigger] self.comms@[i]@)
        &&& forall|i: int| 0 <= i < n ==> spec_point_ok(#[trigger] self.encs@[i]@)
        &&& forall|i: int| 0 <= i < n ==> (#[trigger] self.proofs@[i]).wf()
    }
}

impl AggregatePVSS {
    /// Both vectors have length `n` and every entry decodes.
    pub open spec fn wf(self, n: int) -> bool {
        &&& self.comms@.len() == n
        &&& self.encs@.len() == n
        &&& forall|i: int| 0 <= i < n ==> spec_point_ok(#[trigger] self.comms@[i]@)
        &&& forall|i: int| 0 <= i < n ==> spec_point_ok(#[trigger] self.encs@[i]@)
    }
}

/// Horner evaluation of a polynomial given by its coefficient encodings
/// (constant term first) at the scalar `x`, over the field operations.
pub open spec fn spec_poly_eval(coeffs: Seq<Seq<u8>>, x: Seq<u8>) -> Seq<u8>
    decreases coeffs.len(),
{
    if coeffs.len() <= 1 {
        coeffs[0]
    } else {
        spec_fr_add(coeffs[0], spec_fr_mul(x, spec_poly_eval(coeffs.drop_first(), x)))
    }
}

/// Group product of a non-empty sequence of point encodings.
pub open spec fn spec_g1_prod(s: Seq<Seq<u8>>) -> Seq<u8>
    decreases s.len(),
{
    if s.len() <= 1 {
        s[0]
    } else {
        spec_g1_add(spec_g1_prod(s.drop_last()), s.last())
    }
}

/// The `k`-th column of the contributors' commitment vectors.
pub open spec fn spec_comms_col(ds: Seq<PVSSVec>, k: int) -> Seq<Seq<u8>> {
    Seq::new(ds.len(), |j: int| ds[j].comms@[k]@)
}

/// The `k`-th column of the contributors' encryption vectors.
pub open spec fn spec_encs_col(ds: Seq<PVSSVec>, k: int) -> Seq<Seq<u8>> {
    Seq::new(ds.len(), |j: int| ds[j].encs@[k]@)
}

/// Shared, read-only PVSS context of one replica: committee size `n`,
/// threshold `t`, the group generator, the genesis element `h2`, every
/// replica's encryption public key, and this replica's own secret key.
pub struct PvssContext {
    n: usize,
    t: usize,
    origin: Replica,
    g1: Vec<u8>,
    h2: Vec<u8>,
    pks: Vec<Vec<u8>>,
    sk: Vec<u8>,
}

impl PvssContext {
    /// Everything a context ever holds: consistent sizes and canonical,
    /// decodable key material.
    #[verifier::type_invariant]
    pub closed spec fn inv(self) -> bool {
        &&& 1 <= self.n < 0x1_0000_0000
        &&& self.t < self.n
        &&& self.origin < self.n
        &&& spec_point_ok(self.g1@)
        &&& spec_g2_ok(self.h2@)
        &&& self.h2@.len() == G2_BYTES
        &&& self.pks@.len() == self.n
        &&& forall|i: int| 0 <= i < self.n ==> spec_point_ok(#[trigger] self.pks@[i]@)
        &&& spec_scalar_ok(self.sk@)
    }

    pub closed spec fn spec_n(self) -> int {
        self.n as int
    }

    pub closed spec fn spec_t(self) -> int {
        self.t as int
    }

    pub closed spec fn spec_origin(self) -> int {
        self.origin as int
    }

    pub closed spec fn spec_g1(self) -> Seq<u8> {
        self.g1@
    }

    pub closed spec fn spec_h2(self) -> Seq<u8> {
        self.h2@
    }

    pub closed spec fn spec_pk(self, i: int) -> Seq<u8> {
        self.pks@[i]@
    }

    pub closed spec fn spec_sk(self) -> Seq<u8> {
        self.sk@
    }

    pub fn num_nodes(&self) -> (r: usize)
        ensures
            r == self.spec_n(),
            1 <= r < 0x1_0000_0000,
    {
        proof {
            use_type_invariant(&*self);
        }
        self.n
    }

    pub fn threshold(&self) -> (r: usize)
        ensures
            r == self.spec_t(),
            r < self.spec_n(),
    {
        proof {
            use_type_invariant(&*self);
        }
        self.t
    }

    /// Build a context after validating every piece of key material; `None`
    /// exactly when some piece is out of shape.
    pub fn new(
        origin: Replica,
        t: usize,
        h2: Vec<u8>,
        pks: Vec<Vec<u8>>,
        sk: Vec<u8>,
    ) -> (r: Option<PvssContext>)
        ensures
            r matches Some(c) ==> {
                &&& c.spec_n() == pks@.len()
                &&& c.spec_t() == t
                &&& c.spec_origin() == origin
                &&& c.spec_h2() == h2@
                &&& c.spec_sk() == sk@
                &&& forall|i: int|
                    0 <= i < pks@.len() ==> c.spec_pk(i) == #[trigger] pks@[i]@
            },
    {
        let n = pks.len();
        if n < 1 || (n as u64) >= 0x1_0000_0000u64 || t >= n || origin >= n {
            return None;
        }
        if !(g2_check(&h2) && h2.len() == G2_BYTES) {
            return None;
        }
        if !(fr_check(&sk) && sk.len() == FR_BYTES) {
            return None;
        }
        let mut i: usize = 0;
        while i < n
            invariant
                i <= n,
                n == pks@.len(),
                forall|j: int| 0 <= j < i ==> spec_point_ok(#[trigger] pks@[j]@),
            decreases n - i,
        {
            if !(g1_check(&pks[i]) && pks[i].len() == G1_BYTES) {
                return None;
            }
            i += 1;
        }
        let g1 = g1_generator();
        Some(PvssContext { n, t, origin, g1, h2, pks, sk })
    }

    /// The committee-wide random second-group element `h2`, drawn once at
    /// genesis and shared by every replica's context.
    pub fn genesis_h2() -> (r: Vec<u8>)
        ensures
            spec_g2_ok(r@),
            r@.len() == G2_BYTES,
    {
        g2_random_element()
    }

    /// A fresh keypair for the sharing scheme: `pk = g1^sk`.
    pub fn keygen() -> (r: (Vec<u8>, Vec<u8>))
        ensures
            spec_scalar_ok(r.0@),
            spec_point_ok(r.1@),
    {
        let sk = fr_random();
        let g = g1_generator();
        let pk = g1_mul(&g, &sk).unwrap();
        (sk, pk)
    }
}

/// Produce a DLEQ proof for `log_g v == log_h e` with witness `x`.
fn dleq_prove(g: &Vec<u8>, v: &Vec<u8>, h: &Vec<u8>, e: &Vec<u8>, x: &Vec<u8>) -> (r: DleqProof)
    requires
        spec_point_ok(g@),
        spec_point_ok(v@),
        spec_point_ok(h@),
        spec_point_ok(e@),
        spec_fr_ok(x@),
    ensures
        r.wf(),
{
    let w = fr_random();
    let a1 = g1_mul(g, &w).unwrap();
    let a2 = g1_mul(h, &w).unwrap();
    let mut tr: Vec<u8> = Vec::new();
    append_bytes(&mut tr, g);
    append_bytes(&mut tr, v);
    append_bytes(&mut tr, h);
    append_bytes(&mut tr, e);
    append_bytes(&mut tr, &a1);
    append_bytes(&mut tr, &a2);
    let c = hash_to_fr(&tr);
    let cx = fr_mul(&c, x).unwrap();
    let z = fr_sub(&w, &cx).unwrap();
    DleqProof { challenge: c, response: z }
}

/// Check a DLEQ proof; `true` exactly when every piece decodes and the
/// Fiat-Shamir equation of `spec_dleq_ok` holds.
pub fn dleq_verify(g: &Vec<u8>, v: &Vec<u8>, h: &Vec<u8>, e: &Vec<u8>, pf: &DleqProof) -> (r:
    bool)
    ensures
        r == ({
            &&& spec_g1_ok(g@)
            &&& spec_g1_ok(v@)
            &&& spec_g1_ok(h@)
            &&& spec_g1_ok(e@)
            &&& spec_fr_ok(pf.challenge@)
            &&& spec_fr_ok(pf.response@)
            &&& spec_dleq_ok(g@, v@, h@, e@, pf.challenge@, pf.response@)
        }),
{
    if !(g1_check(g) && g1_check(v) && g1_check(h) && g1_check(e)) {
        return false;
    }
    if !(fr_check(&pf.challenge) && fr_check(&pf.response)) {
        return false;
    }
    let t1 = g1_mul(g, &pf.response).unwrap();
    let u1 = g1_mul(v, &pf.challenge).unwrap();
    let a1 = g1_add(&t1, &u1).unwrap();
    let t2 = g1_mul(h, &pf.response).unwrap();
    let u2 = g1_mul(e, &pf.challenge).unwrap();
    let a2 = g1_add(&t2, &u2).unwrap();
    let mut tr: Vec<u8> = Vec::new();
    append_bytes(&mut tr, g);
    append_bytes(&mut tr, v);
    append_bytes(&mut tr, h);
    append_bytes(&mut tr, e);
    append_bytes(&mut tr, &a1);
    append_bytes(&mut tr, &a2);
    let c2 = hash_to_fr(&tr);
    bytes_eq(&c2, &pf.challenge)
}

/// The byte sequences of a sequence of byte vectors.
pub open spec fn byte_views(v: Seq<Vec<u8>>) -> Seq<Seq<u8>> {
    Seq::new(v.len(), |i: int| v[i]@)
}

/// No replica index occurs twice.
pub open spec fn spec_distinct(s: Seq<Replica>) -> bool {
    forall|a: int, b: int| 0 <= a < b < s.len() ==> s[a] != s[b]
}

/// Evaluate a polynomial (constant term first) at `x` by Horner's rule.
fn poly_eval(coeffs: &Vec<Vec<u8>>, x: &Vec<u8>) -> (r: Vec<u8>)
    requires
        coeffs@.len() >= 1,
        forall|j: int| 0 <= j < coeffs@.len() ==> spec_fr_ok(#[trigger] coeffs@[j]@),
        spec_fr_ok(x@),
    ensures
        r@ == spec_poly_eval(byte_views(coeffs@), x@),
        spec_fr_ok(r@),
{
    let ghost bv = byte_views(coeffs@);
    let len = coeffs.len();
    let mut j: usize = len - 1;
    let mut acc = clone_bytes(&coeffs[j]);
    proof {
        assert(bv.skip(j as int).len() == 1);
        assert(bv.skip(j as int)[0] == bv[j as int]);
    }
    while j > 0
        invariant
            j < len,
            len == coeffs@.len(),
            bv == byte_views(coeffs@),
            forall|k: int| 0 <= k < coeffs@.len() ==> spec_fr_ok(#[trigger] coeffs@[k]@),
            spec_fr_ok(x@),
            acc@ == spec_poly_eval(bv.skip(j as int), x@),
            spec_fr_ok(acc@),
        decreases j,
    {
        j -= 1;
        let m = fr_mul(x, &acc).unwrap();
        acc = fr_add(&coeffs[j], &m).unwrap();
        proof {
            assert(bv.skip(j as int).drop_first() =~= bv.skip(j + 1 as int));
            assert(bv.skip(j as int)[0] == bv[j as int]);
        }
    }
    proof {
        assert(bv.skip(0) =~= bv);
    }
    acc
}

impl PvssContext {
    /// The dealing's commitments and encryptions all raise the shared bases
    /// to the same polynomial evaluations.
    pub open spec fn spec_sharing_consistent(
        self,
        coeffs: Seq<Seq<u8>>,
        p: PVSSVec,
    ) -> bool {
        forall|i: int|
            0 <= i < self.spec_n() ==> {
                &&& (#[trigger] p.comms@[i])@ == spec_g1_mul(
                    self.spec_g1(),
                    spec_poly_eval(coeffs, spec_fr_from_u64((i + 1) as u64)),
                )
                &&& p.encs@[i]@ == spec_g1_mul(
                    self.spec_pk(i),
                    spec_poly_eval(coeffs, spec_fr_from_u64((i + 1) as u64)),
                )
            }
    }

    /// Every per-share DLEQ proof of the dealing verifies.
    pub open spec fn spec_all_dleq_ok(self, p: PVSSVec) -> bool {
        forall|i: int|
            0 <= i < self.spec_n() ==> spec_dleq_ok(
                self.spec_g1(),
                (#[trigger] p.comms@[i])@,
                self.spec_pk(i),
                p.encs@[i]@,
                p.proofs@[i].challenge@,
                p.proofs@[i].response@,
            )
    }

    /// Deal a fresh sharing: sample a degree-`t` polynomial `p` and publish
    /// `comms[i] = g1^p(i+1)`, `encs[i] = pk_i^p(i+1)` with one DLEQ proof
    /// per share.  The coefficients exist but stay secret, hence the
    /// existential.
    pub fn generate_shares(&self) -> (r: PVSSVec)
        ensures
            r.wf(self.spec_n()),
            exists|coeffs: Seq<Seq<u8>>|
                {
                    &&& coeffs.len() == self.spec_t() + 1
                    &&& (forall|j: int| 0 <= j < coeffs.len() ==> spec_fr_ok(#[trigger] coeffs[j]))
                    &&& self.spec_sharing_consistent(coeffs, r)
                },
    {
        proof {
            use_type_invariant(&*self);
        }
        let n = self.n;
        let t = self.t;
        let mut coeffs: Vec<Vec<u8>> = Vec::new();
        let mut j: usize = 0;
        while j <= t
            invariant
                j <= t + 1,
                t <= 0xffff_fffe,
                coeffs@.len() == j,
                forall|k: int| 0 <= k < j ==> spec_fr_ok(#[trigger] coeffs@[k]@),
            decreases t + 1 - j,
        {
            coeffs.push(fr_random());
            j += 1;
        }
        let ghost cv = byte_views(coeffs@);
        let mut comms: Vec<Vec<u8>> = Vec::new();
        let mut encs: Vec<Vec<u8>> = Vec::new();
        let mut proofs: Vec<DleqProof> = Vec::new();
        let mut i: usize = 0;
        while i < n
            invariant
                self.inv(),
                i <= n,
                n == self.spec_n(),
                t == self.spec_t(),
                coeffs@.len() == t + 1,
                cv == byte_views(coeffs@),
                forall|k: int| 0 <= k < coeffs@.len() ==> spec_fr_ok(#[trigger] coeffs@[k]@),
                comms@.len() == i,
                encs@.len() == i,
                proofs@.len() == i,
                forall|k: int| 0 <= k < i ==> spec_point_ok(#[trigger] comms@[k]@),
                forall|k: int| 0 <= k < i ==> spec_point_ok(#[trigger] encs@[k]@),
                forall|k: int| 0 <= k < i ==> (#[trigger] proofs@[k]).wf(),
                forall|k: int|
                    0 <= k < i ==> (#[trigger] comms@[k])@ == spec_g1_mul(
                        self.spec_g1(),
                        spec_poly_eval(cv, spec_fr_from_u64((k + 1) as u64)),
                    ),
                forall|k: int|
                    0 <= k < i ==> (#[trigger] encs@[k])@ == spec_g1_mul(
                        self.spec_pk(k),
                        spec_poly_eval(cv, spec_fr_from_u64((k + 1) as u64)),
                    ),
            decreases n - i,
        {
            let xi = fr_from_u64((i as u64) + 1);
            let si = poly_eval(&coeffs, &xi);
            let vi = g1_mul(&self.g1, &si).unwrap();
            let ci = g1_mul(&self.pks[i], &si).unwrap();
            let pf = dleq_prove(&self.g1, &vi, &self.pks[i], &ci, &si);
            comms.push(vi);
            encs.push(ci);
            proofs.push(pf);
            i += 1;
        }
        let out = PVSSVec { comms, encs, proofs };
        proof {
            assert(cv.len() == self.spec_t() + 1);
            assert(forall|k: int| 0 <= k < cv.len() ==> spec_fr_ok(#[trigger] cv[k]));
            assert(self.spec_sharing_consistent(cv, out));
        }
        out
    }

    /// Structural check: `true` exactly when the dealing is well-formed for
    /// this committee size.
    pub fn verify_structure(&self, p: &PVSSVec) -> (r: bool)
        ensures
            r == p.wf(self.spec_n()),
    {
        proof {
            use_type_invariant(&*self);
        }
        let n = self.n;
        if p.comms.len() != n || p.encs.len() != n || p.proofs.len() != n {
            return false;
        }
        let mut i: usize = 0;
        while i < n
            invariant
                i <= n,
                n == self.spec_n(),
                p.comms@.len() == n,
                p.encs@.len() == n,
                p.proofs@.len() == n,
                forall|k: int| 0 <= k < i ==> spec_point_ok(#[trigger] p.comms@[k]@),
                forall|k: int| 0 <= k < i ==> spec_point_ok(#[trigger] p.encs@[k]@),
                forall|k: int| 0 <= k < i ==> (#[trigger] p.proofs@[k]).wf(),
            decreases n - i,
        {
            if !(g1_check(&p.comms[i]) && p.comms[i].len() == G1_BYTES) {
                return false;
            }
            if !(g1_check(&p.encs[i]) && p.encs[i].len() == G1_BYTES) {
                return false;
            }
            if !(fr_check(&p.proofs[i].challenge) && p.proofs[i].challenge.len() == FR_BYTES) {
                return false;
            }
            if !(fr_check(&p.proofs[i].response) && p.proofs[i].response.len() == FR_BYTES) {
                return false;
            }
            i += 1;
        }
        true
    }

    /// The running Lagrange-style factor of the dual codeword at index
    /// `i`: one over the product of `(x_i - x_b)` for `b` below `upto`,
    /// skipping `b == i`; `None` where a field inversion refuses.
    pub open spec fn spec_scrape_lambda(i: int, upto: int) -> Option<Seq<u8>>
        decreases upto,
    {
        if upto <= 0 {
            Option::Some(spec_fr_from_u64(1))
        } else {
            match Self::spec_scrape_lambda(i, upto - 1) {
                Option::None => Option::None,
                Option::Some(acc) => if upto - 1 == i {
                    Option::Some(acc)
                } else {
                    let d = spec_fr_sub(
                        spec_fr_from_u64((i + 1) as u64),
                        spec_fr_from_u64(upto as u64),
                    );
                    if spec_fr_ok(d) && !spec_fr_is_zero(d) {
                        Option::Some(spec_fr_mul(acc, spec_fr_inv(d)))
                    } else {
                        Option::None
                    }
                },
            }
        }
    }

    /// One term of the dual-code product: `comms[i]` raised to
    /// `f(i+1) * lambda_i`.
    pub open spec fn spec_scrape_term(
        comms: Seq<Seq<u8>>,
        coeffs: Seq<Seq<u8>>,
        i: int,
        n: int,
    ) -> Option<Seq<u8>> {
        match Self::spec_scrape_lambda(i, n) {
            Option::None => Option::None,
            Option::Some(lam) => Option::Some(
                spec_g1_mul(
                    comms[i],
                    spec_fr_mul(spec_poly_eval(coeffs, spec_fr_from_u64((i + 1) as u64)), lam),
                ),
            ),
        }
    }

    /// The group product of the first `upto` dual-code terms.
    pub open spec fn spec_scrape_acc(
        comms: Seq<Seq<u8>>,
        coeffs: Seq<Seq<u8>>,
        n: int,
        upto: int,
    ) -> Option<Seq<u8>>
        decreases upto,
    {
        if upto <= 0 {
            Option::None
        } else if upto == 1 {
            Self::spec_scrape_term(comms, coeffs, 0, n)
        } else {
            match (
                Self::spec_scrape_acc(comms, coeffs, n, upto - 1),
                Self::spec_scrape_term(comms, coeffs, upto - 1, n),
            ) {
                (Option::Some(a), Option::Some(t)) => Option::Some(spec_g1_add(a, t)),
                _ => Option::None,
            }
        }
    }

    /// What the dual-code test decides for one drawn codeword: trivially
    /// true when the dual code is empty, else whether the product is the
    /// group identity; `None` where an inversion refused.
    pub open spec fn spec_scrape_outcome(
        comms: Seq<Seq<u8>>,
        coeffs: Seq<Seq<u8>>,
        n: int,
        t: int,
    ) -> Option<bool> {
        if n - t - 1 == 0 {
            Option::Some(true)
        } else {
            match Self::spec_scrape_acc(comms, coeffs, n, n) {
                Option::Some(acc) => Option::Some(spec_g1_is_id(acc)),
                Option::None => Option::None,
            }
        }
    }

    /// A refused lambda stays refused as `upto` grows.
    proof fn lemma_scrape_lambda_none(i: int, b1: int, b2: int)
        requires
            Self::spec_scrape_lambda(i, b1) is None,
            b1 <= b2,
        ensures
            Self::spec_scrape_lambda(i, b2) is None,
        decreases b2 - b1,
    {
        if b1 < b2 {
            Self::lemma_scrape_lambda_none(i, b1, b2 - 1);
        }
    }

    /// A refused term poisons every longer product.
    proof fn lemma_scrape_acc_none(comms: Seq<Seq<u8>>, coeffs: Seq<Seq<u8>>, n: int, j: int, upto: int)
        requires
            Self::spec_scrape_term(comms, coeffs, j, n) is None,
            0 <= j < upto,
        ensures
            Self::spec_scrape_acc(comms, coeffs, n, upto) is None,
        decreases upto,
    {
        if upto > 1 && j < upto - 1 {
            Self::lemma_scrape_acc_none(comms, coeffs, n, j, upto - 1);
        }
    }

    /// Draw a fresh random dual-code polynomial for the SCRAPE test.
    fn draw_codeword(&self) -> (r: Vec<Vec<u8>>)
        ensures
            r@.len() == self.spec_n() - self.spec_t() - 1,
            forall|k: int| 0 <= k < r@.len() ==> spec_fr_ok(#[trigger] r@[k]@),
    {
        proof {
            use_type_invariant(&*self);
        }
        let m = self.n - self.t - 1;
        let mut fcoeffs: Vec<Vec<u8>> = Vec::new();
        let mut j: usize = 0;
        while j < m
            invariant
                j <= m,
                fcoeffs@.len() == j,
                forall|k: int| 0 <= k < j ==> spec_fr_ok(#[trigger] fcoeffs@[k]@),
            decreases m - j,
        {
            fcoeffs.push(fr_random());
            j += 1;
        }
        fcoeffs
    }

    /// The SCRAPE dual-code test against one drawn codeword: decides
    /// exactly whether the commitment vector pairs to the group identity
    /// under it (an inversion refusal also refuses the vector).  A vector
    /// on a degree-`t` polynomial passes for every codeword; an
    /// off-polynomial vector fails with overwhelming probability over the
    /// draw.
    fn scrape_check(&self, comms: &Vec<Vec<u8>>, fcoeffs: &Vec<Vec<u8>>) -> (r: bool)
        requires
            comms@.len() == self.spec_n(),
            forall|i: int| 0 <= i < comms@.len() ==> spec_point_ok(#[trigger] comms@[i]@),
            fcoeffs@.len() == self.spec_n() - self.spec_t() - 1,
            forall|k: int| 0 <= k < fcoeffs@.len() ==> spec_fr_ok(#[trigger] fcoeffs@[k]@),
        ensures
            r == (PvssContext::spec_scrape_outcome(
                byte_views(comms@),
                byte_views(fcoeffs@),
                self.spec_n(),
                self.spec_t(),
            ) == Some(true)),
    {
        proof {
            use_type_invariant(&*self);
        }
        let ghost cv = byte_views(comms@);
        let ghost fv = byte_views(fcoeffs@);
        let n = self.n;
        let t = self.t;
        let m = n - t - 1;
        if m == 0 {
            return true;
        }
        let mut acc: Vec<u8> = Vec::new();
        let mut i: usize = 0;
        while i < n
            invariant
                self.inv(),
                i <= n,
                n == self.spec_n(),
                t == self.spec_t(),
                n - t - 1 >= 1,
                comms@.len() == n,
                cv == byte_views(comms@),
                fv == byte_views(fcoeffs@),
                forall|k: int| 0 <= k < comms@.len() ==> spec_point_ok(#[trigger] comms@[k]@),
                fcoeffs@.len() == n - t - 1,
                forall|k: int| 0 <= k < fcoeffs@.len() ==> spec_fr_ok(#[trigger] fcoeffs@[k]@),
                i > 0 ==> spec_g1_ok(acc@),
                i > 0 ==> PvssContext::spec_scrape_acc(cv, fv, n as int, i as int) == Some(acc@),
            decreases n - i,
        {
            let xi = fr_from_u64((i as u64) + 1);
            // lambda_i = prod over j != i of 1 / (x_i - x_j)
            let mut lam = fr_from_u64(1);
            let mut b: usize = 0;
            while b < n
                invariant
                    self.inv(),
                    b <= n,
                    n == self.spec_n(),
                    t == self.spec_t(),
                    n - t - 1 >= 1,
                    i < n,
                    cv == byte_views(comms@),
                    fv == byte_views(fcoeffs@),
                    xi@ == spec_fr_from_u64((i + 1) as u64),
                    spec_fr_ok(xi@),
                    spec_fr_ok(lam@),
                    PvssContext::spec_scrape_lambda(i as int, b as int) == Some(lam@),
                decreases n - b,
            {
                if b != i {
                    let xb = fr_from_u64((b as u64) + 1);
                    let d = fr_sub(&xi, &xb).unwrap();
                    let di = match fr_inv(&d) {
                        Some(v) => v,
                        None => {
                            proof {
                                assert(PvssContext::spec_scrape_lambda(i as int, b as int + 1)
                                    is None);
                                PvssContext::lemma_scrape_lambda_none(
                                    i as int,
                                    b as int + 1,
                                    n as int,
                                );
                                PvssContext::lemma_scrape_acc_none(
                                    cv,
                                    fv,
                                    n as int,
                                    i as int,
                                    n as int,
                                );
                            }
                            return false;
                        },
                    };
                    lam = fr_mul(&lam, &di).unwrap();
                }
                b += 1;
            }
            let fi = poly_eval(&fcoeffs, &xi);
            let ai = fr_mul(&fi, &lam).unwrap();
            let term = g1_mul(&comms[i], &ai).unwrap();
            proof {
                assert(PvssContext::spec_scrape_term(cv, fv, i as int, n as int) == Some(term@));
            }
            if i == 0 {
                acc = term;
            } else {
                acc = g1_add(&acc, &term).unwrap();
            }
            i += 1;
        }
        g1_is_identity(&acc).unwrap()
    }

    /// Verify one dealing: structure, every DLEQ proof, and the dual-code
    /// polynomial test, in that order.  The first two checks are exact;
    /// success additionally reports that the sampled codeword accepted the
    /// commitment vector.
    pub fn verify_sharing(&self, p: &PVSSVec) -> (r: Result<(), PvssError>)
        ensures
            (r == Err::<(), PvssError>(PvssError::Malformed)) <==> !p.wf(self.spec_n()),
            (r == Err::<(), PvssError>(PvssError::InvalidDleq)) <==> (p.wf(self.spec_n())
                && !self.spec_all_dleq_ok(*p)),
            r.is_ok() ==> p.wf(self.spec_n()) && self.spec_all_dleq_ok(*p),
            // the polynomial leg: success and the polynomial refusal each
            // name a drawn dual codeword with that outcome
            r.is_ok() ==> exists|coeffs: Seq<Seq<u8>>|
                #![auto]
                {
                    &&& coeffs.len() == self.spec_n() - self.spec_t() - 1
                    &&& (forall|k: int| 0 <= k < coeffs.len() ==> spec_fr_ok(coeffs[k]))
                    &&& PvssContext::spec_scrape_outcome(
                        byte_views(p.comms@),
                        coeffs,
                        self.spec_n(),
                        self.spec_t(),
                    ) == Some(true)
                },
            (r == Err::<(), PvssError>(PvssError::NotOnPolynomial)) ==> exists|coeffs: Seq<Seq<u8>>|
                #![auto]
                {
                    &&& coeffs.len() == self.spec_n() - self.spec_t() - 1
                    &&& (forall|k: int| 0 <= k < coeffs.len() ==> spec_fr_ok(coeffs[k]))
                    &&& PvssContext::spec_scrape_outcome(
                        byte_views(p.comms@),
                        coeffs,
                        self.spec_n(),
                        self.spec_t(),
                    ) != Some(true)
                },
    {
        proof {
            use_type_invariant(&*self);
        }
        if !self.verify_structure(p) {
            return Err(PvssError::Malformed);
        }
        let n = self.n;
        let mut i: usize = 0;
        while i < n
            invariant
                self.inv(),
                i <= n,
                n == self.spec_n(),
                p.wf(self.spec_n()),
                forall|k: int|
                    0 <= k < i ==> spec_dleq_ok(
                        self.spec_g1(),
                        (#[trigger] p.comms@[k])@,
                        self.spec_pk(k),
                        p.encs@[k]@,
                        p.proofs@[k].challenge@,
                        p.proofs@[k].response@,
                    ),
            decreases n - i,
        {
            if !dleq_verify(&self.g1, &p.comms[i], &self.pks[i], &p.encs[i], &p.proofs[i]) {
                return Err(PvssError::InvalidDleq);
            }
            i += 1;
        }
        let fcoeffs = self.draw_codeword();
        if self.scrape_check(&p.comms, &fcoeffs) {
            Ok(())
        } else {
            Err(PvssError::NotOnPolynomial)
        }
    }

    /// An acceptable input to `aggregate`: matching lengths, at least
    /// `t + 1` distinct in-range contributors, each dealing well-formed.
    pub open spec fn spec_agg_input_ok(self, idx: Seq<Replica>, ds: Seq<PVSSVec>) -> bool {
        &&& idx.len() == ds.len()
        &&& idx.len() >= self.spec_t() + 1
        &&& forall|j: int| 0 <= j < idx.len() ==> (#[trigger] idx[j]) < self.spec_n()
        &&& spec_distinct(idx)
        &&& forall|j: int| 0 <= j < ds.len() ==> (#[trigger] ds[j]).wf(self.spec_n())
    }

    /// What `aggregate` returns: the componentwise group product of the
    /// dealings, and a decomposition focused on this replica's own index
    /// that copies the constituent entries and their DLEQ proofs.
    pub open spec fn spec_agg_correct(
        self,
        idx: Seq<Replica>,
        ds: Seq<PVSSVec>,
        agg: AggregatePVSS,
        pi: DecompositionProof,
    ) -> bool {
        &&& agg.wf(self.spec_n())
        &&& forall|k: int|
            0 <= k < self.spec_n() ==> (#[trigger] agg.comms@[k])@ == spec_g1_prod(
                spec_comms_col(ds, k),
            )
        &&& forall|k: int|
            0 <= k < self.spec_n() ==> (#[trigger] agg.encs@[k])@ == spec_g1_prod(
                spec_encs_col(ds, k),
            )
        &&& pi.idx == self.spec_origin()
        &&& pi.indices@ == idx
        &&& pi.comms@.len() == ds.len()
        &&& pi.encs@.len() == ds.len()
        &&& pi.dleq_proofs@.len() == ds.len()
        &&& forall|j: int|
            0 <= j < ds.len() ==> (#[trigger] pi.comms@[j])@ == ds[j].comms@[pi.idx as int]@
        &&& forall|j: int|
            0 <= j < ds.len() ==> (#[trigger] pi.encs@[j])@ == ds[j].encs@[pi.idx as int]@
        &&& forall|j: int|
            0 <= j < ds.len() ==> (#[trigger] pi.dleq_proofs@[j]).challenge@ == ds[j].proofs@[pi.idx as int].challenge@
                && pi.dleq_proofs@[j].response@ == ds[j].proofs@[pi.idx as int].response@
    }

    /// Combine `t + 1` verified dealings into one aggregate by componentwise
    /// group products, together with the decomposition evidence for this
    /// replica's own index.  Fails exactly on an unacceptable input.
    pub fn aggregate(&self, indices: &Vec<Replica>, dealings: &Vec<PVSSVec>) -> (r: Result<
        (AggregatePVSS, DecompositionProof),
        PvssError,
    >)
        ensures
            r.is_ok() <==> self.spec_agg_input_ok(indices@, dealings@),
            r matches Ok(pair) ==> self.spec_agg_correct(indices@, dealings@, pair.0, pair.1),
    {
        proof {
            use_type_invariant(&*self);
        }
        let n = self.n;
        let t = self.t;
        let k = indices.len();
        if k != dealings.len() || k < t + 1 {
            return Err(PvssError::Malformed);
        }
        let mut a: usize = 0;
        while a < k
            invariant
                self.inv(),
                a <= k,
                n == self.spec_n(),
                k == indices@.len() == dealings@.len(),
                forall|j: int| 0 <= j < a ==> (#[trigger] indices@[j]) < self.spec_n(),
                forall|j1: int, j2: int|
                    0 <= j1 < j2 < a ==> indices@[j1] != indices@[j2],
                forall|j: int| 0 <= j < a ==> (#[trigger] dealings@[j]).wf(self.spec_n()),
            decreases k - a,
        {
            if indices[a] >= n {
                return Err(PvssError::Malformed);
            }
            if !self.verify_structure(&dealings[a]) {
                return Err(PvssError::Malformed);
            }
            let mut b: usize = 0;
            while b < a
                invariant
                    a < k,
                    k == indices@.len(),
                    b <= a,
                    forall|j: int| 0 <= j < b ==> indices@[j] != indices@[a as int],
                decreases a - b,
            {
                if indices[b] == indices[a] {
                    return Err(PvssError::Malformed);
                }
                b += 1;
            }
            a += 1;
        }
        let ghost ds = dealings@;
        let mut agg_comms: Vec<Vec<u8>> = Vec::new();
        let mut agg_encs: Vec<Vec<u8>> = Vec::new();
        let mut pos: usize = 0;
        while pos < n
            invariant
                self.inv(),
                pos <= n,
                n == self.spec_n(),
                k == ds.len(),
                k >= 1,
                ds == dealings@,
                forall|j: int| 0 <= j < ds.len() ==> (#[trigger] ds[j]).wf(self.spec_n()),
                agg_comms@.len() == pos,
                agg_encs@.len() == pos,
                forall|q: int| 0 <= q < pos ==> spec_point_ok(#[trigger] agg_comms@[q]@),
                forall|q: int| 0 <= q < pos ==> spec_point_ok(#[trigger] agg_encs@[q]@),
                forall|q: int|
                    0 <= q < pos ==> (#[trigger] agg_comms@[q])@ == spec_g1_prod(
                        spec_comms_col(ds, q),
                    ),
                forall|q: int|
                    0 <= q < pos ==> (#[trigger] agg_encs@[q])@ == spec_g1_prod(
                        spec_encs_col(ds, q),
                    ),
            decreases n - pos,
        {
            let mut acc_c = clone_bytes(&dealings[0].comms[pos]);
            let mut acc_e = clone_bytes(&dealings[0].encs[pos]);
            proof {
                assert(spec_comms_col(ds, pos as int).take(1) =~= seq![ds[0].comms@[pos as int]@]);
                assert(spec_encs_col(ds, pos as int).take(1) =~= seq![ds[0].encs@[pos as int]@]);
            }
            let mut j: usize = 1;
            while j < k
                invariant
                    self.inv(),
                    1 <= j <= k,
                    pos < n,
                    n == self.spec_n(),
                    k == ds.len(),
                    ds == dealings@,
                    forall|q: int| 0 <= q < ds.len() ==> (#[trigger] ds[q]).wf(self.spec_n()),
                    spec_point_ok(acc_c@),
                    spec_point_ok(acc_e@),
                    acc_c@ == spec_g1_prod(spec_comms_col(ds, pos as int).take(j as int)),
                    acc_e@ == spec_g1_prod(spec_encs_col(ds, pos as int).take(j as int)),
                decreases k - j,
            {
                acc_c = g1_add(&acc_c, &dealings[j].comms[pos]).unwrap();
                acc_e = g1_add(&acc_e, &dealings[j].encs[pos]).unwrap();
                proof {
                    let col = spec_comms_col(ds, pos as int);
                    assert(col.take(j + 1 as int).drop_last() =~= col.take(j as int));
                    assert(col.take(j + 1 as int).last() == ds[j as int].comms@[pos as int]@);
                    let cole = spec_encs_col(ds, pos as int);
                    assert(cole.take(j + 1 as int).drop_last() =~= cole.take(j as int));
                    assert(cole.take(j + 1 as int).last() == ds[j as int].encs@[pos as int]@);
                }
                j += 1;
            }
            proof {
                assert(spec_comms_col(ds, pos as int).take(k as int) =~= spec_comms_col(
                    ds,
                    pos as int,
                ));
                assert(spec_encs_col(ds, pos as int).take(k as int) =~= spec_encs_col(
                    ds,
                    pos as int,
                ));
            }
            agg_comms.push(acc_c);
            agg_encs.push(acc_e);
            pos += 1;
        }
        // decomposition for this replica's own index
        let my = self.origin;
        let mut d_comms: Vec<Vec<u8>> = Vec::new();
        let mut d_encs: Vec<Vec<u8>> = Vec::new();
        let mut d_proofs: Vec<DleqProof> = Vec::new();
        let mut idxs: Vec<Replica> = Vec::new();
        let mut j: usize = 0;
        while j < k
            invariant
                self.inv(),
                j <= k,
                my == self.spec_origin(),
                my < n,
                n == self.spec_n(),
                k == ds.len() == indices@.len(),
                ds == dealings@,
                forall|q: int| 0 <= q < ds.len() ==> (#[trigger] ds[q]).wf(self.spec_n()),
                d_comms@.len() == j,
                d_encs@.len() == j,
                d_proofs@.len() == j,
                idxs@.len() == j,
                forall|q: int| 0 <= q < j ==> (#[trigger] idxs@[q]) == indices@[q],
                forall|q: int|
                    0 <= q < j ==> (#[trigger] d_comms@[q])@ == ds[q].comms@[my as int]@,
                forall|q: int|
                    0 <= q < j ==> (#[trigger] d_encs@[q])@ == ds[q].encs@[my as int]@,
                forall|q: int|
                    0 <= q < j ==> (#[trigger] d_proofs@[q]).challenge@ == ds[q].proofs@[my as int].challenge@
                        && d_proofs@[q].response@ == ds[q].proofs@[my as int].response@,
            decreases k - j,
        {
            d_comms.push(clone_bytes(&dealings[j].comms[my]));
            d_encs.push(clone_bytes(&dealings[j].encs[my]));
            d_proofs.push(clone_dleq(&dealings[j].proofs[my]));
            idxs.push(indices[j]);
            j += 1;
        }
        let agg = AggregatePVSS { encs: agg_encs, comms: agg_comms };
        let pi = DecompositionProof {
            idx: my,
            indices: idxs,
            comms: d_comms,
            encs: d_encs,
            dleq_proofs: d_proofs,
        };
        proof {
            assert(idxs@ =~= indices@);
        }
        Ok((agg, pi))
    }

    /// Structural check of an aggregate.
    pub fn averify_structure(&self, agg: &AggregatePVSS) -> (r: bool)
        ensures
            r == agg.wf(self.spec_n()),
    {
        proof {
            use_type_invariant(&*self);
        }
        let n = self.n;
        if agg.comms.len() != n || agg.encs.len() != n {
            return false;
        }
        let mut i: usize = 0;
        while i < n
            invariant
                i <= n,
                n == self.spec_n(),
                agg.comms@.len() == n,
                agg.encs@.len() == n,
                forall|q: int| 0 <= q < i ==> spec_point_ok(#[trigger] agg.comms@[q]@),
                forall|q: int| 0 <= q < i ==> spec_point_ok(#[trigger] agg.encs@[q]@),
            decreases n - i,
        {
            if !(g1_check(&agg.comms[i]) && agg.comms[i].len() == G1_BYTES) {
                return false;
            }
            if !(g1_check(&agg.encs[i]) && agg.encs[i].len() == G1_BYTES) {
                return false;
            }
            i += 1;
        }
        true
    }

    /// Public verification of an aggregate: structure plus the dual-code
    /// polynomial test on the combined commitments.  Needs no dealer keys.
    pub fn pverify(&self, agg: &AggregatePVSS) -> (r: Result<(), PvssError>)
        ensures
            (r == Err::<(), PvssError>(PvssError::Malformed)) <==> !agg.wf(self.spec_n()),
            r.is_ok() ==> agg.wf(self.spec_n()),
            // success and the polynomial refusal each name a drawn dual
            // codeword with that outcome
            r.is_ok() ==> exists|coeffs: Seq<Seq<u8>>|
                #![auto]
                {
                    &&& coeffs.len() == self.spec_n() - self.spec_t() - 1
                    &&& (forall|k: int| 0 <= k < coeffs.len() ==> spec_fr_ok(coeffs[k]))
                    &&& PvssContext::spec_scrape_outcome(
                        byte_views(agg.comms@),
                        coeffs,
                        self.spec_n(),
                        self.spec_t(),
                    ) == Some(true)
                },
            (r == Err::<(), PvssError>(PvssError::NotOnPolynomial)) ==> exists|coeffs: Seq<Seq<u8>>|
                #![auto]
                {
                    &&& coeffs.len() == self.spec_n() - self.spec_t() - 1
                    &&& (forall|k: int| 0 <= k < coeffs.len() ==> spec_fr_ok(coeffs[k]))
                    &&& PvssContext::spec_scrape_outcome(
                        byte_views(agg.comms@),
                        coeffs,
                        self.spec_n(),
                        self.spec_t(),
                    ) != Some(true)
                },
    {
        proof {
            use_type_invariant(&*self);
        }
        if !self.averify_structure(agg) {
            return Err(PvssError::Malformed);
        }
        let fcoeffs = self.draw_codeword();
        if self.scrape_check(&agg.comms, &fcoeffs) {
            Ok(())
        } else {
            Err(PvssError::NotOnPolynomial)
        }
    }

    /// A valid decomposition of `agg`: at least `t + 1` distinct in-range
    /// contributors; every constituent share at the target index carries a
    /// verifying DLEQ proof; and the constituents multiply back to the
    /// aggregate's entry at that index.
    pub open spec fn spec_decomp_valid(
        self,
        agg: AggregatePVSS,
        pi: DecompositionProof,
    ) -> bool {
        &&& agg.wf(self.spec_n())
        &&& pi.idx < self.spec_n()
        &&& pi.indices@.len() >= self.spec_t() + 1
        &&& pi.comms@.len() == pi.indices@.len()
        &&& pi.encs@.len() == pi.indices@.len()
        &&& pi.dleq_proofs@.len() == pi.indices@.len()
        &&& forall|j: int| 0 <= j < pi.indices@.len() ==> (#[trigger] pi.indices@[j]) < self.spec_n()
        &&& spec_distinct(pi.indices@)
        &&& forall|j: int| 0 <= j < pi.comms@.len() ==> spec_point_ok(#[trigger] pi.comms@[j]@)
        &&& forall|j: int| 0 <= j < pi.encs@.len() ==> spec_point_ok(#[trigger] pi.encs@[j]@)
        &&& forall|j: int| 0 <= j < pi.dleq_proofs@.len() ==> (#[trigger] pi.dleq_proofs@[j]).wf()
        &&& forall|j: int|
            0 <= j < pi.indices@.len() ==> spec_dleq_ok(
                self.spec_g1(),
                (#[trigger] pi.comms@[j])@,
                self.spec_pk(pi.idx as int),
                pi.encs@[j]@,
                pi.dleq_proofs@[j].challenge@,
                pi.dleq_proofs@[j].response@,
            )
        &&& spec_g1_prod(byte_views(pi.comms@)) == agg.comms@[pi.idx as int]@
        &&& spec_g1_prod(byte_views(pi.encs@)) == agg.encs@[pi.idx as int]@
    }

    /// Verify a decomposition proof against an aggregate; succeeds exactly
    /// on valid decompositions.
    pub fn decomp_verify(&self, agg: &AggregatePVSS, pi: &DecompositionProof) -> (r: Result<
        (),
        PvssError,
    >)
        ensures
            r.is_ok() == self.spec_decomp_valid(*agg, *pi),
    {
        proof {
            use_type_invariant(&*self);
        }
        let n = self.n;
        let t = self.t;
        if !self.averify_structure(agg) {
            return Err(PvssError::Malformed);
        }
        if pi.idx >= n {
            return Err(PvssError::Malformed);
        }
        let k = pi.indices.len();
        if k < t + 1 || pi.comms.len() != k || pi.encs.len() != k || pi.dleq_proofs.len() != k {
            return Err(PvssError::Malformed);
        }
        let mut a: usize = 0;
        while a < k
            invariant
                self.inv(),
                a <= k,
                n == self.spec_n(),
                k == pi.indices@.len(),
                forall|j: int| 0 <= j < a ==> (#[trigger] pi.indices@[j]) < self.spec_n(),
                forall|j1: int, j2: int|
                    0 <= j1 < j2 < a ==> pi.indices@[j1] != pi.indices@[j2],
            decreases k - a,
        {
            if pi.indices[a] >= n {
                return Err(PvssError::Malformed);
            }
            let mut b: usize = 0;
            while b < a
                invariant
                    a < k,
                    k == pi.indices@.len(),
                    b <= a,
                    forall|j: int| 0 <= j < b ==> pi.indices@[j] != pi.indices@[a as int],
                decreases a - b,
            {
                if pi.indices[b] == pi.indices[a] {
                    return Err(PvssError::Malformed);
                }
                b += 1;
            }
            a += 1;
        }
        let mut j: usize = 0;
        while j < k
            invariant
                self.inv(),
                j <= k,
                n == self.spec_n(),
                pi.idx < n,
                k == pi.indices@.len() == pi.comms@.len() == pi.encs@.len()
                    == pi.dleq_proofs@.len(),
                forall|q: int| 0 <= q < j ==> spec_point_ok(#[trigger] pi.comms@[q]@),
                forall|q: int| 0 <= q < j ==> spec_point_ok(#[trigger] pi.encs@[q]@),
                forall|q: int| 0 <= q < j ==> (#[trigger] pi.dleq_proofs@[q]).wf(),
                forall|q: int|
                    0 <= q < j ==> spec_dleq_ok(
                        self.spec_g1(),
                        (#[trigger] pi.comms@[q])@,
                        self.spec_pk(pi.idx as int),
                        pi.encs@[q]@,
                        pi.dleq_proofs@[q].challenge@,
                        pi.dleq_proofs@[q].response@,
                    ),
            decreases k - j,
        {
            if !(g1_check(&pi.comms[j]) && pi.comms[j].len() == G1_BYTES) {
                return Err(PvssError::Malformed);
            }
            if !(g1_check(&pi.encs[j]) && pi.encs[j].len() == G1_BYTES) {
                return Err(PvssError::Malformed);
            }
            if !(fr_check(&pi.dleq_proofs[j].challenge) && pi.dleq_proofs[j].challenge.len()
                == FR_BYTES && fr_check(&pi.dleq_proofs[j].response)
                && pi.dleq_proofs[j].response.len() == FR_BYTES) {
                return Err(PvssError::Malformed);
            }
            if !dleq_verify(
                &self.g1,
                &pi.comms[j],
                &self.pks[pi.idx],
                &pi.encs[j],
                &pi.dleq_proofs[j],
            ) {
                return Err(PvssError::InvalidDleq);
            }
            j += 1;
        }
        // the constituents must multiply back to the aggregate at `idx`
        let mut acc_c = clone_bytes(&pi.comms[0]);
        let mut acc_e = clone_bytes(&pi.encs[0]);
        proof {
            assert(byte_views(pi.comms@).take(1) =~= seq![pi.comms@[0]@]);
            assert(byte_views(pi.encs@).take(1) =~= seq![pi.encs@[0]@]);
        }
        let mut j2: usize = 1;
        while j2 < k
            invariant
                self.inv(),
                1 <= j2 <= k,
                k == pi.comms@.len() == pi.encs@.len(),
                forall|q: int| 0 <= q < k ==> spec_point_ok(#[trigger] pi.comms@[q]@),
                forall|q: int| 0 <= q < k ==> spec_point_ok(#[trigger] pi.encs@[q]@),
                spec_g1_ok(acc_c@),
                spec_g1_ok(acc_e@),
                acc_c@ == spec_g1_prod(byte_views(pi.comms@).take(j2 as int)),
                acc_e@ == spec_g1_prod(byte_views(pi.encs@).take(j2 as int)),
            decreases k - j2,
        {
            acc_c = g1_add(&acc_c, &pi.comms[j2]).unwrap();
            acc_e = g1_add(&acc_e, &pi.encs[j2]).unwrap();
            proof {
                let col = byte_views(pi.comms@);
                assert(col.take(j2 + 1 as int).drop_last() =~= col.take(j2 as int));
                let cole = byte_views(pi.encs@);
                assert(cole.take(j2 + 1 as int).drop_last() =~= cole.take(j2 as int));
            }
            j2 += 1;
        }
        proof {
            assert(byte_views(pi.comms@).take(k as int) =~= byte_views(pi.comms@));
            assert(byte_views(pi.encs@).take(k as int) =~= byte_views(pi.encs@));
        }
        if !bytes_eq(&acc_c, &agg.comms[pi.idx]) {
            return Err(PvssError::Malformed);
        }
        if !bytes_eq(&acc_e, &agg.encs[pi.idx]) {
            return Err(PvssError::Malformed);
        }
        Ok(())
    }

    /// Decrypt this replica's share of an aggregate: `dec = c^(1/sk)` with a
    /// DLEQ proof binding `dec` to this replica's public key.
    pub fn decrypt_share(&self, enc: &Vec<u8>) -> (r: Result<Decryption, PvssError>)
        ensures
            r.is_ok() <==> (spec_g1_ok(enc@) && enc@.len() == G1_BYTES && !spec_fr_is_zero(
                self.spec_sk(),
            )),
            r matches Ok(d) ==> {
                &&& d.dec@ == spec_g1_mul(enc@, spec_fr_inv(self.spec_sk()))
                &&& spec_point_ok(d.dec@)
                &&& d.dleq_proof.wf()
            },
    {
        proof {
            use_type_invariant(&*self);
        }
        if !(g1_check(enc) && enc.len() == G1_BYTES) {
            return Err(PvssError::Malformed);
        }
        let skinv = match fr_inv(&self.sk) {
            Some(v) => v,
            None => {
                return Err(PvssError::Malformed);
            },
        };
        let dec = g1_mul(enc, &skinv).unwrap();
        let pf = dleq_prove(&self.g1, &self.pks[self.origin], &dec, enc, &self.sk);
        Ok(Decryption { dec, dleq_proof: pf })
    }

    /// Check a decryption share from replica `i` against the aggregate's
    /// encryption `enc`: exactly the DLEQ check
    /// `log_g1 pk_i == log_dec enc`.
    pub fn verify_share(&self, i: Replica, dec: &Vec<u8>, enc: &Vec<u8>, pf: &DleqProof) -> (r:
        bool)
        ensures
            r == (i < self.spec_n() && spec_g1_ok(dec@) && spec_g1_ok(enc@) && spec_fr_ok(
                pf.challenge@,
            ) && spec_fr_ok(pf.response@) && spec_dleq_ok(
                self.spec_g1(),
                self.spec_pk(i as int),
                dec@,
                enc@,
                pf.challenge@,
                pf.response@,
            )),
    {
        proof {
            use_type_invariant(&*self);
        }
        if i >= self.n {
            return false;
        }
        dleq_verify(&self.g1, &self.pks[i], dec, enc, pf)
    }

    /// The usable share entries below `upto`, in slot order: the present
    /// shares whose decrypted point decodes, each as `(slot, point)`.
    pub open spec fn spec_share_entries(
        shares: Seq<Option<Decryption>>,
        upto: int,
    ) -> Seq<(int, Seq<u8>)>
        decreases upto,
    {
        if upto <= 0 {
            Seq::empty()
        } else {
            let rest = Self::spec_share_entries(shares, upto - 1);
            match shares[upto - 1] {
                Option::Some(d) => if spec_point_ok(d.dec@) {
                    rest.push((upto - 1, d.dec@))
                } else {
                    rest
                },
                Option::None => rest,
            }
        }
    }

    /// The running numerator of the Lagrange coefficient at zero for entry
    /// `a`: the product of the other entries' evaluation points.
    pub open spec fn spec_lag_num(used: Seq<(int, Seq<u8>)>, a: int, b: int) -> Seq<u8>
        decreases b,
    {
        if b <= 0 {
            spec_fr_from_u64(1)
        } else {
            let prev = Self::spec_lag_num(used, a, b - 1);
            if b - 1 == a {
                prev
            } else {
                spec_fr_mul(prev, spec_fr_from_u64((used[b - 1].0 + 1) as u64))
            }
        }
    }

    /// The running denominator: the product of the differences to entry
    /// `a`'s evaluation point.
    pub open spec fn spec_lag_den(used: Seq<(int, Seq<u8>)>, a: int, b: int) -> Seq<u8>
        decreases b,
    {
        if b <= 0 {
            spec_fr_from_u64(1)
        } else {
            let prev = Self::spec_lag_den(used, a, b - 1);
            if b - 1 == a {
                prev
            } else {
                spec_fr_mul(
                    prev,
                    spec_fr_sub(
                        spec_fr_from_u64((used[b - 1].0 + 1) as u64),
                        spec_fr_from_u64((used[a].0 + 1) as u64),
                    ),
                )
            }
        }
    }

    /// One Lagrange term: the entry's point raised to its coefficient;
    /// `None` where the denominator does not invert.
    pub open spec fn spec_lag_term(used: Seq<(int, Seq<u8>)>, a: int, k: int) -> Option<Seq<u8>> {
        let den = Self::spec_lag_den(used, a, k);
        if spec_fr_ok(den) && !spec_fr_is_zero(den) {
            Option::Some(
                spec_g1_mul(
                    used[a].1,
                    spec_fr_mul(Self::spec_lag_num(used, a, k), spec_fr_inv(den)),
                ),
            )
        } else {
            Option::None
        }
    }

    /// The group product of the first `upto` Lagrange terms.
    pub open spec fn spec_lag_acc(used: Seq<(int, Seq<u8>)>, upto: int) -> Option<Seq<u8>>
        decreases upto,
    {
        if upto <= 0 {
            Option::None
        } else if upto == 1 {
            Self::spec_lag_term(used, 0, used.len() as int)
        } else {
            match (
                Self::spec_lag_acc(used, upto - 1),
                Self::spec_lag_term(used, upto - 1, used.len() as int),
            ) {
                (Option::Some(x), Option::Some(y)) => Option::Some(spec_g1_add(x, y)),
                _ => Option::None,
            }
        }
    }

    /// The reconstructed beacon point: the Lagrange combination at zero of
    /// the first `t + 1` usable shares, a function of the share vector
    /// alone.
    pub open spec fn spec_reconstructed(
        shares: Seq<Option<Decryption>>,
        n: int,
        t: int,
    ) -> Option<Seq<u8>> {
        Self::spec_lag_acc(Self::spec_share_entries(shares, n).take(t + 1), t + 1)
    }

    /// A refused term poisons every longer Lagrange product.
    proof fn lemma_lag_acc_none(used: Seq<(int, Seq<u8>)>, j: int, upto: int)
        requires
            Self::spec_lag_term(used, j, used.len() as int) is None,
            0 <= j < upto,
        ensures
            Self::spec_lag_acc(used, upto) is None,
        decreases upto,
    {
        if upto > 1 && j < upto - 1 {
            Self::lemma_lag_acc_none(used, j, upto - 1);
        }
    }

    /// Rebuild the beacon from decryption shares: Lagrange-combine the
    /// first `t + 1` usable shares at zero and pair the result with `h2`.
    /// The combined point is pinned as a function of the share vector, so
    /// reconstruction is deterministic in its inputs.
    pub fn reconstruct(&self, shares: &Vec<Option<Decryption>>) -> (r: Result<Beacon, PvssError>)
        ensures
            r matches Ok(b) ==> {
                &&& b.beacon@ == spec_pairing(b.value@, self.spec_h2())
                &&& spec_point_ok(b.value@)
                &&& b.beacon@.len() == GT_BYTES
                &&& Self::spec_reconstructed(shares@, self.spec_n(), self.spec_t()) == Some(
                    b.value@,
                )
            },
            r.is_ok() <==> {
                &&& shares@.len() == self.spec_n()
                &&& Self::spec_share_entries(shares@, self.spec_n()).len() >= self.spec_t() + 1
                &&& Self::spec_reconstructed(shares@, self.spec_n(), self.spec_t()) is Some
            },
            r.is_ok() ==> spec_count_some(shares@) >= self.spec_t() + 1,
    {
        proof {
            use_type_invariant(&*self);
        }
        let ghost sv = shares@;
        let n = self.n;
        let t = self.t;
        if shares.len() != n {
            return Err(PvssError::Malformed);
        }
        let mut xs: Vec<u64> = Vec::new();
        let mut decs: Vec<Vec<u8>> = Vec::new();
        let mut i: usize = 0;
        while i < n
            invariant
                i <= n,
                sv == shares@,
                n == shares@.len(),
                n < 0x1_0000_0000,
                xs@.len() == decs@.len(),
                decs@.len() <= spec_count_some(shares@.take(i as int)),
                decs@.len() == Self::spec_share_entries(sv, i as int).len(),
                forall|q: int|
                    0 <= q < decs@.len() ==> (#[trigger] decs@[q])@ == Self::spec_share_entries(
                        sv,
                        i as int,
                    )[q].1,
                forall|q: int|
                    0 <= q < xs@.len() ==> (#[trigger] xs@[q]) == (Self::spec_share_entries(
                        sv,
                        i as int,
                    )[q].0 + 1) as u64,
                forall|q: int| 0 <= q < decs@.len() ==> spec_point_ok(#[trigger] decs@[q]@),
                forall|q: int| 0 <= q < xs@.len() ==> 1 <= (#[trigger] xs@[q]) <= n,
            decreases n - i,
        {
            proof {
                assert(shares@.take(i + 1 as int).drop_last() =~= shares@.take(i as int));
            }
            match &shares[i] {
                Some(d) => {
                    if g1_check(&d.dec) && d.dec.len() == G1_BYTES {
                        xs.push((i as u64) + 1);
                        decs.push(clone_bytes(&d.dec));
                    }
                },
                None => {},
            }
            i += 1;
        }
        proof {
            assert(shares@.take(n as int) =~= shares@);
        }
        let kneed = t + 1;
        if decs.len() < kneed {
            return Err(PvssError::Malformed);
        }
        let k = kneed;
        let ghost used = Self::spec_share_entries(sv, n as int).take(k as int);
        proof {
            assert(forall|q: int|
                0 <= q < k ==> used[q] == Self::spec_share_entries(sv, n as int)[q]);
            assert(used.len() == k);
        }
        let mut acc: Vec<u8> = Vec::new();
        let mut a: usize = 0;
        while a < k
            invariant
                self.inv(),
                a <= k,
                sv == shares@,
                n == shares@.len(),
                t == self.spec_t(),
                n == self.spec_n(),
                k == t + 1,
                1 <= k <= xs@.len() == decs@.len(),
                used == Self::spec_share_entries(sv, n as int).take(k as int),
                used.len() == k,
                forall|q: int| 0 <= q < k ==> (#[trigger] used[q]).1 == decs@[q]@,
                forall|q: int| 0 <= q < k ==> (#[trigger] xs@[q]) == (used[q].0 + 1) as u64,
                forall|q: int| 0 <= q < decs@.len() ==> spec_point_ok(#[trigger] decs@[q]@),
                forall|q: int| 0 <= q < xs@.len() ==> 1 <= (#[trigger] xs@[q]) <= self.spec_n(),
                a > 0 ==> spec_point_ok(acc@),
                a > 0 ==> Self::spec_lag_acc(used, a as int) == Some(acc@),
            decreases k - a,
        {
            let xa = fr_from_u64(xs[a]);
            // lambda_a(0) = prod over b != a of x_b / (x_b - x_a)
            let mut num = fr_from_u64(1);
            let mut den = fr_from_u64(1);
            let mut b: usize = 0;
            while b < k
                invariant
                    self.inv(),
                    b <= k,
                    a < k,
                    k <= xs@.len(),
                    used.len() == k,
                    forall|q: int| 0 <= q < k ==> (#[trigger] xs@[q]) == (used[q].0 + 1) as u64,
                    forall|q: int|
                        0 <= q < xs@.len() ==> 1 <= (#[trigger] xs@[q]) <= self.spec_n(),
                    xa@ == spec_fr_from_u64((used[a as int].0 + 1) as u64),
                    spec_fr_ok(xa@),
                    spec_fr_ok(num@),
                    spec_fr_ok(den@),
                    num@ == Self::spec_lag_num(used, a as int, b as int),
                    den@ == Self::spec_lag_den(used, a as int, b as int),
                decreases k - b,
            {
                if b != a {
                    let xb = fr_from_u64(xs[b]);
                    num = fr_mul(&num, &xb).unwrap();
                    let d = fr_sub(&xb, &xa).unwrap();
                    den = fr_mul(&den, &d).unwrap();
                }
                b += 1;
            }
            let deninv = match fr_inv(&den) {
                Some(v) => v,
                None => {
                    proof {
                        assert(Self::spec_lag_term(used, a as int, used.len() as int) is None);
                        Self::lemma_lag_acc_none(used, a as int, k as int);
                    }
                    return Err(PvssError::Malformed);
                },
            };
            let lam = fr_mul(&num, &deninv).unwrap();
            let term = g1_mul(&decs[a], &lam).unwrap();
            proof {
                assert(Self::spec_lag_term(used, a as int, used.len() as int) == Some(term@));
            }
            if a == 0 {
                acc = term;
            } else {
                acc = g1_add(&acc, &term).unwrap();
            }
            a += 1;
        }
        let secret = pairing(&acc, &self.h2).unwrap();
        Ok(Beacon { beacon: secret, value: acc })
    }
}

/// How many entries of a share vector are present.
pub open spec fn spec_count_some(s: Seq<Option<Decryption>>) -> int
    decreases s.len(),
{
    if s.len() == 0 {
        0
    } else {
        spec_count_some(s.drop_last()) + if s.last() is Some {
            1int
        } else {
            0int
        }
    }
}

} // verus!

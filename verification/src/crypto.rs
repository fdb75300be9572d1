//! Trusted primitives: pairing-curve arithmetic, hashing and signatures.
//!
//! Group elements and field scalars are carried everywhere as their canonical
//! compressed byte encodings, so equality of values is equality of bytes.
//! Each operation below is a thin wrapper around the outside crate that
//! performs it; the names `spec_*` stand for the (deterministic) results of
//! those operations and are given no definition here.

use vstd::prelude::*;
use ark_serialize::CanonicalSerialize;
use ark_serialize::CanonicalDeserialize;
use ark_ec::Group;
use ark_ec::pairing::Pairing;
use ark_ff::Field;
use ark_ff::PrimeField;
use ark_ff::UniformRand;
use ed25519_dalek::Signer;
use ed25519_dalek::Verifier;
use sha2::Digest;

verus! {

/// Whether 32 bytes are the canonical encoding of a scalar of the pairing
/// curve's prime field.
pub uninterp spec fn spec_fr_ok(a: Seq<u8>) -> bool;

/// Whether a canonical scalar encodes the field's zero element.
pub uninterp spec fn spec_fr_is_zero(a: Seq<u8>) -> bool;

/// Sum of two field scalars, on canonical encodings.
pub uninterp spec fn spec_fr_add(a: Seq<u8>, b: Seq<u8>) -> Seq<u8>;

/// Difference of two field scalars.
pub uninterp spec fn spec_fr_sub(a: Seq<u8>, b: Seq<u8>) -> Seq<u8>;

/// Product of two field scalars.
pub uninterp spec fn spec_fr_mul(a: Seq<u8>, b: Seq<u8>) -> Seq<u8>;

/// Multiplicative inverse of a non-zero field scalar.
pub uninterp spec fn spec_fr_inv(a: Seq<u8>) -> Seq<u8>;

/// The field scalar with integer value `x`.
pub uninterp spec fn spec_fr_from_u64(x: u64) -> Seq<u8>;

/// A field scalar derived from arbitrary bytes by hashing and reduction.
pub uninterp spec fn spec_hash_to_fr(d: Seq<u8>) -> Seq<u8>;

/// Whether 48 bytes are the canonical compressed encoding of a point of the
/// curve's first source group.
pub uninterp spec fn spec_g1_ok(a: Seq<u8>) -> bool;

/// Scalar multiple of a group point: `base` raised to the scalar `e` in
/// multiplicative notation.
pub uninterp spec fn spec_g1_mul(base: Seq<u8>, e: Seq<u8>) -> Seq<u8>;

/// Group product of two points.
pub uninterp spec fn spec_g1_add(a: Seq<u8>, b: Seq<u8>) -> Seq<u8>;

/// Whether a point of the first source group is the group identity.
pub uninterp spec fn spec_g1_is_id(a: Seq<u8>) -> bool;

/// Whether 96 bytes are the canonical compressed encoding of a point of the
/// curve's second source group.
pub uninterp spec fn spec_g2_ok(a: Seq<u8>) -> bool;

/// The pairing of a first-group point with a second-group point, as the
/// canonical encoding of the target-group element.
pub uninterp spec fn spec_pairing(a: Seq<u8>, b: Seq<u8>) -> Seq<u8>;

/// The SHA-256 digest of a byte string.
pub uninterp spec fn spec_sha256(d: Seq<u8>) -> Seq<u8>;

/// The Ed25519 public key derived from a 32-byte secret key.
pub uninterp spec fn spec_ed_pk(sk: Seq<u8>) -> Seq<u8>;

/// The (deterministic) Ed25519 signature of `msg` under secret key `sk`.
pub uninterp spec fn spec_ed_sign(sk: Seq<u8>, msg: Seq<u8>) -> Seq<u8>;

/// Whether `sig` is a valid Ed25519 signature on `msg` under public key `pk`.
pub uninterp spec fn spec_ed_valid(pk: Seq<u8>, msg: Seq<u8>, sig: Seq<u8>) -> bool;

/// Length in bytes of a canonical field scalar.
pub const FR_BYTES: usize = 32;

/// Length in bytes of a compressed first-group point.
pub const G1_BYTES: usize = 48;

/// Length in bytes of a compressed second-group point.
pub const G2_BYTES: usize = 96;

/// Length in bytes of a compressed target-group element.
pub const GT_BYTES: usize = 576;

/// Length in bytes of a SHA-256 digest.
pub const HASH_BYTES: usize = 32;

/// Length in bytes of an Ed25519 public key.
pub const ED_PK_BYTES: usize = 32;

/// Length in bytes of an Ed25519 secret key.
pub const ED_SK_BYTES: usize = 32;

/// Length in bytes of an Ed25519 signature.
pub const ED_SIG_BYTES: usize = 64;

/// Relies on `ark_ff::UniformRand` for `Fr`: a uniformly random field
/// scalar; nothing is promised of the value beyond well-formedness.
#[verifier::external_body]
pub(crate) fn fr_random() -> (r: Vec<u8>)
    ensures
        spec_fr_ok(r@),
        r@.len() == FR_BYTES,
{
    let x = ark_bls12_381::Fr::rand(&mut rand::thread_rng());
    let mut out = Vec::new();
    x.serialize_compressed(&mut out).unwrap();
    out
}

/// Relies on `Fr::deserialize_compressed`: decides whether bytes encode a
/// field scalar canonically.
#[verifier::external_body]
pub(crate) fn fr_check(a: &Vec<u8>) -> (r: bool)
    ensures
        r == spec_fr_ok(a@),
{
    ark_bls12_381::Fr::deserialize_compressed(&a[..]).is_ok()
}

/// Relies on field addition of `ark_bls12_381::Fr`; fails exactly when an
/// argument does not deserialize.
#[verifier::external_body]
pub(crate) fn fr_add(a: &Vec<u8>, b: &Vec<u8>) -> (r: Option<Vec<u8>>)
    ensures
        r.is_some() <==> (spec_fr_ok(a@) && spec_fr_ok(b@)),
        r matches Some(v) ==> v@ == spec_fr_add(a@, b@) && spec_fr_ok(v@) && v@.len()
            == FR_BYTES,
{
    let x = ark_bls12_381::Fr::deserialize_compressed(&a[..]).ok()?;
    let y = ark_bls12_381::Fr::deserialize_compressed(&b[..]).ok()?;
    let mut out = Vec::new();
    (x + y).serialize_compressed(&mut out).ok()?;
    Some(out)
}

/// Relies on field subtraction of `ark_bls12_381::Fr`.
#[verifier::external_body]
pub(crate) fn fr_sub(a: &Vec<u8>, b: &Vec<u8>) -> (r: Option<Vec<u8>>)
    ensures
        r.is_some() <==> (spec_fr_ok(a@) && spec_fr_ok(b@)),
        r matches Some(v) ==> v@ == spec_fr_sub(a@, b@) && spec_fr_ok(v@) && v@.len()
            == FR_BYTES,
{
    let x = ark_bls12_381::Fr::deserialize_compressed(&a[..]).ok()?;
    let y = ark_bls12_381::Fr::deserialize_compressed(&b[..]).ok()?;
    let mut out = Vec::new();
    (x - y).serialize_compressed(&mut out).ok()?;
    Some(out)
}

/// Relies on field multiplication of `ark_bls12_381::Fr`.
#[verifier::external_body]
pub(crate) fn fr_mul(a: &Vec<u8>, b: &Vec<u8>) -> (r: Option<Vec<u8>>)
    ensures
        r.is_some() <==> (spec_fr_ok(a@) && spec_fr_ok(b@)),
        r matches Some(v) ==> v@ == spec_fr_mul(a@, b@) && spec_fr_ok(v@) && v@.len()
            == FR_BYTES,
{
    let x = ark_bls12_381::Fr::deserialize_compressed(&a[..]).ok()?;
    let y = ark_bls12_381::Fr::deserialize_compressed(&b[..]).ok()?;
    let mut out = Vec::new();
    (x * y).serialize_compressed(&mut out).ok()?;
    Some(out)
}

/// Relies on `ark_ff::Field::inverse`, which returns `None` exactly on the
/// zero scalar.
#[verifier::external_body]
pub(crate) fn fr_inv(a: &Vec<u8>) -> (r: Option<Vec<u8>>)
    ensures
        r.is_some() <==> (spec_fr_ok(a@) && !spec_fr_is_zero(a@)),
        r matches Some(v) ==> v@ == spec_fr_inv(a@) && spec_fr_ok(v@) && v@.len()
            == FR_BYTES,
{
    let x = ark_bls12_381::Fr::deserialize_compressed(&a[..]).ok()?;
    let y = x.inverse()?;
    let mut out = Vec::new();
    y.serialize_compressed(&mut out).ok()?;
    Some(out)
}

/// Relies on `Fr::from` for `u64`: embeds an integer into the field.
#[verifier::external_body]
pub(crate) fn fr_from_u64(x: u64) -> (r: Vec<u8>)
    ensures
        r@ == spec_fr_from_u64(x),
        spec_fr_ok(r@),
        r@.len() == FR_BYTES,
{
    let f = ark_bls12_381::Fr::from(x);
    let mut out = Vec::new();
    f.serialize_compressed(&mut out).unwrap();
    out
}

/// Relies on SHA-256 and `Fr::from_le_bytes_mod_order`: a Fiat-Shamir
/// challenge scalar derived from a transcript, a function of the bytes alone.
#[verifier::external_body]
pub(crate) fn hash_to_fr(d: &Vec<u8>) -> (r: Vec<u8>)
    ensures
        r@ == spec_hash_to_fr(d@),
        spec_fr_ok(r@),
        r@.len() == FR_BYTES,
{
    let digest = sha2::Sha256::digest(&d[..]);
    let f = ark_bls12_381::Fr::from_le_bytes_mod_order(&digest);
    let mut out = Vec::new();
    f.serialize_compressed(&mut out).unwrap();
    out
}

/// Relies on `G1Projective::generator`: the fixed generator of the first
/// source group.
#[verifier::external_body]
pub(crate) fn g1_generator() -> (r: Vec<u8>)
    ensures
        spec_g1_ok(r@),
        r@.len() == G1_BYTES,
{
    let g = ark_bls12_381::G1Projective::generator();
    let mut out = Vec::new();
    g.serialize_compressed(&mut out).unwrap();
    out
}

/// Relies on `G1Projective::deserialize_compressed` (with its validation):
/// decides whether bytes canonically encode a first-group point.
#[verifier::external_body]
pub(crate) fn g1_check(a: &Vec<u8>) -> (r: bool)
    ensures
        r == spec_g1_ok(a@),
{
    ark_bls12_381::G1Projective::deserialize_compressed(&a[..]).is_ok()
}

/// Relies on scalar multiplication in the first source group; fails exactly
/// when an argument does not deserialize.
#[verifier::external_body]
pub(crate) fn g1_mul(base: &Vec<u8>, e: &Vec<u8>) -> (r: Option<Vec<u8>>)
    ensures
        r.is_some() <==> (spec_g1_ok(base@) && spec_fr_ok(e@)),
        r matches Some(v) ==> v@ == spec_g1_mul(base@, e@) && spec_g1_ok(v@) && v@.len()
            == G1_BYTES,
{
    let p = ark_bls12_381::G1Projective::deserialize_compressed(&base[..]).ok()?;
    let s = ark_bls12_381::Fr::deserialize_compressed(&e[..]).ok()?;
    let mut out = Vec::new();
    (p * s).serialize_compressed(&mut out).ok()?;
    Some(out)
}

/// Relies on the group operation of the first source group.
#[verifier::external_body]
pub(crate) fn g1_add(a: &Vec<u8>, b: &Vec<u8>) -> (r: Option<Vec<u8>>)
    ensures
        r.is_some() <==> (spec_g1_ok(a@) && spec_g1_ok(b@)),
        r matches Some(v) ==> v@ == spec_g1_add(a@, b@) && spec_g1_ok(v@) && v@.len()
            == G1_BYTES,
{
    let p = ark_bls12_381::G1Projective::deserialize_compressed(&a[..]).ok()?;
    let q = ark_bls12_381::G1Projective::deserialize_compressed(&b[..]).ok()?;
    let mut out = Vec::new();
    (p + q).serialize_compressed(&mut out).ok()?;
    Some(out)
}

/// Relies on point equality in the first source group: decides whether a
/// point is the group identity (compared against `p - p`, which is always
/// the identity).
#[verifier::external_body]
pub(crate) fn g1_is_identity(a: &Vec<u8>) -> (r: Option<bool>)
    ensures
        r.is_some() <==> spec_g1_ok(a@),
        r matches Some(v) ==> v == spec_g1_is_id(a@),
{
    let p = ark_bls12_381::G1Projective::deserialize_compressed(&a[..]).ok()?;
    Some(p == p - p)
}

/// Relies on `G2Projective::deserialize_compressed` (with its validation).
#[verifier::external_body]
pub(crate) fn g2_check(a: &Vec<u8>) -> (r: bool)
    ensures
        r == spec_g2_ok(a@),
{
    ark_bls12_381::G2Projective::deserialize_compressed(&a[..]).is_ok()
}

/// Relies on `G2Projective::generator` and `Fr::rand`: a uniformly random
/// element of the second source group, used once at genesis for `h2`.
#[verifier::external_body]
pub(crate) fn g2_random_element() -> (r: Vec<u8>)
    ensures
        spec_g2_ok(r@),
        r@.len() == G2_BYTES,
{
    let s = ark_bls12_381::Fr::rand(&mut rand::thread_rng());
    let p = ark_bls12_381::G2Projective::generator() * s;
    let mut out = Vec::new();
    p.serialize_compressed(&mut out).unwrap();
    out
}

/// Relies on `Bls12_381::pairing`; fails exactly when an argument does not
/// deserialize.
#[verifier::external_body]
pub(crate) fn pairing(a: &Vec<u8>, b: &Vec<u8>) -> (r: Option<Vec<u8>>)
    ensures
        r.is_some() <==> (spec_g1_ok(a@) && spec_g2_ok(b@)),
        r matches Some(v) ==> v@ == spec_pairing(a@, b@) && v@.len() == GT_BYTES,
{
    let p = ark_bls12_381::G1Projective::deserialize_compressed(&a[..]).ok()?;
    let q = ark_bls12_381::G2Projective::deserialize_compressed(&b[..]).ok()?;
    let e = ark_bls12_381::Bls12_381::pairing(p, q);
    let mut out = Vec::new();
    e.serialize_compressed(&mut out).ok()?;
    Some(out)
}

/// Relies on SHA-256: a collision-resistant 32-byte digest, a function of
/// the input bytes alone.
#[verifier::external_body]
pub(crate) fn sha256(d: &Vec<u8>) -> (r: Vec<u8>)
    ensures
        r@ == spec_sha256(d@),
        r@.len() == HASH_BYTES,
{
    sha2::Sha256::digest(&d[..]).to_vec()
}

/// Relies on `SigningKey::generate` and `verifying_key` of `ed25519_dalek`:
/// a fresh signing key with its public key.
#[verifier::external_body]
pub(crate) fn ed_keygen() -> (r: (Vec<u8>, Vec<u8>))
    ensures
        r.1@ == spec_ed_pk(r.0@),
        r.0@.len() == ED_SK_BYTES,
        r.1@.len() == ED_PK_BYTES,
{
    let sk = ed25519_dalek::SigningKey::generate(&mut rand::thread_rng());
    let pk = sk.verifying_key();
    (sk.to_bytes().to_vec(), pk.to_bytes().to_vec())
}

/// Relies on `SigningKey::sign` of `ed25519_dalek`, which is deterministic,
/// and on the fact that a signature it produces verifies under the matching
/// public key.
#[verifier::external_body]
pub(crate) fn ed_sign(sk: &Vec<u8>, msg: &Vec<u8>) -> (r: Vec<u8>)
    requires
        sk@.len() == ED_SK_BYTES,
    ensures
        r@ == spec_ed_sign(sk@, msg@),
        spec_ed_valid(spec_ed_pk(sk@), msg@, r@),
        r@.len() == ED_SIG_BYTES,
{
    let key = ed25519_dalek::SigningKey::from_bytes(&sk[..].try_into().unwrap());
    key.sign(&msg[..]).to_bytes().to_vec()
}

/// Relies on `VerifyingKey::verify` of `ed25519_dalek`; a malformed public
/// key or signature encoding verifies nothing.
#[verifier::external_body]
pub(crate) fn ed_verify(pk: &Vec<u8>, msg: &Vec<u8>, sig: &Vec<u8>) -> (r: bool)
    ensures
        r == spec_ed_valid(pk@, msg@, sig@),
{
    if pk.len() != 32 || sig.len() != 64 {
        return false;
    }
    let key = match ed25519_dalek::VerifyingKey::from_bytes(&pk[..].try_into().unwrap()) {
        Ok(k) => k,
        Err(_) => return false,
    };
    let s = ed25519_dalek::Signature::from_bytes(&sig[..].try_into().unwrap());
    key.verify(&msg[..], &s).is_ok()
}

/// Byte-for-byte equality of two byte strings; since every crypto value is
/// carried in canonical form, this is also equality of the values.
pub fn bytes_eq(a: &Vec<u8>, b: &Vec<u8>) -> (r: bool)
    ensures
        r == (a@ == b@),
{
    if a.len() != b.len() {
        assert(a@ != b@);
        return false;
    }
    let n = a.len();
    let mut i: usize = 0;
    while i < n
        invariant
            n == a@.len() == b@.len(),
            i <= n,
            forall|j: int| 0 <= j < i ==> a@[j] == b@[j],
        decreases n - i,
    {
        if a[i] != b[i] {
            assert(a@ != b@);
            return false;
        }
        i += 1;
    }
    proof {
        assert(a@ =~= b@);
    }
    true
}

} // verus!

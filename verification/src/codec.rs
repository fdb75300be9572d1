//! Canonical, deterministic wire codec: big-endian fixed-width integers and
//! length-prefixed byte strings, fields in declared order.
//!
//! Specification decoders consume a prefix of a byte sequence and return
//! the decoded view together with the remainder, so decoders compose by
//! plain concatenation.  Each `lemma_enc_dec_*` states the round trip:
//! decoding an encoding followed by any suffix yields the original value
//! and that suffix.  The executable functions read at a position in a
//! buffer and are proved to implement the specification decoders.

use vstd::prelude::*;

use crate::pvss::append_bytes;

verus! {

/// The 8 big-endian bytes of `x`.
pub open spec fn spec_enc_u64(x: u64) -> Seq<u8> {
    seq![
        (x >> 56) as u8,
        (x >> 48) as u8,
        (x >> 40) as u8,
        (x >> 32) as u8,
        (x >> 24) as u8,
        (x >> 16) as u8,
        (x >> 8) as u8,
        x as u8,
    ]
}

/// The integer held by 8 big-endian bytes.
pub open spec fn spec_u64_of(
    b0: u8,
    b1: u8,
    b2: u8,
    b3: u8,
    b4: u8,
    b5: u8,
    b6: u8,
    b7: u8,
) -> u64 {
    ((b0 as u64) << 56) | ((b1 as u64) << 48) | ((b2 as u64) << 40) | ((b3 as u64) << 32) | (
    (b4 as u64) << 24) | ((b5 as u64) << 16) | ((b6 as u64) << 8) | (b7 as u64)
}

/// Read a `u64` from the front; `None` when fewer than 8 bytes remain.
pub open spec fn spec_dec_u64(s: Seq<u8>) -> Option<(u64, Seq<u8>)> {
    if s.len() >= 8 {
        Some((spec_u64_of(s[0], s[1], s[2], s[3], s[4], s[5], s[6], s[7]), s.skip(8)))
    } else {
        None
    }
}

/// Round trip for `u64`.
pub proof fn lemma_enc_dec_u64(x: u64, rest: Seq<u8>)
    ensures
        spec_dec_u64(spec_enc_u64(x) + rest) == Some((x, rest)),
{
    let s = spec_enc_u64(x) + rest;
    assert(spec_u64_of(
        (x >> 56) as u8,
        (x >> 48) as u8,
        (x >> 40) as u8,
        (x >> 32) as u8,
        (x >> 24) as u8,
        (x >> 16) as u8,
        (x >> 8) as u8,
        x as u8,
    ) == x) by (bit_vector);
    assert(s.skip(8) =~= rest);
}

/// A length-prefixed byte string.
pub open spec fn spec_enc_bytes(b: Seq<u8>) -> Seq<u8> {
    spec_enc_u64(b.len() as u64) + b
}

/// Read a length-prefixed byte string from the front.
pub open spec fn spec_dec_bytes(s: Seq<u8>) -> Option<(Seq<u8>, Seq<u8>)> {
    match spec_dec_u64(s) {
        Option::None => Option::None,
        Option::Some((len, r)) => if len <= r.len() {
            Option::Some((r.take(len as int), r.skip(len as int)))
        } else {
            Option::None
        },
    }
}

/// Round trip for byte strings.
pub proof fn lemma_enc_dec_bytes(b: Seq<u8>, rest: Seq<u8>)
    requires
        b.len() <= u64::MAX,
    ensures
        spec_dec_bytes(spec_enc_bytes(b) + rest) == Some((b, rest)),
{
    let s = spec_enc_bytes(b) + rest;
    assert(s =~= spec_enc_u64(b.len() as u64) + (b + rest));
    lemma_enc_dec_u64(b.len() as u64, b + rest);
    assert((b + rest).take(b.len() as int) =~= b);
    assert((b + rest).skip(b.len() as int) =~= rest);
}

/// A counted list of length-prefixed byte strings, without its count.
pub open spec fn spec_enc_bytes_list(v: Seq<Seq<u8>>) -> Seq<u8>
    decreases v.len(),
{
    if v.len() == 0 {
        Seq::empty()
    } else {
        spec_enc_bytes(v.first()) + spec_enc_bytes_list(v.drop_first())
    }
}

/// Read exactly `count` length-prefixed byte strings from the front.
pub open spec fn spec_dec_bytes_list(s: Seq<u8>, count: nat) -> Option<(Seq<Seq<u8>>, Seq<u8>)>
    decreases count,
{
    if count == 0 {
        Option::Some((Seq::empty(), s))
    } else {
        match spec_dec_bytes(s) {
            Option::None => Option::None,
            Option::Some((b, r)) => match spec_dec_bytes_list(r, (count - 1) as nat) {
                Option::None => Option::None,
                Option::Some((vs, r2)) => Option::Some((seq![b] + vs, r2)),
            },
        }
    }
}

/// Round trip for byte-string lists.
pub proof fn lemma_enc_dec_bytes_list(v: Seq<Seq<u8>>, rest: Seq<u8>)
    requires
        forall|j: int| 0 <= j < v.len() ==> (#[trigger] v[j]).len() <= u64::MAX,
    ensures
        spec_dec_bytes_list(spec_enc_bytes_list(v) + rest, v.len()) == Some((v, rest)),
    decreases v.len(),
{
    if v.len() == 0 {
        assert(spec_enc_bytes_list(v) + rest =~= rest);
    } else {
        let tail = v.drop_first();
        lemma_enc_dec_bytes_list(tail, rest);
        assert(spec_enc_bytes_list(v) + rest =~= spec_enc_bytes(v.first()) + (spec_enc_bytes_list(
            tail,
        ) + rest));
        lemma_enc_dec_bytes(v.first(), spec_enc_bytes_list(tail) + rest);
        assert(seq![v.first()] + tail =~= v);
    }
}

/// A counted vector of byte strings: count then entries.
pub open spec fn spec_enc_vecbytes(v: Seq<Seq<u8>>) -> Seq<u8> {
    spec_enc_u64(v.len() as u64) + spec_enc_bytes_list(v)
}

/// Read a counted vector of byte strings from the front.
pub open spec fn spec_dec_vecbytes(s: Seq<u8>) -> Option<(Seq<Seq<u8>>, Seq<u8>)> {
    match spec_dec_u64(s) {
        Option::None => Option::None,
        Option::Some((count, r)) => spec_dec_bytes_list(r, count as nat),
    }
}

/// Round trip for counted vectors of byte strings.
pub proof fn lemma_enc_dec_vecbytes(v: Seq<Seq<u8>>, rest: Seq<u8>)
    requires
        v.len() <= u64::MAX,
        forall|j: int| 0 <= j < v.len() ==> (#[trigger] v[j]).len() <= u64::MAX,
    ensures
        spec_dec_vecbytes(spec_enc_vecbytes(v) + rest) == Some((v, rest)),
{
    assert(spec_enc_vecbytes(v) + rest =~= spec_enc_u64(v.len() as u64) + (spec_enc_bytes_list(v)
        + rest));
    lemma_enc_dec_u64(v.len() as u64, spec_enc_bytes_list(v) + rest);
    lemma_enc_dec_bytes_list(v, rest);
}

/// A counted vector of integers: count then 8 bytes each.
pub open spec fn spec_enc_u64_list(v: Seq<u64>) -> Seq<u8>
    decreases v.len(),
{
    if v.len() == 0 {
        Seq::empty()
    } else {
        spec_enc_u64(v.first()) + spec_enc_u64_list(v.drop_first())
    }
}

/// Read exactly `count` integers from the front.
pub open spec fn spec_dec_u64_list(s: Seq<u8>, count: nat) -> Option<(Seq<u64>, Seq<u8>)>
    decreases count,
{
    if count == 0 {
        Option::Some((Seq::empty(), s))
    } else {
        match spec_dec_u64(s) {
            Option::None => Option::None,
            Option::Some((x, r)) => match spec_dec_u64_list(r, (count - 1) as nat) {
                Option::None => Option::None,
                Option::Some((vs, r2)) => Option::Some((seq![x] + vs, r2)),
            },
        }
    }
}

/// Round trip for integer lists.
pub proof fn lemma_enc_dec_u64_list(v: Seq<u64>, rest: Seq<u8>)
    ensures
        spec_dec_u64_list(spec_enc_u64_list(v) + rest, v.len()) == Some((v, rest)),
    decreases v.len(),
{
    if v.len() == 0 {
        assert(spec_enc_u64_list(v) + rest =~= rest);
    } else {
        let tail = v.drop_first();
        lemma_enc_dec_u64_list(tail, rest);
        assert(spec_enc_u64_list(v) + rest =~= spec_enc_u64(v.first()) + (spec_enc_u64_list(tail)
            + rest));
        lemma_enc_dec_u64(v.first(), spec_enc_u64_list(tail) + rest);
        assert(seq![v.first()] + tail =~= v);
    }
}

/// A counted vector of integers: count then entries.
pub open spec fn spec_enc_vecu64(v: Seq<u64>) -> Seq<u8> {
    spec_enc_u64(v.len() as u64) + spec_enc_u64_list(v)
}

/// Read a counted vector of integers from the front.
pub open spec fn spec_dec_vecu64(s: Seq<u8>) -> Option<(Seq<u64>, Seq<u8>)> {
    match spec_dec_u64(s) {
        Option::None => Option::None,
        Option::Some((count, r)) => spec_dec_u64_list(r, count as nat),
    }
}

/// Round trip for counted integer vectors.
pub proof fn lemma_enc_dec_vecu64(v: Seq<u64>, rest: Seq<u8>)
    requires
        v.len() <= u64::MAX,
    ensures
        spec_dec_vecu64(spec_enc_vecu64(v) + rest) == Some((v, rest)),
{
    assert(spec_enc_vecu64(v) + rest =~= spec_enc_u64(v.len() as u64) + (spec_enc_u64_list(v)
        + rest));
    lemma_enc_dec_u64(v.len() as u64, spec_enc_u64_list(v) + rest);
    lemma_enc_dec_u64_list(v, rest);
}

/// Append the 8 big-endian bytes of `x`.
pub fn enc_u64(out: &mut Vec<u8>, x: u64)
    ensures
        final(out)@ == old(out)@ + spec_enc_u64(x),
{
    out.push((x >> 56) as u8);
    out.push((x >> 48) as u8);
    out.push((x >> 40) as u8);
    out.push((x >> 32) as u8);
    out.push((x >> 24) as u8);
    out.push((x >> 16) as u8);
    out.push((x >> 8) as u8);
    out.push(x as u8);
    proof {
        assert(out@ =~= old(out)@ + spec_enc_u64(x));
    }
}

/// Append a length-prefixed byte string.
pub fn enc_bytes(out: &mut Vec<u8>, a: &Vec<u8>)
    ensures
        final(out)@ == old(out)@ + spec_enc_bytes(a@),
{
    enc_u64(out, a.len() as u64);
    append_bytes(out, a);
    proof {
        assert(out@ =~= old(out)@ + spec_enc_bytes(a@));
    }
}

/// Append a counted vector of byte strings.
pub fn enc_vecbytes(out: &mut Vec<u8>, v: &Vec<Vec<u8>>)
    ensures
        final(out)@ == old(out)@ + spec_enc_vecbytes(crate::pvss::byte_views(v@)),
{
    enc_u64(out, v.len() as u64);
    let ghost bv = crate::pvss::byte_views(v@);
    let n = v.len();
    let mut i: usize = 0;
    while i < n
        invariant
            i <= n,
            n == v@.len(),
            bv == crate::pvss::byte_views(v@),
            out@ == old(out)@ + spec_enc_u64(n as u64) + spec_enc_bytes_list(bv.take(i as int)),
        decreases n - i,
    {
        enc_bytes(out, &v[i]);
        proof {
            lemma_enc_bytes_list_push(bv.take(i as int), bv[i as int]);
            assert(bv.take(i + 1 as int) =~= bv.take(i as int).push(bv[i as int]));
        }
        i += 1;
    }
    proof {
        assert(bv.take(n as int) =~= bv);
        assert(out@ =~= old(out)@ + spec_enc_vecbytes(bv));
    }
}

/// Appending one entry to a byte-string list extends its encoding.
pub proof fn lemma_enc_bytes_list_push(v: Seq<Seq<u8>>, x: Seq<u8>)
    ensures
        spec_enc_bytes_list(v.push(x)) == spec_enc_bytes_list(v) + spec_enc_bytes(x),
    decreases v.len(),
{
    if v.len() == 0 {
        assert(v.push(x).drop_first() =~= v);
        assert(v.push(x).first() == x);
        assert(spec_enc_bytes_list(v) =~= Seq::<u8>::empty());
        assert(spec_enc_bytes_list(v.push(x)) == spec_enc_bytes(x) + spec_enc_bytes_list(v));
        assert(spec_enc_bytes(x) + spec_enc_bytes_list(v) =~= spec_enc_bytes(x));
        assert(spec_enc_bytes_list(v) + spec_enc_bytes(x) =~= spec_enc_bytes(x));
    } else {
        lemma_enc_bytes_list_push(v.drop_first(), x);
        assert(v.push(x).drop_first() =~= v.drop_first().push(x));
        assert(v.push(x).first() == v.first());
        assert(spec_enc_bytes(v.first()) + (spec_enc_bytes_list(v.drop_first()) + spec_enc_bytes(
            x,
        )) =~= (spec_enc_bytes(v.first()) + spec_enc_bytes_list(v.drop_first())) + spec_enc_bytes(
            x,
        ));
    }
}

/// Appending one integer to an integer list extends its encoding.
pub proof fn lemma_enc_u64_list_push(v: Seq<u64>, x: u64)
    ensures
        spec_enc_u64_list(v.push(x)) == spec_enc_u64_list(v) + spec_enc_u64(x),
    decreases v.len(),
{
    if v.len() == 0 {
        assert(v.push(x).drop_first() =~= v);
        assert(v.push(x).first() == x);
        assert(spec_enc_u64_list(v) =~= Seq::<u8>::empty());
        assert(spec_enc_u64_list(v.push(x)) == spec_enc_u64(x) + spec_enc_u64_list(v));
        assert(spec_enc_u64(x) + spec_enc_u64_list(v) =~= spec_enc_u64(x));
        assert(spec_enc_u64_list(v) + spec_enc_u64(x) =~= spec_enc_u64(x));
    } else {
        lemma_enc_u64_list_push(v.drop_first(), x);
        assert(v.push(x).drop_first() =~= v.drop_first().push(x));
        assert(spec_enc_u64(v.first()) + (spec_enc_u64_list(v.drop_first()) + spec_enc_u64(x))
            =~= (spec_enc_u64(v.first()) + spec_enc_u64_list(v.drop_first())) + spec_enc_u64(x));
    }
}

/// The integer views of a vector of replica indices.
pub open spec fn u64_views(v: Seq<usize>) -> Seq<u64> {
    Seq::new(v.len(), |i: int| v[i] as u64)
}

/// Append a counted vector of replica indices.
pub fn enc_vec_replica(out: &mut Vec<u8>, v: &Vec<usize>)
    ensures
        final(out)@ == old(out)@ + spec_enc_vecu64(u64_views(v@)),
{
    enc_u64(out, v.len() as u64);
    let ghost uv = u64_views(v@);
    let n = v.len();
    let mut i: usize = 0;
    while i < n
        invariant
            i <= n,
            n == v@.len(),
            uv == u64_views(v@),
            out@ == old(out)@ + spec_enc_u64(n as u64) + spec_enc_u64_list(uv.take(i as int)),
        decreases n - i,
    {
        enc_u64(out, v[i] as u64);
        proof {
            lemma_enc_u64_list_push(uv.take(i as int), uv[i as int]);
            assert(uv.take(i + 1 as int) =~= uv.take(i as int).push(uv[i as int]));
        }
        i += 1;
    }
    proof {
        assert(uv.take(n as int) =~= uv);
        assert(out@ =~= old(out)@ + spec_enc_vecu64(uv));
    }
}

/// Read a `u64` at `pos` in `buf`, implementing `spec_dec_u64` on the
/// remainder of the buffer.
pub fn dec_u64(buf: &Vec<u8>, pos: usize) -> (r: Option<(u64, usize)>)
    requires
        pos <= buf@.len(),
    ensures
        match r {
            Some((v, p)) => pos <= p <= buf@.len() && spec_dec_u64(buf@.skip(pos as int)) == Some(
                (v, buf@.skip(p as int)),
            ),
            None => spec_dec_u64(buf@.skip(pos as int)) is None,
        },
{
    if buf.len() - pos < 8 {
        return None;
    }
    let v = ((buf[pos] as u64) << 56) | ((buf[pos + 1] as u64) << 48) | ((buf[pos + 2] as u64)
        << 40) | ((buf[pos + 3] as u64) << 32) | ((buf[pos + 4] as u64) << 24) | ((buf[pos
        + 5] as u64) << 16) | ((buf[pos + 6] as u64) << 8) | (buf[pos + 7] as u64);
    proof {
        let sk = buf@.skip(pos as int);
        assert(sk[0] == buf@[pos as int]);
        assert(sk[1] == buf@[pos as int + 1]);
        assert(sk[2] == buf@[pos as int + 2]);
        assert(sk[3] == buf@[pos as int + 3]);
        assert(sk[4] == buf@[pos as int + 4]);
        assert(sk[5] == buf@[pos as int + 5]);
        assert(sk[6] == buf@[pos as int + 6]);
        assert(sk[7] == buf@[pos as int + 7]);
        assert(sk.skip(8) =~= buf@.skip(pos as int + 8));
    }
    Some((v, pos + 8))
}

/// Read a length-prefixed byte string at `pos`, implementing
/// `spec_dec_bytes` on the remainder.
pub fn dec_bytes(buf: &Vec<u8>, pos: usize) -> (r: Option<(Vec<u8>, usize)>)
    requires
        pos <= buf@.len(),
    ensures
        match r {
            Some((v, p)) => pos <= p <= buf@.len() && spec_dec_bytes(buf@.skip(pos as int))
                == Some((v@, buf@.skip(p as int))),
            None => spec_dec_bytes(buf@.skip(pos as int)) is None,
        },
{
    let (len, p) = match dec_u64(buf, pos) {
        Some(x) => x,
        None => {
            return None;
        },
    };
    if len > (buf.len() - p) as u64 {
        return None;
    }
    let len = len as usize;
    let mut out: Vec<u8> = Vec::new();
    let mut i: usize = 0;
    while i < len
        invariant
            i <= len,
            p + len <= buf@.len(),
            buf@.len() <= usize::MAX,
            out@.len() == i,
            forall|j: int| 0 <= j < i ==> out@[j] == buf@[p + j],
        decreases len - i,
    {
        out.push(buf[p + i]);
        i += 1;
    }
    proof {
        let r0 = buf@.skip(p as int);
        assert(out@ =~= r0.take(len as int));
        assert(r0.skip(len as int) =~= buf@.skip(p as int + len));
    }
    Some((out, p + len))
}

/// Read a counted vector of byte strings at `pos`, implementing
/// `spec_dec_vecbytes` on the remainder.
pub fn dec_vecbytes(buf: &Vec<u8>, pos: usize) -> (r: Option<(Vec<Vec<u8>>, usize)>)
    requires
        pos <= buf@.len(),
    ensures
        match r {
            Some((v, p)) => pos <= p <= buf@.len() && spec_dec_vecbytes(buf@.skip(pos as int))
                == Some((crate::pvss::byte_views(v@), buf@.skip(p as int))),
            None => spec_dec_vecbytes(buf@.skip(pos as int)) is None,
        },
{
    let (count, p0) = match dec_u64(buf, pos) {
        Some(x) => x,
        None => {
            return None;
        },
    };
    let mut out: Vec<Vec<u8>> = Vec::new();
    let mut p = p0;
    let mut i: u64 = 0;
    while i < count
        invariant
            i <= count,
            pos <= p <= buf@.len(),
            out@.len() == i,
            spec_dec_vecbytes(buf@.skip(pos as int)) == spec_dec_bytes_list(
                buf@.skip(p0 as int),
                count as nat,
            ),
            spec_dec_bytes_list(buf@.skip(p0 as int), count as nat) == (match spec_dec_bytes_list(
                buf@.skip(p as int),
                (count - i) as nat,
            ) {
                Option::None => Option::None::<(Seq<Seq<u8>>, Seq<u8>)>,
                Option::Some((vs, r2)) => Option::Some(
                    (crate::pvss::byte_views(out@) + vs, r2),
                ),
            }),
        decreases count - i,
    {
        let ghost pv = crate::pvss::byte_views(out@);
        let (b, p2) = match dec_bytes(buf, p) {
            Some(x) => x,
            None => {
                return None;
            },
        };
        out.push(b);
        proof {
            assert(crate::pvss::byte_views(out@) =~= pv.push(b@));
            assert forall|vs: Seq<Seq<u8>>| true implies pv + (seq![b@] + vs) =~= pv.push(b@)
                + vs by {}
        }
        p = p2;
        i += 1;
    }
    proof {
        assert(spec_dec_bytes_list(buf@.skip(p as int), 0) == Option::Some(
            (Seq::<Seq<u8>>::empty(), buf@.skip(p as int)),
        ));
        assert(crate::pvss::byte_views(out@) + Seq::<Seq<u8>>::empty() =~= crate::pvss::byte_views(
            out@,
        ));
    }
    Some((out, p))
}

/// Read a counted vector of replica indices at `pos`, implementing
/// `spec_dec_vecu64` on the remainder; every index must fit a replica id,
/// and the decoder fails exactly when the underlying vector fails to
/// decode or holds an oversized index.
pub fn dec_vec_replica(buf: &Vec<u8>, pos: usize) -> (r: Option<(Vec<usize>, usize)>)
    requires
        pos <= buf@.len(),
    ensures
        match r {
            Some((v, p)) => pos <= p <= buf@.len() && spec_dec_vecu64(buf@.skip(pos as int))
                == Some((u64_views(v@), buf@.skip(p as int))) && (forall|j: int|
                0 <= j < v@.len() ==> (#[trigger] v@[j]) < 0x1_0000_0000),
            None => spec_dec_vecu64(buf@.skip(pos as int)) is None || !(forall|j: int|
                0 <= j < spec_dec_vecu64(buf@.skip(pos as int))->Some_0.0.len()
                    ==> (#[trigger] spec_dec_vecu64(buf@.skip(pos as int))->Some_0.0[j])
                    < 0x1_0000_0000),
        },
{
    let (count, p0) = match dec_u64(buf, pos) {
        Some(x) => x,
        None => {
            return None;
        },
    };
    let mut out: Vec<usize> = Vec::new();
    let mut p = p0;
    let mut i: u64 = 0;
    while i < count
        invariant
            i <= count,
            pos <= p <= buf@.len(),
            out@.len() == i,
            forall|j: int| 0 <= j < out@.len() ==> (#[trigger] out@[j]) < 0x1_0000_0000,
            spec_dec_vecu64(buf@.skip(pos as int)) == spec_dec_u64_list(
                buf@.skip(p0 as int),
                count as nat,
            ),
            spec_dec_u64_list(buf@.skip(p0 as int), count as nat) == (match spec_dec_u64_list(
                buf@.skip(p as int),
                (count - i) as nat,
            ) {
                Option::None => Option::None::<(Seq<u64>, Seq<u8>)>,
                Option::Some((vs, r2)) => Option::Some((u64_views(out@) + vs, r2)),
            }),
        decreases count - i,
    {
        let ghost pv = u64_views(out@);
        let (x, p2) = match dec_u64(buf, p) {
            Some(y) => y,
            None => {
                return None;
            },
        };
        if x >= 0x1_0000_0000u64 {
            proof {
                let full = spec_dec_u64_list(buf@.skip(p0 as int), count as nat);
                let inner = spec_dec_u64_list(buf@.skip(p2 as int), (count - i - 1) as nat);
                if inner is Some {
                    let (vs2, _r2) = inner->Some_0;
                    let vs = full->Some_0.0;
                    assert(vs == u64_views(out@) + (seq![x] + vs2));
                    assert(vs[out@.len() as int] == x);
                }
            }
            return None;
        }
        out.push(x as usize);
        proof {
            assert(u64_views(out@) =~= pv.push(x));
            assert forall|vs: Seq<u64>| true implies pv + (seq![x] + vs) =~= pv.push(x) + vs by {}
        }
        p = p2;
        i += 1;
    }
    proof {
        assert(spec_dec_u64_list(buf@.skip(p as int), 0) == Option::Some(
            (Seq::<u64>::empty(), buf@.skip(p as int)),
        ));
        assert(u64_views(out@) + Seq::<u64>::empty() =~= u64_views(out@));
    }
    Some((out, p))
}

} // verus!

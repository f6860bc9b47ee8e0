//! Byte buffers of the `bytes` crate, as the framing code sees them.
//!
//! Each function here makes one call into `bytes`; its contract says what the
//! crate's source does to the bytes held, and is trusted, not proved.
use vstd::prelude::*;
use bytes::{Buf, BufMut, Bytes, BytesMut};

verus! {

#[verifier::external_type_specification]
#[verifier::external_body]
pub struct ExBytesMut(BytesMut);

#[verifier::external_type_specification]
#[verifier::external_body]
pub struct ExBytes(Bytes);

/// The bytes that a `BytesMut` holds, front to back.
pub uninterp spec fn bytes_mut_contents(b: BytesMut) -> Seq<u8>;

/// The bytes that a `Bytes` holds, front to back.
pub uninterp spec fn bytes_contents(b: Bytes) -> Seq<u8>;

/// Unsigned value of `s` read most significant byte first.
pub open spec fn be_value(s: Seq<u8>) -> nat
    decreases s.len(),
{
    if s.len() == 0 {
        0
    } else {
        be_value(s.drop_last()) * 256 + s.last() as nat
    }
}

/// Unsigned value of `s` read least significant byte first.
pub open spec fn le_value(s: Seq<u8>) -> nat
    decreases s.len(),
{
    if s.len() == 0 {
        0
    } else {
        s[0] as nat + 256 * le_value(s.drop_first())
    }
}

/// The `k` lowest bytes of `v`, most significant first.
pub open spec fn be_bytes(v: nat, k: nat) -> Seq<u8>
    decreases k,
{
    if k == 0 {
        Seq::empty()
    } else {
        be_bytes(v / 256, (k - 1) as nat).push((v % 256) as u8)
    }
}

/// The `k` lowest bytes of `v`, least significant first.
pub open spec fn le_bytes(v: nat, k: nat) -> Seq<u8>
    decreases k,
{
    if k == 0 {
        Seq::empty()
    } else {
        seq![(v % 256) as u8] + le_bytes(v / 256, (k - 1) as nat)
    }
}

/// Powers of 256.
pub open spec fn pow256(k: nat) -> nat
    decreases k,
{
    if k == 0 {
        1
    } else {
        256 * pow256((k - 1) as nat)
    }
}

/// `be_bytes` and `le_bytes` give `k` bytes.
pub proof fn lemma_bytes_len(v: nat, k: nat)
    ensures
        be_bytes(v, k).len() == k,
        le_bytes(v, k).len() == k,
    decreases k,
{
    if k > 0 {
        lemma_bytes_len(v / 256, (k - 1) as nat);
    }
}

/// Reading back the `k` bytes of a number below `256^k` gives the number.
pub proof fn lemma_bytes_roundtrip(v: nat, k: nat)
    requires
        v < pow256(k),
    ensures
        be_value(be_bytes(v, k)) == v,
        le_value(le_bytes(v, k)) == v,
    decreases k,
{
    if k > 0 {
        let p = pow256((k - 1) as nat);
        assert(v / 256 < p) by (nonlinear_arith)
            requires
                v < 256 * p,
        ;
        lemma_bytes_roundtrip(v / 256, (k - 1) as nat);
        let b = be_bytes(v / 256, (k - 1) as nat);
        assert(be_bytes(v, k).drop_last() =~= b);
        let l = le_bytes(v / 256, (k - 1) as nat);
        assert(le_bytes(v, k).drop_first() =~= l);
        assert(v == (v / 256) * 256 + v % 256) by (nonlinear_arith);
    }
}

/// Bytes that `BytesMut::reserve` can be asked for without a capacity
/// overflow: the held bytes and the extra ones stay within `isize::MAX`.
pub open spec fn reserve_fits(len: int, additional: int) -> bool {
    len + additional <= isize::MAX
}

/// `BytesMut::new`: an empty buffer.
#[verifier::external_body]
pub(crate) fn bm_new() -> (r: BytesMut)
    ensures
        bytes_mut_contents(r) == Seq::<u8>::empty(),
{
    BytesMut::new()
}

/// `BytesMut::with_capacity`: an empty buffer.
#[verifier::external_body]
pub(crate) fn bm_with_capacity(capacity: usize) -> (r: BytesMut)
    requires
        capacity <= isize::MAX,
    ensures
        bytes_mut_contents(r) == Seq::<u8>::empty(),
{
    BytesMut::with_capacity(capacity)
}

/// `BytesMut::from(&[u8])`: a buffer holding a copy of `s`.
#[verifier::external_body]
pub(crate) fn bm_from_slice(s: &[u8]) -> (r: BytesMut)
    ensures
        bytes_mut_contents(r) == s@,
{
    BytesMut::from(s)
}

/// `BytesMut::len`: the number of bytes held.
#[verifier::external_body]
pub(crate) fn bm_len(b: &BytesMut) -> (r: usize)
    ensures
        r == bytes_mut_contents(*b).len(),
{
    b.len()
}

/// `BytesMut::capacity`. What the allocator gave is not stated; the crate
/// keeps it at least the length.
#[verifier::external_body]
pub(crate) fn bm_capacity(b: &BytesMut) -> (r: usize)
    ensures
        r >= bytes_mut_contents(*b).len(),
{
    b.capacity()
}

/// `Buf::chunk` of a `BytesMut`: all the bytes held, as one slice.
#[verifier::external_body]
pub(crate) fn bm_chunk(b: &BytesMut) -> (r: &[u8])
    ensures
        r@ == bytes_mut_contents(*b),
{
    b.chunk()
}

/// `Buf::advance` on a `BytesMut`: drops the first `cnt` bytes. It panics
/// when `cnt` is more than the length, which `requires` leaves out.
#[verifier::external_body]
pub(crate) fn bm_advance(b: &mut BytesMut, cnt: usize)
    requires
        cnt <= bytes_mut_contents(*old(b)).len(),
    ensures
        bytes_mut_contents(*final(b)) == bytes_mut_contents(*old(b)).skip(cnt as int),
{
    b.advance(cnt)
}

/// `Buf::get_uint` on a `BytesMut`: reads `nbytes` bytes as a big-endian
/// number and drops them. It panics when `nbytes` is over 8 or over the
/// length, which `requires` leaves out.
#[verifier::external_body]
pub(crate) fn bm_get_uint(b: &mut BytesMut, nbytes: usize) -> (r: u64)
    requires
        nbytes <= 8,
        nbytes <= bytes_mut_contents(*old(b)).len(),
    ensures
        r as nat == be_value(bytes_mut_contents(*old(b)).take(nbytes as int)),
        bytes_mut_contents(*final(b)) == bytes_mut_contents(*old(b)).skip(nbytes as int),
{
    b.get_uint(nbytes)
}

/// `Buf::get_uint_le` on a `BytesMut`: reads `nbytes` bytes as a
/// little-endian number and drops them. It panics when `nbytes` is over 8 or
/// over the length, which `requires` leaves out.
#[verifier::external_body]
pub(crate) fn bm_get_uint_le(b: &mut BytesMut, nbytes: usize) -> (r: u64)
    requires
        nbytes <= 8,
        nbytes <= bytes_mut_contents(*old(b)).len(),
    ensures
        r as nat == le_value(bytes_mut_contents(*old(b)).take(nbytes as int)),
        bytes_mut_contents(*final(b)) == bytes_mut_contents(*old(b)).skip(nbytes as int),
{
    b.get_uint_le(nbytes)
}

/// `BytesMut::split_to`: hands out the first `at` bytes and keeps the rest.
/// It panics when `at` is more than the length, which `requires` leaves out.
#[verifier::external_body]
pub(crate) fn bm_split_to(b: &mut BytesMut, at: usize) -> (r: BytesMut)
    requires
        at <= bytes_mut_contents(*old(b)).len(),
    ensures
        bytes_mut_contents(r) == bytes_mut_contents(*old(b)).take(at as int),
        bytes_mut_contents(*final(b)) == bytes_mut_contents(*old(b)).skip(at as int),
{
    b.split_to(at)
}

/// `BytesMut::reserve`: makes room and keeps the bytes held. It panics on a
/// capacity overflow; `requires` keeps the held and the requested bytes within
/// `isize::MAX`. The bytes already dropped from the front of a shared
/// allocation are not counted there: that an allocation of close to
/// `isize::MAX` bytes still overflows is left unsaid.
#[verifier::external_body]
pub(crate) fn bm_reserve(b: &mut BytesMut, additional: usize)
    requires
        reserve_fits(bytes_mut_contents(*old(b)).len() as int, additional as int),
    ensures
        bytes_mut_contents(*final(b)) == bytes_mut_contents(*old(b)),
{
    b.reserve(additional)
}

/// `BytesMut::extend_from_slice`: appends `s`. It reserves first, with the
/// same limit as `bm_reserve`.
#[verifier::external_body]
pub(crate) fn bm_extend_from_slice(b: &mut BytesMut, s: &[u8])
    requires
        reserve_fits(bytes_mut_contents(*old(b)).len() as int, s@.len() as int),
    ensures
        bytes_mut_contents(*final(b)) == bytes_mut_contents(*old(b)) + s@,
{
    b.extend_from_slice(s)
}

/// `BufMut::put_uint` on a `BytesMut`: appends the `nbytes` lowest bytes of
/// `n`, most significant first. It panics when `nbytes` is over 8, which
/// `requires` leaves out, and reserves as `bm_reserve` does.
#[verifier::external_body]
pub(crate) fn bm_put_uint(b: &mut BytesMut, n: u64, nbytes: usize)
    requires
        nbytes <= 8,
        reserve_fits(bytes_mut_contents(*old(b)).len() as int, nbytes as int),
    ensures
        bytes_mut_contents(*final(b)) == bytes_mut_contents(*old(b)) + be_bytes(
            n as nat,
            nbytes as nat,
        ),
{
    b.put_uint(n, nbytes)
}

/// `BufMut::put_uint_le` on a `BytesMut`: appends the `nbytes` lowest bytes
/// of `n`, least significant first. It panics when `nbytes` is over 8, which
/// `requires` leaves out, and reserves as `bm_reserve` does.
#[verifier::external_body]
pub(crate) fn bm_put_uint_le(b: &mut BytesMut, n: u64, nbytes: usize)
    requires
        nbytes <= 8,
        reserve_fits(bytes_mut_contents(*old(b)).len() as int, nbytes as int),
    ensures
        bytes_mut_contents(*final(b)) == bytes_mut_contents(*old(b)) + le_bytes(
            n as nat,
            nbytes as nat,
        ),
{
    b.put_uint_le(n, nbytes)
}

/// `Deref` of a `Bytes`: the slice of the bytes it holds.
#[verifier::external_body]
pub(crate) fn bytes_as_slice(b: &Bytes) -> (r: &[u8])
    ensures
        r@ == bytes_contents(*b),
{
    &b[..]
}

/// `Bytes::new`: no bytes.
#[verifier::external_body]
pub(crate) fn bytes_new() -> (r: Bytes)
    ensures
        bytes_contents(r) == Seq::<u8>::empty(),
{
    Bytes::new()
}

/// `Bytes::copy_from_slice`: a copy of `s`.
#[verifier::external_body]
pub(crate) fn bytes_copy_from_slice(s: &[u8]) -> (r: Bytes)
    ensures
        bytes_contents(r) == s@,
{
    Bytes::copy_from_slice(s)
}

/// Appends the bytes of `b` to `out`, in order.
pub fn vec_extend(out: &mut Vec<u8>, b: &[u8])
    ensures
        final(out)@ == old(out)@ + b@,
{
    let mut i: usize = 0;
    while i < b.len()
        invariant
            i <= b@.len(),
            out@ == old(out)@ + b@.take(i as int),
        decreases b@.len() - i,
    {
        out.push(b[i]);
        i = i + 1;
        proof {
            assert(b@.take(i as int) =~= b@.take(i - 1) + seq![b@[i - 1]]);
        }
    }
    proof {
        assert(b@.take(i as int) =~= b@);
    }
}

} // verus!

//! A deterministic random source: a multiplicative congruential generator
//! over 64-bit words.
use vstd::prelude::*;
use crate::timestamp::{le8, lemma_le8, time_to_bytes};

verus! {

/// The multiplier of the generator.
pub const LCG_MULTIPLIER: u64 = 181783497276652981;

/// The state after one draw from state `s`.
pub open spec fn lcg_next(s: u64) -> u64 {
    ((s as nat * LCG_MULTIPLIER as nat) % 0x10000000000000000) as u64
}

/// The state after `k` draws from `seed`.
pub open spec fn lcg_state(seed: u64, k: nat) -> u64
    decreases k,
{
    if k == 0 {
        seed
    } else {
        lcg_next(lcg_state(seed, (k - 1) as nat))
    }
}

/// The bytes of the first `k` words drawn from `seed`, each least significant
/// byte first.
pub open spec fn emitted(seed: u64, k: nat) -> Seq<u8>
    decreases k,
{
    if k == 0 {
        Seq::empty()
    } else {
        emitted(seed, (k - 1) as nat) + le8(lcg_state(seed, (k - 1) as nat))
    }
}

/// Words drawn to fill `len` bytes: one per eight bytes, and one more for a
/// remainder.
pub open spec fn fill_draws(len: nat) -> nat {
    if len % 8 == 0 {
        len / 8
    } else {
        len / 8 + 1
    }
}

/// The `len` bytes that filling from `seed` writes: whole words, then the
/// first bytes of one more word.
pub open spec fn fill_stream(seed: u64, len: nat) -> Seq<u8> {
    emitted(seed, len / 8) + le8(lcg_state(seed, len / 8)).take((len % 8) as int)
}

/// The eight bytes of `v`, least significant first.
fn u64_to_le_bytes(v: u64) -> (r: [u8; 8])
    ensures
        r@ == le8(v),
{
    let t: i64 = v as i64;
    let r = time_to_bytes(t);
    proof {
        assert(t as u64 == v) by (bit_vector)
            requires
                t == v as i64,
        ;
        lemma_le8(v);
    }
    r
}

/// The four bytes of `v`, least significant first.
fn u32_to_le_bytes(v: u32) -> (r: [u8; 4])
    ensures
        r@ == le8(v as u64).take(4),
{
    let b = u64_to_le_bytes(v as u64);
    let r = [b[0], b[1], b[2], b[3]];
    proof {
        assert(r@ =~= le8(v as u64).take(4));
    }
    r
}

/// A random source that yields its state and multiplies it by a constant.
pub struct MyRandomProvider(u64);

impl View for MyRandomProvider {
    type V = u64;

    closed spec fn view(&self) -> u64 {
        self.0
    }
}

impl MyRandomProvider {
    /// A source whose first word is `seed`.
    pub fn new(seed: u64) -> (r: Self)
        ensures
            r@ == seed,
    {
        Self(seed)
    }

    /// The next word: the current state, which then advances.
    pub fn next_u64(&mut self) -> (r: u64)
        ensures
            r == old(self)@,
            final(self)@ == lcg_next(old(self)@),
    {
        let result = self.0;
        self.0 = self.0.wrapping_mul(181783497276652981);
        result
    }

    /// The low half of the next word.
    pub fn next_u32(&mut self) -> (r: u32)
        ensures
            r == old(self)@ as u32,
            final(self)@ == lcg_next(old(self)@),
    {
        self.next_u64() as u32
    }

    /// Fills `dest` with the bytes of successive words.
    pub fn fill_bytes(&mut self, dest: &mut [u8])
        ensures
            final(dest)@ == fill_stream(old(self)@, old(dest)@.len()),
            final(self)@ == lcg_state(old(self)@, fill_draws(old(dest)@.len())),
    {
        fill_bytes_via_next(self, dest)
    }
}

proof fn lemma_state_step(seed: u64, k: nat)
    ensures
        lcg_state(seed, k + 1) == lcg_next(lcg_state(seed, k)),
{
}

proof fn lemma_low_half_bytes(s: u64)
    ensures
        le8(s as u32 as u64).take(4) == le8(s).take(4),
{
    let t = s as u32 as u64;
    assert(t % 256 == s % 256 && (t / 0x100) % 256 == (s / 0x100) % 256 && (t / 0x10000) % 256
        == (s / 0x10000) % 256 && (t / 0x1000000) % 256 == (s / 0x1000000) % 256) by (bit_vector)
        requires
            t == s as u32 as u64,
    ;
    assert(le8(t).take(4) =~= le8(s).take(4));
}

/// Writes the first `n` bytes of `src` into `dest` from `pos` on, which
/// leaves nothing after them.
fn copy_into(dest: &mut [u8], pos: usize, src: &[u8], n: usize)
    requires
        n <= src@.len(),
        pos + n == old(dest)@.len(),
    ensures
        final(dest)@ == old(dest)@.take(pos as int) + src@.take(n as int),
{
    let total = dest.len();
    let mut j: usize = 0;
    while j < n
        invariant
            dest@.len() == old(dest)@.len(),
            total == dest@.len(),
            pos + n == dest@.len(),
            j <= n <= src@.len(),
            dest@.take(pos as int) == old(dest)@.take(pos as int),
            dest@.subrange(pos as int, pos + j) == src@.take(j as int),
        decreases n - j,
    {
        dest[pos + j] = src[j];
        assert(dest@.subrange(pos as int, pos + j + 1) =~= src@.take(j + 1));
        assert(dest@.take(pos as int) =~= old(dest)@.take(pos as int));
        j = j + 1;
    }
    assert(dest@ =~= dest@.take(pos as int) + dest@.subrange(pos as int, pos + n));
}

/// Fills `dest` eight bytes at a time from `next_u64`, then the rest from one
/// more word: `next_u64` for more than four bytes, `next_u32` for fewer.
pub fn fill_bytes_via_next(rng: &mut MyRandomProvider, dest: &mut [u8])
    ensures
        final(dest)@ == fill_stream(old(rng)@, old(dest)@.len()),
        final(rng)@ == lcg_state(old(rng)@, fill_draws(old(dest)@.len())),
{
    let ghost seed = rng@;
    let len = dest.len();
    let mut pos: usize = 0;
    let ghost mut k: nat = 0;
    while len - pos >= 8
        invariant
            dest@.len() == len,
            len == old(dest)@.len(),
            pos <= len,
            pos == 8 * k,
            dest@.take(pos as int) == emitted(seed, k),
            rng@ == lcg_state(seed, k),
        decreases len - pos,
    {
        let chunk = u64_to_le_bytes(rng.next_u64());
        let mut j: usize = 0;
        while j < 8
            invariant
                dest@.len() == len,
                pos + 8 <= len,
                j <= 8,
                chunk@ == le8(lcg_state(seed, k)),
                dest@.take(pos as int) == emitted(seed, k),
                dest@.subrange(pos as int, pos + j) == chunk@.take(j as int),
            decreases 8 - j,
        {
            dest[pos + j] = chunk[j];
            assert(dest@.subrange(pos as int, pos + j + 1) =~= chunk@.take(j + 1));
            assert(dest@.take(pos as int) =~= old(dest)@.take(0) + dest@.take(pos as int));
            j = j + 1;
        }
        proof {
            assert(dest@.take(pos + 8) =~= dest@.take(pos as int) + dest@.subrange(pos as int, pos + 8));
            assert(chunk@.take(8) =~= chunk@);
            lemma_state_step(seed, k);
            k = k + 1;
        }
        pos = pos + 8;
    }
    let n = len - pos;
    proof {
        assert(len / 8 == k && len % 8 == n) by (nonlinear_arith)
            requires
                pos == 8 * k,
                n == len - pos,
                n < 8,
        ;
    }
    if n > 4 {
        let chunk = u64_to_le_bytes(rng.next_u64());
        copy_into(dest, pos, &chunk, n);
        proof {
            assert(dest@ =~= emitted(seed, k) + le8(lcg_state(seed, k)).take(n as int));
            lemma_state_step(seed, k);
        }
    } else if n > 0 {
        let chunk = u32_to_le_bytes(rng.next_u32());
        copy_into(dest, pos, &chunk, n);
        proof {
            lemma_low_half_bytes(lcg_state(seed, k));
            assert(chunk@.take(n as int) =~= le8(lcg_state(seed, k)).take(n as int));
            assert(dest@ =~= emitted(seed, k) + le8(lcg_state(seed, k)).take(n as int));
            lemma_state_step(seed, k);
        }
    } else {
        proof {
            assert(dest@ =~= dest@.take(pos as int));
            assert(le8(lcg_state(seed, k)).take(0) =~= Seq::<u8>::empty());
            assert(dest@ =~= emitted(seed, k) + le8(lcg_state(seed, k)).take(0));
        }
    }
}

} // verus!

//! A timestamp as eight little-endian bytes, as the time server sends it.
use vstd::prelude::*;
use crate::buf::{le_bytes, le_value, lemma_bytes_roundtrip, pow256};

verus! {

/// The eight little-endian bytes of `u`, spelled out.
pub open spec fn le8(u: u64) -> Seq<u8> {
    seq![
        (u % 256) as u8,
        ((u / 0x100) % 256) as u8,
        ((u / 0x10000) % 256) as u8,
        ((u / 0x1000000) % 256) as u8,
        ((u / 0x100000000) % 256) as u8,
        ((u / 0x10000000000) % 256) as u8,
        ((u / 0x1000000000000) % 256) as u8,
        ((u / 0x100000000000000) % 256) as u8,
    ]
}

pub proof fn lemma_le8(u: u64)
    ensures
        le_bytes(u as nat, 8) == le8(u),
{
    reveal_with_fuel(le_bytes, 9);
    let v = u as nat;
    assert(v / 256 / 256 == v / 0x10000);
    assert(v / 256 / 256 / 256 == v / 0x1000000);
    assert(v / 256 / 256 / 256 / 256 == v / 0x100000000);
    assert(v / 256 / 256 / 256 / 256 / 256 == v / 0x10000000000);
    assert(v / 256 / 256 / 256 / 256 / 256 / 256 == v / 0x1000000000000);
    assert(v / 256 / 256 / 256 / 256 / 256 / 256 / 256 == v / 0x100000000000000);
    assert(le_bytes(u as nat, 8) =~= le8(u));
}

/// The timestamp `time` as eight bytes, least significant first.
pub fn time_to_bytes(time: i64) -> (r: [u8; 8])
    ensures
        r@ == le_bytes(time as u64 as nat, 8),
{
    let mut bytes = [0u8; 8];
    bytes[0] = ((time >> 0) & 0xff) as u8;
    bytes[1] = ((time >> 8) & 0xff) as u8;
    bytes[2] = ((time >> 16) & 0xff) as u8;
    bytes[3] = ((time >> 24) & 0xff) as u8;
    bytes[4] = ((time >> 32) & 0xff) as u8;
    bytes[5] = ((time >> 40) & 0xff) as u8;
    bytes[6] = ((time >> 48) & 0xff) as u8;
    bytes[7] = ((time >> 56) & 0xff) as u8;
    proof {
        let u = time as u64;
        assert(((time >> 0) & 0xff) as u8 == (u % 256) as u8) by (bit_vector)
            requires u == time as u64;
        assert(((time >> 8) & 0xff) as u8 == ((u / 0x100) % 256) as u8) by (bit_vector)
            requires u == time as u64;
        assert(((time >> 16) & 0xff) as u8 == ((u / 0x10000) % 256) as u8) by (bit_vector)
            requires u == time as u64;
        assert(((time >> 24) & 0xff) as u8 == ((u / 0x1000000) % 256) as u8) by (bit_vector)
            requires u == time as u64;
        assert(((time >> 32) & 0xff) as u8 == ((u / 0x100000000) % 256) as u8) by (bit_vector)
            requires u == time as u64;
        assert(((time >> 40) & 0xff) as u8 == ((u / 0x10000000000) % 256) as u8) by (bit_vector)
            requires u == time as u64;
        assert(((time >> 48) & 0xff) as u8 == ((u / 0x1000000000000) % 256) as u8) by (bit_vector)
            requires u == time as u64;
        assert(((time >> 56) & 0xff) as u8 == ((u / 0x100000000000000) % 256) as u8) by (bit_vector)
            requires u == time as u64;
        lemma_le8(u);
        assert(bytes@ =~= le8(u));
    }
    bytes
}

/// The number spelled by eight bytes, least significant first.
pub open spec fn le8_value(s: Seq<u8>) -> nat {
    s[0] as nat + s[1] as nat * 0x100 + s[2] as nat * 0x10000 + s[3] as nat * 0x1000000
        + s[4] as nat * 0x100000000 + s[5] as nat * 0x10000000000 + s[6] as nat
        * 0x1000000000000 + s[7] as nat * 0x100000000000000
}

proof fn lemma_le_value8(s: Seq<u8>)
    requires
        s.len() == 8,
    ensures
        le_value(s) == le8_value(s),
{
    reveal_with_fuel(le_value, 9);
    let s1 = s.drop_first();
    let s2 = s1.drop_first();
    let s3 = s2.drop_first();
    let s4 = s3.drop_first();
    let s5 = s4.drop_first();
    let s6 = s5.drop_first();
    let s7 = s6.drop_first();
    let s8 = s7.drop_first();
    assert(s8.len() == 0);
    assert(le_value(s7) == s[7]);
    assert(le_value(s6) == s[6] + 256 * le_value(s7));
    assert(le_value(s5) == s[5] + 256 * le_value(s6));
    assert(le_value(s4) == s[4] + 256 * le_value(s5));
    assert(le_value(s3) == s[3] + 256 * le_value(s4));
    assert(le_value(s2) == s[2] + 256 * le_value(s3));
    assert(le_value(s1) == s[1] + 256 * le_value(s2));
}

/// The timestamp in the first eight bytes of `buf`, least significant
/// first. Fewer than eight bytes panic.
pub fn read_buf(buf: &[u8]) -> (r: i64)
    requires
        buf.len() >= 8,
    ensures
        r as u64 as nat == le_value(buf@.take(8)),
{
    let b0 = buf[0];
    let b1 = buf[1];
    let b2 = buf[2];
    let b3 = buf[3];
    let b4 = buf[4];
    let b5 = buf[5];
    let b6 = buf[6];
    let b7 = buf[7];
    let r = (b0 as i64) | ((b1 as i64) << 8) | (b2 as i64) << 16 | (b3 as i64) << 24 | (b4
        as i64) << 32 | (b5 as i64) << 40 | (b6 as i64) << 48 | (b7 as i64) << 56;
    proof {
        assert(r as u64 == b0 as u64 + b1 as u64 * 0x100 + b2 as u64 * 0x10000 + b3 as u64
            * 0x1000000 + b4 as u64 * 0x100000000 + b5 as u64 * 0x10000000000 + b6 as u64
            * 0x1000000000000 + b7 as u64 * 0x100000000000000) by (bit_vector)
            requires
                r == (b0 as i64) | ((b1 as i64) << 8) | (b2 as i64) << 16 | (b3 as i64) << 24
                    | (b4 as i64) << 32 | (b5 as i64) << 40 | (b6 as i64) << 48 | (b7 as i64)
                    << 56,
        ;
        lemma_le_value8(buf@.take(8));
    }
    r
}

/// Reading back the bytes of a timestamp gives the timestamp.
pub proof fn law_read_buf_of_time_to_bytes(time: i64, bytes: Seq<u8>, back: i64)
    requires
        bytes == le_bytes(time as u64 as nat, 8),
        back as u64 as nat == le_value(bytes.take(8)),
    ensures
        back == time,
{
    let u = time as u64;
    reveal_with_fuel(pow256, 9);
    assert(pow256(8) == 0x10000000000000000);
    lemma_bytes_roundtrip(u as nat, 8);
    crate::buf::lemma_bytes_len(u as nat, 8);
    assert(bytes.take(8) =~= bytes);
    assert(back as u64 == time as u64);
    assert(back == time) by (bit_vector)
        requires
            back as u64 == time as u64,
    ;
}

} // verus!

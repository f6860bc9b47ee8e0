//! Hexadecimal text to bytes and back.
use vstd::prelude::*;
use vstd::string::StringSliceAdditionalSpecFns;
use vstd::utf8::{encode_utf8, is_ascii_chars, is_continuation_byte};
use core::num::ParseIntError;

verus! {

broadcast use vstd::utf8::group_utf8_lib;

#[verifier::external_type_specification]
#[verifier::external_body]
pub struct ExParseIntError(ParseIntError);

/// The value of a hexadecimal digit, of either case.
pub open spec fn hex_digit(b: u8) -> Option<u8> {
    if 48 <= b <= 57 {
        Some((b - 48) as u8)
    } else if 97 <= b <= 102 {
        Some((b - 87) as u8)
    } else if 65 <= b <= 70 {
        Some((b - 55) as u8)
    } else {
        None
    }
}

/// What `u8::from_str_radix(_, 16)` gives for the two bytes `b0 b1`: two
/// hexadecimal digits, or a plus sign and one digit.
pub open spec fn hex_pair(b0: u8, b1: u8) -> Option<u8> {
    if b0 == 43 {
        hex_digit(b1)
    } else {
        match (hex_digit(b0), hex_digit(b1)) {
            (Some(h), Some(l)) => Some((h * 16 + l) as u8),
            _ => None,
        }
    }
}

/// What decoding hexadecimal text comes to.
pub enum HexOutcome {
    /// The text decodes to these bytes.
    Bytes(Seq<u8>),
    /// A pair of bytes is not a number.
    BadDigit,
    /// A pair is cut short by the end of the text or in the middle of a
    /// character; slicing it out panics.
    Unsliceable,
}

/// `o` with the bytes `p` put before its bytes.
pub open spec fn hex_prepend(p: Seq<u8>, o: HexOutcome) -> HexOutcome {
    match o {
        HexOutcome::Bytes(v) => HexOutcome::Bytes(p + v),
        _ => o,
    }
}

proof fn lemma_prepend_push(p: Seq<u8>, v: u8, o: HexOutcome)
    ensures
        hex_prepend(p, hex_prepend(seq![v], o)) == hex_prepend(p.push(v), o),
{
    if let HexOutcome::Bytes(w) = o {
        assert(p + (seq![v] + w) =~= p.push(v) + w);
    }
}

/// Decoding the UTF-8 bytes `b` two at a time, front to back, stopping at
/// the first pair that is not a number.
pub open spec fn hex_outcome(b: Seq<u8>) -> HexOutcome
    decreases b.len(),
{
    if b.len() == 0 {
        HexOutcome::Bytes(Seq::empty())
    } else if b.len() < 2 || (b.len() > 2 && is_continuation_byte(b[2])) {
        HexOutcome::Unsliceable
    } else {
        match hex_pair(b[0], b[1]) {
            Some(v) => hex_prepend(seq![v], hex_outcome(b.skip(2))),
            None => HexOutcome::BadDigit,
        }
    }
}

/// `u8::from_str_radix(src, 16)` on a two-byte string: the number it spells,
/// or an error.
#[verifier::external_body]
fn u8_from_hex_str(src: &str) -> (r: Result<u8, ParseIntError>)
    requires
        src.spec_bytes().len() == 2,
    ensures
        match hex_pair(src.spec_bytes()[0], src.spec_bytes()[1]) {
            Some(v) => r == Ok::<u8, ParseIntError>(v),
            None => r is Err,
        },
{
    u8::from_str_radix(src, 16)
}

/// Decodes hexadecimal text two characters at a time, front to back: the
/// bytes; or, at the first pair that is not a number, the parse error; or,
/// at the first pair cut short, nothing.
fn decode_hex_pairs(s: &str) -> (r: Result<Vec<u8>, Option<ParseIntError>>)
    ensures
        match hex_outcome(s.spec_bytes()) {
            HexOutcome::Bytes(v) => r matches Ok(out) && out@ == v,
            HexOutcome::BadDigit => r matches Err(Some(_)),
            HexOutcome::Unsliceable => r matches Err(None),
        },
{
    let mut out: Vec<u8> = Vec::new();
    let mut rest: &str = s;
    while !rest.is_empty()
        invariant
            hex_outcome(s.spec_bytes()) == hex_prepend(out@, hex_outcome(rest.spec_bytes())),
        decreases rest.spec_bytes().len(),
    {
        let ghost b = rest.spec_bytes();
        let rb = rest.as_bytes();
        if rb.len() < 2 || (rb.len() > 2 && 0x80 <= rb[2] && rb[2] <= 0xbf) {
            return Err(None);
        }
        let (piece, tail) = rest.split_at(2);
        proof {
            assert(piece.spec_bytes()[0] == b[0]);
            assert(piece.spec_bytes()[1] == b[1]);
            assert(tail.spec_bytes() =~= b.skip(2));
        }
        match u8_from_hex_str(piece) {
            Ok(v) => {
                proof {
                    lemma_prepend_push(out@, v, hex_outcome(b.skip(2)));
                }
                out.push(v);
            },
            Err(e) => {
                return Err(Some(e));
            },
        }
        rest = tail;
    }
    proof {
        assert(rest.spec_bytes().len() == 0);
        assert(hex_outcome(rest.spec_bytes()) == HexOutcome::Bytes(Seq::empty()));
        assert(out@ + Seq::<u8>::empty() =~= out@);
    }
    Ok(out)
}

/// Decodes hexadecimal text, two characters to a byte. Slicing out a pair
/// panics where it is cut short (an odd length, or a pair that ends inside a
/// character) before a bad pair is met; `requires` leaves that out, and
/// `try_decode_hex` answers nothing there.
pub fn decode_hex(s: &str) -> (r: Result<Vec<u8>, ParseIntError>)
    requires
        !(hex_outcome(s.spec_bytes()) is Unsliceable),
    ensures
        match hex_outcome(s.spec_bytes()) {
            HexOutcome::Bytes(v) => r matches Ok(out) && out@ == v,
            _ => r is Err,
        },
{
    match decode_hex_pairs(s) {
        Ok(out) => Ok(out),
        Err(Some(e)) => Err(e),
        Err(None) => unreached(),
    }
}

/// Decodes hexadecimal text as `decode_hex` does, but answers nothing
/// where `decode_hex` fails or panics.
pub fn try_decode_hex(s: &str) -> (r: Option<Vec<u8>>)
    ensures
        match hex_outcome(s.spec_bytes()) {
            HexOutcome::Bytes(v) => r matches Some(out) && out@ == v,
            _ => r is None,
        },
{
    match decode_hex_pairs(s) {
        Ok(out) => Some(out),
        Err(_) => None,
    }
}

/// The lowercase hexadecimal digit for `d`, below 16.
pub open spec fn hex_char(d: nat) -> char {
    if d < 10 {
        (48 + d) as char
    } else {
        (87 + d) as char
    }
}

/// The two lowercase digits of `b`, as `{:02x}` writes them.
pub open spec fn hex_pair_chars(b: u8) -> Seq<char> {
    seq![hex_char((b / 16) as nat), hex_char((b % 16) as nat)]
}

/// Lowercase hexadecimal text of `b`, two digits a byte.
pub open spec fn hex_text(b: Seq<u8>) -> Seq<char>
    decreases b.len(),
{
    if b.len() == 0 {
        Seq::empty()
    } else {
        hex_pair_chars(b[0]) + hex_text(b.skip(1))
    }
}

/// The one-character text of the lowercase hexadecimal digit `d`.
fn hex_digit_str(d: u8) -> (r: &'static str)
    requires
        d < 16,
    ensures
        r@ == seq![hex_char(d as nat)],
{
    proof {
        reveal_strlit("0");
        reveal_strlit("1");
        reveal_strlit("2");
        reveal_strlit("3");
        reveal_strlit("4");
        reveal_strlit("5");
        reveal_strlit("6");
        reveal_strlit("7");
        reveal_strlit("8");
        reveal_strlit("9");
        reveal_strlit("a");
        reveal_strlit("b");
        reveal_strlit("c");
        reveal_strlit("d");
        reveal_strlit("e");
        reveal_strlit("f");
    }
    match d {
        0 => "0",
        1 => "1",
        2 => "2",
        3 => "3",
        4 => "4",
        5 => "5",
        6 => "6",
        7 => "7",
        8 => "8",
        9 => "9",
        10 => "a",
        11 => "b",
        12 => "c",
        13 => "d",
        14 => "e",
        _ => "f",
    }
}

/// Appends the two lowercase hexadecimal digits of `b`, as
/// `write!(s, "{:02x}", b)` does.
fn push_hex_byte(s: &mut String, b: u8)
    ensures
        final(s)@ == old(s)@ + hex_pair_chars(b),
{
    s.append(hex_digit_str(b / 16));
    s.append(hex_digit_str(b % 16));
    proof {
        assert(final(s)@ =~= old(s)@ + hex_pair_chars(b));
    }
}

proof fn lemma_hex_text_push(b: Seq<u8>, i: int)
    requires
        0 <= i < b.len(),
    ensures
        hex_text(b.take(i + 1)) == hex_text(b.take(i)) + hex_pair_chars(b[i]),
    decreases i,
{
    if i == 0 {
        assert(b.take(1).skip(1) =~= Seq::<u8>::empty());
        assert(hex_text(Seq::<u8>::empty()) =~= Seq::<char>::empty());
        assert(b.take(1)[0] == b[0]);
        assert(hex_text(b.take(1)) =~= hex_pair_chars(b[0]) + Seq::<char>::empty());
        assert(hex_text(b.take(0)) =~= Seq::<char>::empty());
    } else {
        let t = b.skip(1);
        lemma_hex_text_push(t, i - 1);
        assert(b.take(i + 1).skip(1) =~= t.take(i));
        assert(b.take(i).skip(1) =~= t.take(i - 1));
        assert(b.take(i + 1)[0] == b[0]);
        assert(b.take(i)[0] == b[0]);
        assert(hex_pair_chars(b[0]) + (hex_text(t.take(i - 1)) + hex_pair_chars(b[i])) =~= (
        hex_pair_chars(b[0]) + hex_text(t.take(i - 1))) + hex_pair_chars(b[i]));
    }
}

/// Lowercase hexadecimal text of `bytes`, two digits a byte.
pub fn encode_hex(bytes: &[u8]) -> (r: String)
    ensures
        r@ == hex_text(bytes@),
{
    let mut s = String::new();
    let mut i: usize = 0;
    while i < bytes.len()
        invariant
            i <= bytes.len(),
            s@ == hex_text(bytes@.take(i as int)),
        decreases bytes.len() - i,
    {
        proof {
            lemma_hex_text_push(bytes@, i as int);
        }
        push_hex_byte(&mut s, bytes[i]);
        i = i + 1;
    }
    proof {
        assert(bytes@.take(i as int) =~= bytes@);
    }
    s
}

proof fn lemma_hex_char_digit(d: nat)
    requires
        d < 16,
    ensures
        hex_digit(hex_char(d) as u8) == Some(d as u8),
        hex_char(d) <= '\u{7f}',
{
    if d < 10 {
        assert(((48 + d) as char) as u8 == 48 + d);
    } else {
        assert(((87 + d) as char) as u8 == 87 + d);
    }
}

proof fn lemma_hex_text_ascii(b: Seq<u8>)
    ensures
        is_ascii_chars(hex_text(b)),
        hex_text(b).len() == 2 * b.len(),
    decreases b.len(),
{
    if b.len() > 0 {
        lemma_hex_text_ascii(b.skip(1));
    }
}

/// The bytes of lowercase hexadecimal text of `b`.
spec fn hex_bytes(b: Seq<u8>) -> Seq<u8> {
    Seq::new(hex_text(b).len(), |i: int| hex_text(b)[i] as u8)
}

proof fn lemma_hex_bytes_decode(b: Seq<u8>)
    ensures
        hex_outcome(hex_bytes(b)) == HexOutcome::Bytes(b),
    decreases b.len(),
{
    lemma_hex_text_ascii(b);
    if b.len() == 0 {
        assert(hex_bytes(b) =~= Seq::<u8>::empty());
        assert(b =~= Seq::<u8>::empty());
    } else {
        let t = b.skip(1);
        lemma_hex_text_ascii(t);
        lemma_hex_bytes_decode(t);
        let hb = hex_bytes(b);
        assert(hex_text(b) == hex_pair_chars(b[0]) + hex_text(t));
        assert(hb.skip(2) =~= hex_bytes(t));
        let x = b[0];
        assert(hex_pair(hb[0], hb[1]) == Some(x)) by {
            lemma_hex_char_digit((x / 16) as nat);
            lemma_hex_char_digit((x % 16) as nat);
            assert(hb[0] == hex_char((x / 16) as nat) as u8);
            assert(hb[1] == hex_char((x % 16) as nat) as u8);
            assert((x / 16) * 16 + x % 16 == x);
        }
        assert(hex_outcome(hb) == hex_prepend(seq![x], hex_outcome(hb.skip(2))));
        if hb.len() > 2 {
            assert(hb[2] == hex_text(t)[0] as u8);
            assert(!is_continuation_byte(hb[2]));
        }
        assert(seq![x] + t =~= b);
        assert(hex_prepend(seq![x], HexOutcome::Bytes(t)) == HexOutcome::Bytes(b));
    }
}

/// Decoding the text that `encode_hex` writes gives back the bytes it was
/// given.
pub proof fn law_decode_hex_of_encode_hex(b: Seq<u8>)
    ensures
        hex_outcome(encode_utf8(hex_text(b))) == HexOutcome::Bytes(b),
{
    lemma_hex_text_ascii(b);
    vstd::utf8::is_ascii_chars_encode_utf8(hex_text(b));
    assert(encode_utf8(hex_text(b)) =~= hex_bytes(b));
    lemma_hex_bytes_decode(b);
}

} // verus!

//! Text helpers: UTF-8 conversion, decimal numbers, and fields of text.
use vstd::prelude::*;
use vstd::string::StringSliceAdditionalSpecFns;
use vstd::utf8::{decode_utf8, encode_utf8, is_ascii_chars, valid_utf8};
use std::string::FromUtf8Error;

verus! {

broadcast use vstd::utf8::group_utf8_lib;

#[verifier::external_type_specification]
#[verifier::external_body]
pub struct ExFromUtf8Error(FromUtf8Error);

/// `String::from_utf8`: the text that `v` encodes, when `v` is valid UTF-8.
#[verifier::external_body]
pub(crate) fn string_from_utf8(v: Vec<u8>) -> (r: Result<String, FromUtf8Error>)
    ensures
        r is Ok <==> valid_utf8(v@),
        r matches Ok(s) ==> s@ == decode_utf8(v@),
{
    String::from_utf8(v)
}

/// What `String::from_utf8_lossy` gives for `b`: it replaces what is not
/// valid UTF-8.
pub uninterp spec fn utf8_lossy(b: Seq<u8>) -> Seq<char>;

/// `String::from_utf8_lossy`, made an owned `String`: valid UTF-8 is decoded
/// as it is; what else is replaced is not stated.
#[verifier::external_body]
pub(crate) fn string_from_utf8_lossy(b: &[u8]) -> (r: String)
    ensures
        r@ == utf8_lossy(b@),
        valid_utf8(b@) ==> r@ == decode_utf8(b@),
{
    String::from_utf8_lossy(b).to_string()
}

/// The decimal digit `d`.
pub open spec fn digit_char(d: nat) -> char {
    (48 + d) as char
}

/// The decimal digits of `n`, with no leading zero.
pub open spec fn digits_text(n: nat) -> Seq<char>
    decreases n,
{
    if n < 10 {
        seq![digit_char(n)]
    } else {
        digits_text(n / 10).push(digit_char(n % 10))
    }
}

/// `v` in decimal, with a minus sign when negative, as `{}` writes it.
pub open spec fn decimal_text(v: int) -> Seq<char> {
    if v < 0 {
        seq!['-'] + digits_text((-v) as nat)
    } else {
        digits_text(v as nat)
    }
}

/// The one-character text of the digit `d`.
fn digit_str(d: u64) -> (r: &'static str)
    requires
        d < 10,
    ensures
        r@ == seq![digit_char(d as nat)],
{
    proof {
        reveal_strlit("0");
        reveal_strlit("1");
        reveal_strlit("2");
        reveal_strlit("3");
        reveal_strlit("4");
        reveal_strlit("5");
        reveal_strlit("6");
        reveal_strlit("7");
        reveal_strlit("8");
        reveal_strlit("9");
    }
    match d {
        0 => "0",
        1 => "1",
        2 => "2",
        3 => "3",
        4 => "4",
        5 => "5",
        6 => "6",
        7 => "7",
        8 => "8",
        _ => "9",
    }
}

/// Appends the decimal digits of `n` to `out`.
pub fn push_digits(out: &mut String, n: u64)
    ensures
        final(out)@ == old(out)@ + digits_text(n as nat),
    decreases n,
{
    if n >= 10 {
        push_digits(out, n / 10);
    }
    out.append(digit_str(n % 10));
    proof {
        assert(final(out)@ =~= old(out)@ + digits_text(n as nat));
    }
}

/// Appends `v` in decimal to `out`, with a minus sign when negative, as
/// `{}` writes it.
pub fn push_decimal(out: &mut String, v: i64)
    ensures
        final(out)@ == old(out)@ + decimal_text(v as int),
{
    if v < 0 {
        proof {
            reveal_strlit("-");
        }
        out.append("-");
        let m: u64 = if v == i64::MIN {
            0x8000000000000000
        } else {
            (-v) as u64
        };
        push_digits(out, m);
        proof {
            assert(final(out)@ =~= old(out)@ + decimal_text(v as int));
        }
    } else {
        push_digits(out, v as u64);
    }
}

/// `v` in decimal, as `format!("{}", v)` writes it.
pub fn i32_to_text(v: i32) -> (r: String)
    ensures
        r@ == decimal_text(v as int),
{
    let mut s = String::new();
    push_decimal(&mut s, v as i64);
    proof {
        assert(s@ =~= decimal_text(v as int));
    }
    s
}

/// `b` is an ASCII decimal digit.
pub open spec fn is_digit_byte(b: u8) -> bool {
    48 <= b <= 57
}

/// The number that the digits `b` spell.
pub open spec fn digits_value(b: Seq<u8>) -> nat
    decreases b.len(),
{
    if b.len() == 0 {
        0
    } else {
        digits_value(b.drop_last()) * 10 + (b.last() - 48) as nat
    }
}

/// The digits after the sign that `parse_i32_bytes` reads.
pub open spec fn sign_free(b: Seq<u8>) -> Seq<u8> {
    if b.len() > 0 && (b[0] == 43 || b[0] == 45) {
        b.skip(1)
    } else {
        b
    }
}

/// What `str::parse::<i32>` gives for the UTF-8 bytes `b`: an optional sign,
/// then one or more decimal digits, within the range of `i32`.
pub open spec fn parse_i32_bytes(b: Seq<u8>) -> Option<i32> {
    let neg = b.len() > 0 && b[0] == 45;
    let d = sign_free(b);
    if d.len() == 0 || !(forall|i: int| 0 <= i < d.len() ==> is_digit_byte(#[trigger] d[i])) {
        None
    } else {
        let v: int = if neg {
            -(digits_value(d) as int)
        } else {
            digits_value(d) as int
        };
        if i32::MIN <= v <= i32::MAX {
            Some(v as i32)
        } else {
            None
        }
    }
}

proof fn lemma_parse_not_digits(b: Seq<u8>, k: int)
    requires
        0 <= k < sign_free(b).len(),
        !is_digit_byte(sign_free(b)[k]),
    ensures
        parse_i32_bytes(b) is None,
{
}

proof fn lemma_parse_too_large(b: Seq<u8>)
    requires
        (forall|k: int| 0 <= k < sign_free(b).len() ==> is_digit_byte(#[trigger] sign_free(b)[k]))
            ==> digits_value(sign_free(b)) > 0x80000000,
    ensures
        parse_i32_bytes(b) is None,
{
}

proof fn lemma_digits_value_grows(d: Seq<u8>, i: int, j: int)
    requires
        0 <= i <= j <= d.len(),
        forall|k: int| 0 <= k < d.len() ==> is_digit_byte(#[trigger] d[k]),
    ensures
        digits_value(d.take(i)) <= digits_value(d.take(j)),
    decreases j - i,
{
    if i < j {
        lemma_digits_value_grows(d, i, j - 1);
        assert(d.take(j).drop_last() =~= d.take(j - 1));
    }
}

/// Parses decimal text as `str::parse::<i32>` does, keeping only whether
/// and what it parsed: an optional sign, then one or more decimal digits,
/// within the range of `i32`.
pub fn parse_i32(s: &str) -> (r: Option<i32>)
    ensures
        r == parse_i32_bytes(s.spec_bytes()),
{
    let b = s.as_bytes();
    let n = b.len();
    let neg = n > 0 && b[0] == 45;
    let start: usize = if n > 0 && (b[0] == 43 || b[0] == 45) {
        1
    } else {
        0
    };
    let ghost d = b@.skip(start as int);
    proof {
        assert(b@.skip(0) =~= b@);
    }
    if start == n {
        return None;
    }
    let mut m: u64 = 0;
    let mut i: usize = start;
    while i < n
        invariant
            start <= i <= n,
            n == b@.len(),
            b@ == s.spec_bytes(),
            start == (if n > 0 && (b@[0] == 43 || b@[0] == 45) { 1usize } else { 0usize }),
            neg == (n > 0 && b@[0] == 45),
            d == b@.skip(start as int),
            d == sign_free(b@),
            forall|k: int| 0 <= k < i - start ==> is_digit_byte(#[trigger] d[k]),
            m == digits_value(d.take(i - start)),
            m <= 0x80000000,
        decreases n - i,
    {
        let c = b[i];
        if c < 48 || c > 57 {
            proof {
                assert(d[i - start] == c);
                assert(!is_digit_byte(d[i - start]));
                lemma_parse_not_digits(b@, i - start);
            }
            return None;
        }
        proof {
            assert(d.take(i - start + 1).drop_last() =~= d.take(i - start));
            assert(d.take(i - start + 1).last() == c);
        }
        let ghost old_i = i;
        m = m * 10 + (c - 48) as u64;
        i = i + 1;
        proof {
            assert(m == digits_value(d.take(old_i - start + 1)));
            assert(forall|k: int| 0 <= k < i - start ==> is_digit_byte(#[trigger] d[k])) by {
                assert(is_digit_byte(d[old_i - start]));
            }
        }
        if m > 0x80000000 {
            proof {
                if forall|k: int| 0 <= k < d.len() ==> is_digit_byte(#[trigger] d[k]) {
                    lemma_digits_value_grows(d, i - start, d.len() as int);
                    assert(d.take(d.len() as int) =~= d);
                    assert(digits_value(d) > 0x80000000);
                }
                lemma_parse_too_large(b@);
            }
            return None;
        }
    }
    proof {
        assert(d.take(i - start) =~= d);
    }
    if neg {
        if m == 0x80000000 {
            Some(i32::MIN)
        } else {
            Some(-(m as i32))
        }
    } else if m == 0x80000000 {
        None
    } else {
        Some(m as i32)
    }
}

/// The bytes of ASCII text.
pub open spec fn ascii_bytes(t: Seq<char>) -> Seq<u8> {
    t.map_values(|c: char| c as u8)
}

proof fn lemma_digits_text(n: nat)
    ensures
        is_ascii_chars(digits_text(n)),
        digits_text(n).len() >= 1,
        forall|i: int|
            0 <= i < digits_text(n).len() ==> is_digit_byte(#[trigger] ascii_bytes(digits_text(n))[i]),
        digits_value(ascii_bytes(digits_text(n))) == n,
    decreases n,
{
    let t = digits_text(n);
    let b = ascii_bytes(t);
    let d = if n < 10 { n } else { n % 10 };
    assert(((48 + d) as char) as u8 == 48 + d);
    assert(t.last() == digit_char(d));
    assert(b.last() == 48 + d);
    if n < 10 {
        assert(b.drop_last() =~= Seq::<u8>::empty());
        assert(digits_value(Seq::<u8>::empty()) == 0);
    } else {
        lemma_digits_text(n / 10);
        let p = digits_text(n / 10);
        assert(b.drop_last() =~= ascii_bytes(p));
        assert forall|i: int| 0 <= i < t.len() implies is_digit_byte(#[trigger] b[i]) by {
            if i < p.len() {
                assert(b[i] == ascii_bytes(p)[i]);
            }
        }
        assert(n == (n / 10) * 10 + n % 10);
    }
}

/// Parsing the decimal text of an `i32` gives it back.
pub proof fn law_parse_i32_of_decimal_text(v: i32)
    ensures
        parse_i32_bytes(encode_utf8(decimal_text(v as int))) == Some(v),
{
    let t = decimal_text(v as int);
    let m: nat = if v < 0 { (-v) as nat } else { v as nat };
    lemma_digits_text(m);
    let dt = digits_text(m);
    vstd::utf8::is_ascii_chars_encode_utf8(t);
    assert(is_ascii_chars(t)) by {
        if v < 0 {
            assert forall|i: int| 0 <= i < t.len() implies '\0' <= #[trigger] t[i] <= '\u{7f}' by {
                if i > 0 {
                    assert(t[i] == dt[i - 1]);
                }
            }
        }
    }
    let b = encode_utf8(t);
    assert(b =~= ascii_bytes(t));
    if v < 0 {
        assert(b[0] == 45);
        assert(b.skip(1) =~= ascii_bytes(dt));
    } else {
        assert(b =~= ascii_bytes(dt));
        assert(b[0] != 43 && b[0] != 45);
    }
}

/// The index of the first `x` in `b`, or its length when there is none.
pub open spec fn first_index(b: Seq<u8>, x: u8) -> int
    decreases b.len(),
{
    if b.len() == 0 {
        0
    } else if b[0] == x {
        0
    } else {
        1 + first_index(b.skip(1), x)
    }
}

/// The second of the fields of `b` that the byte `sep` separates, as
/// `split(sep).collect::<Vec<_>>()[1]`; nothing when `b` holds no `sep`.
pub open spec fn second_field(b: Seq<u8>, sep: u8) -> Option<Seq<u8>> {
    let i = first_index(b, sep);
    if i >= b.len() {
        None
    } else {
        let rest = b.skip(i + 1);
        Some(rest.take(first_index(rest, sep)))
    }
}

proof fn lemma_first_index(b: Seq<u8>, x: u8)
    ensures
        0 <= first_index(b, x) <= b.len(),
        first_index(b, x) < b.len() ==> b[first_index(b, x)] == x,
        forall|k: int| 0 <= k < first_index(b, x) ==> b[k] != x,
    decreases b.len(),
{
    if b.len() > 0 && b[0] != x {
        lemma_first_index(b.skip(1), x);
        assert forall|k: int| 0 <= k < first_index(b, x) implies b[k] != x by {
            if k > 0 {
                assert(b[k] == b.skip(1)[k - 1]);
            }
        }
    }
}

/// Where `b` holds no `x` before index `i` and holds `x` at `i`, the first
/// `x` is at `i`; where it holds none at all, the result is its length.
pub proof fn lemma_first_index_at(b: Seq<u8>, x: u8, i: int)
    requires
        0 <= i <= b.len(),
        forall|k: int| 0 <= k < i ==> b[k] != x,
        i < b.len() ==> b[i] == x,
    ensures
        first_index(b, x) == i,
    decreases b.len(),
{
    if b.len() > 0 && i > 0 {
        lemma_first_index_at(b.skip(1), x, i - 1);
    }
}

/// The decimal text of `v` is ASCII, made of digits and perhaps a leading
/// minus sign, and its bytes spell `v` when parsed.
pub proof fn lemma_decimal_text(v: int)
    ensures
        is_ascii_chars(decimal_text(v)),
        forall|i: int|
            0 <= i < decimal_text(v).len() ==> (#[trigger] decimal_text(v)[i] as u8 == 45
                || is_digit_byte(decimal_text(v)[i] as u8)),
{
    let m: nat = if v < 0 { (-v) as nat } else { v as nat };
    lemma_digits_text(m);
    let dt = digits_text(m);
    let t = decimal_text(v);
    assert forall|i: int| 0 <= i < dt.len() implies is_digit_byte(#[trigger] dt[i] as u8) by {
        assert(ascii_bytes(dt)[i] == dt[i] as u8);
    }
    if v < 0 {
        assert forall|i: int| 0 <= i < t.len() implies '\0' <= #[trigger] t[i] <= '\u{7f}' by {
            if i > 0 {
                assert(t[i] == dt[i - 1]);
            }
        }
        assert forall|i: int| 0 <= i < t.len() implies (#[trigger] t[i] as u8 == 45
            || is_digit_byte(t[i] as u8)) by {
            if i > 0 {
                assert(t[i] == dt[i - 1]);
            }
        }
    }
}

/// The index of the first byte `x` in `b`, or `b`'s length.
fn find_byte(b: &[u8], x: u8) -> (r: usize)
    ensures
        r == first_index(b@, x),
{
    proof {
        lemma_first_index(b@, x);
    }
    let mut i: usize = 0;
    while i < b.len()
        invariant
            i <= b@.len(),
            forall|k: int| 0 <= k < i ==> b@[k] != x,
            0 <= first_index(b@, x) <= b@.len(),
            first_index(b@, x) < b@.len() ==> b@[first_index(b@, x)] == x,
            forall|k: int| 0 <= k < first_index(b@, x) ==> b@[k] != x,
        decreases b@.len() - i,
    {
        if b[i] == x {
            return i;
        }
        i = i + 1;
    }
    i
}

/// The text after the first `=` of `s`, up to the next `=` or the end, as
/// the second field of a split on `=`; `s` must hold a `=`.
pub fn second_eq_field(s: &str) -> (r: &str)
    requires
        second_field(s.spec_bytes(), 61) is Some,
    ensures
        r.spec_bytes() == second_field(s.spec_bytes(), 61).unwrap(),
{
    let b = s.as_bytes();
    let i = find_byte(b, 61);
    proof {
        lemma_first_index(b@, 61);
        assert(valid_utf8(s.spec_bytes()));
        assert(!vstd::utf8::is_continuation_byte(61u8));
        vstd::utf8::is_char_boundary_iff_not_is_continuation_byte(s.spec_bytes(), i as int);
    }
    let (_, eq_rest) = s.split_at(i);
    proof {
        assert(eq_rest.spec_bytes()[0] == 61);
        vstd::utf8::is_char_boundary_start_end_of_seq(eq_rest.spec_bytes());
        reveal_with_fuel(vstd::utf8::is_char_boundary, 2);
        assert(vstd::utf8::is_char_boundary(eq_rest.spec_bytes(), 1));
    }
    let (_, rest) = eq_rest.split_at(1);
    proof {
        assert(rest.spec_bytes() =~= s.spec_bytes().skip(i + 1));
    }
    let rb = rest.as_bytes();
    let j = find_byte(rb, 61);
    proof {
        lemma_first_index(rb@, 61);
        if j < rb@.len() {
            vstd::utf8::is_char_boundary_iff_not_is_continuation_byte(rest.spec_bytes(), j as int);
            assert(vstd::utf8::is_char_boundary(rest.spec_bytes(), j as int));
        } else {
            vstd::utf8::is_char_boundary_start_end_of_seq(rest.spec_bytes());
        }
    }
    let (field, _) = rest.split_at(j);
    field
}

/// Whether `a` and `b` hold the same bytes.
pub fn bytes_eq(a: &[u8], b: &[u8]) -> (r: bool)
    ensures
        r == (a@ == b@),
{
    if a.len() != b.len() {
        return false;
    }
    let mut i: usize = 0;
    while i < a.len()
        invariant
            i <= a@.len(),
            a@.len() == b@.len(),
            forall|k: int| 0 <= k < i ==> a@[k] == b@[k],
        decreases a@.len() - i,
    {
        if a[i] != b[i] {
            return false;
        }
        i = i + 1;
    }
    proof {
        assert(a@ =~= b@);
    }
    true
}

} // verus!

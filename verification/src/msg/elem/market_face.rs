//! Store stickers, and the dice and rock-paper-scissors faces among them.
use vstd::prelude::*;
use vstd::string::{StringExecFns, StringSliceAdditionalSpecFns};
use vstd::utf8::{decode_utf8, encode_utf8, is_ascii_chars, valid_utf8};
use crate::pb::msg;
use crate::pb::msg::elem::Elem;
use crate::text::{
    decimal_text, first_index, i32_to_text, law_parse_i32_of_decimal_text, lemma_decimal_text,
    lemma_first_index_at, parse_i32, parse_i32_bytes, second_eq_field, second_field,
    string_from_utf8,
};

verus! {

broadcast use vstd::utf8::group_utf8_lib;

/// A sticker from the face store.
#[derive(Debug, Clone)]
pub struct MarketFace {
    pub name: String,
    pub face_id: Vec<u8>,
    pub tab_id: i32,
    pub item_type: i32,
    pub sub_type: i32,
    pub media_type: i32,
    pub encrypt_key: Vec<u8>,
    pub magic_value: String,
}

impl Default for MarketFace {
    fn default() -> (r: Self)
        ensures
            r.name@ == Seq::<char>::empty(),
            r.face_id@ == Seq::<u8>::empty(),
            r.tab_id == 0,
            r.item_type == 0,
            r.sub_type == 0,
            r.media_type == 0,
            r.encrypt_key@ == Seq::<u8>::empty(),
            r.magic_value@ == Seq::<char>::empty(),
    {
        MarketFace {
            name: String::new(),
            face_id: Vec::new(),
            tab_id: 0,
            item_type: 0,
            sub_type: 0,
            media_type: 0,
            encrypt_key: Vec::new(),
            magic_value: String::new(),
        }
    }
}

/// The bytes of an optional field, empty when absent.
pub open spec fn opt_bytes(v: Option<Vec<u8>>) -> Seq<u8> {
    match v {
        Some(b) => b@,
        None => Seq::empty(),
    }
}

/// The text of an optional UTF-8 field: empty when absent or not UTF-8.
pub open spec fn opt_text(v: Option<Vec<u8>>) -> Seq<char> {
    if valid_utf8(opt_bytes(v)) {
        decode_utf8(opt_bytes(v))
    } else {
        Seq::empty()
    }
}

/// The number of an optional field, zero when absent.
pub open spec fn opt_u32(v: Option<u32>) -> u32 {
    match v {
        Some(x) => x,
        None => 0,
    }
}

fn take_bytes(v: Option<Vec<u8>>) -> (r: Vec<u8>)
    ensures
        r@ == opt_bytes(v),
{
    match v {
        Some(b) => b,
        None => Vec::new(),
    }
}

fn take_text(v: Option<Vec<u8>>) -> (r: String)
    ensures
        r@ == opt_text(v),
{
    match string_from_utf8(take_bytes(v)) {
        Ok(s) => s,
        Err(_) => String::new(),
    }
}

fn take_u32(v: Option<u32>) -> (r: u32)
    ensures
        r == opt_u32(v),
{
    match v {
        Some(x) => x,
        None => 0,
    }
}

impl MarketFace {
    /// The two elements that carry this sticker: the face, then its name as
    /// text.
    pub fn into_elems(self) -> (r: Vec<Elem>)
        ensures
            r@.len() == 2,
            r@[0] matches Elem::MarketFace(f) && face_carries(f, self),
            r@[1] matches Elem::Text(t) && (t.str matches Some(s) && s@ == self.name@),
    {
        let face = msg::MarketFace {
            face_name: Some(vstd::slice::slice_to_vec(self.name.as_str().as_bytes())),
            item_type: Some(self.item_type as u32),
            face_info: Some(1),
            face_id: Some(self.face_id),
            tab_id: Some(self.tab_id as u32),
            sub_type: Some(self.sub_type as u32),
            key: Some(self.encrypt_key),
            media_type: Some(self.media_type as u32),
            image_width: Some(200),
            image_height: Some(200),
            mobileparam: Some(vstd::slice::slice_to_vec(self.magic_value.as_str().as_bytes())),
        };
        let mut v: Vec<Elem> = Vec::new();
        v.push(Elem::MarketFace(face));
        v.push(Elem::Text(msg::Text { str: Some(self.name) }));
        v
    }

    /// The sticker that a face element carries: absent fields become empty
    /// or zero, and a name or magic value that is not UTF-8 becomes empty.
    pub fn from_pb(e: msg::MarketFace) -> (r: Self)
        ensures
            r.name@ == opt_text(e.face_name),
            r.face_id@ == opt_bytes(e.face_id),
            r.tab_id == opt_u32(e.tab_id) as i32,
            r.item_type == opt_u32(e.item_type) as i32,
            r.sub_type == opt_u32(e.sub_type) as i32,
            r.media_type == opt_u32(e.media_type) as i32,
            r.encrypt_key@ == opt_bytes(e.key),
            r.magic_value@ == opt_text(e.mobileparam),
    {
        Self {
            name: take_text(e.face_name),
            face_id: take_bytes(e.face_id),
            tab_id: take_u32(e.tab_id) as i32,
            item_type: take_u32(e.item_type) as i32,
            sub_type: take_u32(e.sub_type) as i32,
            media_type: take_u32(e.media_type) as i32,
            encrypt_key: take_bytes(e.key),
            magic_value: take_text(e.mobileparam),
        }
    }
}

/// The face element `f` carries the sticker `m`, with the fixed fields that
/// `into_elems` sets.
pub open spec fn face_carries(f: msg::MarketFace, m: MarketFace) -> bool {
    &&& f.face_name matches Some(b) && b@ == encode_utf8(m.name@)
    &&& f.item_type == Some(m.item_type as u32)
    &&& f.face_info == Some(1u32)
    &&& f.face_id matches Some(b) && b@ == m.face_id@
    &&& f.tab_id == Some(m.tab_id as u32)
    &&& f.sub_type == Some(m.sub_type as u32)
    &&& f.key matches Some(b) && b@ == m.encrypt_key@
    &&& f.media_type == Some(m.media_type as u32)
    &&& f.image_width == Some(200u32)
    &&& f.image_height == Some(200u32)
    &&& f.mobileparam matches Some(b) && b@ == encode_utf8(m.magic_value@)
}

/// The text before a face's number in its magic value.
pub open spec fn magic_prefix() -> Seq<char> {
    "rscType?1;value="@
}

/// The magic value that announces `n`.
pub open spec fn magic_value_of(n: int) -> Seq<char> {
    magic_prefix() + decimal_text(n)
}

/// The number in a magic value: what follows its first `=`, up to the next,
/// parsed as an `i32`; zero when that does not parse.
pub open spec fn magic_number(magic: Seq<char>) -> i32 {
    match parse_i32_bytes(second_field(encode_utf8(magic), 61).unwrap()) {
        Some(v) => v,
        None => 0,
    }
}

/// A magic value holds a `=`, so that its number can be read; reading one
/// that does not panics.
pub open spec fn magic_readable(magic: Seq<char>) -> bool {
    second_field(encode_utf8(magic), 61) is Some
}

fn magic_text(n: i32) -> (r: String)
    ensures
        r@ == magic_value_of(n as int),
{
    let mut m = String::from_str("rscType?1;value=");
    let d = i32_to_text(n);
    m.append(d.as_str());
    m
}

fn read_magic_number(magic: &String) -> (r: i32)
    requires
        magic_readable(magic@),
    ensures
        r == magic_number(magic@),
{
    let field = second_eq_field(magic.as_str());
    match parse_i32(field) {
        Some(v) => v,
        None => 0,
    }
}

/// The number written into a magic value is read back from it.
pub proof fn law_magic_number_reads_back(n: i32)
    ensures
        magic_readable(magic_value_of(n as int)),
        magic_number(magic_value_of(n as int)) == n,
{
    reveal_strlit("rscType?1;value=");
    let p = magic_prefix();
    let d = decimal_text(n as int);
    let t = magic_value_of(n as int);
    lemma_decimal_text(n as int);
    assert(p.len() == 16);
    assert(is_ascii_chars(t)) by {
        assert forall|i: int| 0 <= i < t.len() implies '\0' <= #[trigger] t[i] <= '\u{7f}' by {
            if i >= 16 {
                assert(t[i] == d[i - 16]);
            }
        }
    }
    vstd::utf8::is_ascii_chars_encode_utf8(t);
    vstd::utf8::is_ascii_chars_encode_utf8(d);
    let b = encode_utf8(t);
    assert(b[15] == 61);
    assert forall|k: int| 0 <= k < 15 implies b[k] != 61 by {
        assert(b[k] == t[k] as u8);
    }
    lemma_first_index_at(b, 61, 15);
    let rest = b.skip(16);
    assert(rest =~= encode_utf8(d));
    assert forall|k: int| 0 <= k < rest.len() implies rest[k] != 61 by {
        assert(rest[k] == d[k] as u8);
    }
    lemma_first_index_at(rest, 61, rest.len() as int);
    assert(rest.take(rest.len() as int) =~= rest);
    law_parse_i32_of_decimal_text(n);
}

/// The die that a die's sticker shows is the die: reading its magic value
/// gives one less than the die, and adding one gives the die.
pub proof fn law_dice_face_reads_back(m: MarketFace, value: i32)
    requires
        value > i32::MIN,
        is_dice_face(m, value),
    ensures
        magic_readable(m.magic_value@),
        magic_number(m.magic_value@) < i32::MAX,
        magic_number(m.magic_value@) + 1 == value,
{
    law_magic_number_reads_back((value - 1) as i32);
}

/// The hand that a hand's sticker shows is the hand.
pub proof fn law_finger_face_reads_back(m: MarketFace, g: FingerGuessing)
    requires
        is_finger_face(m, g),
    ensures
        magic_readable(m.magic_value@),
        finger_of_number(magic_number(m.magic_value@)) == g,
{
    law_magic_number_reads_back(finger_number(g));
}

/// A sticker read back from the face element that carries it has the same
/// fields.
pub proof fn law_face_element_reads_back(f: msg::MarketFace, m: MarketFace)
    requires
        face_carries(f, m),
    ensures
        opt_text(f.face_name) == m.name@,
        opt_bytes(f.face_id) == m.face_id@,
        opt_u32(f.tab_id) as i32 == m.tab_id,
        opt_u32(f.item_type) as i32 == m.item_type,
        opt_u32(f.sub_type) as i32 == m.sub_type,
        opt_u32(f.media_type) as i32 == m.media_type,
        opt_bytes(f.key) == m.encrypt_key@,
        opt_text(f.mobileparam) == m.magic_value@,
{
    let (a, b, c, d) = (m.tab_id, m.item_type, m.sub_type, m.media_type);
    assert((a as u32) as i32 == a && (b as u32) as i32 == b && (c as u32) as i32 == c && (d as u32)
        as i32 == d) by (bit_vector);
}

/// A die showing `value`.
#[derive(Debug, Clone)]
pub struct Dice {
    pub value: i32,
}

impl Default for Dice {
    fn default() -> (r: Self)
        ensures
            r.value == 0,
    {
        Dice { value: 0 }
    }
}

impl Dice {
    /// A die showing `value`.
    pub fn new(value: i32) -> (r: Self)
        ensures
            r.value == value,
    {
        Self { value }
    }

    /// The die that a sticker shows: one more than the number in its magic
    /// value. A magic value with no `=` panics, and so does an overflow on
    /// `i32::MAX`.
    pub fn from_market_face(e: MarketFace) -> (r: Self)
        requires
            magic_readable(e.magic_value@),
            magic_number(e.magic_value@) < i32::MAX,
        ensures
            r.value == magic_number(e.magic_value@) + 1,
    {
        Self { value: read_magic_number(&e.magic_value) + 1 }
    }

    /// The elements that carry this die.
    pub fn into_elems(self) -> (r: Vec<Elem>)
        requires
            self.value > i32::MIN,
        ensures
            r@.len() == 2,
            r@[0] matches Elem::MarketFace(f) && exists|m: MarketFace| #[trigger] is_dice_face(m, self.value) && face_carries(f, m),
            r@[1] matches Elem::Text(t) && (t.str matches Some(s) && s@ == "[骰子]"@),
    {
        MarketFace::from_dice(self).into_elems()
    }
}

/// A hand of rock, paper, scissors.
#[derive(Debug, Clone, Copy, PartialEq, Eq, Structural)]
pub enum FingerGuessing {
    Rock,
    Scissors,
    Paper,
}

impl Default for FingerGuessing {
    fn default() -> (r: Self)
        ensures
            r == FingerGuessing::Rock,
    {
        FingerGuessing::Rock
    }
}

/// The number that stands for a hand.
pub open spec fn finger_number(g: FingerGuessing) -> i32 {
    match g {
        FingerGuessing::Rock => 0,
        FingerGuessing::Scissors => 1,
        FingerGuessing::Paper => 2,
    }
}

/// The hand that a number stands for; rock for any other number.
pub open spec fn finger_of_number(n: i32) -> FingerGuessing {
    if n == 1 {
        FingerGuessing::Scissors
    } else if n == 2 {
        FingerGuessing::Paper
    } else {
        FingerGuessing::Rock
    }
}

impl FingerGuessing {
    /// The hand that a sticker shows. A magic value with no `=` panics.
    pub fn from_market_face(e: MarketFace) -> (r: Self)
        requires
            magic_readable(e.magic_value@),
        ensures
            r == finger_of_number(magic_number(e.magic_value@)),
    {
        let value = read_magic_number(&e.magic_value);
        match value {
            0 => Self::Rock,
            1 => Self::Scissors,
            2 => Self::Paper,
            _ => Self::Rock,
        }
    }

    /// The elements that carry this hand.
    pub fn into_elems(self) -> (r: Vec<Elem>)
        ensures
            r@.len() == 2,
            r@[0] matches Elem::MarketFace(f) && exists|m: MarketFace| #[trigger] is_finger_face(m, self) && face_carries(f, m),
            r@[1] matches Elem::Text(t) && (t.str matches Some(s) && s@ == "[猜拳]"@),
    {
        MarketFace::from_finger_guessing(self).into_elems()
    }
}

/// `m` is the sticker of a die showing `value`.
pub open spec fn is_dice_face(m: MarketFace, value: i32) -> bool {
    &&& m.name@ == "[骰子]"@
    &&& m.face_id@ == seq![72u8, 35, 211, 173, 177, 93, 240, 128, 20, 206, 93, 103, 150, 183, 110, 225]
    &&& m.tab_id == 11464
    &&& m.item_type == 6
    &&& m.sub_type == 3
    &&& m.media_type == 0
    &&& m.encrypt_key@ == seq![52u8, 48, 57, 101, 50, 97, 54, 57, 98, 49, 54, 57, 49, 56, 102, 57]
    &&& m.magic_value@ == magic_value_of(value - 1)
}

/// `m` is the sticker of the hand `g`.
pub open spec fn is_finger_face(m: MarketFace, g: FingerGuessing) -> bool {
    &&& m.name@ == "[猜拳]"@
    &&& m.face_id@ == seq![131u8, 200, 162, 147, 174, 101, 202, 20, 15, 52, 129, 32, 167, 116, 72, 238]
    &&& m.tab_id == 11415
    &&& m.item_type == 6
    &&& m.sub_type == 3
    &&& m.media_type == 0
    &&& m.encrypt_key@ == seq![55u8, 100, 101, 51, 57, 102, 101, 98, 99, 102, 52, 53, 101, 54, 100, 98]
    &&& m.magic_value@ == magic_value_of(finger_number(g) as int)
}

impl MarketFace {
    /// The sticker of a die: its magic value holds one less than the die
    /// shows. A die below `i32::MIN + 1` overflows, which panics.
    pub fn from_dice(e: Dice) -> (r: Self)
        requires
            e.value > i32::MIN,
        ensures
            is_dice_face(r, e.value),
    {
        Self {
            name: String::from_str("[骰子]"),
            face_id: vec![72, 35, 211, 173, 177, 93, 240, 128, 20, 206, 93, 103, 150, 183, 110, 225],
            tab_id: 11464,
            item_type: 6,
            sub_type: 3,
            media_type: 0,
            encrypt_key: vec![52, 48, 57, 101, 50, 97, 54, 57, 98, 49, 54, 57, 49, 56, 102, 57],
            magic_value: magic_text(e.value - 1),
        }
    }

    /// The sticker of a hand: its magic value holds 0, 1 or 2 for rock,
    /// scissors or paper.
    pub fn from_finger_guessing(e: FingerGuessing) -> (r: Self)
        ensures
            is_finger_face(r, e),
    {
        let value: i32 = match e {
            FingerGuessing::Rock => 0,
            FingerGuessing::Scissors => 1,
            FingerGuessing::Paper => 2,
        };
        MarketFace {
            name: String::from_str("[猜拳]"),
            face_id: vec![131, 200, 162, 147, 174, 101, 202, 20, 15, 52, 129, 32, 167, 116, 72, 238],
            tab_id: 11415,
            item_type: 6,
            sub_type: 3,
            media_type: 0,
            encrypt_key: vec![55, 100, 101, 51, 57, 102, 101, 98, 99, 102, 52, 53, 101, 54, 100, 98],
            magic_value: magic_text(value),
        }
    }
}

/// The protocol's magic values of the hands: a rock sticker carries
/// `rscType?1;value=0`, scissors `rscType?1;value=1`, paper
/// `rscType?1;value=2`.
pub proof fn law_finger_magic_values(m: MarketFace, g: FingerGuessing)
    requires
        is_finger_face(m, g),
    ensures
        g == FingerGuessing::Rock ==> m.magic_value@ == "rscType?1;value=0"@,
        g == FingerGuessing::Scissors ==> m.magic_value@ == "rscType?1;value=1"@,
        g == FingerGuessing::Paper ==> m.magic_value@ == "rscType?1;value=2"@,
{
    reveal_strlit("rscType?1;value=");
    reveal_strlit("rscType?1;value=0");
    reveal_strlit("rscType?1;value=1");
    reveal_strlit("rscType?1;value=2");
    assert(decimal_text(0) =~= seq!['0']);
    assert(decimal_text(1) =~= seq!['1']);
    assert(decimal_text(2) =~= seq!['2']);
    assert(magic_value_of(0) =~= "rscType?1;value=0"@);
    assert(magic_value_of(1) =~= "rscType?1;value=1"@);
    assert(magic_value_of(2) =~= "rscType?1;value=2"@);
}

/// A received sticker whose magic value announces `n` shows scissors for 1,
/// paper for 2, and rock for any other number.
pub proof fn law_finger_of_magic_value(n: i32)
    ensures
        finger_of_number(magic_number(magic_value_of(n as int))) == (if n == 1 {
            FingerGuessing::Scissors
        } else if n == 2 {
            FingerGuessing::Paper
        } else {
            FingerGuessing::Rock
        }),
{
    law_magic_number_reads_back(n);
}

} // verus!

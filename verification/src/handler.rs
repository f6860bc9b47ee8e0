//! The bridge between group chat and the message broker: how a group message
//! is packed for the broker, how a send command from the broker is read, and
//! which reply a chat command asks for.
use vstd::prelude::*;
use vstd::string::StringSliceAdditionalSpecFns;
use vstd::utf8::{decode_utf8, encode_utf8, valid_utf8};
use crate::buf::{le_bytes, le_value, vec_extend};
use crate::msg::MessageChain;
use crate::pb::msg::elem::Elem;
use crate::pb::msg::Text;
use crate::text::{
    bytes_eq, decimal_text, push_decimal, string_from_utf8, string_from_utf8_lossy, utf8_lossy,
};
use crate::timestamp::{read_buf, time_to_bytes};

verus! {

broadcast use vstd::utf8::group_utf8_lib;

/// The eight little-endian bytes of `v`, as two's complement.
pub open spec fn i64_le(v: i64) -> Seq<u8> {
    le_bytes(v as u64 as nat, 8)
}

/// A group message as the broker receives it: the group code and the
/// sender, eight little-endian bytes each, then the text's UTF-8 bytes.
pub open spec fn group_message_bytes(group_code: i64, from_uin: i64, content: Seq<char>) -> Seq<
    u8,
> {
    i64_le(group_code) + i64_le(from_uin) + encode_utf8(content)
}

/// Packs a group message for the broker.
pub fn encode_group_message(group_code: i64, from_uin: i64, content: &str) -> (r: Vec<u8>)
    ensures
        r@ == group_message_bytes(group_code, from_uin, content@),
{
    let content_bytes = content.as_bytes();
    let mut bytes: Vec<u8> = Vec::new();
    let g = time_to_bytes(group_code);
    vec_extend(&mut bytes, &g);
    let f = time_to_bytes(from_uin);
    vec_extend(&mut bytes, &f);
    vec_extend(&mut bytes, content_bytes);
    proof {
        assert(bytes@ =~= group_message_bytes(group_code, from_uin, content@));
    }
    bytes
}

/// The number in eight little-endian bytes, as two's complement.
pub open spec fn le_i64(b: Seq<u8>) -> int {
    let u = le_value(b);
    if u < 0x8000000000000000 {
        u as int
    } else {
        u - 0x10000000000000000
    }
}

proof fn lemma_le_i64(r: i64, b: Seq<u8>)
    requires
        r as u64 as nat == le_value(b),
    ensures
        r == le_i64(b),
{
    assert(r >= 0 ==> r as u64 == r) by (bit_vector);
    assert(r < 0 ==> r as u64 == r + 0x10000000000000000) by (bit_vector);
}

/// `r` is what a packed group message `b` reads back as: the two numbers,
/// and the text, decoded where it is UTF-8 and with replacements elsewhere.
pub open spec fn group_message_read(b: Seq<u8>, r: (i64, i64, Seq<char>)) -> bool {
    &&& r.0 == le_i64(b.take(8))
    &&& r.1 == le_i64(b.subrange(8, 16))
    &&& r.2 == utf8_lossy(b.skip(16))
    &&& valid_utf8(b.skip(16)) ==> r.2 == decode_utf8(b.skip(16))
}

/// Reads back a packed group message: the group code, the sender and the
/// text. Fewer than sixteen bytes panic.
pub fn decode_group_message(bytes: &[u8]) -> (r: (i64, i64, String))
    requires
        bytes@.len() >= 16,
    ensures
        group_message_read(bytes@, (r.0, r.1, r.2@)),
{
    let group_code = read_buf(bytes);
    let tail = vstd::slice::slice_subrange(bytes, 8, bytes.len());
    let from_uin = read_buf(tail);
    let body = vstd::slice::slice_subrange(bytes, 16, bytes.len());
    let content = string_from_utf8_lossy(body);
    proof {
        lemma_le_i64(group_code, bytes@.take(8));
        assert(tail@.take(8) =~= bytes@.subrange(8, 16));
        lemma_le_i64(from_uin, bytes@.subrange(8, 16));
        assert(body@ =~= bytes@.skip(16));
    }
    (group_code, from_uin, content)
}

/// A packed group message reads back as the group, the sender and the
/// text that were packed.
pub proof fn law_decode_group_message_of_encode(
    group_code: i64,
    from_uin: i64,
    content: Seq<char>,
    back: (i64, i64, Seq<char>),
)
    requires
        group_message_read(group_message_bytes(group_code, from_uin, content), back),
    ensures
        back == (group_code, from_uin, content),
{
    let b = group_message_bytes(group_code, from_uin, content);
    crate::buf::lemma_bytes_len(group_code as u64 as nat, 8);
    crate::buf::lemma_bytes_len(from_uin as u64 as nat, 8);
    assert(b.take(8) =~= i64_le(group_code));
    assert(b.subrange(8, 16) =~= i64_le(from_uin));
    assert(b.skip(16) =~= encode_utf8(content));
    lemma_i64_of_le(group_code);
    lemma_i64_of_le(from_uin);
}

proof fn lemma_i64_of_le(v: i64)
    ensures
        le_i64(i64_le(v)) == v,
{
    let u = v as u64;
    crate::buf::lemma_bytes_len(u as nat, 8);
    reveal_with_fuel(crate::buf::pow256, 9);
    crate::buf::lemma_bytes_roundtrip(u as nat, 8);
    assert(v >= 0 ==> v as u64 == v) by (bit_vector);
    assert(v < 0 ==> v as u64 == v + 0x10000000000000000) by (bit_vector);
}

/// The message made of the one text `msg`.
pub fn make_message(msg: String) -> (r: MessageChain)
    ensures
        is_text_message(r, msg@),
{
    let mut text = Text::default();
    text.str = Some(msg);
    let mut elems: Vec<Elem> = Vec::new();
    elems.push(Elem::Text(text));
    MessageChain::new(elems)
}

/// `chain` is one text element, and the text is `t`.
pub open spec fn is_text_message(chain: MessageChain, t: Seq<char>) -> bool {
    &&& chain.0@.len() == 1
    &&& chain.0@[0] matches Elem::Text(e)
    &&& e.str matches Some(s)
    &&& s@ == t
}

/// Why a send command from the broker is refused.
pub open spec fn send_cmd_error() -> Seq<char> {
    "decode group send message cmd error"@
}

/// `r` is what reading the send command `b` gives: the group and the text
/// when the text is UTF-8, else the refusal.
pub open spec fn send_cmd_result(b: Seq<u8>, r: Result<(i64, MessageChain), &str>) -> bool {
    &&& r is Ok <==> valid_utf8(b.skip(8))
    &&& r matches Ok((g, chain)) ==> g == le_i64(b.take(8)) && is_text_message(
        chain,
        decode_utf8(b.skip(8)),
    )
    &&& r matches Err(e) ==> e@ == send_cmd_error()
}

/// Reads a send command from the broker: the group code in eight
/// little-endian bytes, then the text to send, which must be UTF-8. Fewer
/// than eight bytes panic.
pub fn decode_group_send_message_cmd(bytes: &[u8]) -> (r: Result<(i64, MessageChain), &'static str>)
    requires
        bytes@.len() >= 8,
    ensures
        send_cmd_result(bytes@, r),
{
    let group_code = read_buf(bytes);
    proof {
        lemma_le_i64(group_code, bytes@.take(8));
    }
    let cmd_msg = vstd::slice::slice_subrange(bytes, 8, bytes.len());
    let content = match string_from_utf8(vstd::slice::slice_to_vec(cmd_msg)) {
        Ok(o) => o,
        Err(_) => {
            let e = "decode group send message cmd error";
            return Err(e);
        },
    };
    proof {
        assert(cmd_msg@ =~= bytes@.skip(8));
    }
    Ok((group_code, make_message(content)))
}

/// A send command made of a group code and a UTF-8 text reads back as
/// that group and a message of that text.
pub proof fn law_send_cmd_reads_back(
    group_code: i64,
    text: Seq<char>,
    r: Result<(i64, MessageChain), &str>,
)
    requires
        send_cmd_result(i64_le(group_code) + encode_utf8(text), r),
    ensures
        r matches Ok((g, chain)) && g == group_code && is_text_message(chain, text),
{
    let cmd = i64_le(group_code) + encode_utf8(text);
    crate::buf::lemma_bytes_len(group_code as u64 as nat, 8);
    assert(cmd.skip(8) =~= encode_utf8(text));
    assert(cmd.take(8) =~= i64_le(group_code));
    lemma_i64_of_le(group_code);
}

/// The tag that starts a command to the bot.
pub open spec fn esp_tag() -> Seq<u8> {
    seq![0x65u8, 0x73u8, 0x70u8]
}

/// `b` holds the tag at `k`.
pub open spec fn esp_at(b: Seq<u8>, k: int) -> bool {
    0 <= k && k + 3 <= b.len() && b.subrange(k, k + 3) == esp_tag()
}

/// Where the tag first occurs in `b`, or `b`'s length when it does not.
pub open spec fn find_esp(b: Seq<u8>) -> int
    decreases b.len(),
{
    if b.len() < 3 {
        b.len() as int
    } else if b.take(3) == esp_tag() {
        0
    } else {
        1 + find_esp(b.skip(1))
    }
}

proof fn lemma_find_esp(b: Seq<u8>)
    ensures
        0 <= find_esp(b) <= b.len(),
        find_esp(b) < b.len() ==> esp_at(b, find_esp(b)),
        forall|k: int| 0 <= k < find_esp(b) ==> !esp_at(b, k),
    decreases b.len(),
{
    if b.len() >= 3 && b.take(3) != esp_tag() {
        let t = b.skip(1);
        lemma_find_esp(t);
        assert(b.take(3) =~= b.subrange(0, 3));
        assert forall|k: int| 1 <= k < b.len() implies esp_at(b, k) == esp_at(t, k - 1) by {
            if k + 3 <= b.len() {
                assert(b.subrange(k, k + 3) =~= t.subrange(k - 1, k + 2));
            }
        }
        if find_esp(t) < t.len() {
            assert(esp_at(b, find_esp(b)));
        }
        assert forall|k: int| 0 <= k < find_esp(b) implies !esp_at(b, k) by {
            if k > 0 {
                assert(esp_at(b, k) == esp_at(t, k - 1));
            }
        }
    } else if b.len() >= 3 {
        assert(b.take(3) =~= b.subrange(0, 3));
    } else {
        assert forall|k: int| 0 <= k < find_esp(b) implies !esp_at(b, k) by {}
    }
}

/// What follows the leading tag of `b`, up to the next tag or the end, as
/// `split("esp").skip(1).next()` gives it; nothing when `b` does not start
/// with the tag.
pub open spec fn esp_argument(b: Seq<u8>) -> Option<Seq<u8>> {
    if esp_at(b, 0) {
        let rest = b.skip(3);
        Some(rest.take(find_esp(rest)))
    } else {
        None
    }
}

/// A text that starts with the tag and holds no other tag is a command
/// whose argument is the rest of the text.
pub proof fn law_tagged_text_argument(t: Seq<u8>)
    requires
        find_esp(t) == t.len(),
    ensures
        esp_argument(esp_tag() + t) == Some(t),
{
    let b = esp_tag() + t;
    assert(b.subrange(0, 3) =~= esp_tag());
    assert(b.skip(3) =~= t);
    assert(t.take(t.len() as int) =~= t);
}

fn find_esp_index(b: &[u8]) -> (r: usize)
    ensures
        r == find_esp(b@),
{
    proof {
        lemma_find_esp(b@);
    }
    let mut i: usize = 0;
    while i < b.len() && b.len() - i >= 3
        invariant
            i <= b@.len(),
            forall|k: int| 0 <= k < i ==> !esp_at(b@, k),
            0 <= find_esp(b@) <= b@.len(),
            find_esp(b@) < b@.len() ==> esp_at(b@, find_esp(b@)),
            forall|k: int| 0 <= k < find_esp(b@) ==> !esp_at(b@, k),
        decreases b@.len() - i,
    {
        if b[i] == 0x65 && b[i + 1] == 0x73 && b[i + 2] == 0x70 {
            proof {
                assert(b@.subrange(i as int, i + 3) =~= esp_tag());
                assert(esp_at(b@, i as int));
                if find_esp(b@) < i {
                    assert(esp_at(b@, find_esp(b@)));
                }
            }
            return i;
        }
        proof {
            if esp_at(b@, i as int) {
                assert(b@.subrange(i as int, i + 3)[0] == b@[i as int]);
                assert(b@.subrange(i as int, i + 3)[1] == b@[i + 1]);
                assert(b@.subrange(i as int, i + 3)[2] == b@[i + 2]);
            }
        }
        i = i + 1;
    }
    b.len()
}

/// `s` less its first byte, which is ASCII.
fn skip_ascii(s: &str) -> (r: &str)
    requires
        s.spec_bytes().len() > 0,
        s.spec_bytes()[0] < 0x80,
    ensures
        r.spec_bytes() == s.spec_bytes().skip(1),
{
    proof {
        assert(valid_utf8(s.spec_bytes()));
        vstd::utf8::is_char_boundary_start_end_of_seq(s.spec_bytes());
        reveal_with_fuel(vstd::utf8::is_char_boundary, 2);
        assert(vstd::utf8::is_char_boundary(s.spec_bytes(), 1));
    }
    let (_, rest) = s.split_at(1);
    proof {
        assert(rest.spec_bytes() =~= s.spec_bytes().skip(1));
    }
    rest
}

/// A command that a group message gives the bot.
#[derive(Debug, Clone)]
pub enum Command {
    /// The text was a question mark: answer with one.
    Echo,
    /// Tell the time.
    Time,
    /// Draw a random number.
    Random,
    /// Report on the device.
    Info,
    /// A tagged command that the bot does not know, with its text.
    Unknown(String),
}

/// `r` is the command that the text with UTF-8 bytes `b` gives, if any.
pub open spec fn command_of(b: Seq<u8>, r: Option<Command>) -> bool {
    if b == "?".spec_bytes() || b == "\u{ff1f}".spec_bytes() {
        r matches Some(Command::Echo)
    } else {
        match esp_argument(b) {
            None => r is None,
            Some(a) => if a == "\u{65f6}\u{95f4}".spec_bytes() {
                r matches Some(Command::Time)
            } else if a == "\u{968f}\u{673a}".spec_bytes() {
                r matches Some(Command::Random)
            } else if a == "Info".spec_bytes() {
                r matches Some(Command::Info)
            } else {
                r matches Some(Command::Unknown(t)) && encode_utf8(t@) == a
            },
        }
    }
}

/// A text whose bytes do not begin with `e`, `s`, `p` and that is not a
/// question mark gives no command, whatever it holds further on.
pub proof fn law_untagged_text_is_no_command(b: Seq<u8>, r: Option<Command>)
    requires
        !(b.len() >= 3 && b[0] == 0x65u8 && b[1] == 0x73u8 && b[2] == 0x70u8),
        b != "?".spec_bytes(),
        b != "\u{ff1f}".spec_bytes(),
        command_of(b, r),
    ensures
        r is None,
{
    if b.len() >= 3 && b.subrange(0, 3) == esp_tag() {
        assert(b.subrange(0, 3)[0] == b[0]);
        assert(b.subrange(0, 3)[1] == b[1]);
        assert(b.subrange(0, 3)[2] == b[2]);
    }
}

/// The bytes `e`, `s`, `p` followed by a text `t` with no further tag and
/// no known command name give an unknown command whose text is `t`.
pub proof fn law_tagged_unknown_text(t: Seq<u8>, r: Option<Command>)
    requires
        find_esp(t) == t.len(),
        t != "\u{65f6}\u{95f4}".spec_bytes(),
        t != "\u{968f}\u{673a}".spec_bytes(),
        t != "Info".spec_bytes(),
        command_of(seq![0x65u8, 0x73u8, 0x70u8] + t, r),
    ensures
        r matches Some(Command::Unknown(s)) && encode_utf8(s@) == t,
{
    let b = seq![0x65u8, 0x73u8, 0x70u8] + t;
    assert(b.subrange(0, 3) =~= esp_tag());
    assert(b.skip(3) =~= t);
    assert(t.take(t.len() as int) =~= t);
    if b == "?".spec_bytes() || b == "\u{ff1f}".spec_bytes() {
        reveal_strlit("?");
        reveal_strlit("\u{ff1f}");
        assert(b[0] == 0x65u8);
        assert("?"@.drop_first() =~= Seq::<char>::empty());
        assert("\u{ff1f}"@.drop_first() =~= Seq::<char>::empty());
        assert(("\u{ff1f}"@[0] as u32) == 0xff1fu32);
        assert((0xE0u8 | ((0xff1fu32 >> 12u32) & 0x0Fu32) as u8) == 0xefu8) by (bit_vector);
        assert(("?"@[0] as u32) == 0x3fu32);
        assert(encode_utf8("?"@.drop_first()) =~= Seq::<u8>::empty());
        assert("?".spec_bytes().len() == 1);
        assert("\u{ff1f}".spec_bytes()[0] == 0xefu8);
    }
}

/// The command in a group message's text: a question mark, or the tag
/// followed by the command's name.
pub fn parse_command(content: &str) -> (r: Option<Command>)
    ensures
        command_of(content.spec_bytes(), r),
{
    let b = content.as_bytes();
    if bytes_eq(b, "?".as_bytes()) || bytes_eq(b, "\u{ff1f}".as_bytes()) {
        return Some(Command::Echo);
    }
    if !(b.len() >= 3 && b[0] == 0x65 && b[1] == 0x73 && b[2] == 0x70) {
        proof {
            if esp_at(b@, 0) {
                assert(b@.subrange(0, 3)[0] == b@[0]);
                assert(b@.subrange(0, 3)[1] == b@[1]);
                assert(b@.subrange(0, 3)[2] == b@[2]);
            }
        }
        return None;
    }
    proof {
        assert(b@.subrange(0, 3) =~= esp_tag());
    }
    let r1 = skip_ascii(content);
    let r2 = skip_ascii(r1);
    let rest = skip_ascii(r2);
    let rb = rest.as_bytes();
    proof {
        assert(rb@ =~= b@.skip(3));
    }
    let j = find_esp_index(rb);
    proof {
        lemma_find_esp(rb@);
        assert(valid_utf8(rest.spec_bytes()));
        if j < rb@.len() {
            assert(rb@.subrange(j as int, j + 3)[0] == rb@[j as int]);
            vstd::utf8::is_char_boundary_iff_not_is_continuation_byte(rest.spec_bytes(), j as int);
        } else {
            vstd::utf8::is_char_boundary_start_end_of_seq(rest.spec_bytes());
        }
    }
    let (arg, _) = rest.split_at(j);
    let ab = arg.as_bytes();
    proof {
        assert(ab@ =~= rb@.take(j as int));
    }
    if bytes_eq(ab, "\u{65f6}\u{95f4}".as_bytes()) {
        Some(Command::Time)
    } else if bytes_eq(ab, "\u{968f}\u{673a}".as_bytes()) {
        Some(Command::Random)
    } else if bytes_eq(ab, "Info".as_bytes()) {
        Some(Command::Info)
    } else {
        let t = String::from_str(arg);
        Some(Command::Unknown(t))
    }
}

/// The text of the reply to `cmd`, given the time in seconds and a random
/// number: nothing for `Info`, whose report is made from the device.
pub open spec fn reply_text_of(cmd: Command, now: i64, random: u32) -> Option<Seq<char>> {
    match cmd {
        Command::Echo => Some("?"@),
        Command::Time => Some("\u{5f53}\u{524d}\u{65f6}\u{95f4}:"@ + decimal_text(now as int) + "s"@),
        Command::Random => Some("\u{968f}\u{673a}\u{7ed3}\u{679c} "@ + decimal_text(random as int)),
        Command::Info => None,
        Command::Unknown(v) => Some("\u{672a}\u{77e5}\u{6307}\u{4ee4} "@ + v@),
    }
}

/// The text of the reply to `cmd`, given the time in seconds and a random
/// number; nothing for `Info`.
pub fn reply_text(cmd: &Command, now: i64, random: u32) -> (r: Option<String>)
    ensures
        match reply_text_of(*cmd, now, random) {
            Some(t) => r matches Some(s) && s@ == t,
            None => r is None,
        },
{
    match cmd {
        Command::Echo => Some(String::from_str("?")),
        Command::Time => {
            let mut s = String::from_str("\u{5f53}\u{524d}\u{65f6}\u{95f4}:");
            push_decimal(&mut s, now);
            s.append("s");
            Some(s)
        },
        Command::Random => {
            let mut s = String::from_str("\u{968f}\u{673a}\u{7ed3}\u{679c} ");
            push_decimal(&mut s, random as i64);
            Some(s)
        },
        Command::Info => None,
        Command::Unknown(v) => {
            let mut s = String::from_str("\u{672a}\u{77e5}\u{6307}\u{4ee4} ");
            s.append(v.as_str());
            Some(s)
        },
    }
}

} // verus!

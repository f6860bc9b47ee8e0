//! Light-app cards: JSON text that travels behind a one-byte marker, raw
//! or zlib-compressed.
use vstd::prelude::*;
use vstd::string::StringSliceAdditionalSpecFns;
use vstd::utf8::{decode_utf8, encode_utf8, valid_utf8};
use miniz_oxide::inflate::DecompressError;
use crate::pb::msg;
use crate::pb::msg::elem::Elem;
use crate::text::string_from_utf8;

verus! {

#[verifier::external_type_specification]
#[verifier::external_body]
pub struct ExDecompressError(DecompressError);

/// What `compress_to_vec_zlib` makes of `input` at `level`.
pub uninterp spec fn zlib_compressed(input: Seq<u8>, level: u8) -> Seq<u8>;

/// What `decompress_to_vec_zlib` makes of `input`: the data, or nothing when
/// `input` is not a zlib stream.
pub uninterp spec fn zlib_decompressed(input: Seq<u8>) -> Option<Seq<u8>>;

/// `miniz_oxide::deflate::compress_to_vec_zlib`: what it returns is named.
/// The stream starts with the two-byte zlib header, so it is never empty,
/// and at a level that it documents (0 to 10) it decompresses to the input,
/// as lossless compression does.
#[verifier::external_body]
fn zlib_compress(input: &[u8], level: u8) -> (r: Vec<u8>)
    ensures
        r@ == zlib_compressed(input@, level),
        r@.len() > 0,
        level <= 10 ==> zlib_decompressed(r@) == Some(input@),
{
    miniz_oxide::deflate::compress_to_vec_zlib(input, level)
}

/// `miniz_oxide::inflate::decompress_to_vec_zlib`.
#[verifier::external_body]
fn zlib_decompress(input: &[u8]) -> (r: Result<Vec<u8>, DecompressError>)
    ensures
        match zlib_decompressed(input@) {
            Some(v) => r matches Ok(out) && out@ == v,
            None => r is Err,
        },
{
    miniz_oxide::inflate::decompress_to_vec_zlib(input)
}

/// A light-app card.
#[derive(Debug, Clone)]
pub struct LightApp {
    pub content: String,
}

impl Default for LightApp {
    fn default() -> (r: Self)
        ensures
            r.content@ == Seq::<char>::empty(),
    {
        LightApp { content: String::new() }
    }
}

/// The data field of an element, empty when absent.
pub open spec fn data_bytes(e: msg::LightApp) -> Seq<u8> {
    match e.data {
        Some(v) => v@,
        None => Seq::empty(),
    }
}

/// The card's bytes behind the marker: as they are after a zero, else
/// decompressed.
pub open spec fn light_app_payload(data: Seq<u8>) -> Option<Seq<u8>> {
    if data[0] == 0 {
        Some(data.skip(1))
    } else {
        zlib_decompressed(data.skip(1))
    }
}

/// The text that a card's data holds: empty for data of one byte or less,
/// or when the payload is empty or of 1027 bytes or more; nothing where
/// reading panics (a payload that does not decompress, or is not UTF-8).
pub open spec fn light_app_text(data: Seq<u8>) -> Option<Seq<char>> {
    if data.len() <= 1 {
        Some(Seq::empty())
    } else {
        match light_app_payload(data) {
            None => None,
            Some(c) => if c.len() > 0 && c.len() < 1027 {
                if valid_utf8(c) {
                    Some(decode_utf8(c))
                } else {
                    None
                }
            } else {
                Some(Seq::empty())
            },
        }
    }
}

/// A card's element read back gives the card, for content of 1 to 1026
/// bytes, given a (non-empty) compressed stream that decompresses to the
/// content.
pub proof fn law_light_app_reads_back(content: Seq<char>, compressed: Seq<u8>)
    requires
        0 < encode_utf8(content).len() < 1027,
        compressed.len() > 0,
        zlib_decompressed(compressed) == Some(encode_utf8(content)),
    ensures
        light_app_text(seq![1u8] + compressed) == Some(content),
{
    let d = seq![1u8] + compressed;
    assert(d.skip(1) =~= compressed);
    assert(d[0] == 1u8);
    vstd::utf8::encode_utf8_valid_utf8(content);
    vstd::utf8::encode_utf8_decode_utf8(content);
}

impl LightApp {
    /// A card holding `content`.
    pub fn new(content: String) -> (r: Self)
        ensures
            r.content == content,
    {
        Self { content }
    }

    /// The element that carries this card: a one, then the content
    /// compressed with zlib at level 6.
    pub fn into_elems(self) -> (r: Vec<Elem>)
        ensures
            r@.len() == 1,
            r@[0] matches Elem::LightApp(a) && (a.msg_resid is None && (a.data matches Some(d)
                && d@ == seq![1u8] + zlib_compressed(encode_utf8(self.content@), 6))),
            zlib_compressed(encode_utf8(self.content@), 6).len() > 0,
            zlib_decompressed(zlib_compressed(encode_utf8(self.content@), 6)) == Some(
                encode_utf8(self.content@),
            ),
    {
        let mut w: Vec<u8> = Vec::new();
        let res = zlib_compress(self.content.as_str().as_bytes(), 6);
        w.push(1);
        w.extend_from_slice(res.as_slice());
        proof {
            assert(w@ =~= seq![1u8] + zlib_compressed(encode_utf8(self.content@), 6));
        }
        let mut v: Vec<Elem> = Vec::new();
        v.push(Elem::LightApp(msg::LightApp { data: Some(w), msg_resid: None }));
        v
    }

    /// The card that an element carries. Reading panics where
    /// `light_app_text` has nothing; `requires` leaves that out.
    pub fn from_pb(e: msg::LightApp) -> (r: Self)
        requires
            light_app_text(data_bytes(e)) is Some,
        ensures
            r.content@ == light_app_text(data_bytes(e)).unwrap(),
    {
        match Self::try_from_pb(e) {
            Some(a) => a,
            None => unreached(),
        }
    }

    /// The card that an element carries, or nothing where `from_pb` may not
    /// be called (reading panics there).
    pub fn try_from_pb(e: msg::LightApp) -> (r: Option<Self>)
        ensures
            match light_app_text(data_bytes(e)) {
                Some(t) => r matches Some(a) && a.content@ == t,
                None => r is None,
            },
    {
        let data = match e.data {
            Some(v) => v,
            None => Vec::new(),
        };
        if data.len() > 1 {
            let content = if data[0] == 0 {
                vstd::slice::slice_to_vec(&data[1..data.len()])
            } else {
                match zlib_decompress(&data[1..data.len()]) {
                    Ok(v) => v,
                    Err(_) => return None,
                }
            };
            if !content.is_empty() && content.len() < 1027 {
                return match string_from_utf8(content) {
                    Ok(s) => Some(Self { content: s }),
                    Err(_) => None,
                };
            }
        }
        Some(Self::default())
    }
}

} // verus!

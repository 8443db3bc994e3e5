//! Cache keys: a SHA-256 digest, in lower-case hex, of the file's canonical
//! path, modification time, size, the quantized preview area, a format
//! version and a caller-given suffix.
use vstd::prelude::*;
use sha2::Digest as _;
use crate::cache::Rect;
use crate::textfmt::{decimal, push_char, push_decimal};

verus! {

/// The version of the cache format, part of every key.
pub const CACHE_VERSION: u8 = 1;

/// The area rounded down to whole multiples of 8 columns and 4 rows, so
/// that a resize by a few cells does not change the key.
pub open spec fn quantized_spec(area: Rect) -> Rect {
    Rect { x: area.x, y: area.y, width: ((area.width / 8) * 8) as u16, height: ((area.height / 4) * 4) as u16 }
}

/// Rounds the area's width down to a multiple of 8 and its height to a
/// multiple of 4; the position is kept.
pub fn quantized(area: Rect) -> (res: Rect)
    ensures
        res == quantized_spec(area),
{
    Rect { x: area.x, y: area.y, width: (area.width / 8) * 8, height: (area.height / 4) * 4 }
}

/// What SHA-256 computes for a byte string.
pub uninterp spec fn sha256_of(data: Seq<u8>) -> Seq<u8>;

/// SHA-256 of `data` (`sha2::Sha256::digest`); a digest is 32 bytes.
#[verifier::external_body]
fn sha256_bytes(data: &[u8]) -> (res: Vec<u8>)
    ensures
        res@ == sha256_of(data@),
        res@.len() == 32,
{
    sha2::Sha256::digest(data).to_vec()
}

/// The lower-case hexadecimal character of a value below 16.
pub open spec fn hex_char(v: nat) -> char {
    if v < 10 { ((v + 48) as u8) as char } else { ((v - 10 + 97) as u8) as char }
}

/// Lower-case hexadecimal of a byte string, two characters per byte, high
/// nibble first.
pub open spec fn hex_lower(data: Seq<u8>) -> Seq<char>
    decreases data.len(),
{
    if data.len() == 0 {
        Seq::empty()
    } else {
        hex_lower(data.drop_last()) + seq![hex_char((data.last() / 16) as nat), hex_char((data.last() % 16) as nat)]
    }
}

fn hex_digit(v: u8) -> (c: char)
    requires
        v < 16,
    ensures
        c == hex_char(v as nat),
{
    if v < 10 { (v + 48) as char } else { (v - 10 + 97) as char }
}

/// Encodes bytes as lower-case hexadecimal.
pub fn hex_encode(data: &[u8]) -> (res: String)
    ensures
        res@ == hex_lower(data@),
{
    let mut s = String::new();
    let mut i: usize = 0;
    while i < data.len()
        invariant
            0 <= i <= data@.len(),
            s@ == hex_lower(data@.take(i as int)),
        decreases data.len() - i,
    {
        let b = data[i];
        push_char(&mut s, hex_digit(b / 16));
        push_char(&mut s, hex_digit(b % 16));
        assert(data@.take(i + 1).drop_last() =~= data@.take(i as int));
        assert(data@.take(i + 1).last() == b);
        i = i + 1;
        assert(s@ =~= hex_lower(data@.take(i as int)));
    }
    assert(data@.take(data@.len() as int) =~= data@);
    s
}

/// The text that is hashed into a key.
pub open spec fn key_text(canon: Seq<char>, mtime: nat, size: nat, area: Rect, extra: Seq<char>) -> Seq<char> {
    let q = quantized_spec(area);
    canon + seq![':'] + decimal(mtime) + seq![':'] + decimal(size) + seq![':'] + decimal(q.width as nat)
        + seq![':'] + decimal(q.height as nat) + seq![':'] + decimal(CACHE_VERSION as nat) + seq![':'] + extra
}

/// The cache key of a preview.
pub open spec fn cache_key_spec(canon: Seq<char>, mtime: nat, size: nat, area: Rect, extra: Seq<char>) -> Seq<char> {
    hex_lower(sha256_of(vstd::utf8::encode_utf8(key_text(canon, mtime, size, area, extra))))
}

/// The cache key of a file's preview. The caller gives the canonical path
/// (the path as given when it cannot be canonicalized), the modification
/// time in whole seconds since the epoch and the size (both 0 when the file's
/// metadata cannot be read), the preview area and an extra discriminator
/// (such as the selected sheet or slide).
pub fn cache_key(canon: &str, mtime: u64, size: u64, area: Rect, extra: &str) -> (res: String)
    ensures
        res@ == cache_key_spec(canon@, mtime as nat, size as nat, area, extra@),
{
    let q = quantized(area);
    let mut input = String::new();
    input.append(canon);
    push_char(&mut input, ':');
    push_decimal(&mut input, mtime);
    push_char(&mut input, ':');
    push_decimal(&mut input, size);
    push_char(&mut input, ':');
    push_decimal(&mut input, q.width as u64);
    push_char(&mut input, ':');
    push_decimal(&mut input, q.height as u64);
    push_char(&mut input, ':');
    push_decimal(&mut input, CACHE_VERSION as u64);
    push_char(&mut input, ':');
    input.append(extra);
    assert(input@ =~= key_text(canon@, mtime as nat, size as nat, area, extra@));
    let digest = sha256_bytes(input.as_str().as_bytes());
    hex_encode(digest.as_slice())
}

/// Two areas that quantize alike give the same key: a preview is not
/// recomputed when the pane changes by fewer cells than the quantization
/// step.
pub proof fn lemma_key_ignores_small_resize(canon: Seq<char>, mtime: nat, size: nat, a1: Rect, a2: Rect, extra: Seq<char>)
    requires
        a1.width / 8 == a2.width / 8,
        a1.height / 4 == a2.height / 4,
    ensures
        cache_key_spec(canon, mtime, size, a1, extra) == cache_key_spec(canon, mtime, size, a2, extra),
{
    assert(key_text(canon, mtime, size, a1, extra) =~= key_text(canon, mtime, size, a2, extra));
}

/// The quantized area keeps the position; its width is the largest
/// multiple of 8 not above the width, its height the largest multiple of 4
/// not above the height.
pub proof fn lemma_quantized_rounds_down(area: Rect)
    ensures
        quantized_spec(area).x == area.x && quantized_spec(area).y == area.y,
        quantized_spec(area).width % 8 == 0,
        quantized_spec(area).width <= area.width < quantized_spec(area).width + 8,
        quantized_spec(area).height % 4 == 0,
        quantized_spec(area).height <= area.height < quantized_spec(area).height + 4,
{
    let w = (area.width / 8) * 8;
    let h = (area.height / 4) * 4;
    assert(w % 8 == 0 && w <= area.width < w + 8) by (nonlinear_arith) requires w == (area.width / 8) * 8;
    assert(h % 4 == 0 && h <= area.height < h + 4) by (nonlinear_arith) requires h == (area.height / 4) * 4;
}

/// Quantizing twice is quantizing once.
pub proof fn lemma_quantized_idempotent(area: Rect)
    ensures
        quantized_spec(quantized_spec(area)) == quantized_spec(area),
{
    let w = (area.width / 8) * 8;
    let h = (area.height / 4) * 4;
    assert((w / 8) * 8 == w) by (nonlinear_arith) requires w == (area.width / 8) * 8;
    assert((h / 4) * 4 == h) by (nonlinear_arith) requires h == (area.height / 4) * 4;
}

} // verus!

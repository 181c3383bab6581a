//! Calls into the hashing, cipher, encoding and compression crates, and the
//! byte helpers that the decoders share.
use vstd::prelude::*;
use vstd::utf8::*;

use aes::cipher::{BlockDecrypt, KeyInit};
use base64::Engine;
use sha2::Digest;
use chrono::TimeZone;

verus! {

// ---------------------------------------------------------------------------
// Names for what the outside functions return
// ---------------------------------------------------------------------------

/// The MD5 digest of `data`, as `md5::compute` returns it.
pub uninterp spec fn md5_digest(data: Seq<u8>) -> Seq<u8>;

/// The SHA-256 digest of `data`, as `sha2::Sha256` finalizes it.
pub uninterp spec fn sha256_digest(data: Seq<u8>) -> Seq<u8>;

/// One AES-256 block decryption of `block` under `key`.
pub uninterp spec fn aes256_block_decrypt(key: Seq<u8>, block: Seq<u8>) -> Seq<u8>;

/// What the standard, padded base64 engine decodes `text` to, if anything.
pub uninterp spec fn base64_standard_decode(text: Seq<u8>) -> Option<Seq<u8>>;

/// What the standard, padded base64 engine encodes `data` to.
pub uninterp spec fn base64_standard_encode(data: Seq<u8>) -> Seq<char>;

/// What the URL-safe, unpadded base64 engine encodes `data` to.
pub uninterp spec fn base64_url_nopad_encode(data: Seq<u8>) -> Seq<char>;

/// What raw DEFLATE decompression of `data` gives, if it succeeds.
pub uninterp spec fn inflate_raw(data: Seq<u8>) -> Option<Seq<u8>>;

/// What `regex` makes of `text` under `pattern`: the text of each capture
/// group of the first match (the whole match first; a group that took part
/// in no match is `None`), or none when the pattern does not compile or does
/// not match.
pub uninterp spec fn regex_captures_of(pattern: Seq<char>, text: Seq<char>) -> Option<Seq<Option<Seq<char>>>>;

/// What `chrono` formats the UTC time `secs` seconds after the epoch to
/// under `%Y-%m-%dT%H:%M:%S`, or none when the time is out of its range.
pub uninterp spec fn utc_iso_text(secs: int) -> Option<Seq<char>>;

// ---------------------------------------------------------------------------
// Wrappers
// ---------------------------------------------------------------------------

/// `md5::compute`: the digest is the crate's `Digest([u8; 16])`, so 16 bytes.
#[verifier::external_body]
pub(crate) fn md5(data: &[u8]) -> (r: Vec<u8>)
    ensures
        r@ == md5_digest(data@),
        r@.len() == 16,
{
    md5::compute(data).0.to_vec()
}

/// `sha2::Sha256` over `data`; its output array has 32 bytes.
#[verifier::external_body]
pub(crate) fn sha256(data: &[u8]) -> (r: Vec<u8>)
    ensures
        r@ == sha256_digest(data@),
        r@.len() == 32,
{
    sha2::Sha256::digest(data).to_vec()
}

/// `Aes256::new_from_slice` accepts exactly the 32-byte keys (it fails with
/// `InvalidLength` otherwise).
#[verifier::external_body]
pub(crate) fn aes256_key_accepted(key: &[u8]) -> (r: bool)
    ensures
        r == (key@.len() == 32),
{
    aes::Aes256::new_from_slice(key).is_ok()
}

/// `BlockDecrypt::decrypt_block` of `Aes256` on one 16-byte block.
#[verifier::external_body]
pub(crate) fn aes256_decrypt_block(key: &[u8], block: &[u8]) -> (r: Vec<u8>)
    requires
        key@.len() == 32,
        block@.len() == 16,
    ensures
        r@ == aes256_block_decrypt(key@, block@),
        r@.len() == 16,
{
    let cipher = aes::Aes256::new_from_slice(key).unwrap();
    let mut b = aes::cipher::generic_array::GenericArray::clone_from_slice(block);
    cipher.decrypt_block(&mut b);
    b.to_vec()
}

/// `base64::engine::general_purpose::STANDARD.decode`.
#[verifier::external_body]
pub(crate) fn base64_decode(text: &[u8]) -> (r: Option<Vec<u8>>)
    ensures
        match r {
            Some(v) => base64_standard_decode(text@) == Some(v@),
            None => base64_standard_decode(text@) is None,
        },
{
    base64::engine::general_purpose::STANDARD.decode(text).ok()
}

/// `base64::engine::general_purpose::STANDARD.encode`.
#[verifier::external_body]
pub(crate) fn base64_encode(data: &[u8]) -> (r: String)
    ensures
        r@ == base64_standard_encode(data@),
{
    base64::engine::general_purpose::STANDARD.encode(data)
}

/// `base64::engine::general_purpose::URL_SAFE_NO_PAD.encode`.
#[verifier::external_body]
pub(crate) fn base64_url_encode(data: &[u8]) -> (r: String)
    ensures
        r@ == base64_url_nopad_encode(data@),
{
    base64::engine::general_purpose::URL_SAFE_NO_PAD.encode(data)
}

/// `miniz_oxide::inflate::decompress_to_vec` (raw DEFLATE, no zlib header).
#[verifier::external_body]
pub(crate) fn inflate(data: &[u8]) -> (r: Option<Vec<u8>>)
    ensures
        match r {
            Some(v) => inflate_raw(data@) == Some(v@),
            None => inflate_raw(data@) is None,
        },
{
    miniz_oxide::inflate::decompress_to_vec(data).ok()
}

/// `String::from_utf8`: succeeds exactly on well-formed UTF-8, and the string
/// holds the decoded characters.
#[verifier::external_body]
pub(crate) fn string_from_utf8(bytes: Vec<u8>) -> (r: Option<String>)
    ensures
        r is Some <==> valid_utf8(bytes@),
        r matches Some(s) ==> s@ == decode_utf8(bytes@),
{
    String::from_utf8(bytes).ok()
}

// ---------------------------------------------------------------------------
// Byte helpers
// ---------------------------------------------------------------------------

/// Bytewise exclusive or of two equally long sequences.
pub open spec fn xor_bytes(a: Seq<u8>, b: Seq<u8>) -> Seq<u8> {
    Seq::new(a.len(), |j: int| a[j] ^ b[j])
}

/// The bytes `v[start..end]`.
pub fn slice_bytes(v: &[u8], start: usize, end: usize) -> (r: Vec<u8>)
    requires
        start <= end <= v@.len(),
    ensures
        r@ == v@.subrange(start as int, end as int),
{
    let mut r: Vec<u8> = Vec::new();
    let mut i = start;
    while i < end
        invariant
            start <= i <= end <= v@.len(),
            r@ == v@.subrange(start as int, i as int),
        decreases end - i,
    {
        r.push(v[i]);
        i = i + 1;
    }
    r
}

/// Appends the bytes of `b` to `a`.
pub fn append_bytes(a: &mut Vec<u8>, b: &[u8])
    ensures
        final(a)@ == old(a)@ + b@,
{
    let mut i: usize = 0;
    while i < b.len()
        invariant
            i <= b@.len(),
            a@ == old(a)@ + b@.take(i as int),
        decreases b@.len() - i,
    {
        a.push(b[i]);
        i = i + 1;
        assert(b@.take(i as int) == b@.take(i - 1).push(b@[i - 1]));
    }
    assert(b@.take(b@.len() as int) == b@);
}

/// Byte sequences are equal.
pub fn bytes_eq(a: &[u8], b: &[u8]) -> (r: bool)
    ensures
        r == (a@ == b@),
{
    if a.len() != b.len() {
        return false;
    }
    let mut k: usize = 0;
    while k < a.len()
        invariant
            k <= a@.len(),
            a@.len() == b@.len(),
            forall|m: int| 0 <= m < k ==> a@[m] == b@[m],
        decreases a@.len() - k,
    {
        if a[k] != b[k] {
            return false;
        }
        k = k + 1;
    }
    assert(a@ == b@);
    true
}

/// The lower-case hexadecimal digit for `d < 16`.
pub open spec fn hex_char(d: u8) -> u8 {
    if d < 10 {
        (48 + d) as u8
    } else {
        (87 + d) as u8
    }
}

/// Lower-case hexadecimal rendering of bytes, two digits each (`{:x}` of an
/// MD5 digest).
pub open spec fn hex_lower(data: Seq<u8>) -> Seq<u8>
    decreases data.len(),
{
    if data.len() == 0 {
        Seq::empty()
    } else {
        hex_lower(data.drop_last()) + seq![hex_char(data.last() / 16), hex_char(data.last() % 16)]
    }
}

/// `hex_lower` has two digits per byte.
pub proof fn lemma_hex_lower_len(data: Seq<u8>)
    ensures
        hex_lower(data).len() == 2 * data.len(),
    decreases data.len(),
{
    if data.len() > 0 {
        lemma_hex_lower_len(data.drop_last());
    }
}

/// Lower-case hexadecimal digits of `data`.
pub fn to_hex_lower(data: &[u8]) -> (r: Vec<u8>)
    ensures
        r@ == hex_lower(data@),
        r@.len() == 2 * data@.len(),
{
    let mut r: Vec<u8> = Vec::new();
    let mut i: usize = 0;
    while i < data.len()
        invariant
            i <= data@.len(),
            r@ == hex_lower(data@.take(i as int)),
        decreases data@.len() - i,
    {
        let b = data[i];
        let hi = b / 16;
        let lo = b % 16;
        r.push(if hi < 10 { 48 + hi } else { 87 + hi });
        r.push(if lo < 10 { 48 + lo } else { 87 + lo });
        i = i + 1;
        assert(data@.take(i as int).drop_last() == data@.take(i - 1));
    }
    assert(data@.take(data@.len() as int) == data@);
    proof {
        lemma_hex_lower_len(data@);
    }
    r
}


/// The texts of capture groups.
pub open spec fn group_views(v: Seq<Option<String>>) -> Seq<Option<Seq<char>>> {
    v.map_values(|g: Option<String>| crate::text::opt_view(g))
}

/// `Regex::new(pattern)` and `Regex::captures(text)`: the text of each
/// capture group of the first match, by group index. The contract names the
/// result; what a pattern matches is left to the crate.
#[verifier::external_body]
pub(crate) fn regex_captures(pattern: &str, text: &str) -> (r: Option<Vec<Option<String>>>)
    ensures
        match r {
            Some(v) => regex_captures_of(pattern@, text@) == Some(group_views(v@)),
            None => regex_captures_of(pattern@, text@) is None,
        },
{
    let re = regex::Regex::new(pattern).ok()?;
    let caps = re.captures(text)?;
    Some(caps.iter().map(|m| m.map(|m| m.as_str().to_string())).collect())
}

/// `Utc.timestamp_opt(secs, 0)` formatted with `%Y-%m-%dT%H:%M:%S`: the
/// contract names the result; none when chrono has no single time for it.
#[verifier::external_body]
pub(crate) fn utc_iso_seconds(secs: i64) -> (r: Option<String>)
    ensures
        crate::text::opt_view(r) == utc_iso_text(secs as int),
{
    chrono::Utc.timestamp_opt(secs, 0).single().map(|t| t.format("%Y-%m-%dT%H:%M:%S").to_string())
}


/// The text of capture group `i` of the first match of `pattern` in `text`.
pub open spec fn capture_spec(pattern: Seq<char>, text: Seq<char>, i: int) -> Option<Seq<char>> {
    match regex_captures_of(pattern, text) {
        Some(gs) => if 0 <= i < gs.len() {
            gs[i]
        } else {
            None
        },
        None => None,
    }
}

/// The text of capture group `i` of the first match of `pattern` in `text`.
pub fn capture_group(pattern: &str, text: &str, i: usize) -> (r: Option<String>)
    ensures
        crate::text::opt_view(r) == capture_spec(pattern@, text@, i as int),
{
    match regex_captures(pattern, text) {
        Some(gs) => {
            let ghost g = group_views(gs@);
            if i < gs.len() {
                assert(g[i as int] == crate::text::opt_view(gs@[i as int]));
                match &gs[i] {
                    Some(t) => Some(t.clone()),
                    None => None,
                }
            } else {
                None
            }
        },
        None => None,
    }
}

/// The text of group 1 of the first match, or else of group 2.
pub open spec fn first_or_second(pattern: Seq<char>, text: Seq<char>) -> Option<Seq<char>> {
    match capture_spec(pattern, text, 1) {
        Some(t) => Some(t),
        None => capture_spec(pattern, text, 2),
    }
}

/// The text of group 1 of the first match, or else of group 2
/// (`captures.get(1).or_else(|| captures.get(2))`).
pub fn first_or_second_group(pattern: &str, text: &str) -> (r: Option<String>)
    ensures
        crate::text::opt_view(r) == first_or_second(pattern@, text@),
{
    match regex_captures(pattern, text) {
        Some(gs) => {
            let ghost g = group_views(gs@);
            let one = if 1 < gs.len() {
                assert(g[1] == crate::text::opt_view(gs@[1]));
                match &gs[1] {
                    Some(t) => Some(t.clone()),
                    None => None,
                }
            } else {
                None
            };
            match one {
                Some(t) => Some(t),
                None => if 2 < gs.len() {
                    assert(g[2] == crate::text::opt_view(gs@[2]));
                    match &gs[2] {
                        Some(t) => Some(t.clone()),
                        None => None,
                    }
                } else {
                    None
                },
            }
        },
        None => None,
    }
}

/// The present texts, in order.
pub open spec fn present_texts(s: Seq<Option<Seq<char>>>) -> Seq<Seq<char>>
    decreases s.len(),
{
    if s.len() == 0 {
        Seq::empty()
    } else {
        let p = present_texts(s.drop_last());
        match s.last() {
            Some(t) => p.push(t),
            None => p,
        }
    }
}

} // verus!

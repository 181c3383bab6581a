//! Happymh: the scan-list cipher of its reading API (a SHA-256 keystream over
//! a DEFLATE payload), the analytics cookie timestamp, and its URLs.
use vstd::prelude::*;
use vstd::string::StringSliceAdditionalSpecFns;
use vstd::utf8::*;

use crate::primitives::{
    append_bytes, base64_decode, base64_standard_decode, hex_char, hex_lower, inflate, inflate_raw,
    lemma_hex_lower_len, sha256, sha256_digest, slice_bytes, string_from_utf8,
};
use crate::text::{
    append_chars, chars_of, decimal, ends_with, find, find_chars, has_suffix, slice_chars,
    string_of, trim, trim_chars,
};

verus! {

/// The site's address.
pub const BASE_URL: &'static str = "https://m.happymh.com";

// ---------------------------------------------------------------------------
// Hexadecimal
// ---------------------------------------------------------------------------

/// Value of an ASCII hexadecimal digit, in either case.
pub open spec fn hex_digit_value(b: u8) -> Option<u8> {
    if 48 <= b <= 57 {
        Some((b - 48) as u8)
    } else if 97 <= b <= 102 {
        Some((b - 97 + 10) as u8)
    } else if 65 <= b <= 70 {
        Some((b - 65 + 10) as u8)
    } else {
        None
    }
}

/// The value of one hexadecimal digit.
pub fn hex_value(byte: u8) -> (r: Option<u8>)
    ensures
        r == hex_digit_value(byte),
        r matches Some(v) ==> v < 16,
{
    if 48 <= byte && byte <= 57 {
        Some(byte - 48)
    } else if 97 <= byte && byte <= 102 {
        Some(byte - 97 + 10)
    } else if 65 <= byte && byte <= 70 {
        Some(byte - 65 + 10)
    } else {
        None
    }
}

/// The bytes that a string of hexadecimal digit pairs denotes.
pub open spec fn hex_decode_spec(s: Seq<u8>) -> Option<Seq<u8>> {
    if s.len() % 2 != 0 {
        None
    } else if exists|i: int| 0 <= i < s.len() && hex_digit_value(s[i]) is None {
        None
    } else {
        Some(
            Seq::new(
                s.len() / 2,
                |k: int|
                    (hex_digit_value(s[2 * k])->0 * 16 + hex_digit_value(s[2 * k + 1])->0) as u8,
            ),
        )
    }
}

/// Decodes hexadecimal digit pairs.
pub fn decode_hex(input: &[u8]) -> (r: Option<Vec<u8>>)
    ensures
        match r {
            Some(v) => hex_decode_spec(input@) == Some(v@),
            None => hex_decode_spec(input@) is None,
        },
{
    if input.len() % 2 != 0 {
        return None;
    }
    let mut out: Vec<u8> = Vec::new();
    let mut k: usize = 0;
    let half = input.len() / 2;
    while k < half
        invariant
            k <= half,
            half == input@.len() / 2,
            input@.len() % 2 == 0,
            input@.len() == input.len(),
            out@.len() == k,
            forall|i: int| 0 <= i < 2 * k ==> hex_digit_value(#[trigger] input@[i]) is Some,
            forall|j: int|
                0 <= j < k ==> #[trigger] out@[j] == (hex_digit_value(input@[2 * j])->0 * 16
                    + hex_digit_value(input@[2 * j + 1])->0) as u8,
        decreases half - k,
    {
        assert(2 * k + 1 < input@.len()) by (nonlinear_arith)
            requires
                k < half,
                half == input@.len() / 2,
                input@.len() % 2 == 0,
        ;
        let high = match hex_value(input[2 * k]) {
            Some(h) => h,
            None => return None,
        };
        let low = match hex_value(input[2 * k + 1]) {
            Some(l) => l,
            None => return None,
        };
        assert((high << 4u8) | low == (high * 16 + low) as u8) by (bit_vector)
            requires
                high < 16,
                low < 16,
        ;
        out.push((high << 4) | low);
        k = k + 1;
    }
    assert(2 * half == input@.len());
    assert(out@ =~= Seq::new(
        input@.len() / 2,
        |k: int|
            (hex_digit_value(input@[2 * k])->0 * 16 + hex_digit_value(input@[2 * k + 1])->0) as u8,
    ));
    Some(out)
}

proof fn lemma_hex_lower_at(data: Seq<u8>, k: int)
    requires
        0 <= k < data.len(),
    ensures
        hex_lower(data).len() == 2 * data.len(),
        hex_lower(data)[2 * k] == hex_char(data[k] / 16),
        hex_lower(data)[2 * k + 1] == hex_char(data[k] % 16),
    decreases data.len(),
{
    lemma_hex_lower_len(data);
    lemma_hex_lower_len(data.drop_last());
    if k < data.len() - 1 {
        lemma_hex_lower_at(data.drop_last(), k);
    }
}

proof fn lemma_hex_char_value(d: u8)
    requires
        d < 16,
    ensures
        hex_digit_value(hex_char(d)) == Some(d),
{
}

/// Decoding undoes the lower-case hexadecimal rendering: what `to_hex_lower`
/// writes, `decode_hex` reads back unchanged.
pub proof fn law_hex_round_trip(data: Seq<u8>)
    ensures
        hex_decode_spec(hex_lower(data)) == Some(data),
{
    let h = hex_lower(data);
    lemma_hex_lower_len(data);
    assert forall|i: int| 0 <= i < h.len() implies hex_digit_value(#[trigger] h[i]) is Some by {
        let k = i / 2;
        lemma_hex_lower_at(data, k);
        lemma_hex_char_value(data[k] / 16);
        lemma_hex_char_value(data[k] % 16);
        if i % 2 == 0 {
            assert(i == 2 * k);
        } else {
            assert(i == 2 * k + 1);
        }
    }
    let d = Seq::new(
        h.len() / 2,
        |k: int| (hex_digit_value(h[2 * k])->0 * 16 + hex_digit_value(h[2 * k + 1])->0) as u8,
    );
    assert forall|k: int| 0 <= k < data.len() implies d[k] == data[k] by {
        lemma_hex_lower_at(data, k);
        lemma_hex_char_value(data[k] / 16);
        lemma_hex_char_value(data[k] % 16);
    }
    assert(d =~= data);
}

// ---------------------------------------------------------------------------
// Scan-list cipher
// ---------------------------------------------------------------------------

/// The secret mixed into the offset digest (`DEV_SCAN_SECRET_2026_change_me`).
pub open spec fn scan_secret() -> Seq<u8> {
    seq![68u8, 69u8, 86u8, 95u8, 83u8, 67u8, 65u8, 78u8, 95u8, 83u8, 69u8, 67u8, 82u8, 69u8, 84u8, 95u8, 50u8, 48u8, 50u8, 54u8, 95u8, 99u8, 104u8, 97u8, 110u8, 103u8, 101u8, 95u8, 109u8, 101u8]
}

/// The domain mixed into the offset digest (`happymh.com`).
pub open spec fn scan_domain() -> Seq<u8> {
    seq![104u8, 97u8, 112u8, 112u8, 121u8, 109u8, 104u8, 46u8, 99u8, 111u8, 109u8]
}

/// Big-endian bytes of a 32-bit number.
pub open spec fn be32(x: u32) -> Seq<u8> {
    seq![(x >> 24u32) as u8, (x >> 16u32) as u8, (x >> 8u32) as u8, x as u8]
}

/// The plain text of a scan list: each byte xored with byte `i % 32` of the
/// SHA-256 of key, nonce and the big-endian 32-byte block number.
pub open spec fn scan_keystream_xor(key: Seq<u8>, nonce: Seq<u8>, ct: Seq<u8>) -> Seq<u8> {
    Seq::new(
        ct.len(),
        |i: int| ct[i] ^ sha256_digest(key + nonce + be32((i / 32) as u32))[i % 32],
    )
}

/// The scan-list keystream: byte `i` of the plain text is cipher byte `i`
/// xored with byte `i % 32` of the SHA-256 digest of a state that holds the
/// key first, then the nonce, then the number of the 32-byte block `i`
/// falls in, as four big-endian bytes.
pub proof fn law_scan_keystream(key: Seq<u8>, nonce: Seq<u8>, ct: Seq<u8>, i: int, state: Seq<u8>)
    requires
        0 <= i < ct.len(),
        ct.len() <= u32::MAX,
        state.len() == key.len() + nonce.len() + 4,
        forall|k: int| 0 <= k < key.len() ==> state[k] == key[k],
        forall|k: int| 0 <= k < nonce.len() ==> state[key.len() + k] == nonce[k],
        state[(key.len() + nonce.len()) as int] as int == (i / 32) / 0x1000000,
        state[key.len() + nonce.len() + 1int] as int == ((i / 32) / 0x10000) % 256,
        state[key.len() + nonce.len() + 2int] as int == ((i / 32) / 0x100) % 256,
        state[key.len() + nonce.len() + 3int] as int == (i / 32) % 256,
    ensures
        scan_keystream_xor(key, nonce, ct).len() == ct.len(),
        scan_keystream_xor(key, nonce, ct)[i] == ct[i] ^ sha256_digest(state)[i % 32],
{
    let b = (i / 32) as u32;
    assert(b as int == i / 32);
    let e = be32(b);
    assert(e[0] as int == (i / 32) / 0x1000000 && e[1] as int == ((i / 32) / 0x10000) % 256 && e[2] as int
        == ((i / 32) / 0x100) % 256 && e[3] as int == (i / 32) % 256) by {
        assert((b >> 24u32) as u8 as int == b / 0x1000000) by (bit_vector);
        assert((b >> 16u32) as u8 as int == (b / 0x10000) % 256) by (bit_vector);
        assert((b >> 8u32) as u8 as int == (b / 0x100) % 256) by (bit_vector);
        assert(b as u8 as int == b % 256) by (bit_vector);
    }
    assert(state =~= key + nonce + be32(b));
}

/// Why decoding a scan list failed.
#[derive(Debug, Clone, Copy, PartialEq, Eq)]
pub enum ScanError {
    /// Fewer than 8 bytes.
    TooShort,
    /// Shorter than the offsets its digest gives.
    OffsetsTooShort,
    /// Key or nonce are not hexadecimal.
    Hex,
    /// The cipher text is not base64.
    Base64,
    /// The plain text does not start with `SC01`.
    Magic,
    /// The payload does not inflate.
    Inflate,
    /// The inflated payload is not UTF-8.
    Utf8,
}

/// The three offsets that the digest of the first 8 bytes gives.
pub open spec fn scan_layout(buf: Seq<u8>) -> (int, int, int, int, int) {
    let digest = sha256_digest(scan_secret() + buf.take(8) + scan_domain());
    let off1 = (digest[0] as int) % 24 + 8;
    let off2 = (digest[1] as int) % 24 + 8;
    let off3 = (digest[2] as int) % 24 + 8;
    let key_start = off1 + 8;
    let key_end = key_start + 64;
    let nonce_start = key_end + off2;
    let nonce_end = nonce_start + 32;
    let cipher_start = nonce_end + off3;
    (key_start, key_end, nonce_start, nonce_end, cipher_start)
}

/// The ASCII bytes `SC01`.
pub open spec fn scan_magic() -> Seq<u8> {
    seq![83u8, 67u8, 48u8, 49u8]
}

/// What decoding an encoded scan list gives.
pub open spec fn decode_scans_spec(buf: Seq<u8>) -> Result<Seq<char>, ScanError> {
    if buf.len() < 8 {
        Err(ScanError::TooShort)
    } else {
        let (key_start, key_end, nonce_start, nonce_end, cipher_start) = scan_layout(buf);
        if buf.len() < cipher_start {
            Err(ScanError::OffsetsTooShort)
        } else {
            match hex_decode_spec(buf.subrange(key_start, key_end)) {
                None => Err(ScanError::Hex),
                Some(key) => match hex_decode_spec(buf.subrange(nonce_start, nonce_end)) {
                    None => Err(ScanError::Hex),
                    Some(nonce) => match base64_standard_decode(buf.skip(cipher_start)) {
                        None => Err(ScanError::Base64),
                        Some(ct) => {
                            let plain = scan_keystream_xor(key, nonce, ct);
                            if plain.len() < 4 || plain.take(4) != scan_magic() {
                                Err(ScanError::Magic)
                            } else {
                                match inflate_raw(plain.skip(4)) {
                                    None => Err(ScanError::Inflate),
                                    Some(d) => if valid_utf8(d) {
                                        Ok(decode_utf8(d))
                                    } else {
                                        Err(ScanError::Utf8)
                                    },
                                }
                            }
                        },
                    },
                },
            }
        }
    }
}

fn keystream_xor(key: &[u8], nonce: &[u8], ct: &[u8]) -> (r: Vec<u8>)
    ensures
        r@ == scan_keystream_xor(key@, nonce@, ct@),
{
    let mut plain: Vec<u8> = Vec::new();
    let mut i: usize = 0;
    let n = ct.len();
    while i < n
        invariant
            n == ct@.len(),
            i <= n,
            i < n ==> i % 32 == 0,
            plain@.len() == i,
            forall|k: int| 0 <= k < i ==> #[trigger] plain@[k] == scan_keystream_xor(key@, nonce@, ct@)[k],
        decreases n - i,
    {
        let block_idx = #[verifier::truncate] ((i / 32) as u32);
        let mut state: Vec<u8> = Vec::new();
        append_bytes(&mut state, key);
        append_bytes(&mut state, nonce);
        state.push(#[verifier::truncate] ((block_idx >> 24) as u8));
        state.push(#[verifier::truncate] ((block_idx >> 16) as u8));
        state.push(#[verifier::truncate] ((block_idx >> 8) as u8));
        state.push(#[verifier::truncate] (block_idx as u8));
        assert(state@ == key@ + nonce@ + be32(block_idx));
        let keystream = sha256(&state);
        let block_size = if n - i < 32 { n - i } else { 32 };
        let mut j: usize = 0;
        while j < block_size
            invariant
                n == ct@.len(),
                i % 32 == 0,
                i + block_size <= n,
                block_size <= 32,
                j <= block_size,
                keystream@.len() == 32,
                keystream@ == sha256_digest(key@ + nonce@ + be32(block_idx)),
                block_idx == (i / 32) as u32,
                plain@.len() == i + j,
                forall|k: int| 0 <= k < i + j ==> #[trigger] plain@[k] == scan_keystream_xor(key@, nonce@, ct@)[k],
            decreases block_size - j,
        {
            assert((i + j) / 32 == i / 32 && (i + j) % 32 == j) by (nonlinear_arith)
                requires
                    i % 32 == 0,
                    j < 32,
            ;
            plain.push(ct[i + j] ^ keystream[j]);
            j = j + 1;
        }
        assert((i + 32) % 32 == 0) by (nonlinear_arith)
            requires
                i % 32 == 0,
        ;
        i = i + block_size;
    }
    assert(plain@ =~= scan_keystream_xor(key@, nonce@, ct@));
    plain
}

/// The key, nonce and cipher-text offsets of an encoded scan list.
fn scan_offsets(buf: &[u8]) -> (r: (usize, usize, usize, usize, usize))
    requires
        buf@.len() >= 8,
    ensures
        r.0 as int == scan_layout(buf@).0,
        r.1 as int == scan_layout(buf@).1,
        r.2 as int == scan_layout(buf@).2,
        r.3 as int == scan_layout(buf@).3,
        r.4 as int == scan_layout(buf@).4,
        r.0 <= r.1 <= r.2 <= r.3 <= r.4,
        r.1 == r.0 + 64,
        r.3 == r.2 + 32,
{
    let secret: Vec<u8> = vec![68u8, 69u8, 86u8, 95u8, 83u8, 67u8, 65u8, 78u8, 95u8, 83u8, 69u8, 67u8, 82u8, 69u8, 84u8, 95u8, 50u8, 48u8, 50u8, 54u8, 95u8, 99u8, 104u8, 97u8, 110u8, 103u8, 101u8, 95u8, 109u8, 101u8];
    let domain: Vec<u8> = vec![104u8, 97u8, 112u8, 112u8, 121u8, 109u8, 104u8, 46u8, 99u8, 111u8, 109u8];
    assert(secret@ == scan_secret());
    assert(domain@ == scan_domain());
    let mut seed: Vec<u8> = Vec::new();
    append_bytes(&mut seed, &secret);
    append_bytes(&mut seed, &slice_bytes(buf, 0, 8));
    append_bytes(&mut seed, &domain);
    assert(buf@.take(8) == buf@.subrange(0, 8));
    let digest = sha256(&seed);
    let off1 = (digest[0] as usize) % 24 + 8;
    let off2 = (digest[1] as usize) % 24 + 8;
    let off3 = (digest[2] as usize) % 24 + 8;
    let key_start = off1 + 8;
    let key_end = key_start + 64;
    let nonce_start = key_end + off2;
    let nonce_end = nonce_start + 32;
    let cipher_start = nonce_end + off3;
    (key_start, key_end, nonce_start, nonce_end, cipher_start)
}

/// Decodes an encoded scan list given as bytes.
pub fn decode_scans_bytes(buf: &[u8]) -> (r: Result<String, ScanError>)
    ensures
        match r {
            Ok(s) => decode_scans_spec(buf@) == Ok::<Seq<char>, ScanError>(s@),
            Err(e) => decode_scans_spec(buf@) == Err::<Seq<char>, ScanError>(e),
        },
{
    if buf.len() < 8 {
        return Err(ScanError::TooShort);
    }
    let (key_start, key_end, nonce_start, nonce_end, cipher_start) = scan_offsets(buf);
    if buf.len() < cipher_start {
        return Err(ScanError::OffsetsTooShort);
    }
    let key = match decode_hex(&slice_bytes(buf, key_start, key_end)) {
        Some(k) => k,
        None => return Err(ScanError::Hex),
    };
    let nonce = match decode_hex(&slice_bytes(buf, nonce_start, nonce_end)) {
        Some(n) => n,
        None => return Err(ScanError::Hex),
    };
    let rest = slice_bytes(buf, cipher_start, buf.len());
    assert(rest@ == buf@.skip(cipher_start as int));
    let ciphertext = match base64_decode(&rest) {
        Some(c) => c,
        None => return Err(ScanError::Base64),
    };
    let plain = keystream_xor(&key, &nonce, &ciphertext);
    let magic: Vec<u8> = vec![83u8, 67u8, 48u8, 49u8];
    if plain.len() < 4 || !crate::primitives::bytes_eq(&slice_bytes(&plain, 0, 4), &magic) {
        proof {
            if plain@.len() >= 4 {
                assert(plain@.take(4) == plain@.subrange(0, 4));
            }
        }
        return Err(ScanError::Magic);
    }
    assert(plain@.take(4) == plain@.subrange(0, 4));
    let payload = slice_bytes(&plain, 4, plain.len());
    assert(payload@ == plain@.skip(4));
    let decompressed = match inflate(&payload) {
        Some(d) => d,
        None => return Err(ScanError::Inflate),
    };
    match string_from_utf8(decompressed) {
        Some(s) => Ok(s),
        None => Err(ScanError::Utf8),
    }
}

/// The string slices that decoding takes (key, nonce, cipher text) start
/// and end on character boundaries, so that slicing the string succeeds.
pub open spec fn scan_slices_on_boundaries(buf: Seq<u8>) -> bool {
    buf.len() < 8 || ({
        let (key_start, key_end, nonce_start, nonce_end, cipher_start) = scan_layout(buf);
        buf.len() < cipher_start || (is_char_boundary(buf, key_start) && is_char_boundary(buf, key_end)
            && is_char_boundary(buf, nonce_start) && is_char_boundary(buf, nonce_end)
            && is_char_boundary(buf, cipher_start))
    })
}

/// Decodes the `scans` string of an encoded reading response: the JSON text
/// of the page list.
pub fn decode_scans(encrypted_scans: &str) -> (r: Result<String, ScanError>)
    requires
        scan_slices_on_boundaries(encrypted_scans.spec_bytes()),
    ensures
        match r {
            Ok(s) => decode_scans_spec(encrypted_scans.spec_bytes()) == Ok::<Seq<char>, ScanError>(s@),
            Err(e) => decode_scans_spec(encrypted_scans.spec_bytes()) == Err::<Seq<char>, ScanError>(e),
        },
{
    decode_scans_bytes(encrypted_scans.as_bytes())
}

/// Decodes a scan list whose slices may not fall on character boundaries:
/// `None` where slicing the string would fail, else what `decode_scans`
/// gives.
pub fn try_decode_scans(encrypted_scans: &str) -> (r: Option<Result<String, ScanError>>)
    ensures
        match r {
            None => !scan_slices_on_boundaries(encrypted_scans.spec_bytes()),
            Some(Ok(s)) => scan_slices_on_boundaries(encrypted_scans.spec_bytes()) && decode_scans_spec(
                encrypted_scans.spec_bytes(),
            ) == Ok::<Seq<char>, ScanError>(s@),
            Some(Err(e)) => scan_slices_on_boundaries(encrypted_scans.spec_bytes()) && decode_scans_spec(
                encrypted_scans.spec_bytes(),
            ) == Err::<Seq<char>, ScanError>(e),
        },
{
    let buf = encrypted_scans.as_bytes();
    if buf.len() >= 8 {
        let (key_start, key_end, nonce_start, nonce_end, cipher_start) = scan_offsets(buf);
        if buf.len() >= cipher_start {
            if !(encrypted_scans.is_char_boundary(key_start) && encrypted_scans.is_char_boundary(key_end)
                && encrypted_scans.is_char_boundary(nonce_start) && encrypted_scans.is_char_boundary(
                nonce_end,
            ) && encrypted_scans.is_char_boundary(cipher_start)) {
                return None;
            }
        }
    }
    Some(decode_scans(encrypted_scans))
}

// ---------------------------------------------------------------------------
// Analytics cookie timestamp
// ---------------------------------------------------------------------------

/// The checksum table of the analytics timestamp.
pub open spec fn ga_table(d: int) -> int {
    if d == 0 { 335 }
    else if d == 1 { 984 }
    else if d == 2 { 248 }
    else if d == 3 { 485 }
    else if d == 4 { 524 }
    else if d == 5 { 559 }
    else if d == 6 { 486 }
    else if d == 7 { 165 }
    else if d == 8 { 114 }
    else { 103 }
}

/// The three checksum digits: the first three digits of the table sum over
/// the last three decimal digits of `seconds`.
pub open spec fn ga_checksum(seconds: int) -> int {
    let sum = ga_table((seconds / 100) % 10) + ga_table((seconds / 10) % 10) + ga_table(seconds % 10);
    if sum >= 1000 {
        sum / 10
    } else {
        sum
    }
}

/// The analytics timestamp: the seconds followed by the three checksum digits,
/// or the milliseconds if that number does not fit in an `i64`.
pub open spec fn ga_timestamp_spec(seconds: int) -> int {
    let v = seconds * 1000 + ga_checksum(seconds);
    if v <= i64::MAX {
        v
    } else {
        seconds * 1000
    }
}

fn ga_entry(d: i64) -> (r: i64)
    requires
        0 <= d < 10,
    ensures
        r == ga_table(d as int),
        100 <= r <= 984,
{
    if d == 0 { 335 }
    else if d == 1 { 984 }
    else if d == 2 { 248 }
    else if d == 3 { 485 }
    else if d == 4 { 524 }
    else if d == 5 { 559 }
    else if d == 6 { 486 }
    else if d == 7 { 165 }
    else if d == 8 { 114 }
    else { 103 }
}

/// The analytics timestamp for the current time in seconds (the cookie that
/// the reading API checks).
pub fn ga_timestamp(seconds: i64) -> (r: i64)
    requires
        100 <= seconds,
        seconds * 1000 <= i64::MAX,
    ensures
        r == ga_timestamp_spec(seconds as int),
{
    let d1 = (seconds / 100) % 10;
    let d2 = (seconds / 10) % 10;
    let d3 = seconds % 10;
    let sum = ga_entry(d1) + ga_entry(d2) + ga_entry(d3);
    let checksum = if sum >= 1000 { sum / 10 } else { sum };
    let millis = seconds * 1000;
    if millis <= i64::MAX - checksum {
        millis + checksum
    } else {
        millis
    }
}

// ---------------------------------------------------------------------------
// Chapters and pages
// ---------------------------------------------------------------------------

/// The chapter list of a title, read page by page from the API.
pub struct ChapterList;

impl ChapterList {
    /// The API address of page `page` of the chapter list of `manga_id`.
    pub open spec fn page_url_spec(manga_id: Seq<char>, page: int) -> Seq<char> {
        BASE_URL@ + "/v2.0/apis/manga/chapterByPage?code="@ + manga_id + "&page="@ + crate::text::int_decimal(page)
            + "&lang=cn&order=asc"@
    }

    /// The API address of page `page` of the chapter list.
    pub fn page_url(manga_id: &str, page: i32) -> (r: String)
        ensures
            r@ == Self::page_url_spec(manga_id@, page as int),
    {
        let mut out = chars_of(BASE_URL);
        append_chars(&mut out, &chars_of("/v2.0/apis/manga/chapterByPage?code="));
        append_chars(&mut out, &chars_of(manga_id));
        append_chars(&mut out, &chars_of("&page="));
        append_chars(&mut out, &crate::text::i64_decimal(page as i64));
        append_chars(&mut out, &chars_of("&lang=cn&order=asc"));
        string_of(&out)
    }

    /// The reader address of chapter `id` of `manga_id`.
    pub fn chapter_url(manga_id: &str, id: &str) -> (r: String)
        ensures
            r@ == BASE_URL@ + "/mangaread/"@ + manga_id@ + "/"@ + id@,
    {
        let mut out = chars_of(BASE_URL);
        append_chars(&mut out, &chars_of("/mangaread/"));
        append_chars(&mut out, &chars_of(manga_id));
        append_chars(&mut out, &chars_of("/"));
        append_chars(&mut out, &chars_of(id));
        string_of(&out)
    }

    /// A title that ends in 卷 (after trimming) names a volume, not a chapter.
    pub fn is_volume_title(title: &str) -> (r: bool)
        ensures
            r == ends_with(trim(title@), seq!['卷']),
    {
        let t = trim_chars(&chars_of(title));
        let mut v: Vec<char> = Vec::new();
        v.push('卷');
        has_suffix(&t, &v)
    }

    /// The scanlator shown for a volume or a chapter.
    pub fn scanlator(is_volume: bool) -> (r: String)
        ensures
            r@ == (if is_volume { "单行本"@ } else { "默认"@ }),
    {
        if is_volume {
            string_of(&chars_of("单行本"))
        } else {
            string_of(&chars_of("默认"))
        }
    }
}

/// An image address without the `?q=` quality suffix and what follows it.
pub open spec fn strip_quality_spec(url: Seq<char>) -> Seq<char> {
    let i = find(url, "?q="@);
    if i >= 0 {
        url.take(i)
    } else {
        url
    }
}

/// Cuts an image address at its first `?q=`.
pub fn strip_quality(url: &str) -> (r: String)
    ensures
        r@ == strip_quality_spec(url@),
{
    let v = chars_of(url);
    match find_chars(&v, &chars_of("?q=")) {
        Some(i) => string_of(&slice_chars(&v, 0, i)),
        None => string_of(&v),
    }
}

/// The page image addresses of a scan list: entries of the current chapter
/// only (`n == 0`), each without its quality suffix.
pub open spec fn page_urls_spec(items: Seq<(i64, Seq<char>)>) -> Seq<Seq<char>>
    decreases items.len(),
{
    if items.len() == 0 {
        Seq::empty()
    } else {
        let prev = page_urls_spec(items.drop_last());
        if items.last().0 == 0 {
            prev.push(strip_quality_spec(items.last().1))
        } else {
            prev
        }
    }
}

/// The page image addresses of a scan list of `(n, url)` entries.
pub fn page_urls(items: &Vec<(i64, String)>) -> (r: Vec<String>)
    ensures
        r@.map_values(|s: String| s@) == page_urls_spec(items@.map_values(|e: (i64, String)| (e.0, e.1@))),
{
    let ghost spec_items = items@.map_values(|e: (i64, String)| (e.0, e.1@));
    let mut out: Vec<String> = Vec::new();
    let mut i: usize = 0;
    while i < items.len()
        invariant
            i <= items@.len(),
            spec_items == items@.map_values(|e: (i64, String)| (e.0, e.1@)),
            out@.map_values(|s: String| s@) == page_urls_spec(spec_items.take(i as int)),
        decreases items@.len() - i,
    {
        assert(spec_items.take(i + 1).drop_last() == spec_items.take(i as int));
        if items[i].0 == 0 {
            let ghost before = out@;
            let u = strip_quality(items[i].1.as_str());
            out.push(u);
            assert(out@.map_values(|s: String| s@) =~= before.map_values(|s: String| s@).push(u@));
        }
        i = i + 1;
    }
    assert(spec_items.take(items@.len() as int) == spec_items);
    out
}


/// The patterns tried in turn for a chapter number: the number of a
/// 第N话-style marker, a leading number.
pub open spec fn number_patterns() -> Seq<Seq<char>> {
    seq!["(?:第\\s*)(\\d+(?:\\.\\d+)?)\\s*(?:话|話|章|回|卷|册|冊)"@, "^(\\d+(?:\\.\\d+)?)"@]
}

/// The texts of a title that may give its chapter number, in the order they
/// are tried; the app takes the first that reads as a number
/// (`extract_chapter_number`).
pub fn chapter_number_candidates(title: &str) -> (r: Vec<String>)
    ensures
        crate::text::string_views(r@) == crate::primitives::present_texts(seq![
            crate::primitives::capture_spec(number_patterns()[0], title@, 1),
            crate::primitives::capture_spec(number_patterns()[1], title@, 1),
        ]),
{
    let a = crate::primitives::capture_group("(?:第\\s*)(\\d+(?:\\.\\d+)?)\\s*(?:话|話|章|回|卷|册|冊)", title, 1);
    let b = crate::primitives::capture_group("^(\\d+(?:\\.\\d+)?)", title, 1);
    let ghost opts = seq![crate::text::opt_view(a), crate::text::opt_view(b)];
    let mut out: Vec<String> = Vec::new();
    crate::baozimanhua::push_some(&mut out, a);
    crate::baozimanhua::push_some(&mut out, b);
    assert(opts.drop_last().drop_last() =~= Seq::<Option<Seq<char>>>::empty());
    proof {
        reveal_with_fuel(crate::primitives::present_texts, 3);
    }
    out
}

} // verus!

//! MinoTruyen: the CryptoJS "Salted__" AES-256-CBC passphrase decryption
//! that guards chapter data, and the helpers that read its pages.
use vstd::prelude::*;
use vstd::string::StringSliceAdditionalSpecFns;
use vstd::utf8::*;

use crate::model::{ContentRating, FilterValue, HomeKind, Viewer};
use crate::text::{
    after_last_char, after_last_char_chars, chars_of, contains_seq, find_chars, i64_decimal,
    int_decimal, join, join_strings, opt_str_view, opt_view, push_str, replace_char,
    replace_char_chars, str_eq, string_of, string_views,
};
use crate::primitives::{
    aes256_block_decrypt, aes256_decrypt_block, aes256_key_accepted, append_bytes, base64_decode,
    base64_standard_decode, bytes_eq, md5, md5_digest, slice_bytes, string_from_utf8, xor_bytes,
};

verus! {

// ---------------------------------------------------------------------------
// OpenSSL EVP_BytesToKey (MD5, one round)
// ---------------------------------------------------------------------------

/// The `n`-th MD5 block of the key derivation: the digest of the previous
/// block, the password and the salt.
pub open spec fn evp_block(password: Seq<u8>, salt: Seq<u8>, n: nat) -> Seq<u8>
    decreases n,
{
    let prev = if n == 0 {
        Seq::<u8>::empty()
    } else {
        evp_block(password, salt, (n - 1) as nat)
    };
    md5_digest(prev + password + salt)
}

/// The 48 derived bytes: key (32) followed by IV (16).
pub open spec fn evp_material(password: Seq<u8>, salt: Seq<u8>) -> Seq<u8> {
    evp_block(password, salt, 0) + evp_block(password, salt, 1) + evp_block(password, salt, 2)
}

/// OpenSSL-compatible key and IV from a password and an 8-byte salt.
pub fn evp_bytes_to_key(password: &[u8], salt: &[u8]) -> (r: (Vec<u8>, Vec<u8>))
    ensures
        r.0@ == evp_material(password@, salt@).subrange(0, 32),
        r.1@ == evp_material(password@, salt@).subrange(32, 48),
        r.0@.len() == 32,
        r.1@.len() == 16,
        evp_material(password@, salt@).len() == 48,
        r.0@ + r.1@ == evp_material(password@, salt@),
{
    let mut out: Vec<u8> = Vec::new();
    let mut prev: Vec<u8> = Vec::new();
    let mut n: usize = 0;
    while out.len() < 48
        invariant
            n <= 3,
            out@.len() == 16 * n,
            n == 0 ==> prev@ == Seq::<u8>::empty(),
            n > 0 ==> prev@ == evp_block(password@, salt@, (n - 1) as nat),
            n == 1 ==> out@ == evp_block(password@, salt@, 0),
            n == 2 ==> out@ == evp_block(password@, salt@, 0) + evp_block(password@, salt@, 1),
            n == 3 ==> out@ == evp_material(password@, salt@),
        decreases 3 - n,
    {
        let mut buf: Vec<u8> = Vec::new();
        append_bytes(&mut buf, &prev);
        append_bytes(&mut buf, password);
        append_bytes(&mut buf, salt);
        prev = md5(&buf);
        append_bytes(&mut out, &prev);
        n = n + 1;
    }
    let key = slice_bytes(&out, 0, 32);
    let iv = slice_bytes(&out, 32, 48);
    assert(key@ + iv@ =~= out@);
    (key, iv)
}

// ---------------------------------------------------------------------------
// AES-256-CBC
// ---------------------------------------------------------------------------

/// Block `b` of `data` (16 bytes).
pub open spec fn block_of(data: Seq<u8>, b: int) -> Seq<u8> {
    data.subrange(16 * b, 16 * b + 16)
}

/// The chaining value for block `b`: the IV, then the previous cipher block.
pub open spec fn cbc_prev(iv: Seq<u8>, data: Seq<u8>, b: int) -> Seq<u8> {
    if b == 0 {
        iv
    } else {
        block_of(data, b - 1)
    }
}

/// The plain text of the first `n` whole blocks.
pub open spec fn cbc_plain(key: Seq<u8>, iv: Seq<u8>, data: Seq<u8>, n: nat) -> Seq<u8>
    decreases n,
{
    if n == 0 {
        Seq::empty()
    } else {
        cbc_plain(key, iv, data, (n - 1) as nat) + xor_bytes(
            aes256_block_decrypt(key, block_of(data, n - 1)),
            cbc_prev(iv, data, n - 1),
        )
    }
}

/// What the decryption leaves: every whole block decrypted and chained, and
/// zeros where a trailing partial block stood.
pub open spec fn cbc_output(key: Seq<u8>, iv: Seq<u8>, data: Seq<u8>) -> Seq<u8> {
    cbc_plain(key, iv, data, data.len() / 16) + Seq::new(data.len() % 16, |i: int| 0u8)
}

proof fn lemma_cbc_plain(key: Seq<u8>, iv: Seq<u8>, data: Seq<u8>, n: nat, i: int)
    requires
        iv.len() == 16,
        n <= data.len() / 16,
        0 <= i < 16 * n,
        forall|c: int| 0 <= c < data.len() / 16 ==> #[trigger] aes256_block_decrypt(key, data.subrange(16 * c, 16 * c + 16)).len() == 16,
    ensures
        cbc_plain(key, iv, data, n).len() == 16 * n,
        cbc_plain(key, iv, data, n)[i] == aes256_block_decrypt(key, data.subrange(16 * (i / 16), 16 * (i / 16) + 16))[i % 16]
            ^ (if i < 16 { iv[i] } else { data[i - 16] }),
    decreases n,
{
    let m = (n - 1) as nat;
    assert(16 * m + 16 <= data.len()) by (nonlinear_arith)
        requires
            n <= data.len() / 16,
            m == n - 1,
            n >= 1,
    ;
    let dec = aes256_block_decrypt(key, data.subrange(16 * m as int, 16 * m as int + 16));
    assert(dec.len() == 16);
    let prev = cbc_prev(iv, data, m as int);
    assert(prev.len() == 16);
    if m > 0 {
        lemma_cbc_plain(key, iv, data, m, 0);
    }
    let p = cbc_plain(key, iv, data, m);
    assert(p.len() == 16 * m);
    if i < 16 * m {
        lemma_cbc_plain(key, iv, data, m, i);
    } else {
        let t = i - 16 * m;
        assert(i / 16 == m && i % 16 == t) by (nonlinear_arith)
            requires
                16 * m <= i < 16 * m + 16,
                t == i - 16 * m,
        ;
        assert(cbc_plain(key, iv, data, n)[i] == xor_bytes(dec, prev)[t]);
        if m > 0 {
            assert(prev[t] == data[16 * (m - 1) + t]);
        }
    }
}

/// CBC chaining: byte `i` of a whole decrypted block is that cipher block's
/// AES decryption xored with the cipher block before it, and with the IV for
/// the first block; the output is as long as the cipher text.
pub proof fn law_cbc_chaining(key: Seq<u8>, iv: Seq<u8>, data: Seq<u8>, i: int)
    requires
        iv.len() == 16,
        0 <= i < 16 * (data.len() / 16),
        forall|c: int| 0 <= c < data.len() / 16 ==> #[trigger] aes256_block_decrypt(key, data.subrange(16 * c, 16 * c + 16)).len() == 16,
    ensures
        cbc_output(key, iv, data).len() == data.len(),
        cbc_output(key, iv, data)[i] == aes256_block_decrypt(key, data.subrange(16 * (i / 16), 16 * (i / 16) + 16))[i % 16]
            ^ (if i < 16 { iv[i] } else { data[i - 16] }),
{
    lemma_cbc_plain(key, iv, data, (data.len() / 16) as nat, i);
    assert(16 * (data.len() / 16) + data.len() % 16 == data.len()) by (nonlinear_arith);
}

/// Why a decryption failed.
#[derive(Debug, Clone, Copy, PartialEq, Eq)]
pub enum DecryptError {
    /// The cipher refused the key.
    KeyLength,
    /// The input is not base64.
    Base64,
    /// The decoded input does not start with `Salted__` and a salt.
    InvalidData,
    /// The PKCS#7 padding is malformed.
    Padding,
    /// The plain text is not UTF-8.
    Utf8,
}

/// AES-256-CBC decryption without unpadding. The cipher takes 32-byte keys
/// only; a trailing partial block is left as zeros.
pub fn aes256_cbc_decrypt(key: &[u8], iv: &[u8], data: &[u8]) -> (r: Result<Vec<u8>, DecryptError>)
    requires
        data@.len() < 16 || iv@.len() == 16,
    ensures
        match r {
            Ok(out) => key@.len() == 32 && out@ == cbc_output(key@, iv@, data@) && forall|c: int|
                0 <= c < data@.len() / 16 ==> #[trigger] aes256_block_decrypt(key@, block_of(data@, c)).len() == 16,
            Err(e) => key@.len() != 32 && e == DecryptError::KeyLength,
        },
{
    if !aes256_key_accepted(key) {
        return Err(DecryptError::KeyLength);
    }
    let nblocks = data.len() / 16;
    let mut out: Vec<u8> = Vec::new();
    let mut b: usize = 0;
    while b < nblocks
        invariant
            b <= nblocks,
            nblocks == data@.len() / 16,
            data@.len() == data.len(),
            key@.len() == 32,
            data@.len() < 16 || iv@.len() == 16,
            out@ == cbc_plain(key@, iv@, data@, b as nat),
            forall|c: int| 0 <= c < b ==> #[trigger] aes256_block_decrypt(key@, block_of(data@, c)).len() == 16,
        decreases nblocks - b,
    {
        assert(16 * b + 16 <= data@.len()) by (nonlinear_arith)
            requires
                b < nblocks,
                nblocks == data@.len() / 16,
        ;
        let block = slice_bytes(data, 16 * b, 16 * b + 16);
        let dec = aes256_decrypt_block(key, &block);
        assert(block@ == block_of(data@, b as int));
        let prev = if b == 0 {
            slice_bytes(iv, 0, iv.len())
        } else {
            slice_bytes(data, 16 * b - 16, 16 * b)
        };
        assert(prev@ == cbc_prev(iv@, data@, b as int));
        let ghost before = out@;
        let mut j: usize = 0;
        while j < 16
            invariant
                j <= 16,
                dec@.len() == 16,
                prev@.len() == 16,
                out@ == before + xor_bytes(dec@, prev@).take(j as int),
                forall|c: int| 0 <= c <= b ==> #[trigger] aes256_block_decrypt(key@, block_of(data@, c)).len() == 16,
            decreases 16 - j,
        {
            out.push(dec[j] ^ prev[j]);
            j = j + 1;
            assert(xor_bytes(dec@, prev@).take(j as int) == xor_bytes(dec@, prev@).take(j - 1).push(
                dec@[j - 1] ^ prev@[j - 1],
            ));
        }
        assert(xor_bytes(dec@, prev@).take(16) == xor_bytes(dec@, prev@));
        b = b + 1;
    }
    assert(16 * nblocks <= data@.len() && data@.len() - 16 * nblocks == data@.len() % 16) by (
    nonlinear_arith)
        requires
            nblocks == data@.len() / 16,
    ;
    let rest = data.len() - 16 * nblocks;
    let ghost whole = out@;
    let mut k: usize = 0;
    while k < rest
        invariant
            k <= rest,
            out@ == whole + Seq::new(k as nat, |i: int| 0u8),
            forall|c: int| 0 <= c < data@.len() / 16 ==> #[trigger] aes256_block_decrypt(key@, block_of(data@, c)).len() == 16,
        decreases rest - k,
    {
        out.push(0);
        k = k + 1;
        assert(Seq::new(k as nat, |i: int| 0u8) == Seq::new((k - 1) as nat, |i: int| 0u8).push(0u8));
    }
    assert(rest == data@.len() % 16);
    Ok(out)
}

// ---------------------------------------------------------------------------
// PKCS#7
// ---------------------------------------------------------------------------

/// PKCS#7 padding removal with blocks of at most 16 bytes.
pub open spec fn pkcs7_unpad_spec(data: Seq<u8>) -> Option<Seq<u8>> {
    if data.len() == 0 {
        None
    } else {
        let pad = data.last() as int;
        if pad == 0 || pad > 16 || pad > data.len() {
            None
        } else if exists|i: int| data.len() - pad <= i < data.len() && data[i] != pad {
            None
        } else {
            Some(data.take(data.len() - pad))
        }
    }
}

/// Unpadding undoes PKCS#7 padding: a text followed by `p` bytes of value
/// `p` (1 to 16) gives the text back; and whatever unpads is the result
/// followed by such a padding.
pub proof fn law_pkcs7_round_trip(text: Seq<u8>, p: u8, data: Seq<u8>)
    ensures
        1 <= p <= 16 ==> pkcs7_unpad_spec(text + Seq::new(p as nat, |k: int| p)) == Some(text),
        pkcs7_unpad_spec(data) matches Some(r) ==> 1 <= data.last() <= 16 && data =~= r + Seq::new(
            data.last() as nat,
            |k: int| data.last(),
        ),
{
    if 1 <= p <= 16 {
        let d = text + Seq::new(p as nat, |k: int| p);
        assert(d.last() == p);
        assert(d.take(d.len() - p as int) =~= text);
    }
    if let Some(r) = pkcs7_unpad_spec(data) {
        let pad = data.last() as int;
        assert forall|i: int| 0 <= i < data.len() implies data[i] == (r + Seq::new(data.last() as nat, |k: int| data.last()))[i] by {
            if i >= data.len() - pad {
                assert(data[i] == pad);
            }
        }
    }
}

/// Removes PKCS#7 padding, or returns `None` when it is malformed.
pub fn pkcs7_unpad(data: &[u8]) -> (r: Option<Vec<u8>>)
    ensures
        match r {
            Some(v) => pkcs7_unpad_spec(data@) == Some(v@),
            None => pkcs7_unpad_spec(data@) is None,
        },
{
    if data.len() == 0 {
        return None;
    }
    let pad = data[data.len() - 1] as usize;
    if pad == 0 || pad > 16 || pad > data.len() {
        return None;
    }
    let mut i = data.len() - pad;
    while i < data.len()
        invariant
            data@.len() - pad <= i <= data@.len(),
            pad == data@.last() as int,
            forall|k: int| data@.len() - pad <= k < i ==> data@[k] == pad,
        decreases data@.len() - i,
    {
        if data[i] as usize != pad {
            return None;
        }
        i = i + 1;
    }
    Some(slice_bytes(data, 0, data.len() - pad))
}

// ---------------------------------------------------------------------------
// CryptoJS passphrase decryption
// ---------------------------------------------------------------------------

/// The ASCII bytes of `Salted__`.
pub open spec fn salted_magic() -> Seq<u8> {
    seq![83u8, 97u8, 108u8, 116u8, 101u8, 100u8, 95u8, 95u8]
}

/// What CryptoJS decryption with a passphrase gives for base64 text `b64` and
/// password bytes `password`.
pub open spec fn cryptojs_decrypt_spec(b64: Seq<u8>, password: Seq<u8>) -> Result<Seq<char>, DecryptError> {
    match base64_standard_decode(b64) {
        None => Err(DecryptError::Base64),
        Some(raw) => if raw.len() < 16 || raw.take(8) != salted_magic() {
            Err(DecryptError::InvalidData)
        } else {
            let salt = raw.subrange(8, 16);
            let data = raw.skip(16);
            let m = evp_material(password, salt);
            let plain = cbc_output(m.subrange(0, 32), m.subrange(32, 48), data);
            match pkcs7_unpad_spec(plain) {
                None => Err(DecryptError::Padding),
                Some(u) => if valid_utf8(u) {
                    Ok(decode_utf8(u))
                } else {
                    Err(DecryptError::Utf8)
                },
            }
        },
    }
}

/// Decrypts the base64 text of a CryptoJS `AES.encrypt(text, passphrase)`.
pub fn decrypt_cryptojs_passphrase(b64: &str, password: &str) -> (r: Result<String, DecryptError>)
    ensures
        match r {
            Ok(s) => cryptojs_decrypt_spec(b64.spec_bytes(), password.spec_bytes()) == Ok::<
                Seq<char>,
                DecryptError,
            >(s@),
            Err(e) => cryptojs_decrypt_spec(b64.spec_bytes(), password.spec_bytes()) == Err::<
                Seq<char>,
                DecryptError,
            >(e),
        },
{
    let raw = match base64_decode(b64.as_bytes()) {
        Some(raw) => raw,
        None => return Err(DecryptError::Base64),
    };
    if raw.len() < 16 {
        return Err(DecryptError::InvalidData);
    }
    let head = slice_bytes(&raw, 0, 8);
    let magic: Vec<u8> = vec![83u8, 97u8, 108u8, 116u8, 101u8, 100u8, 95u8, 95u8];
    assert(magic@ == salted_magic());
    if !bytes_eq(&head, &magic) {
        return Err(DecryptError::InvalidData);
    }
    let salt = slice_bytes(&raw, 8, 16);
    let data = slice_bytes(&raw, 16, raw.len());
    assert(data@ == raw@.skip(16));
    let (key, iv) = evp_bytes_to_key(password.as_bytes(), &salt);
    let decrypted = match aes256_cbc_decrypt(&key, &iv, &data) {
        Ok(d) => d,
        Err(e) => return Err(e),
    };
    let unpadded = match pkcs7_unpad(&decrypted) {
        Some(u) => u,
        None => return Err(DecryptError::Padding),
    };
    match string_from_utf8(unpadded) {
        Some(s) => Ok(s),
        None => Err(DecryptError::Utf8),
    }
}


// ---------------------------------------------------------------------------
// Page helpers
// ---------------------------------------------------------------------------

/// The scan for the first balanced `{...}` object from byte `i` on: `start`
/// is where the open object began, `count` its depth, `skip` the number of
/// opening braces still to pass over (a brace is passed over while its index
/// is below `skip`). The result is the first and last byte of the object.
pub open spec fn scan_object(b: Seq<u8>, i: int, start: Option<int>, count: int, skip: int) -> Option<(int, int)>
    decreases b.len() - i,
{
    if i < 0 || i >= b.len() {
        None
    } else if b[i] == 123u8 {
        if i < skip {
            scan_object(b, i + 1, start, count, skip - 1)
        } else {
            scan_object(b, i + 1, if start is None { Some(i) } else { start }, count + 1, skip)
        }
    } else if b[i] == 125u8 && count > 0 {
        if count == 1 {
            match start {
                Some(s) => Some((s, i)),
                None => None,
            }
        } else {
            scan_object(b, i + 1, start, count - 1, skip)
        }
    } else {
        scan_object(b, i + 1, start, count, skip)
    }
}

/// The text the object scan runs over: escaped quotes unescaped once.
pub open spec fn unescaped(input: Seq<char>) -> Seq<char> {
    crate::text::replace_all(crate::text::replace_all(input, "\\\""@, "\""@), "\\\\\""@, "\\\""@)
}

/// The next JSON object in a page's script (`extract_next_object`): after
/// unescaping, the first balanced `{...}` whose opening brace is not among
/// those skipped.
pub open spec fn next_object_spec(input: Seq<char>, skip: nat) -> Option<Seq<char>> {
    let b = encode_utf8(unescaped(input));
    match scan_object(b, 0, None, 0, skip as int) {
        Some((s, e)) => if 0 <= s <= e < b.len() && valid_utf8(b.subrange(s, e + 1)) {
            Some(decode_utf8(b.subrange(s, e + 1)))
        } else {
            None
        },
        None => None,
    }
}

/// The next JSON object in a page's script.
pub fn extract_next_object(input: &str, skip: Option<usize>) -> (r: Option<String>)
    ensures
        crate::text::opt_view(r) == next_object_spec(input@, match skip { Some(k) => k as nat, None => 0 }),
{
    let p1 = crate::text::chars_of("\\\"");
    let p2 = crate::text::chars_of("\\\\\"");
    proof {
        reveal_strlit("\\\"");
        reveal_strlit("\\\\\"");
    }
    let a = crate::text::replace_all_chars(&crate::text::chars_of(input), &p1, &crate::text::chars_of("\""));
    let b = crate::text::replace_all_chars(&a, &p2, &crate::text::chars_of("\\\""));
    let text = crate::text::string_of(&b);
    let bytes = text.as_str().as_bytes();
    let ghost bs = bytes@;
    let mut to_skip: usize = match skip {
        Some(k) => k,
        None => 0,
    };
    let ghost skip0: int = to_skip as int;
    assert(skip0 == (match skip { Some(k) => k as nat, None => 0nat }));
    assert(bs == encode_utf8(unescaped(input@)));
    let mut start: Option<usize> = None;
    let mut count: usize = 0;
    let mut i: usize = 0;
    while i < bytes.len()
        invariant
            i <= bs.len(),
            bs == bytes@,
            count <= i,
            count > 0 ==> start is Some,
            match start { Some(s) => s < i, None => true },
            bs == encode_utf8(unescaped(input@)),
            skip0 == (match skip { Some(k) => k as nat, None => 0nat }),
            scan_object(bs, 0, None, 0, skip0) == scan_object(bs, i as int, match start { Some(s) => Some(s as int), None => None }, count as int, to_skip as int),
        decreases bs.len() - i,
    {
        let c = bytes[i];
        if c == 123u8 {
            if i < to_skip {
                to_skip = to_skip - 1;
            } else {
                if start.is_none() {
                    start = Some(i);
                }
                count = count + 1;
            }
        } else if c == 125u8 && count > 0 {
            if count == 1 {
                match start {
                    Some(s) => {
                        let piece = crate::primitives::slice_bytes(bytes, s, i + 1);
                        assert(scan_object(bs, i as int, Some(s as int), 1, to_skip as int) == Some((s as int, i as int)));
                        assert(piece@ == bs.subrange(s as int, i + 1));
                        return crate::primitives::string_from_utf8(piece);
                    },
                    None => {
                        return None;
                    },
                }
            }
            count = count - 1;
        }
        i = i + 1;
    }
    None
}


/// The pattern of a chapter's data block: 32 hex-like characters, `:` and
/// the value.
pub open spec fn data_block_pattern() -> Seq<char> {
    "[a-z0-9]{32}:([^\\\\\"\\n]+)"@
}

/// The data block of a chapter page's script: the value after the first
/// `<32 characters>:` (`extract_data_chapter_block`).
pub fn extract_data_chapter_block(script: &str) -> (r: Option<String>)
    ensures
        crate::text::opt_view(r) == crate::primitives::capture_spec(data_block_pattern(), script@, 1),
{
    crate::primitives::capture_group("[a-z0-9]{32}:([^\\\\\"\\n]+)", script, 1)
}

/// `s` with its first character in upper case.
pub open spec fn capitalize_spec(s: Seq<char>) -> Seq<char> {
    if s.len() == 0 {
        Seq::empty()
    } else {
        crate::text::uppercase_char(s[0]) + s.drop_first()
    }
}

/// `s` with its first character in upper case (`capitalize`).
pub fn capitalize(s: &str) -> (r: String)
    ensures
        r@ == capitalize_spec(s@),
{
    let v = crate::text::chars_of(s);
    if v.len() == 0 {
        return String::new();
    }
    let first = crate::text::char_to_uppercase(v[0]);
    let mut out = crate::text::chars_of(first.as_str());
    let n = v.len();
    let rest = crate::text::slice_chars(&v, 1, n);
    assert(rest@ =~= s@.drop_first());
    crate::text::append_chars(&mut out, &rest);
    crate::text::string_of(&out)
}

/// What one category does to the rating and the reading direction.
pub open spec fn viewer_step(st: (ContentRating, Viewer), category: Seq<char>) -> (ContentRating, Viewer) {
    let l = crate::text::lowercase(category);
    if l == "smut"@ || l == "mature"@ || l == "18+"@ || l == "adult"@ {
        (ContentRating::NSFW, st.1)
    } else if l == "ecchi"@ || l == "16+"@ {
        (if st.0 != ContentRating::NSFW { ContentRating::Suggestive } else { st.0 }, st.1)
    } else if l == "webtoon"@ || l == "manhwa"@ || l == "manhua"@ {
        (st.0, Viewer::Webtoon)
    } else if l == "manga"@ {
        (st.0, Viewer::RightToLeft)
    } else {
        st
    }
}

/// The rating and reading direction after the categories, in order.
pub open spec fn viewer_fold(categories: Seq<Seq<char>>, kind: Seq<char>) -> (ContentRating, Viewer)
    decreases categories.len(),
{
    if categories.len() == 0 {
        (ContentRating::Unknown, if kind == "manga"@ { Viewer::RightToLeft } else { Viewer::LeftToRight })
    } else {
        viewer_step(viewer_fold(categories.drop_last(), kind), categories.last())
    }
}

/// The rating and reading direction of a title from its categories and its
/// kind (`get_viewer`).
pub fn get_viewer(categories: &Vec<String>, category: &str) -> (r: (ContentRating, Viewer))
    ensures
        r == viewer_fold(crate::text::string_views(categories@), category@),
{
    let ghost cs = crate::text::string_views(categories@);
    let mut nsfw = ContentRating::Unknown;
    let mut viewer = if crate::text::str_eq(category, "manga") {
        Viewer::RightToLeft
    } else {
        Viewer::LeftToRight
    };
    let mut i: usize = 0;
    assert(cs.take(0) =~= Seq::<Seq<char>>::empty());
    while i < categories.len()
        invariant
            i <= categories@.len(),
            cs == crate::text::string_views(categories@),
            (nsfw, viewer) == viewer_fold(cs.take(i as int), category@),
        decreases categories@.len() - i,
    {
        assert(cs.take(i + 1).drop_last() =~= cs.take(i as int));
        assert(cs.take(i + 1).last() == categories@[i as int]@);
        let l = crate::text::to_lowercase(categories[i].as_str());
        let l = l.as_str();
        if crate::text::str_eq(l, "smut") || crate::text::str_eq(l, "mature") || crate::text::str_eq(l, "18+") || crate::text::str_eq(l, "adult") {
            nsfw = ContentRating::NSFW;
        } else if crate::text::str_eq(l, "ecchi") || crate::text::str_eq(l, "16+") {
            if nsfw != ContentRating::NSFW {
                nsfw = ContentRating::Suggestive;
            }
        } else if crate::text::str_eq(l, "webtoon") || crate::text::str_eq(l, "manhwa") || crate::text::str_eq(l, "manhua") {
            viewer = Viewer::Webtoon;
        } else if crate::text::str_eq(l, "manga") {
            viewer = Viewer::RightToLeft;
        }
        i = i + 1;
    }
    assert(cs.take(cs.len() as int) =~= cs);
    (nsfw, viewer)
}

// ---------------------------------------------------------------------------
// Home page, search and addresses
// ---------------------------------------------------------------------------

/// The site.
pub const BASE_URL: &'static str = "https://minotruyenv5.xyz";

/// The API.
pub const API_URL: &'static str = "https://api.cloudkk.art";

/// Entries per search page.
pub const SEARCH_TAKE: i32 = 24;

/// The setting `type` asks for manga rather than comics.
pub fn is_manga(type_setting: Option<&str>) -> (r: bool)
    ensures
        r == (opt_str_view(type_setting) == Some("manga"@)),
{
    match type_setting {
        Some(t) => str_eq(t, "manga"),
        None => false,
    }
}

/// The category a page asks for.
pub open spec fn category_spec(manga: bool) -> Seq<char> {
    if manga { "manga"@ } else { "comics"@ }
}

/// The category a page asks for: `manga`, or `comics`.
pub fn category(manga: bool) -> (r: &'static str)
    ensures
        r@ == category_spec(manga),
{
    if manga { "manga" } else { "comics" }
}

/// The sections the home page announces before it loads any of them.
pub open spec fn layout_plan() -> Seq<(&'static str, HomeKind)> {
    seq![
        ("Truyện Nổi Bật", HomeKind::BigScroller),
        ("Mới Cập Nhật", HomeKind::MangaChapterList { page_size: None }),
        ("Top", HomeKind::Scroller),
    ]
}

/// The sections the home page announces first.
pub fn home_layout() -> (r: Vec<(&'static str, HomeKind)>)
    ensures
        r@ == layout_plan(),
{
    let r = vec![
        ("Truyện Nổi Bật", HomeKind::BigScroller),
        ("Mới Cập Nhật", HomeKind::MangaChapterList { page_size: None }),
        ("Top", HomeKind::Scroller),
    ];
    assert(r@ =~= layout_plan());
    r
}

/// The sections of the home page as they are sent: the featured carousel,
/// the "Top" ranking three titles a page, and the latest updates four
/// titles a page (sent only when the page's script has them).
pub open spec fn sections_plan() -> Seq<(&'static str, HomeKind)> {
    seq![
        ("Truyện Nổi Bật", HomeKind::BigScroller),
        ("Top", HomeKind::MangaList { ranking: true, page_size: Some(3) }),
        ("Mới Cập Nhật", HomeKind::MangaChapterList { page_size: Some(4) }),
    ]
}

/// The sections of the home page as they are sent (`get_home`).
pub fn home_sections() -> (r: Vec<(&'static str, HomeKind)>)
    ensures
        r@ == sections_plan(),
{
    let r = vec![
        ("Truyện Nổi Bật", HomeKind::BigScroller),
        ("Top", HomeKind::MangaList { ranking: true, page_size: Some(3) }),
        ("Mới Cập Nhật", HomeKind::MangaChapterList { page_size: Some(4) }),
    ];
    assert(r@ =~= sections_plan());
    r
}

/// Where the featured titles are read, ten of them.
pub fn featured_url(manga: bool) -> (r: String)
    ensures
        r@ == API_URL@ + "/api/books/top/featured?category="@ + category_spec(manga) + "&take=10"@,
{
    let mut a: Vec<char> = Vec::new();
    push_str(&mut a, API_URL);
    push_str(&mut a, "/api/books/top/featured?category=");
    push_str(&mut a, category(manga));
    push_str(&mut a, "&take=10");
    string_of(&a)
}

/// Where the ranking beside the home page is read.
pub fn side_home_url(manga: bool) -> (r: String)
    ensures
        r@ == API_URL@ + "/api/books/side-home?category="@ + category_spec(manga),
{
    let mut a: Vec<char> = Vec::new();
    push_str(&mut a, API_URL);
    push_str(&mut a, "/api/books/side-home?category=");
    push_str(&mut a, category(manga));
    string_of(&a)
}

/// The page whose script holds the latest updates.
pub fn latest_page_url(manga: bool) -> (r: String)
    ensures
        r@ == BASE_URL@ + "/"@ + category_spec(manga),
{
    let mut a: Vec<char> = Vec::new();
    push_str(&mut a, BASE_URL);
    push_str(&mut a, "/");
    push_str(&mut a, category(manga));
    string_of(&a)
}

/// What marks the script that carries the latest updates.
pub open spec fn latest_marker() -> Seq<char> {
    "self.__next_f.push([1,\"28:[["@
}

/// The script carries the latest updates.
pub open spec fn is_latest_script(html: Option<Seq<char>>) -> bool {
    match html {
        Some(h) => contains_seq(h, latest_marker()),
        None => false,
    }
}

/// The position of the last script that carries the latest updates; the
/// scripts are given by their markup, where they have any.
pub fn latest_script(scripts: &Vec<Option<String>>) -> (r: Option<usize>)
    ensures
        match r {
            Some(i) => i < scripts@.len() && is_latest_script(opt_view(scripts@[i as int]))
                && forall|k: int| i < k < scripts@.len() ==> !is_latest_script(#[trigger] opt_view(scripts@[k])),
            None => forall|k: int| 0 <= k < scripts@.len() ==> !is_latest_script(#[trigger] opt_view(scripts@[k])),
        },
{
    let marker = chars_of("self.__next_f.push([1,\"28:[[");
    let mut i: usize = scripts.len();
    while i > 0
        invariant
            i <= scripts@.len(),
            marker@ == latest_marker(),
            forall|k: int| i <= k < scripts@.len() ==> !is_latest_script(#[trigger] opt_view(scripts@[k])),
        decreases i,
    {
        let j = i - 1;
        match &scripts[j] {
            Some(h) => {
                if find_chars(&chars_of(h.as_str()), &marker).is_some() {
                    return Some(j);
                }
            },
            None => {},
        }
        i = j;
    }
    None
}

/// The flight payload of the latest-updates script: unescaped, without its
/// first 43 and last 14 bytes; none where that cut does not fall between
/// characters.
pub open spec fn flight_payload_spec(script: Seq<char>) -> Option<Seq<char>> {
    let b = encode_utf8(unescaped(script));
    let piece = b.subrange(43, b.len() - 14);
    if valid_utf8(piece) {
        Some(decode_utf8(piece))
    } else {
        None
    }
}

/// The flight payload of the latest-updates script.
pub fn flight_payload(script: &str) -> (r: Option<String>)
    requires
        encode_utf8(unescaped(script@)).len() >= 57,
    ensures
        opt_view(r) == flight_payload_spec(script@),
{
    let p1 = chars_of("\\\"");
    let p2 = chars_of("\\\\\"");
    proof {
        reveal_strlit("\\\"");
        reveal_strlit("\\\\\"");
    }
    let a = crate::text::replace_all_chars(&chars_of(script), &p1, &chars_of("\""));
    let b = crate::text::replace_all_chars(&a, &p2, &chars_of("\\\""));
    let text = string_of(&b);
    let bytes = text.as_str().as_bytes();
    assert(bytes@ == encode_utf8(unescaped(script@)));
    let piece = slice_bytes(bytes, 43, bytes.len() - 14);
    string_from_utf8(piece)
}

/// The value a search parameter carries, if any; `text::query_string_opt`
/// writes them percent-encoded.
pub open spec fn opt_params_view(ps: Seq<(String, Option<String>)>) -> Seq<(Seq<char>, Option<Seq<char>>)> {
    ps.map_values(|p: (String, Option<String>)| (p.0@, opt_view(p.1)))
}

/// The parameters a multi-select filter adds: its included genres as
/// `genres` and its excluded ones as `notgenres`, each only when there are
/// any.
pub open spec fn filter_params(f: FilterValue) -> Seq<(Seq<char>, Option<Seq<char>>)> {
    match f {
        FilterValue::MultiSelect { included, excluded, .. } =>
            (if included@.len() > 0 { seq![("genres"@, Some(join(string_views(included@), ","@)))] } else { seq![] })
            + (if excluded@.len() > 0 { seq![("notgenres"@, Some(join(string_views(excluded@), ","@)))] } else { seq![] }),
        _ => seq![],
    }
}

/// The parameters the filters add, in order.
pub open spec fn filters_params(fs: Seq<FilterValue>) -> Seq<(Seq<char>, Option<Seq<char>>)>
    decreases fs.len(),
{
    if fs.len() == 0 {
        seq![]
    } else {
        filters_params(fs.drop_last()) + filter_params(fs.last())
    }
}

/// The parameters of a search page: 24 a page, the page, the category of
/// the `type` setting, the query when there is one, then the filters'.
pub open spec fn search_params_spec(
    query: Option<Seq<char>>,
    page: i32,
    type_setting: Option<Seq<char>>,
    fs: Seq<FilterValue>,
) -> Seq<(Seq<char>, Option<Seq<char>>)> {
    seq![("take"@, Some("24"@)), ("page"@, Some(int_decimal(page as int))), ("category"@, type_setting)]
        + (match query {
            Some(q) => seq![("q"@, Some(q))],
            None => seq![],
        })
        + filters_params(fs)
}

fn push_opt(ps: &mut Vec<(String, Option<String>)>, key: &str, value: Option<String>)
    ensures
        opt_params_view(final(ps)@) == opt_params_view(old(ps)@).push((key@, opt_view(value))),
{
    let ghost before = ps@;
    ps.push((string_of(&chars_of(key)), value));
    assert(opt_params_view(ps@) =~= opt_params_view(before).push((key@, opt_view(value))));
}

/// The query parameters of a search page (`get_search_manga_list`).
pub fn search_params(
    query: Option<&str>,
    page: i32,
    type_setting: Option<&str>,
    filters: &[FilterValue],
) -> (r: Vec<(String, Option<String>)>)
    ensures
        opt_params_view(r@) == search_params_spec(opt_str_view(query), page, opt_str_view(type_setting), filters@),
{
    let mut ps: Vec<(String, Option<String>)> = Vec::new();
    push_opt(&mut ps, "take", Some(string_of(&chars_of("24"))));
    push_opt(&mut ps, "page", Some(string_of(&i64_decimal(page as i64))));
    let t = match type_setting {
        Some(t) => Some(string_of(&chars_of(t))),
        None => None,
    };
    push_opt(&mut ps, "category", t);
    if let Some(q) = query {
        push_opt(&mut ps, "q", Some(string_of(&chars_of(q))));
    }
    let ghost head = opt_params_view(ps@);
    let mut i: usize = 0;
    assert(filters@.take(0) =~= Seq::<FilterValue>::empty());
    while i < filters.len()
        invariant
            i <= filters@.len(),
            opt_params_view(ps@) == head + filters_params(filters@.take(i as int)),
        decreases filters@.len() - i,
    {
        assert(filters@.take(i + 1).drop_last() =~= filters@.take(i as int));
        assert(filters@.take(i + 1).last() == filters@[i as int]);
        let ghost mid = opt_params_view(ps@);
        match &filters[i] {
            FilterValue::MultiSelect { included, excluded, .. } => {
                if included.len() > 0 {
                    push_opt(&mut ps, "genres", Some(join_strings(included, ",")));
                }
                let ghost mid2 = opt_params_view(ps@);
                if excluded.len() > 0 {
                    push_opt(&mut ps, "notgenres", Some(join_strings(excluded, ",")));
                }
                assert(opt_params_view(ps@) =~= mid + filter_params(filters@[i as int]));
            },
            _ => {
                assert(opt_params_view(ps@) =~= mid + filter_params(filters@[i as int]));
            },
        }
        i = i + 1;
    }
    assert(filters@.take(filters@.len() as int) =~= filters@);
    assert(opt_params_view(ps@) =~= search_params_spec(opt_str_view(query), page, opt_str_view(type_setting), filters@));
    ps
}

/// Whether a search has a page after `page`: the book count, where the
/// answer gives one, exceeds the books up to it.
pub fn has_next_page(count: Option<i64>, page: i32) -> (r: bool)
    requires
        i32::MIN <= page * 24 <= i32::MAX,
    ensures
        r == match count {
            Some(c) => c > page * 24,
            None => false,
        },
{
    match count {
        Some(c) => c > (page * SEARCH_TAKE) as i64,
        None => false,
    }
}

/// The path of a title on the site: its key with each `/` read as
/// `/books/`.
pub open spec fn book_path(key: Seq<char>) -> Seq<char> {
    replace_char(key, '/', "/books/"@)
}

/// The page of a title's details.
pub fn details_url(key: &str) -> (r: String)
    ensures
        r@ == BASE_URL@ + "/"@ + book_path(key@),
{
    let mut a: Vec<char> = Vec::new();
    push_str(&mut a, BASE_URL);
    push_str(&mut a, "/");
    let p = replace_char_chars(&chars_of(key), '/', "/books/");
    crate::text::append_chars(&mut a, &p);
    string_of(&a)
}

/// The chapter list of a title: its id is what follows the key's last `-`.
pub fn chapters_url(key: &str) -> (r: String)
    ensures
        r@ == API_URL@ + "/api/chapters/"@ + after_last_char(key@, '-') + "?order=desc&take=5000"@,
{
    let mut a: Vec<char> = Vec::new();
    push_str(&mut a, API_URL);
    push_str(&mut a, "/api/chapters/");
    let id = after_last_char_chars(&chars_of(key), '-');
    crate::text::append_chars(&mut a, &id);
    push_str(&mut a, "?order=desc&take=5000");
    string_of(&a)
}

/// The page of a chapter.
pub fn chapter_page_url(manga_key: &str, chapter_key: &str) -> (r: String)
    ensures
        r@ == BASE_URL@ + "/"@ + book_path(manga_key@) + "/"@ + chapter_key@,
{
    let mut a: Vec<char> = Vec::new();
    push_str(&mut a, BASE_URL);
    push_str(&mut a, "/");
    let p = replace_char_chars(&chars_of(manga_key), '/', "/books/");
    crate::text::append_chars(&mut a, &p);
    push_str(&mut a, "/");
    push_str(&mut a, chapter_key);
    string_of(&a)
}

/// The image server used when the setting names none.
pub const DEFAULT_SERVER: &'static str = "TT2";

/// The server whose pages are shown: the first named as the setting (or
/// `TT2`) says, else the first; none when there are no servers.
pub fn select_server(clouds: &Vec<String>, setting: Option<&str>) -> (r: Option<usize>)
    ensures
        clouds@.len() == 0 ==> r is None,
        clouds@.len() > 0 ==> r is Some,
        r matches Some(i) ==> i < clouds@.len() && {
            let want = match setting {
                Some(s) => s@,
                None => DEFAULT_SERVER@,
            };
            ||| clouds@[i as int]@ == want && forall|k: int| 0 <= k < i ==> #[trigger] clouds@[k]@ != want
            ||| i == 0 && forall|k: int| 0 <= k < clouds@.len() ==> #[trigger] clouds@[k]@ != want
        },
{
    if clouds.len() == 0 {
        return None;
    }
    let want: &str = match setting {
        Some(s) => s,
        None => DEFAULT_SERVER,
    };
    let mut i: usize = 0;
    while i < clouds.len()
        invariant
            i <= clouds@.len(),
            want@ == match setting {
                Some(s) => s@,
                None => DEFAULT_SERVER@,
            },
            forall|k: int| 0 <= k < i ==> #[trigger] clouds@[k]@ != want@,
        decreases clouds@.len() - i,
    {
        if str_eq(clouds[i].as_str(), want) {
            return Some(i);
        }
        i = i + 1;
    }
    Some(0)
}

/// A page image is drawn by the rights-management tool only when its
/// context carries non-empty `drm_data`.
pub fn needs_drm(drm_data: Option<&str>) -> (r: bool)
    ensures
        r == match drm_data {
            Some(d) => d@.len() > 0,
            None => false,
        },
{
    match drm_data {
        Some(d) => !d.is_empty(),
        None => false,
    }
}

} // verus!

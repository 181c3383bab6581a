//! JMComic: its API authentication, the AES-ECB envelope of API responses,
//! blocking rules, how albums map to status, rating and reading direction,
//! and the unscrambling of chapter images.
use vstd::prelude::*;
use vstd::string::StringSliceAdditionalSpecFns;
use vstd::utf8::*;

use crate::primitives::{
    aes256_block_decrypt, aes256_decrypt_block, aes256_key_accepted, append_bytes, base64_decode,
    base64_standard_decode, hex_lower, md5, md5_digest, slice_bytes, to_hex_lower,
};
use crate::text::{
    all_ascii_digits, all_digits, append_chars, chars_eq, chars_of, contains_seq, decimal,
    ends_with, find, find_chars, has_prefix, has_suffix, lowercase, slice_chars, starts_with,
    string_of, to_lowercase, trim, trim_chars, trim_end_char, trim_end_char_chars, trim_start_seq,
    trim_start_seq_chars, u64_decimal, opt_view, opt_str_view, encode_component_spec,
    encode_uri_component,
};

use crate::model::{ContentRating, FilterValue, ListingRef, MangaStatus, Viewer};

verus! {

/// The web site's address.
pub const WEB_URL: &'static str = "https://18comic.vip";

/// The address that relative promotion images hang off.
pub const PROMOTE_WEB_URL: &'static str = "https://jmcomic-zzz.one";

/// Entries per search page.
pub const PAGE_SIZE: i32 = 80;

/// The first chapter id whose images are scrambled.
pub const SCRAMBLE_ID: u64 = 220980;

/// The app version sent with each request.
pub const JM_VERSION: &'static str = "2.0.16";

/// The secret hashed into the request token.
pub const JM_AUTH_KEY: &'static str = "18comicAPPContent";

/// The secret hashed into the response key.
pub const JM_DATA_SECRET: &'static str = "185Hcomic3PAPP7R";

/// The secret of the domain list.
pub const DOMAIN_REFRESH_SECRET: &'static str = "diosfjckwpqpdfjkvnqQjsik";

/// Why an API step failed.
#[derive(Debug, Clone, Copy, PartialEq, Eq)]
pub enum JmError {
    /// The cipher text is empty or not a whole number of blocks.
    Length,
    /// The cipher refused the key.
    Key,
    /// The padding byte is out of range.
    Padding,
    /// The response is not base64.
    Base64,
    /// The decrypted text is not UTF-8.
    Utf8,
    /// The decrypted text is empty.
    Empty,
    /// No JSON value lies between the delimiters found.
    Bounds,
    /// A search found nothing on its first page.
    NothingFound,
    /// A listing id that the source does not know.
    UnknownListing,
    /// A web page held no entry that could be read.
    PageParse,
}

// ---------------------------------------------------------------------------
// Text to bytes
// ---------------------------------------------------------------------------

/// The bytes of characters below U+0080, one each.
pub open spec fn ascii_bytes(s: Seq<char>) -> Seq<u8> {
    s.map_values(|c: char| (c as u32) as u8)
}

/// Characters of bytes, one each (the bytes are ASCII here).
pub open spec fn byte_chars(s: Seq<u8>) -> Seq<char> {
    s.map_values(|b: u8| b as char)
}

fn ascii_bytes_of(v: &[char]) -> (r: Vec<u8>)
    ensures
        r@ == ascii_bytes(v@),
{
    let mut r: Vec<u8> = Vec::new();
    let mut i: usize = 0;
    while i < v.len()
        invariant
            i <= v@.len(),
            r@ == ascii_bytes(v@.take(i as int)),
        decreases v@.len() - i,
    {
        r.push((v[i] as u32) as u8);
        i = i + 1;
        assert(ascii_bytes(v@.take(i as int)) =~= ascii_bytes(v@.take(i - 1)).push(
            (v@[i - 1] as u32) as u8,
        ));
    }
    assert(v@.take(v@.len() as int) == v@);
    r
}

fn chars_of_bytes(v: &[u8]) -> (r: Vec<char>)
    ensures
        r@ == byte_chars(v@),
{
    let mut r: Vec<char> = Vec::new();
    let mut i: usize = 0;
    while i < v.len()
        invariant
            i <= v@.len(),
            r@ == byte_chars(v@.take(i as int)),
        decreases v@.len() - i,
    {
        r.push(v[i] as char);
        i = i + 1;
        assert(byte_chars(v@.take(i as int)) =~= byte_chars(v@.take(i - 1)).push(v@[i - 1] as char));
    }
    assert(v@.take(v@.len() as int) == v@);
    r
}

// ---------------------------------------------------------------------------
// Addresses
// ---------------------------------------------------------------------------

/// An image host as configured: trimmed, without trailing slashes, and only
/// if it is an `http` address.
pub open spec fn cdn_base_spec(url: Seq<char>) -> Option<Seq<char>> {
    let t = trim_end_char(trim(url), '/');
    if t.len() > 0 && starts_with(t, "http"@) {
        Some(t)
    } else {
        None
    }
}

/// Normalizes the image host of the settings response.
pub fn normalize_cdn_base(url: &str) -> (r: Option<String>)
    ensures
        match r {
            Some(s) => cdn_base_spec(url@) == Some(s@),
            None => cdn_base_spec(url@) is None,
        },
{
    let t = trim_end_char_chars(&trim_chars(&chars_of(url)), '/');
    if t.len() > 0 && has_prefix(&t, &chars_of("http")) {
        Some(string_of(&t))
    } else {
        None
    }
}

/// An API domain as listed: trimmed, without scheme or trailing slashes.
pub open spec fn domain_spec(domain: Seq<char>) -> Option<Seq<char>> {
    let d = trim_end_char(trim_start_seq(trim_start_seq(trim(domain), "https://"@), "http://"@), '/');
    if d.len() > 0 {
        Some(d)
    } else {
        None
    }
}

/// Normalizes one domain of the domain list.
pub fn normalize_domain(domain: &str) -> (r: Option<String>)
    ensures
        match r {
            Some(s) => domain_spec(domain@) == Some(s@),
            None => domain_spec(domain@) is None,
        },
{
    let t = trim_chars(&chars_of(domain));
    let t = trim_start_seq_chars(&t, &chars_of("https://"));
    let t = trim_start_seq_chars(&t, &chars_of("http://"));
    let d = trim_end_char_chars(&t, '/');
    if d.len() > 0 {
        Some(string_of(&d))
    } else {
        None
    }
}

/// The domains of a domain list, normalized, each once, in order.
pub open spec fn domains_spec(list: Seq<Seq<char>>) -> Seq<Seq<char>>
    decreases list.len(),
{
    if list.len() == 0 {
        Seq::empty()
    } else {
        let prev = domains_spec(list.drop_last());
        match domain_spec(list.last()) {
            Some(d) => if prev.contains(d) {
                prev
            } else {
                prev.push(d)
            },
            None => prev,
        }
    }
}

/// The domain list keeps each usable domain exactly once: no domain comes
/// twice, and every entry that normalizes to a domain is represented.
pub proof fn law_domains_distinct(list: Seq<Seq<char>>)
    ensures
        forall|i: int, j: int|
            0 <= i < j < domains_spec(list).len() ==> domains_spec(list)[i] != domains_spec(list)[j],
        forall|k: int|
            0 <= k < list.len() && domain_spec(list[k]) is Some ==> domains_spec(list).contains(
                domain_spec(#[trigger] list[k])->0,
            ),
    decreases list.len(),
{
    if list.len() > 0 {
        let init = list.drop_last();
        law_domains_distinct(init);
        let prev = domains_spec(init);
        let cur = domains_spec(list);
        assert forall|k: int|
            0 <= k < list.len() && domain_spec(list[k]) is Some implies cur.contains(
                domain_spec(#[trigger] list[k])->0,
            ) by {
            if k < init.len() {
                assert(list[k] == init[k]);
                let d = domain_spec(init[k])->0;
                let m = choose|m: int| 0 <= m < prev.len() && prev[m] == d;
                assert(cur[m] == prev[m]);
            } else {
                assert(list[k] == list.last());
                if !prev.contains(domain_spec(list.last())->0) {
                    assert(cur[cur.len() - 1] == domain_spec(list.last())->0);
                }
            }
        }
    }
}

/// Normalizes and deduplicates a domain list.
pub fn normalize_domains(list: &Vec<String>) -> (r: Vec<String>)
    ensures
        r@.map_values(|s: String| s@) == domains_spec(list@.map_values(|s: String| s@)),
{
    let ghost views = list@.map_values(|s: String| s@);
    let mut out: Vec<String> = Vec::new();
    let mut i: usize = 0;
    while i < list.len()
        invariant
            i <= list@.len(),
            views == list@.map_values(|s: String| s@),
            out@.map_values(|s: String| s@) == domains_spec(views.take(i as int)),
        decreases list@.len() - i,
    {
        assert(views.take(i + 1).drop_last() == views.take(i as int));
        assert(views.take(i + 1).last() == list@[i as int]@);
        if let Some(d) = normalize_domain(list[i].as_str()) {
            let dv = chars_of(d.as_str());
            let mut found = false;
            let mut k: usize = 0;
            while k < out.len()
                invariant
                    k <= out@.len(),
                    dv@ == d@,
                    found == (exists|m: int| 0 <= m < k && out@[m]@ == d@),
                decreases out@.len() - k,
            {
                if chars_eq(&chars_of(out[k].as_str()), &dv) {
                    found = true;
                }
                k = k + 1;
            }
            assert(found == out@.map_values(|s: String| s@).contains(d@)) by {
                if found {
                    let m = choose|m: int| 0 <= m < out@.len() && out@[m]@ == d@;
                    assert(out@.map_values(|s: String| s@)[m] == d@);
                }
                if out@.map_values(|s: String| s@).contains(d@) {
                    let vs = out@.map_values(|s: String| s@);
                    let m = choose|m: int| 0 <= m < vs.len() && #[trigger] vs[m] == d@;
                    assert(out@[m]@ == d@);
                }
            }
            if !found {
                let ghost before = out@;
                out.push(d);
                assert(out@.map_values(|s: String| s@) =~= before.map_values(|s: String| s@).push(
                    dv@,
                ));
            }
        }
        i = i + 1;
    }
    assert(views.take(list@.len() as int) == views);
    out
}

/// API path of an album.
pub fn album_path(id: &str) -> (r: String)
    ensures
        r@ == "/album?id="@ + id@,
{
    let mut out = chars_of("/album?id=");
    append_chars(&mut out, &chars_of(id));
    string_of(&out)
}

/// API path of a chapter.
pub fn chapter_path(id: &str) -> (r: String)
    ensures
        r@ == "/chapter?id="@ + id@,
{
    let mut out = chars_of("/chapter?id=");
    append_chars(&mut out, &chars_of(id));
    string_of(&out)
}

/// API path of a page of promotions.
pub fn promote_path(page: i32) -> (r: String)
    ensures
        r@ == "/promote?page="@ + crate::text::int_decimal(page as int),
{
    let mut out = chars_of("/promote?page=");
    append_chars(&mut out, &crate::text::i64_decimal(page as i64));
    string_of(&out)
}

/// API path of the settings for an image server.
pub fn setting_path(shunt: u8) -> (r: String)
    ensures
        r@ == "/setting?app_img_shunt="@ + decimal(shunt as nat) + "&express="@,
{
    let mut out = chars_of("/setting?app_img_shunt=");
    append_chars(&mut out, &u64_decimal(shunt as u64));
    append_chars(&mut out, &chars_of("&express="));
    string_of(&out)
}

/// API path of a search page: the query, and the category when there is
/// one, percent-encoded as URI components.
pub fn search_path(query: &str, order: &str, category: &str, page: i32) -> (r: String)
    ensures
        r@ == "/search?search_query="@ + encode_component_spec(query@) + "&o="@ + order@ + (if category@.len()
            == 0 {
            Seq::empty()
        } else {
            "&c="@ + encode_component_spec(category@)
        }) + "&page="@ + crate::text::int_decimal(page as int),
{
    let mut out = chars_of("/search?search_query=");
    append_chars(&mut out, &chars_of(encode_uri_component(query).as_str()));
    append_chars(&mut out, &chars_of("&o="));
    append_chars(&mut out, &chars_of(order));
    if chars_of(category).len() > 0 {
        append_chars(&mut out, &chars_of("&c="));
        append_chars(&mut out, &chars_of(encode_uri_component(category).as_str()));
    } else {
        assert(out@ + Seq::<char>::empty() =~= out@);
    }
    append_chars(&mut out, &chars_of("&page="));
    append_chars(&mut out, &crate::text::i64_decimal(page as i64));
    string_of(&out)
}

/// API path of a catalogue page: the order, and the category when there is
/// one, percent-encoded as a URI component.
pub fn filter_path(order: &str, category: &str, page: i32) -> (r: String)
    ensures
        r@ == "/categories/filter?o="@ + order@ + (if category@.len() == 0 {
            Seq::empty()
        } else {
            "&c="@ + encode_component_spec(category@)
        }) + "&page="@ + crate::text::int_decimal(page as int),
{
    let mut out = chars_of("/categories/filter?o=");
    append_chars(&mut out, &chars_of(order));
    if chars_of(category).len() > 0 {
        append_chars(&mut out, &chars_of("&c="));
        append_chars(&mut out, &chars_of(encode_uri_component(category).as_str()));
    } else {
        assert(out@ + Seq::<char>::empty() =~= out@);
    }
    append_chars(&mut out, &chars_of("&page="));
    append_chars(&mut out, &crate::text::i64_decimal(page as i64));
    string_of(&out)
}

/// The form body of a login: user name and password, percent-encoded as
/// URI components.
pub fn login_body(username: &str, password: &str) -> (r: String)
    ensures
        r@ == "username="@ + encode_component_spec(username@) + "&password="@ + encode_component_spec(password@),
{
    let mut out = chars_of("username=");
    append_chars(&mut out, &chars_of(encode_uri_component(username).as_str()));
    append_chars(&mut out, &chars_of("&password="));
    append_chars(&mut out, &chars_of(encode_uri_component(password).as_str()));
    string_of(&out)
}

/// API path of the login form.
pub fn login_path() -> (r: &'static str)
    ensures
        r@ == "/login"@,
{
    "/login"
}

/// The cover of an album on the image host.
pub fn cover_url(cdn_base: &str, id: &str) -> (r: String)
    ensures
        r@ == cdn_base@ + "/media/albums/"@ + id@ + "_3x4.jpg"@,
{
    let mut out = chars_of(cdn_base);
    append_chars(&mut out, &chars_of("/media/albums/"));
    append_chars(&mut out, &chars_of(id));
    append_chars(&mut out, &chars_of("_3x4.jpg"));
    string_of(&out)
}

/// The cover an entry shows: its own image if it has one, else the album
/// cover on the image host.
pub fn resolve_cover(cdn_base: &str, id: &str, image: Option<&str>) -> (r: String)
    ensures
        match image {
            Some(i) if i@.len() > 0 => r@ == i@,
            _ => r@ == cdn_base@ + "/media/albums/"@ + id@ + "_3x4.jpg"@,
        },
{
    match image {
        Some(i) => {
            if !i.is_empty() {
                string_of(&chars_of(i))
            } else {
                cover_url(cdn_base, id)
            }
        },
        None => cover_url(cdn_base, id),
    }
}

// ---------------------------------------------------------------------------
// Request authentication
// ---------------------------------------------------------------------------

/// The request token: lower-case hex MD5 of the timestamp and the app secret.
pub open spec fn token_spec(ts: u64) -> Seq<char> {
    byte_chars(hex_lower(md5_digest(ascii_bytes(decimal(ts as nat) + JM_AUTH_KEY@))))
}

/// The `tokenparam` header: the timestamp and the app version.
pub open spec fn tokenparam_spec(ts: u64) -> Seq<char> {
    decimal(ts as nat) + ","@ + JM_VERSION@
}

/// The `token` and `tokenparam` headers for a request at time `ts`.
pub fn api_auth(ts: u64) -> (r: (String, String))
    ensures
        r.0@ == token_spec(ts),
        r.1@ == tokenparam_spec(ts),
{
    let digits = u64_decimal(ts);
    let mut seed = slice_chars(&digits, 0, digits.len());
    assert(seed@ == digits@);
    append_chars(&mut seed, &chars_of(JM_AUTH_KEY));
    let hex = to_hex_lower(&md5(&ascii_bytes_of(&seed)));
    let token = string_of(&chars_of_bytes(&hex));
    let mut param = slice_chars(&digits, 0, digits.len());
    assert(param@ == digits@);
    append_chars(&mut param, &chars_of(","));
    append_chars(&mut param, &chars_of(JM_VERSION));
    (token, string_of(&param))
}

// ---------------------------------------------------------------------------
// Response envelope
// ---------------------------------------------------------------------------

/// The AES key for a secret: the 32 ASCII bytes of its lower-case hex MD5.
pub open spec fn aes_key_spec(secret: Seq<u8>) -> Seq<u8> {
    hex_lower(md5_digest(secret))
}

/// Derives the AES-256 key from a secret.
pub fn derive_aes_key(secret: &str) -> (r: [u8; 32])
    ensures
        r@ == aes_key_spec(secret.spec_bytes()),
{
    let hex = to_hex_lower(&md5(secret.as_bytes()));
    let mut key = [0u8; 32];
    let mut i: usize = 0;
    while i < 32
        invariant
            i <= 32,
            hex@.len() == 32,
            forall|k: int| 0 <= k < i ==> key@[k] == hex@[k],
        decreases 32 - i,
    {
        key[i] = hex[i];
        i = i + 1;
    }
    assert(key@ =~= hex@);
    key
}

/// The whole blocks of `data` each decrypted on their own.
pub open spec fn ecb_plain(key: Seq<u8>, data: Seq<u8>, n: nat) -> Seq<u8>
    decreases n,
{
    if n == 0 {
        Seq::empty()
    } else {
        ecb_plain(key, data, (n - 1) as nat) + aes256_block_decrypt(
            key,
            data.subrange(16 * (n - 1), 16 * (n as int)),
        )
    }
}

/// AES-256-ECB decryption of a response, with the trailing padding count
/// removed (the padding bytes themselves are not checked).
pub open spec fn ecb_decrypt_spec(ct: Seq<u8>, key: Seq<u8>) -> Result<Seq<u8>, JmError> {
    if ct.len() == 0 || ct.len() % 16 != 0 {
        Err(JmError::Length)
    } else if key.len() != 32 {
        Err(JmError::Key)
    } else {
        let data = ecb_plain(key, ct, ct.len() / 16);
        let pad = data.last() as int;
        if pad == 0 || pad > 16 || data.len() < pad {
            Err(JmError::Padding)
        } else {
            Ok(data.take(data.len() - pad))
        }
    }
}

/// Decrypts an AES-256-ECB response body.
pub fn aes256_ecb_decrypt(ciphertext: &[u8], key: &[u8; 32]) -> (r: Result<Vec<u8>, JmError>)
    ensures
        match r {
            Ok(v) => ecb_decrypt_spec(ciphertext@, key@) == Ok::<Seq<u8>, JmError>(v@),
            Err(e) => ecb_decrypt_spec(ciphertext@, key@) == Err::<Seq<u8>, JmError>(e),
        },
{
    if ciphertext.len() == 0 || ciphertext.len() % 16 != 0 {
        return Err(JmError::Length);
    }
    let key_slice = key.as_slice();
    if !aes256_key_accepted(key_slice) {
        return Err(JmError::Key);
    }
    let nblocks = ciphertext.len() / 16;
    let mut data: Vec<u8> = Vec::new();
    let mut b: usize = 0;
    while b < nblocks
        invariant
            b <= nblocks,
            nblocks == ciphertext@.len() / 16,
            ciphertext@.len() == ciphertext.len(),
            key_slice@ == key@,
            key@.len() == 32,
            data@ == ecb_plain(key@, ciphertext@, b as nat),
            data@.len() == 16 * b,
        decreases nblocks - b,
    {
        assert(16 * b + 16 <= ciphertext@.len()) by (nonlinear_arith)
            requires
                b < nblocks,
                nblocks == ciphertext@.len() / 16,
        ;
        let block = slice_bytes(ciphertext, 16 * b, 16 * b + 16);
        let dec = aes256_decrypt_block(key_slice, &block);
        append_bytes(&mut data, &dec);
        b = b + 1;
    }
    assert(data@.len() > 0) by (nonlinear_arith)
        requires
            data@.len() == 16 * nblocks,
            nblocks == ciphertext@.len() / 16,
            ciphertext@.len() > 0,
            ciphertext@.len() % 16 == 0,
    ;
    let pad = data[data.len() - 1] as usize;
    if pad == 0 || pad > 16 || data.len() < pad {
        return Err(JmError::Padding);
    }
    let out = slice_bytes(&data, 0, data.len() - pad);
    Ok(out)
}

/// `core::str::from_utf8(bytes).is_ok()`: whether the bytes are UTF-8.
#[verifier::external_body]
fn is_utf8(bytes: &[u8]) -> (r: bool)
    ensures
        r == valid_utf8(bytes@),
{
    core::str::from_utf8(bytes).is_ok()
}

/// The index of the first byte that opens a JSON value (`{` or `[`), or -1.
pub open spec fn first_open(s: Seq<u8>) -> int {
    crate::text::find_first_index(s.map_values(|b: u8| b == 123u8 || b == 91u8))
}

/// The index of the last byte that closes a JSON value (`}` or `]`), or -1.
pub open spec fn last_close(s: Seq<u8>) -> int
    decreases s.len(),
{
    if s.len() == 0 {
        -1
    } else if s.last() == 125u8 || s.last() == 93u8 {
        s.len() - 1
    } else {
        last_close(s.drop_last())
    }
}

/// The JSON text of a decrypted response: from the first opening bracket
/// (or the start) to the last closing bracket (or the end).
pub open spec fn json_span_spec(raw: Seq<u8>) -> Result<Seq<u8>, JmError> {
    if !valid_utf8(raw) {
        Err(JmError::Utf8)
    } else if raw.len() == 0 {
        Err(JmError::Empty)
    } else {
        let start = if first_open(raw) >= 0 {
            first_open(raw)
        } else {
            0
        };
        let end = if last_close(raw) >= 0 {
            last_close(raw)
        } else {
            raw.len() - 1
        };
        if start <= end && end < raw.len() {
            Ok(raw.subrange(start, end + 1))
        } else {
            Err(JmError::Bounds)
        }
    }
}

proof fn lemma_last_close_at(s: Seq<u8>, b: int)
    requires
        0 <= b < s.len(),
        s[b] == 125u8 || s[b] == 93u8,
        forall|k: int| b < k < s.len() ==> !(s[k] == 125u8 || s[k] == 93u8),
    ensures
        last_close(s) == b,
    decreases s.len(),
{
    if b < s.len() - 1 {
        assert(!(s.last() == 125u8 || s.last() == 93u8));
        assert forall|k: int| b < k < s.drop_last().len() implies !(s.drop_last()[k] == 125u8
            || s.drop_last()[k] == 93u8) by {
            assert(s.drop_last()[k] == s[k]);
        }
        lemma_last_close_at(s.drop_last(), b);
    }
}

/// The JSON text of a decrypted response runs from its first opening
/// bracket to its last closing bracket, whatever brackets lie between: a
/// document with nested values is cut out whole.
pub proof fn law_json_span_brackets(raw: Seq<u8>, a: int, b: int)
    requires
        valid_utf8(raw),
        0 <= a <= b < raw.len(),
        raw[a] == 123u8 || raw[a] == 91u8,
        raw[b] == 125u8 || raw[b] == 93u8,
        forall|k: int| 0 <= k < a ==> !(raw[k] == 123u8 || raw[k] == 91u8),
        forall|k: int| b < k < raw.len() ==> !(raw[k] == 125u8 || raw[k] == 93u8),
    ensures
        json_span_spec(raw) == Ok::<Seq<u8>, JmError>(raw.subrange(a, b + 1)),
{
    let flags = raw.map_values(|x: u8| x == 123u8 || x == 91u8);
    assert forall|k: int| 0 <= k < a implies !flags[k] by {}
    crate::text::lemma_find_first_index(flags, a);
    lemma_last_close_at(raw, b);
}

proof fn lemma_last_close_none(s: Seq<u8>)
    requires
        forall|k: int| 0 <= k < s.len() ==> !(s[k] == 125u8 || s[k] == 93u8),
    ensures
        last_close(s) == -1,
    decreases s.len(),
{
    if s.len() > 0 {
        assert forall|k: int| 0 <= k < s.drop_last().len() implies !(s.drop_last()[k] == 125u8
            || s.drop_last()[k] == 93u8) by {
            assert(s.drop_last()[k] == s[k]);
        }
        lemma_last_close_none(s.drop_last());
    }
}

/// A decrypted response that is not UTF-8, or empty, is refused; one with
/// no bracket at all is taken whole; and one whose last closing bracket
/// comes before its first opening bracket has no JSON span.
pub proof fn law_json_span_edges(raw: Seq<u8>)
    ensures
        !valid_utf8(raw) ==> json_span_spec(raw) == Err::<Seq<u8>, JmError>(JmError::Utf8),
        valid_utf8(raw) && raw.len() == 0 ==> json_span_spec(raw) == Err::<Seq<u8>, JmError>(JmError::Empty),
        valid_utf8(raw) && raw.len() > 0 && (forall|k: int| 0 <= k < raw.len() ==> !(raw[k] == 123u8
            || raw[k] == 91u8 || raw[k] == 125u8 || raw[k] == 93u8)) ==> json_span_spec(raw) == Ok::<
            Seq<u8>,
            JmError,
        >(raw),
        forall|a: int, b: int|
            #![trigger raw[a], raw[b]]
            valid_utf8(raw) && 0 <= b < a < raw.len() && (raw[a] == 123u8 || raw[a] == 91u8) && (raw[b]
                == 125u8 || raw[b] == 93u8) && (forall|k: int| 0 <= k < a ==> !(raw[k] == 123u8
                || raw[k] == 91u8)) && (forall|k: int| b < k < raw.len() ==> !(raw[k] == 125u8
                || raw[k] == 93u8)) ==> json_span_spec(raw) == Err::<Seq<u8>, JmError>(JmError::Bounds),
{
    let flags = raw.map_values(|x: u8| x == 123u8 || x == 91u8);
    if valid_utf8(raw) && raw.len() > 0 && (forall|k: int| 0 <= k < raw.len() ==> !(raw[k] == 123u8
        || raw[k] == 91u8 || raw[k] == 125u8 || raw[k] == 93u8)) {
        assert forall|k: int| 0 <= k < raw.len() implies !flags[k] by {}
        crate::text::lemma_find_first_none(flags);
        lemma_last_close_none(raw);
        assert(raw.subrange(0, raw.len() as int) =~= raw);
    }
    assert forall|a: int, b: int|
        #![trigger raw[a], raw[b]]
        valid_utf8(raw) && 0 <= b < a < raw.len() && (raw[a] == 123u8 || raw[a] == 91u8) && (raw[b]
            == 125u8 || raw[b] == 93u8) && (forall|k: int| 0 <= k < a ==> !(raw[k] == 123u8
            || raw[k] == 91u8)) && (forall|k: int| b < k < raw.len() ==> !(raw[k] == 125u8
            || raw[k] == 93u8)) implies json_span_spec(raw) == Err::<Seq<u8>, JmError>(JmError::Bounds) by {
        assert forall|k: int| 0 <= k < a implies !flags[k] by {}
        crate::text::lemma_find_first_index(flags, a);
        lemma_last_close_at(raw, b);
    }
}

/// Cuts the JSON text out of a decrypted response.
pub fn json_span(raw: &[u8]) -> (r: Result<Vec<u8>, JmError>)
    ensures
        match r {
            Ok(v) => json_span_spec(raw@) == Ok::<Seq<u8>, JmError>(v@),
            Err(e) => json_span_spec(raw@) == Err::<Seq<u8>, JmError>(e),
        },
{
    if !is_utf8(raw) {
        return Err(JmError::Utf8);
    }
    if raw.len() == 0 {
        return Err(JmError::Empty);
    }
    let ghost flags = raw@.map_values(|b: u8| b == 123u8 || b == 91u8);
    let mut start: usize = 0;
    let mut found = false;
    let mut i: usize = 0;
    while i < raw.len() && !found
        invariant
            i <= raw@.len(),
            flags == raw@.map_values(|b: u8| b == 123u8 || b == 91u8),
            !found ==> forall|k: int| 0 <= k < i ==> !flags[k],
            found ==> start as int == first_open(raw@) && first_open(raw@) >= 0,
            !found ==> start == 0,
        decreases raw@.len() - i + (if found { 0int } else { 1int }),
    {
        if raw[i] == 123u8 || raw[i] == 91u8 {
            proof {
                crate::text::lemma_find_first_index(flags, i as int);
            }
            start = i;
            found = true;
        } else {
            i = i + 1;
        }
    }
    if !found {
        proof {
            crate::text::lemma_find_first_none(flags);
        }
    }
    assert(start as int == (if first_open(raw@) >= 0 { first_open(raw@) } else { 0 }));
    let mut j: usize = raw.len();
    assert(raw@.take(raw@.len() as int) == raw@);
    while j > 0 && !(raw[j - 1] == 125u8 || raw[j - 1] == 93u8)
        invariant
            j <= raw@.len(),
            last_close(raw@) == last_close(raw@.take(j as int)),
        decreases j,
    {
        assert(raw@.take(j as int).drop_last() == raw@.take(j - 1));
        j = j - 1;
    }
    if j > 0 {
        assert(raw@.take(j as int).last() == raw@[j - 1]);
    }
    let end = if j > 0 { j - 1 } else { raw.len() - 1 };
    if start <= end && end < raw.len() {
        Ok(slice_bytes(raw, start, end + 1))
    } else {
        Err(JmError::Bounds)
    }
}

/// The digits of `ts` followed by the data secret, as bytes.
pub open spec fn data_secret_spec(ts: u64) -> Seq<u8> {
    ascii_bytes(decimal(ts as nat) + JM_DATA_SECRET@)
}

/// What the `data` field of a response decrypts to.
pub open spec fn decrypt_data_spec(data_b64: Seq<u8>, ts: u64) -> Result<Seq<u8>, JmError> {
    match base64_standard_decode(data_b64) {
        None => Err(JmError::Base64),
        Some(ct) => match ecb_decrypt_spec(ct, aes_key_spec(data_secret_spec(ts))) {
            Err(e) => Err(e),
            Ok(raw) => json_span_spec(raw),
        },
    }
}

/// Decrypts the `data` field of an API response sent at time `ts` to its
/// JSON text.
pub fn decrypt_data(data_b64: &str, ts: u64) -> (r: Result<Vec<u8>, JmError>)
    ensures
        match r {
            Ok(v) => decrypt_data_spec(data_b64.spec_bytes(), ts) == Ok::<Seq<u8>, JmError>(v@),
            Err(e) => decrypt_data_spec(data_b64.spec_bytes(), ts) == Err::<Seq<u8>, JmError>(e),
        },
{
    let mut seed = u64_decimal(ts);
    append_chars(&mut seed, &chars_of(JM_DATA_SECRET));
    let secret_bytes = ascii_bytes_of(&seed);
    let hex = to_hex_lower(&md5(&secret_bytes));
    let mut key = [0u8; 32];
    let mut i: usize = 0;
    while i < 32
        invariant
            i <= 32,
            hex@.len() == 32,
            forall|k: int| 0 <= k < i ==> key@[k] == hex@[k],
        decreases 32 - i,
    {
        key[i] = hex[i];
        i = i + 1;
    }
    assert(key@ =~= hex@);
    let ct = match base64_decode(data_b64.as_bytes()) {
        Some(c) => c,
        None => return Err(JmError::Base64),
    };
    let raw = match aes256_ecb_decrypt(&ct, &key) {
        Ok(r) => r,
        Err(e) => return Err(e),
    };
    json_span(&raw)
}

// ---------------------------------------------------------------------------
// Accounts
// ---------------------------------------------------------------------------

/// The token of a logged-in account.
pub struct AuthData {
    pub jwt_token: String,
}

impl AuthData {
    /// A login answer holds a token that is not blank.
    pub fn is_valid(&self) -> (r: bool)
        ensures
            r == (trim(self.jwt_token@).len() > 0),
    {
        trim_chars(&chars_of(self.jwt_token.as_str())).len() > 0
    }
}

// ---------------------------------------------------------------------------
// Blocking
// ---------------------------------------------------------------------------

/// The views of a list of strings.
pub open spec fn views(v: Seq<String>) -> Seq<Seq<char>> {
    v.map_values(|s: String| s@)
}

/// The views of a list of string slices.
pub open spec fn str_views(v: Seq<&str>) -> Seq<Seq<char>> {
    v.map_values(|s: &str| s@)
}

/// The entries of `entries` that are, or are not, all digits, in order.
pub open spec fn partition_digits(entries: Seq<Seq<char>>, digits: bool) -> Seq<Seq<char>>
    decreases entries.len(),
{
    if entries.len() == 0 {
        Seq::empty()
    } else {
        let prev = partition_digits(entries.drop_last(), digits);
        if all_ascii_digits(entries.last()) == digits {
            prev.push(entries.last())
        } else {
            prev
        }
    }
}

/// Some field, trimmed and lower-cased, contains some keyword.
pub open spec fn keyword_hit(keywords: Seq<Seq<char>>, fields: Seq<Seq<char>>) -> bool {
    exists|f: int, k: int|
        0 <= f < fields.len() && 0 <= k < keywords.len() && contains_seq(
            lowercase(trim(#[trigger] fields[f])),
            #[trigger] keywords[k],
        )
}

/// What the user blocks: album ids, and keywords matched against metadata.
pub struct BlockState {
    keywords: Vec<String>,
    ids: Vec<String>,
}

impl BlockState {
    /// The blocked keywords.
    pub closed spec fn keyword_views(&self) -> Seq<Seq<char>> {
        views(self.keywords@)
    }

    /// The blocked album ids.
    pub closed spec fn id_views(&self) -> Seq<Seq<char>> {
        views(self.ids@)
    }

    /// Splits the blocked entries: all-digit entries are album ids, the
    /// others keywords.
    pub fn new(entries: Vec<String>) -> (r: Self)
        ensures
            r.id_views() == partition_digits(views(entries@), true),
            r.keyword_views() == partition_digits(views(entries@), false),
    {
        let mut keywords: Vec<String> = Vec::new();
        let mut ids: Vec<String> = Vec::new();
        let ghost all = views(entries@);
        let n = entries.len();
        let mut i: usize = 0;
        while i < n
            invariant
                i <= n,
                n == entries@.len(),
                all == views(entries@),
                views(ids@) == partition_digits(all.take(i as int), true),
                views(keywords@) == partition_digits(all.take(i as int), false),
            decreases n - i,
        {
            let e = entries[i].clone();
            assert(e@ == all[i as int]);
            assert(all.take(i + 1).drop_last() == all.take(i as int));
            let d = all_digits(&chars_of(e.as_str()));
            if d {
                let ghost before = ids@;
                ids.push(e);
                assert(views(ids@) =~= views(before).push(all[i as int]));
            } else {
                let ghost before = keywords@;
                keywords.push(e);
                assert(views(keywords@) =~= views(before).push(all[i as int]));
            }
            i = i + 1;
        }
        assert(all.take(n as int) == all);
        BlockState { keywords, ids }
    }

    /// A block state from keywords and ids given apart.
    pub fn from_parts(keywords: Vec<String>, ids: Vec<String>) -> (r: Self)
        ensures
            r.keyword_views() == views(keywords@),
            r.id_views() == views(ids@),
    {
        BlockState { keywords, ids }
    }

    /// Nothing is blocked.
    pub fn is_empty(&self) -> (r: bool)
        ensures
            r == (self.keyword_views().len() == 0 && self.id_views().len() == 0),
    {
        self.keywords.len() == 0 && self.ids.len() == 0
    }

    /// An entry is blocked when its id is, or when one of its metadata
    /// fields contains a keyword.
    pub open spec fn blocks(&self, id: Seq<char>, fields: Seq<Seq<char>>) -> bool {
        self.id_views().contains(id) || (self.keyword_views().len() > 0 && keyword_hit(
            self.keyword_views(),
            fields,
        ))
    }

    /// Whether the entry `id` with these metadata fields is blocked.
    pub fn is_blocked(&self, id: &str, fields: &Vec<&str>) -> (r: bool)
        ensures
            r == self.blocks(id@, str_views(fields@)),
    {
        let idv = chars_of(id);
        let mut i: usize = 0;
        while i < self.ids.len()
            invariant
                i <= self.ids@.len(),
                idv@ == id@,
                forall|k: int| 0 <= k < i ==> self.ids@[k]@ != id@,
            decreases self.ids@.len() - i,
        {
            if chars_eq(&chars_of(self.ids[i].as_str()), &idv) {
                assert(self.id_views()[i as int] == id@);
                return true;
            }
            i = i + 1;
        }
        assert(!self.id_views().contains(id@)) by {
            if self.id_views().contains(id@) {
                let k = choose|k: int| 0 <= k < self.id_views().len() && #[trigger] self.id_views()[k] == id@;
                assert(self.ids@[k]@ == id@);
            }
        }
        if self.keywords.len() == 0 {
            return false;
        }
        let ghost fv = str_views(fields@);
        let ghost kv = self.keyword_views();
        let mut f: usize = 0;
        while f < fields.len()
            invariant
                f <= fields@.len(),
                fv == str_views(fields@),
                kv == self.keyword_views(),
                kv.len() == self.keywords@.len(),
                forall|a: int, b: int|
                    0 <= a < f && 0 <= b < kv.len() ==> !contains_seq(
                        lowercase(trim(#[trigger] fv[a])),
                        #[trigger] kv[b],
                    ),
            decreases fields@.len() - f,
        {
            let lower = to_lowercase(string_of(&trim_chars(&chars_of(fields[f]))).as_str());
            let lc = chars_of(lower.as_str());
            assert(lc@ == lowercase(trim(fv[f as int])));
            let mut k: usize = 0;
            while k < self.keywords.len()
                invariant
                    k <= self.keywords@.len(),
                    f < fields@.len(),
                    fv == str_views(fields@),
                    kv == self.keyword_views(),
                    kv.len() == self.keywords@.len(),
                    lc@ == lowercase(trim(fv[f as int])),
                    forall|b: int| 0 <= b < k ==> !contains_seq(lc@, #[trigger] kv[b]),
                decreases self.keywords@.len() - k,
            {
                assert(kv[k as int] == self.keywords@[k as int]@);
                if find_chars(&lc, &chars_of(self.keywords[k].as_str())).is_some() {
                    assert(keyword_hit(kv, fv));
                    return true;
                }
                k = k + 1;
            }
            f = f + 1;
        }
        false
    }
}

// ---------------------------------------------------------------------------
// Catalog entries
// ---------------------------------------------------------------------------

/// A category reference of an entry.
pub struct CategoryRef {
    pub title: Option<String>,
}

/// An entry of a search or a promotion.
pub struct ComicItem {
    pub id: String,
    pub name: Option<String>,
    pub author: Option<String>,
    pub image: Option<String>,
    pub description: Option<String>,
    pub category: Option<CategoryRef>,
    pub category_sub: Option<CategoryRef>,
}

/// An optional string as a list of zero or one values.
pub open spec fn opt_seq(o: Option<Seq<char>>) -> Seq<Seq<char>> {
    match o {
        Some(s) => seq![s],
        None => Seq::empty(),
    }
}

/// The title of an optional category.
pub open spec fn category_title(c: Option<CategoryRef>) -> Option<Seq<char>> {
    match c {
        Some(c) => opt_view(c.title),
        None => None,
    }
}

fn push_present<'a>(out: &mut Vec<&'a str>, o: &'a Option<String>)
    ensures
        str_views(final(out)@) == str_views(old(out)@) + opt_seq(opt_view(*o)),
{
    let ghost before = out@;
    match o {
        Some(s) => {
            out.push(s.as_str());
            assert(str_views(out@) =~= str_views(before) + seq![s@]);
        },
        None => {
            assert(str_views(out@) =~= str_views(before) + Seq::<Seq<char>>::empty());
        },
    }
}

fn push_category<'a>(out: &mut Vec<&'a str>, c: &'a Option<CategoryRef>)
    ensures
        str_views(final(out)@) == str_views(old(out)@) + opt_seq(category_title(*c)),
{
    match c {
        Some(c) => push_present(out, &c.title),
        None => {
            assert(str_views(out@) =~= str_views(out@) + Seq::<Seq<char>>::empty());
        },
    }
}

impl ComicItem {
    /// The metadata fields that keywords are matched against: name, author,
    /// description and the category titles, where present.
    pub open spec fn fields_spec(&self) -> Seq<Seq<char>> {
        opt_seq(opt_view(self.name)) + opt_seq(opt_view(self.author)) + opt_seq(
            opt_view(self.description),
        ) + opt_seq(category_title(self.category)) + opt_seq(category_title(self.category_sub))
    }

    /// The metadata fields of this entry.
    pub fn block_fields(&self) -> (r: Vec<&str>)
        ensures
            str_views(r@) == self.fields_spec(),
    {
        let mut out: Vec<&str> = Vec::new();
        assert(str_views(out@) =~= Seq::<Seq<char>>::empty());
        push_present(&mut out, &self.name);
        push_present(&mut out, &self.author);
        push_present(&mut out, &self.description);
        push_category(&mut out, &self.category);
        push_category(&mut out, &self.category_sub);
        assert(str_views(out@) =~= self.fields_spec());
        out
    }

    /// The entry is blocked.
    pub fn is_blocked(&self, ctx: &BlockState) -> (r: bool)
        ensures
            r == ctx.blocks(self.id@, self.fields_spec()),
    {
        let fields = self.block_fields();
        ctx.is_blocked(self.id.as_str(), &fields)
    }
}

/// A search answer says there is a next page when it has more results than
/// one page holds.
pub fn search_has_next(total: i32) -> (r: bool)
    ensures
        r == (total > PAGE_SIZE),
{
    total > PAGE_SIZE
}

/// A search that finds nothing on its first page is an error; any other
/// result stands.
pub fn finish_search_result(page: i32, entries_empty: bool) -> (r: Result<(), JmError>)
    ensures
        r == (if page <= 1 && entries_empty {
            Err::<(), JmError>(JmError::NothingFound)
        } else {
            Ok::<(), JmError>(())
        }),
{
    if page <= 1 && entries_empty {
        Err(JmError::NothingFound)
    } else {
        Ok(())
    }
}

// ---------------------------------------------------------------------------
// Albums
// ---------------------------------------------------------------------------

/// A chapter of an album's series.
pub struct SeriesRef {
    pub id: String,
    pub name: Option<String>,
}

/// An album as the API describes it.
pub struct AlbumResp {
    pub name: Option<String>,
    pub author: Option<Vec<String>>,
    pub addtime: Option<String>,
    pub description: Option<String>,
    pub tags: Option<Vec<String>>,
    pub works: Option<Vec<String>>,
    pub series: Option<Vec<SeriesRef>>,
}

/// The strings of an optional list.
pub open spec fn opt_list(o: Option<Vec<String>>) -> Seq<Seq<char>> {
    match o {
        Some(v) => views(v@),
        None => Seq::empty(),
    }
}

/// The names that series entries have.
pub open spec fn series_names(s: Seq<SeriesRef>) -> Seq<Seq<char>>
    decreases s.len(),
{
    if s.len() == 0 {
        Seq::empty()
    } else {
        series_names(s.drop_last()) + opt_seq(opt_view(s.last().name))
    }
}




/// The first label that decides the rating: 青年漫 is suggestive, 非H safe;
/// without one the album is adult.
pub open spec fn rating_of(labels: Seq<Seq<char>>) -> ContentRating
    decreases labels.len(),
{
    if labels.len() == 0 {
        ContentRating::NSFW
    } else if labels[0] == "青年漫"@ {
        ContentRating::Suggestive
    } else if labels[0] == "非H"@ {
        ContentRating::Safe
    } else {
        rating_of(labels.drop_first())
    }
}

/// A tag marks the album finished.
pub open spec fn is_finished_tag(t: Seq<char>) -> bool {
    t == "完结"@ || t == "已完结"@
}

/// A tag marks the album running.
pub open spec fn is_running_tag(t: Seq<char>) -> bool {
    t == "连载中"@ || t == "连载"@
}

/// Completed if a tag says so, else ongoing if a tag says that, else unknown.
pub open spec fn status_of(tags: Seq<Seq<char>>) -> MangaStatus {
    if exists|i: int| 0 <= i < tags.len() && is_finished_tag(#[trigger] tags[i]) {
        MangaStatus::Completed
    } else if exists|i: int| 0 <= i < tags.len() && is_running_tag(#[trigger] tags[i]) {
        MangaStatus::Ongoing
    } else {
        MangaStatus::Unknown
    }
}

/// A label that marks a vertically scrolled album.
pub open spec fn is_webtoon_label(l: Seq<char>) -> bool {
    l == "条漫"@ || l == "韩漫"@ || l == "一般向韩漫"@ || l == "韩国"@ || crate::text::eq_ignore_ascii_case(
        l,
        "webtoon"@,
    )
}

/// The reading direction that the labels decide, scanning them in order:
/// a webtoon label gives Webtoon, 美漫 gives left to right; `None` if no
/// label decides.
pub open spec fn label_viewer(labels: Seq<Seq<char>>) -> Option<Viewer>
    decreases labels.len(),
{
    if labels.len() == 0 {
        None
    } else if is_webtoon_label(labels[0]) {
        Some(Viewer::Webtoon)
    } else if labels[0] == "美漫"@ {
        Some(Viewer::LeftToRight)
    } else {
        label_viewer(labels.drop_first())
    }
}

/// A character of the hiragana or katakana blocks.
pub open spec fn is_kana(c: char) -> bool {
    ('\u{3040}' <= c <= '\u{309F}') || ('\u{30A0}' <= c <= '\u{30FF}')
}

/// The text holds kana.
pub open spec fn has_japanese_spec(s: Seq<char>) -> bool {
    exists|i: int| 0 <= i < s.len() && is_kana(#[trigger] s[i])
}

/// Whether the text holds kana (hiragana or katakana).
pub fn has_japanese(s: &str) -> (r: bool)
    ensures
        r == has_japanese_spec(s@),
{
    let v = chars_of(s);
    let mut i: usize = 0;
    while i < v.len()
        invariant
            i <= v@.len(),
            v@ == s@,
            forall|k: int| 0 <= k < i ==> !is_kana(#[trigger] v@[k]),
        decreases v@.len() - i,
    {
        let c = v[i];
        if ('\u{3040}' <= c && c <= '\u{309F}') || ('\u{30A0}' <= c && c <= '\u{30FF}') {
            return true;
        }
        i = i + 1;
    }
    false
}

fn label_is(v: &Vec<char>, lit: &str) -> (r: bool)
    ensures
        r == (v@ == lit@),
{
    chars_eq(v, &chars_of(lit))
}

impl AlbumResp {
    /// The album has no name: the API answers so for missing albums.
    pub fn is_missing(&self) -> (r: bool)
        ensures
            r == match self.name {
                Some(n) => trim(n@).len() == 0,
                None => true,
            },
    {
        match &self.name {
            Some(n) => trim_chars(&chars_of(n.as_str())).len() == 0,
            None => true,
        }
    }

    /// Tags, then works.
    pub open spec fn labels_spec(&self) -> Seq<Seq<char>> {
        opt_list(self.tags) + opt_list(self.works)
    }

    /// The metadata fields that keywords are matched against: name,
    /// description, authors, labels and series names.
    pub open spec fn fields_spec(&self) -> Seq<Seq<char>> {
        opt_seq(opt_view(self.name)) + opt_seq(opt_view(self.description)) + opt_list(self.author)
            + self.labels_spec() + match self.series {
            Some(s) => series_names(s@),
            None => Seq::empty(),
        }
    }

    /// The labels of the album.
    pub fn labels(&self) -> (r: Vec<&str>)
        ensures
            str_views(r@) == self.labels_spec(),
    {
        let mut out: Vec<&str> = Vec::new();
        assert(str_views(out@) =~= Seq::<Seq<char>>::empty());
        push_list(&mut out, &self.tags);
        push_list(&mut out, &self.works);
        out
    }

    /// The metadata fields of the album.
    pub fn block_fields(&self) -> (r: Vec<&str>)
        ensures
            str_views(r@) == self.fields_spec(),
    {
        let mut out: Vec<&str> = Vec::new();
        assert(str_views(out@) =~= Seq::<Seq<char>>::empty());
        push_present(&mut out, &self.name);
        push_present(&mut out, &self.description);
        push_list(&mut out, &self.author);
        push_list(&mut out, &self.tags);
        push_list(&mut out, &self.works);
        match &self.series {
            Some(series) => {
                let ghost before = str_views(out@);
                let mut i: usize = 0;
                assert(series@.take(0) =~= Seq::<SeriesRef>::empty());
                while i < series.len()
                    invariant
                        i <= series@.len(),
                        str_views(out@) == before + series_names(series@.take(i as int)),
                    decreases series@.len() - i,
                {
                    assert(series@.take(i + 1).drop_last() == series@.take(i as int));
                    push_present(&mut out, &series[i].name);
                    i = i + 1;
                }
                assert(series@.take(series@.len() as int) == series@);
            },
            None => {
                assert(str_views(out@) =~= str_views(out@) + Seq::<Seq<char>>::empty());
            },
        }
        assert(str_views(out@) =~= self.fields_spec());
        out
    }

    /// The album `key` is blocked.
    pub fn is_blocked(&self, key: &str, ctx: &BlockState) -> (r: bool)
        ensures
            r == ctx.blocks(key@, self.fields_spec()),
    {
        let fields = self.block_fields();
        ctx.is_blocked(key, &fields)
    }

    /// The content rating that the labels give.
    pub fn content_rating(&self) -> (r: ContentRating)
        ensures
            r == rating_of(self.labels_spec()),
    {
        let labels = self.labels();
        let ghost l = str_views(labels@);
        assert(l.skip(0) == l);
        let mut i: usize = 0;
        while i < labels.len()
            invariant
                i <= labels@.len(),
                l == str_views(labels@),
                l == self.labels_spec(),
                rating_of(l) == rating_of(l.skip(i as int)),
            decreases labels@.len() - i,
        {
            let v = chars_of(labels[i]);
            assert(l.skip(i as int).drop_first() == l.skip(i + 1));
            assert(l.skip(i as int)[0] == v@);
            if label_is(&v, "青年漫") {
                return ContentRating::Suggestive;
            }
            if label_is(&v, "非H") {
                return ContentRating::Safe;
            }
            i = i + 1;
        }
        ContentRating::NSFW
    }

    /// The publication status that the tags give.
    pub fn status(&self) -> (r: MangaStatus)
        ensures
            r == status_of(opt_list(self.tags)),
    {
        let mut ongoing = false;
        match &self.tags {
            Some(tags) => {
                let mut i: usize = 0;
                while i < tags.len()
                    invariant
                        i <= tags@.len(),
                        opt_list(self.tags) == views(tags@),
                        forall|k: int| 0 <= k < i ==> !is_finished_tag(#[trigger] views(tags@)[k]),
                        ongoing == exists|k: int| 0 <= k < i && is_running_tag(#[trigger] views(tags@)[k]),
                    decreases tags@.len() - i,
                {
                    let v = chars_of(tags[i].as_str());
                    assert(views(tags@)[i as int] == v@);
                    if label_is(&v, "完结") || label_is(&v, "已完结") {
                        return MangaStatus::Completed;
                    }
                    if label_is(&v, "连载中") || label_is(&v, "连载") {
                        ongoing = true;
                    }
                    i = i + 1;
                }
            },
            None => {},
        }
        if ongoing {
            MangaStatus::Ongoing
        } else {
            MangaStatus::Unknown
        }
    }

    /// What the labels say of the reading direction, and whether one of
    /// them is 英文.
    pub fn label_viewer(&self) -> (r: (Option<Viewer>, bool))
        ensures
            r.0 == label_viewer(self.labels_spec()),
            r.0 is None ==> r.1 == self.labels_spec().contains("英文"@),
    {
        let labels = self.labels();
        let ghost l = str_views(labels@);
        assert(l.skip(0) == l);
        let mut has_english = false;
        let mut i: usize = 0;
        while i < labels.len()
            invariant
                i <= labels@.len(),
                l == str_views(labels@),
                l == self.labels_spec(),
                label_viewer(l) == label_viewer(l.skip(i as int)),
                has_english == exists|k: int| 0 <= k < i && l[k] == "英文"@,
            decreases labels@.len() - i,
        {
            let v = chars_of(labels[i]);
            assert(l.skip(i as int).drop_first() == l.skip(i + 1));
            assert(l.skip(i as int)[0] == v@);
            assert(l[i as int] == v@);
            if label_is(&v, "条漫") || label_is(&v, "韩漫") || label_is(&v, "一般向韩漫") || label_is(
                &v,
                "韩国",
            ) || crate::text::chars_eq_ignore_ascii_case(&v, &chars_of("webtoon")) {
                return (Some(Viewer::Webtoon), has_english);
            }
            if label_is(&v, "美漫") {
                return (Some(Viewer::LeftToRight), has_english);
            }
            if label_is(&v, "英文") {
                has_english = true;
            }
            i = i + 1;
        }
        (None, has_english)
    }
}

/// The reading direction of an album: the labels decide first; then kana in
/// the name or description keep the default; then a mostly ASCII name, or a
/// mostly ASCII description of an album labelled 英文, read left to right.
pub open spec fn viewer_spec(
    by_labels: Option<Viewer>,
    has_english: bool,
    name_has_kana: bool,
    desc_has_kana: bool,
    name_mostly_ascii: bool,
    desc_mostly_ascii: bool,
) -> Option<Viewer> {
    if by_labels is Some {
        by_labels
    } else if name_has_kana || desc_has_kana {
        None
    } else if name_mostly_ascii {
        Some(Viewer::LeftToRight)
    } else if has_english && desc_mostly_ascii {
        Some(Viewer::LeftToRight)
    } else {
        None
    }
}

/// Decides the reading direction from what the labels give, whether name and
/// description hold kana, and whether their share of ASCII characters
/// reaches 45% (computed as a float ratio by the caller).
pub fn decide_viewer(
    by_labels: Option<Viewer>,
    has_english: bool,
    name_has_kana: bool,
    desc_has_kana: bool,
    name_mostly_ascii: bool,
    desc_mostly_ascii: bool,
) -> (r: Option<Viewer>)
    ensures
        r == viewer_spec(by_labels, has_english, name_has_kana, desc_has_kana, name_mostly_ascii, desc_mostly_ascii),
{
    if by_labels.is_some() {
        return by_labels;
    }
    if name_has_kana || desc_has_kana {
        return None;
    }
    if name_mostly_ascii {
        return Some(Viewer::LeftToRight);
    }
    if has_english && desc_mostly_ascii {
        return Some(Viewer::LeftToRight);
    }
    None
}

fn push_list<'a>(out: &mut Vec<&'a str>, o: &'a Option<Vec<String>>)
    ensures
        str_views(final(out)@) == str_views(old(out)@) + opt_list(*o),
{
    match o {
        Some(v) => {
            let ghost before = str_views(out@);
            let mut i: usize = 0;
            while i < v.len()
                invariant
                    i <= v@.len(),
                    str_views(out@) == before + views(v@).take(i as int),
                decreases v@.len() - i,
            {
                let ghost prev = out@;
                out.push(v[i].as_str());
                assert(str_views(out@) =~= str_views(prev).push(v@[i as int]@));
                i = i + 1;
                assert(views(v@).take(i as int) =~= views(v@).take(i - 1).push(v@[i - 1]@));
            }
            assert(views(v@).take(v@.len() as int) =~= views(v@));
        },
        None => {
            assert(str_views(out@) =~= str_views(out@) + Seq::<Seq<char>>::empty());
        },
    }
}

/// The chapter a reading answer belongs to: its series id, unless that is
/// empty or 0.
pub fn series_key<'a>(series_id: &'a str, fallback: &'a str) -> (r: &'a str)
    ensures
        r@ == (if series_id@.len() == 0 || series_id@ == "0"@ { fallback@ } else { series_id@ }),
{
    if series_id.is_empty() || chars_eq(&chars_of(series_id), &chars_of("0")) {
        fallback
    } else {
        series_id
    }
}

/// The episode id of a reading answer, unless it is empty.
pub fn episode_id<'a>(id: &'a str, fallback: &'a str) -> (r: &'a str)
    ensures
        r@ == (if id@.len() == 0 { fallback@ } else { id@ }),
{
    if id.is_empty() {
        fallback
    } else {
        id
    }
}


// ---------------------------------------------------------------------------
// Home page promotions
// ---------------------------------------------------------------------------

/// A section of the promotion page.
pub struct PromoteGroup {
    pub id: String,
    pub title: Option<String>,
    pub group_type: Option<String>,
    pub slug: Option<String>,
    pub content_len: usize,
}

/// An optional string, or the empty string.
pub open spec fn or_empty(o: Option<Seq<char>>) -> Seq<char> {
    match o {
        Some(s) => s,
        None => Seq::empty(),
    }
}

fn or_empty_chars(o: &Option<String>) -> (r: Vec<char>)
    ensures
        r@ == or_empty(opt_view(*o)),
{
    match o {
        Some(s) => chars_of(s.as_str()),
        None => Vec::new(),
    }
}

/// The listing id a section links to, if any.
pub open spec fn listing_id_spec(id: Seq<char>, title: Option<Seq<char>>, gtype: Seq<char>, slug_opt: Option<Seq<char>>) -> Option<Seq<char>> {
    let slug = or_empty(slug_opt);
    if slug == "latest"@ || slug == "new"@ || slug == "recent"@ {
        None
    } else if slug == "most_viewed"@ || slug == "popular"@ || slug == "mv"@ {
        Some("o:mv"@)
    } else if gtype == "category_id"@ {
        if slug.len() == 0 {
            None
        } else {
            Some("cat:"@ + slug)
        }
    } else if gtype == "not_in_category_id"@ {
        if slug.len() > 0 {
            Some("q:"@ + slug)
        } else if title matches Some(t) && t.len() > 0 {
            Some("q:"@ + title->0)
        } else {
            None
        }
    } else if gtype == "promote"@ {
        Some("promo:"@ + id)
    } else {
        None
    }
}

/// The name of a section's listing: its title, or its slug.
pub open spec fn listing_name_spec(title: Option<Seq<char>>, slug_opt: Option<Seq<char>>) -> Seq<char> {
    match title {
        Some(t) if t.len() > 0 => t,
        _ => or_empty(slug_opt),
    }
}

impl PromoteGroup {
    /// The ids of sections that have their own paged listing.
    pub open spec fn large_listing(group_id: Seq<char>) -> bool {
        group_id == "29"@ || group_id == "30"@
    }

    /// A section has its own paged listing.
    pub fn is_large_listing_id(group_id: &str) -> (r: bool)
        ensures
            r == Self::large_listing(group_id@),
    {
        let g = chars_of(group_id);
        chars_eq(&g, &chars_of("29")) || chars_eq(&g, &chars_of("30"))
    }

    /// A section is shown when it has entries, is neither a library nor a
    /// novel section, and is not the `another` section.
    pub fn is_visible(&self) -> (r: bool)
        ensures
            r == (self.content_len > 0 && !(or_empty(opt_view(self.group_type)) == "library"@
                || or_empty(opt_view(self.group_type)) == "novels"@) && opt_view(self.slug) != Some(
                "another"@,
            )),
    {
        let t = or_empty_chars(&self.group_type);
        let hidden_type = chars_eq(&t, &chars_of("library")) || chars_eq(&t, &chars_of("novels"));
        let another = match &self.slug {
            Some(s) => chars_eq(&chars_of(s.as_str()), &chars_of("another")),
            None => false,
        };
        self.content_len > 0 && !hidden_type && !another
    }

    /// The listing a section links to.
    pub fn listing(&self) -> (r: Option<ListingRef>)
        ensures
            match r {
                Some(l) => listing_id_spec(self.id@, opt_view(self.title), or_empty(opt_view(self.group_type)), opt_view(self.slug)) == Some(l.id@)
                    && l.name@ == listing_name_spec(opt_view(self.title), opt_view(self.slug)),
                None => listing_id_spec(self.id@, opt_view(self.title), or_empty(opt_view(self.group_type)), opt_view(self.slug)) is None,
            },
    {
        let slug = or_empty_chars(&self.slug);
        let gtype = or_empty_chars(&self.group_type);
        let id: Vec<char> = if chars_eq(&slug, &chars_of("latest")) || chars_eq(&slug, &chars_of("new"))
            || chars_eq(&slug, &chars_of("recent")) {
            return None;
        } else if chars_eq(&slug, &chars_of("most_viewed")) || chars_eq(&slug, &chars_of("popular"))
            || chars_eq(&slug, &chars_of("mv")) {
            chars_of("o:mv")
        } else if chars_eq(&gtype, &chars_of("category_id")) {
            if slug.len() == 0 {
                return None;
            }
            let mut v = chars_of("cat:");
            append_chars(&mut v, &slug);
            v
        } else if chars_eq(&gtype, &chars_of("not_in_category_id")) {
            if slug.len() > 0 {
                let mut v = chars_of("q:");
                append_chars(&mut v, &slug);
                v
            } else {
                match &self.title {
                    Some(t) => {
                        let tv = chars_of(t.as_str());
                        if tv.len() > 0 {
                            let mut v = chars_of("q:");
                            append_chars(&mut v, &tv);
                            v
                        } else {
                            return None;
                        }
                    },
                    None => return None,
                }
            }
        } else if chars_eq(&gtype, &chars_of("promote")) {
            let mut v = chars_of("promo:");
            append_chars(&mut v, &chars_of(self.id.as_str()));
            v
        } else {
            return None;
        };
        let name = match &self.title {
            Some(t) => {
                let tv = chars_of(t.as_str());
                if tv.len() > 0 {
                    tv
                } else {
                    slug
                }
            },
            None => slug,
        };
        Some(ListingRef { id: string_of(&id), name: string_of(&name) })
    }
}

/// A promotion image address made absolute: blank images are dropped,
/// protocol-relative ones get `https:`, and site-relative ones the promotion
/// site.
pub open spec fn normalize_img_spec(url: Seq<char>) -> Option<Seq<char>> {
    let u = trim(url);
    if u.len() == 0 || ends_with(u, "/blank.jpg"@) {
        None
    } else if starts_with(u, "http"@) {
        Some(u)
    } else if starts_with(u, "//"@) {
        Some("https://"@ + u.skip(2))
    } else if starts_with(u, "/"@) {
        Some(PROMOTE_WEB_URL@ + u)
    } else {
        None
    }
}

/// Makes a promotion image address absolute.
pub fn normalize_img(url: &str) -> (r: Option<String>)
    ensures
        match r {
            Some(s) => normalize_img_spec(url@) == Some(s@),
            None => normalize_img_spec(url@) is None,
        },
{
    let u = trim_chars(&chars_of(url));
    if u.len() == 0 || has_suffix(&u, &chars_of("/blank.jpg")) {
        return None;
    }
    if has_prefix(&u, &chars_of("http")) {
        return Some(string_of(&u));
    }
    let slashes = chars_of("//");
    if has_prefix(&u, &slashes) {
        proof {
            reveal_strlit("//");
        }
        let mut v = chars_of("https://");
        append_chars(&mut v, &slice_chars(&u, 2, u.len()));
        assert(u@.skip(2) == u@.subrange(2, u@.len() as int));
        return Some(string_of(&v));
    }
    if has_prefix(&u, &chars_of("/")) {
        let mut v = chars_of(PROMOTE_WEB_URL);
        append_chars(&mut v, &u);
        return Some(string_of(&v));
    }
    None
}

// ---------------------------------------------------------------------------
// Links
// ---------------------------------------------------------------------------

/// The first segment of `s` before `/`, `?` or `#`.
pub open spec fn first_segment(s: Seq<char>) -> Seq<char> {
    let i = crate::text::find_first_index(s.map_values(|c: char| c == '/' || c == '?' || c == '#'));
    if i >= 0 {
        s.take(i)
    } else {
        s
    }
}

/// The numeric id that follows `marker` in a link, if it is all digits.
pub open spec fn extract_id_spec(url: Seq<char>, marker: Seq<char>) -> Option<Seq<char>> {
    let m = find(url, marker);
    if m < 0 {
        None
    } else {
        let id = first_segment(url.skip(m + marker.len()));
        if id.len() > 0 && all_ascii_digits(id) {
            Some(id)
        } else {
            None
        }
    }
}

/// The numeric id after `marker` (`/album/`, `/photo/`) in a link.
pub fn extract_id(url: &str, marker: &str) -> (r: Option<String>)
    ensures
        match r {
            Some(s) => extract_id_spec(url@, marker@) == Some(s@),
            None => extract_id_spec(url@, marker@) is None,
        },
{
    let v = chars_of(url);
    let mk = chars_of(marker);
    let m = match find_chars(&v, &mk) {
        Some(m) => m,
        None => return None,
    };
    let vlen = v.len();
    assert(m + mk@.len() <= vlen);
    let tail = slice_chars(&v, m + mk.len(), v.len());
    assert(tail@ == v@.skip(m + mk@.len()));
    let ghost flags = tail@.map_values(|c: char| c == '/' || c == '?' || c == '#');
    let mut i: usize = 0;
    while i < tail.len() && !(tail[i] == '/' || tail[i] == '?' || tail[i] == '#')
        invariant
            i <= tail@.len(),
            flags == tail@.map_values(|c: char| c == '/' || c == '?' || c == '#'),
            forall|k: int| 0 <= k < i ==> !flags[k],
        decreases tail@.len() - i,
    {
        i = i + 1;
    }
    if i < tail.len() {
        proof {
            crate::text::lemma_find_first_index(flags, i as int);
        }
    } else {
        proof {
            crate::text::lemma_find_first_none(flags);
        }
        assert(tail@.take(i as int) == tail@);
    }
    let id = slice_chars(&tail, 0, i);
    if id.len() > 0 && all_digits(&id) {
        Some(string_of(&id))
    } else {
        None
    }
}

/// What a search query names directly.
#[derive(Debug)]
pub enum QueryKey {
    /// An album id, or an album link.
    Album(String),
    /// A chapter link, whose album the API gives.
    Chapter(String),
}

/// What a search query names: an album id, an album link, or a chapter link.
pub open spec fn query_key_spec(query: Seq<char>) -> Option<(bool, Seq<char>)> {
    let t = trim(query);
    if t.len() == 0 {
        None
    } else if all_ascii_digits(t) {
        Some((true, t))
    } else if extract_id_spec(t, "/album/"@) is Some {
        Some((true, extract_id_spec(t, "/album/"@)->0))
    } else if extract_id_spec(t, "/photo/"@) is Some {
        Some((false, extract_id_spec(t, "/photo/"@)->0))
    } else {
        None
    }
}

/// Reads a search query as an album or chapter reference, if it is one.
pub fn parse_query_key(query: &str) -> (r: Option<QueryKey>)
    ensures
        match r {
            Some(QueryKey::Album(k)) => query_key_spec(query@) == Some((true, k@)),
            Some(QueryKey::Chapter(k)) => query_key_spec(query@) == Some((false, k@)),
            None => query_key_spec(query@) is None,
        },
{
    let t = trim_chars(&chars_of(query));
    if t.len() == 0 {
        return None;
    }
    if all_digits(&t) {
        return Some(QueryKey::Album(string_of(&t)));
    }
    let ts = string_of(&t);
    if let Some(k) = extract_id(ts.as_str(), "/album/") {
        return Some(QueryKey::Album(k));
    }
    if let Some(k) = extract_id(ts.as_str(), "/photo/") {
        return Some(QueryKey::Chapter(k));
    }
    None
}

// ---------------------------------------------------------------------------
// Image scrambling
// ---------------------------------------------------------------------------

/// The number of horizontal slices a chapter image is cut into: none before
/// the first scrambled chapter, ten up to chapter 268850, then a number from
/// the last hex digit of the MD5 of the chapter id and the file stem.
pub open spec fn scramble_num_spec(ep_id: u64, filename: Seq<u8>) -> u32 {
    if ep_id < SCRAMBLE_ID {
        0
    } else if ep_id < 268850 {
        10
    } else {
        let dot = crate::jmcomic::last_dot(filename);
        let stem = if dot >= 0 {
            filename.take(dot)
        } else {
            filename
        };
        let hex = hex_lower(md5_digest(ascii_bytes(decimal(ep_id as nat)) + stem));
        let last = if hex.len() > 0 {
            hex.last() as u32
        } else {
            48u32
        };
        if ep_id > 421926 {
            ((last % 8) * 2 + 2) as u32
        } else {
            ((last % 10) * 2 + 2) as u32
        }
    }
}

/// The index of the last `.` byte, or -1.
pub open spec fn last_dot(s: Seq<u8>) -> int
    decreases s.len(),
{
    if s.len() == 0 {
        -1
    } else if s.last() == 46u8 {
        s.len() - 1
    } else {
        last_dot(s.drop_last())
    }
}

proof fn lemma_last_dot_at(s: Seq<u8>, k: int)
    requires
        0 <= k <= s.len(),
        k < s.len() ==> s[k] == 46u8,
        forall|j: int| k < j < s.len() ==> s[j] != 46u8,
        k == s.len() ==> forall|j: int| 0 <= j < s.len() ==> s[j] != 46u8,
    ensures
        last_dot(s) == (if k < s.len() { k } else { -1 }),
    decreases s.len(),
{
    if s.len() > 0 {
        if k < s.len() - 1 || k == s.len() {
            let t = s.drop_last();
            assert(s.last() != 46u8);
            if k == s.len() {
                assert forall|j: int| 0 <= j < t.len() implies t[j] != 46u8 by {
                    assert(t[j] == s[j]);
                }
                lemma_last_dot_at(t, t.len() as int);
            } else {
                assert forall|j: int| k < j < t.len() implies t[j] != 46u8 by {
                    assert(t[j] == s[j]);
                }
                assert(t[k] == s[k]);
                lemma_last_dot_at(t, k);
            }
        }
    }
}

/// The number of slices of a chapter's image: none before chapter 220980,
/// ten before chapter 268850, and after that 2 plus twice a digit read off
/// the MD5 digest of the chapter id and the file name's stem (up to its last
/// `.`): the digest's last hexadecimal digit modulo 10 up to chapter
/// 421926, modulo 8 from chapter 421927 on.
pub proof fn law_scramble_slices(ep_id: u64, filename: Seq<u8>, k: int)
    requires
        0 <= k <= filename.len(),
        k < filename.len() ==> filename[k] == 46u8,
        forall|j: int| k < j < filename.len() ==> filename[j] != 46u8,
        k == filename.len() ==> forall|j: int| 0 <= j < filename.len() ==> filename[j] != 46u8,
        md5_digest(ascii_bytes(decimal(ep_id as nat)) + filename.take(k)).len() == 16,
    ensures
        ({
            let d = md5_digest(ascii_bytes(decimal(ep_id as nat)) + filename.take(k));
            let nib: int = (d[15] % 16) as int;
            let digit: int = if nib < 10 { 48 + nib } else { 87 + nib };
            scramble_num_spec(ep_id, filename) as int == if ep_id < 220980 {
                0
            } else if ep_id < 268850 {
                10
            } else if ep_id <= 421926 {
                (digit % 10) * 2 + 2
            } else {
                (digit % 8) * 2 + 2
            }
        }),
{
    lemma_last_dot_at(filename, k);
    if k == filename.len() {
        assert(filename.take(k) =~= filename);
    }
    let d = md5_digest(ascii_bytes(decimal(ep_id as nat)) + filename.take(k));
    assert(hex_lower(d) == hex_lower(d.drop_last()) + seq![
        crate::primitives::hex_char(d.last() / 16),
        crate::primitives::hex_char(d.last() % 16),
    ]);
    assert(d.last() == d[15]);
}

/// The number of slices of an image of chapter `ep_id` named `filename`.
pub fn calc_scramble_num(ep_id: u64, filename: &str) -> (r: u32)
    ensures
        r == scramble_num_spec(ep_id, filename.spec_bytes()),
{
    if ep_id < SCRAMBLE_ID {
        return 0;
    }
    if ep_id < 268850 {
        return 10;
    }
    let bytes = filename.as_bytes();
    let mut j: usize = bytes.len();
    assert(bytes@.take(bytes@.len() as int) == bytes@);
    while j > 0 && bytes[j - 1] != 46u8
        invariant
            j <= bytes@.len(),
            last_dot(bytes@) == last_dot(bytes@.take(j as int)),
        decreases j,
    {
        assert(bytes@.take(j as int).drop_last() == bytes@.take(j - 1));
        j = j - 1;
    }
    let stem_end = if j > 0 {
        assert(bytes@.take(j as int).last() == 46u8);
        j - 1
    } else {
        bytes.len()
    };
    let stem = slice_bytes(bytes, 0, stem_end);
    let mut seed = ascii_bytes_of(&u64_decimal(ep_id));
    append_bytes(&mut seed, &stem);
    let hex = to_hex_lower(&md5(&seed));
    let last: u32 = if hex.len() > 0 {
        hex[hex.len() - 1] as u32
    } else {
        48
    };
    if ep_id > 421926 {
        (last % 8) * 2 + 2
    } else {
        (last % 10) * 2 + 2
    }
}

/// Slice `k` of the restored image (`k` from the top): it is source slice
/// `num - 1 - k`, the last source slice carrying the remainder rows.
pub open spec fn slice_spec(h: int, num: int, k: int) -> (int, int, int) {
    let block = h / num;
    let rem = h % num;
    let i = num - 1 - k;
    let src_y = i * block;
    let height = if i == num - 1 {
        block + rem
    } else {
        block
    };
    let dst_y = if k == 0 {
        0
    } else {
        block + rem + (k - 1) * block
    };
    (src_y, height, dst_y)
}

/// The slices that restore a scrambled image of height `h` cut into `num`
/// slices: `(source y, height, destination y)`, top to bottom.
pub fn scramble_slices(h: u32, num: u32) -> (r: Vec<(u32, u32, u32)>)
    requires
        num > 1,
    ensures
        r@.len() == num,
        forall|k: int|
            0 <= k < num ==> {
                let (s, t, d) = slice_spec(h as int, num as int, k);
                &&& (#[trigger] r@[k]).0 == s
                &&& r@[k].1 == t
                &&& r@[k].2 == d
            },
{
    let block = h / num;
    let rem = h % num;
    assert(block * num + rem == h) by (nonlinear_arith)
        requires
            block == h / num,
            rem == h % num,
            num > 1,
    ;
    let mut out: Vec<(u32, u32, u32)> = Vec::new();
    let mut dst_y: u32 = 0;
    let mut k: u32 = 0;
    while k < num
        invariant
            k <= num,
            num > 1,
            block == h / num,
            rem == h % num,
            rem < num,
            block * num + rem == h,
            out@.len() == k,
            dst_y == (if k == 0 { 0 } else { block + rem + (k - 1) * block }),
            dst_y <= h,
            forall|m: int|
                0 <= m < k ==> {
                    let (s, t, d) = slice_spec(h as int, num as int, m);
                    &&& (#[trigger] out@[m]).0 == s
                    &&& out@[m].1 == t
                    &&& out@[m].2 == d
                },
        decreases num - k,
    {
        let i = num - 1 - k;
        assert(i * block <= h) by (nonlinear_arith)
            requires
                i < num,
                block * num + rem == h,
                rem >= 0,
        ;
        let src_y = i * block;
        assert(block + rem <= h) by (nonlinear_arith)
            requires
                block * num + rem == h,
                num > 1,
                block >= 0,
        ;
        let cur_h = if k == 0 { block + rem } else { block };
        out.push((src_y, cur_h, dst_y));
        assert(block + rem + k * block <= h) by (nonlinear_arith)
            requires
                k < num,
                block * num + rem == h,
        ;
        assert(block + rem + k * block == (if k == 0 { 0 } else { block + rem + (k - 1) * block }) + (
        if k == 0 { block + rem } else { block as int })) by (nonlinear_arith);
        dst_y = dst_y + cur_h;
        k = k + 1;
    }
    out
}

/// The restored slices tile the image: each starts where the previous one
/// ends, and the last ends at the bottom.
pub proof fn law_scramble_slices_tile(h: int, num: int)
    requires
        h >= 0,
        num > 1,
    ensures
        forall|k: int|
            0 <= k < num - 1 ==> #[trigger] slice_spec(h, num, k).2 + slice_spec(h, num, k).1
                == slice_spec(h, num, k + 1).2,
        slice_spec(h, num, num - 1).2 + slice_spec(h, num, num - 1).1 == h,
{
    let block = h / num;
    let rem = h % num;
    assert(block * num + rem == h) by (nonlinear_arith)
        requires
            block == h / num,
            rem == h % num,
            num > 1,
    ;
    assert forall|k: int| 0 <= k < num - 1 implies #[trigger] slice_spec(h, num, k).2 + slice_spec(h, num, k).1
        == slice_spec(h, num, k + 1).2 by {
        if k > 0 {
            assert(block + rem + (k - 1) * block + block == block + rem + k * block) by (nonlinear_arith);
        }
    }
    assert(block + rem + (num - 2) * block + block == h) by (nonlinear_arith)
        requires
            block * num + rem == h,
    ;
}

// ---------------------------------------------------------------------------
// Filters
// ---------------------------------------------------------------------------

/// The search order, category and keyword after the first `n` filters.
pub open spec fn filters_spec(query: Option<Seq<char>>, filters: Seq<FilterValue>, n: nat) -> (Seq<char>, Seq<char>, Option<Seq<char>>)
    decreases n,
{
    if n == 0 {
        (
            "mr"@,
            Seq::empty(),
            match query {
                Some(q) if q.len() > 0 => Some(q),
                _ => None,
            },
        )
    } else {
        let (order, category, keyword) = filters_spec(query, filters, (n - 1) as nat);
        match filters[n - 1] {
            FilterValue::Select { id, value } => if value@.len() == 0 {
                (order, category, keyword)
            } else if id@ == "sort"@ {
                (value@, category, keyword)
            } else if id@ == "category"@ && category.len() == 0 {
                (order, value@, keyword)
            } else if id@ == "tag"@ || id@ == "genre"@ {
                (order, category, Some(value@))
            } else {
                (order, category, keyword)
            },
            FilterValue::Text { id, value } => if value@.len() > 0 && (id@ == "author"@ || id@
                == "title"@) {
                (order, category, Some(value@))
            } else {
                (order, category, keyword)
            },
            _ => (order, category, keyword),
        }
    }
}

/// Reads the search order, category and keyword from a query and filters:
/// the last sort wins, the first category, and the last tag, genre, author
/// or title over the query.
pub fn parse_filters(query: Option<&str>, filters: &Vec<FilterValue>) -> (r: (String, String, Option<String>))
    ensures
        ({
            let (o, c, k) = filters_spec(
                match query {
                    Some(q) => Some(q@),
                    None => None,
                },
                filters@,
                filters@.len(),
            );
            &&& r.0@ == o
            &&& r.1@ == c
            &&& opt_view(r.2) == k
        }),
{
    let ghost qv = match query {
        Some(q) => Some(q@),
        None => None::<Seq<char>>,
    };
    let mut order = chars_of("mr");
    let mut category: Vec<char> = Vec::new();
    let mut keyword: Option<Vec<char>> = match query {
        Some(q) => {
            let v = chars_of(q);
            if v.len() > 0 {
                Some(v)
            } else {
                None
            }
        },
        None => None,
    };
    let mut i: usize = 0;
    while i < filters.len()
        invariant
            i <= filters@.len(),
            ({
                let (o, c, k) = filters_spec(qv, filters@, i as nat);
                &&& order@ == o
                &&& category@ == c
                &&& match keyword {
                    Some(v) => k == Some(v@),
                    None => k is None,
                }
            }),
        decreases filters@.len() - i,
    {
        match &filters[i] {
            FilterValue::Select { id, value } => {
                let vv = chars_of(value.as_str());
                if vv.len() > 0 {
                    let idv = chars_of(id.as_str());
                    if chars_eq(&idv, &chars_of("sort")) {
                        order = vv;
                    } else if chars_eq(&idv, &chars_of("category")) && category.len() == 0 {
                        category = vv;
                    } else if chars_eq(&idv, &chars_of("tag")) || chars_eq(&idv, &chars_of("genre")) {
                        keyword = Some(vv);
                    }
                }
            },
            FilterValue::Text { id, value } => {
                let vv = chars_of(value.as_str());
                let idv = chars_of(id.as_str());
                if vv.len() > 0 && (chars_eq(&idv, &chars_of("author")) || chars_eq(&idv, &chars_of("title"))) {
                    keyword = Some(vv);
                }
            },
            _ => {},
        }
        i = i + 1;
    }
    let k = match keyword {
        Some(v) => Some(string_of(&v)),
        None => None,
    };
    (string_of(&order), string_of(&category), k)
}


// ---------------------------------------------------------------------------
// Finding a working domain
// ---------------------------------------------------------------------------

/// Where the current API domains are published, in the order they are
/// tried.
pub open spec fn domain_refresh_urls_spec() -> Seq<&'static str> {
    seq![
        "https://rup4a04-c01.tos-ap-southeast-1.bytepluses.com/newsvr-2025.txt",
        "https://rup4a04-c02.tos-cn-hongkong.bytepluses.com/newsvr-2025.txt",
    ]
}

/// Where the current API domains are published.
pub fn domain_refresh_urls() -> (r: Vec<&'static str>)
    ensures
        r@ == domain_refresh_urls_spec(),
{
    let r = vec![
        "https://rup4a04-c01.tos-ap-southeast-1.bytepluses.com/newsvr-2025.txt",
        "https://rup4a04-c02.tos-cn-hongkong.bytepluses.com/newsvr-2025.txt",
    ];
    assert(r@ =~= domain_refresh_urls_spec());
    r
}

/// The image servers asked for, in order of preference.
pub fn preferred_image_shunts() -> (r: Vec<u8>)
    ensures
        r@ == seq![3u8, 2u8, 4u8, 1u8],
{
    let r = vec![3u8, 2u8, 4u8, 1u8];
    assert(r@ =~= seq![3u8, 2u8, 4u8, 1u8]);
    r
}

/// What a published domain list decrypts to: the text trimmed and without
/// leading byte-order marks, read as base64, decrypted with the key of the
/// refresh secret; none where a step fails.
pub open spec fn domain_refresh_spec(text: Seq<char>) -> Option<Seq<u8>> {
    let t = crate::text::trim_start_char(trim(text), '\u{feff}');
    match base64_standard_decode(encode_utf8(t)) {
        None => None,
        Some(ct) => match ecb_decrypt_spec(ct, aes_key_spec(DOMAIN_REFRESH_SECRET.spec_bytes())) {
            Ok(raw) => Some(raw),
            Err(_) => None,
        },
    }
}

/// The decrypted domain list of a published text (`fetch_domain_candidates`
/// for one source); the app reads its JSON and normalizes the domains.
pub fn domain_refresh_plaintext(text: &str) -> (r: Option<Vec<u8>>)
    ensures
        match r {
            Some(v) => domain_refresh_spec(text@) == Some(v@),
            None => domain_refresh_spec(text@) is None,
        },
{
    let t = crate::text::trim_start_char_chars(&trim_chars(&chars_of(text)), '\u{feff}');
    let ts = string_of(&t);
    let ct = match base64_decode(ts.as_str().as_bytes()) {
        Some(ct) => ct,
        None => return None,
    };
    let key = derive_aes_key(DOMAIN_REFRESH_SECRET);
    match aes256_ecb_decrypt(&ct, &key) {
        Ok(raw) => Some(raw),
        Err(_) => None,
    }
}

/// The web page of a large promotion group: its first page without a page
/// number.
pub fn promote_page_url(group_id: &str, page: i32) -> (r: String)
    ensures
        r@ == PROMOTE_WEB_URL@ + "/promotes/"@ + group_id@ + (if page <= 1 {
            Seq::empty()
        } else {
            "?page="@ + crate::text::int_decimal(page as int)
        }),
{
    let mut out = chars_of(PROMOTE_WEB_URL);
    append_chars(&mut out, &chars_of("/promotes/"));
    append_chars(&mut out, &chars_of(group_id));
    if page > 1 {
        append_chars(&mut out, &chars_of("?page="));
        append_chars(&mut out, &crate::text::i64_decimal(page as i64));
    } else {
        assert(out@ + Seq::<char>::empty() =~= out@);
    }
    string_of(&out)
}

// ---------------------------------------------------------------------------
// Entries as the app lists them
// ---------------------------------------------------------------------------

/// Entries on one page of a promotion's web listing.
pub const PROMOTE_PAGE_SIZE: usize = 80;

/// An entry as the app lists it.
pub struct JmManga {
    pub key: String,
    pub title: String,
    pub cover: String,
    pub authors: Option<Vec<String>>,
    pub content_rating: ContentRating,
}

/// What a listed entry shows: key, title, cover, authors and rating.
pub type MangaShown = (Seq<char>, Seq<char>, Seq<char>, Option<Seq<Seq<char>>>, ContentRating);

impl JmManga {
    /// The fields of this entry as plain values.
    pub open spec fn shown(&self) -> MangaShown {
        (
            self.key@,
            self.title@,
            self.cover@,
            match self.authors {
                Some(a) => Some(views(a@)),
                None => None,
            },
            self.content_rating,
        )
    }
}

/// The cover an entry shows: its own image when that is not empty, else the
/// album cover on the image host.
pub open spec fn entry_cover(cdn: Seq<char>, id: Seq<char>, image: Option<Seq<char>>) -> Seq<char> {
    match image {
        Some(i) if i.len() > 0 => i,
        _ => cdn + "/media/albums/"@ + id + "_3x4.jpg"@,
    }
}

/// The authors of an entry: its author, unless that is blank.
pub open spec fn entry_authors(author: Option<Seq<char>>) -> Option<Seq<Seq<char>>> {
    match author {
        Some(a) if trim(a).len() > 0 => Some(seq![a]),
        _ => None,
    }
}

/// An entry of a search or a promotion as the app lists it; every such
/// entry is rated NSFW.
pub open spec fn item_manga(i: ComicItem, cdn: Seq<char>) -> MangaShown {
    (
        i.id@,
        or_empty(opt_view(i.name)),
        entry_cover(cdn, i.id@, opt_view(i.image)),
        entry_authors(opt_view(i.author)),
        ContentRating::NSFW,
    )
}

/// The entries that the block rules let through, in order, as listed.
pub open spec fn visible_spec(items: Seq<ComicItem>, cdn: Seq<char>, ctx: BlockState) -> Seq<MangaShown>
    decreases items.len(),
{
    if items.len() == 0 {
        Seq::empty()
    } else {
        let rest = visible_spec(items.drop_last(), cdn, ctx);
        let last = items.last();
        if ctx.blocks(last.id@, last.fields_spec()) {
            rest
        } else {
            rest.push(item_manga(last, cdn))
        }
    }
}

/// The listed fields of a sequence of entries.
pub open spec fn shown_all(ms: Seq<JmManga>) -> Seq<MangaShown> {
    ms.map_values(|m: JmManga| m.shown())
}

impl ComicItem {
    /// This entry as the app lists it.
    pub fn into_manga(self, cdn_base: &str) -> (r: JmManga)
        ensures
            r.shown() == item_manga(self, cdn_base@),
    {
        let cover = match &self.image {
            Some(i) => resolve_cover(cdn_base, self.id.as_str(), Some(i.as_str())),
            None => resolve_cover(cdn_base, self.id.as_str(), None),
        };
        let authors = match self.author {
            Some(a) => {
                if trim_chars(&chars_of(a.as_str())).len() > 0 {
                    let v = vec![a];
                    assert(views(v@) =~= seq![v@[0]@]);
                    Some(v)
                } else {
                    None
                }
            },
            None => None,
        };
        let title = match self.name {
            Some(n) => n,
            None => String::new(),
        };
        proof {
            reveal_strlit("");
        }
        JmManga { key: self.id, title, cover, authors, content_rating: ContentRating::NSFW }
    }
}

/// The entries of a list that the block rules let through, as the app lists
/// them, in their order.
pub fn visible_mangas(items: Vec<ComicItem>, cdn_base: &str, ctx: &BlockState) -> (r: Vec<JmManga>)
    ensures
        shown_all(r@) == visible_spec(items@, cdn_base@, *ctx),
{
    let ghost all = items@;
    let mut rest = items;
    let mut out: Vec<JmManga> = Vec::new();
    let ghost mut k: int = 0;
    assert(all.take(0) =~= Seq::<ComicItem>::empty());
    assert(shown_all(out@) =~= Seq::<MangaShown>::empty());
    while rest.len() > 0
        invariant
            0 <= k <= all.len(),
            rest@ == all.skip(k),
            shown_all(out@) == visible_spec(all.take(k), cdn_base@, *ctx),
        decreases rest.len(),
    {
        let item = rest.remove(0);
        assert(item == all[k]);
        assert(all.take(k + 1).drop_last() =~= all.take(k));
        assert(all.take(k + 1).last() == all[k]);
        let ghost prev = out@;
        if !item.is_blocked(ctx) {
            let m = item.into_manga(cdn_base);
            out.push(m);
            assert(shown_all(out@) =~= shown_all(prev).push(out@.last().shown()));
        }
        assert(rest@ =~= all.skip(k + 1));
        proof {
            k = k + 1;
        }
    }
    assert(all.take(k) =~= all);
    out
}

/// The image attributes of one card of a promotion's web page.
pub struct CardImage {
    pub title: Option<String>,
    pub alt: Option<String>,
    pub data_original: Option<String>,
    pub data_src: Option<String>,
    pub src: Option<String>,
}

/// The first of three optional values that is present.
pub open spec fn first_present(a: Option<Seq<char>>, b: Option<Seq<char>>, c: Option<Seq<char>>) -> Option<Seq<char>> {
    if a is Some {
        a
    } else if b is Some {
        b
    } else {
        c
    }
}

/// What one card of a promotion's web page becomes: its album id from the
/// link, its name from the image title (else its alt text), trimmed and not
/// empty, and its image from the first image attribute present, when that
/// one is usable.
pub open spec fn card_spec(href: Option<Seq<char>>, img: Option<CardImage>) -> Option<(Seq<char>, Seq<char>, Option<Seq<char>>)> {
    match (href, img) {
        (Some(h), Some(im)) => match (extract_id_spec(h, "/album/"@), if opt_view(im.title) is Some { opt_view(im.title) } else { opt_view(im.alt) }) {
            (Some(id), Some(raw)) => if trim(raw).len() == 0 {
                None
            } else {
                Some((id, trim(raw), match first_present(opt_view(im.data_original), opt_view(im.data_src), opt_view(im.src)) {
                    Some(u) => normalize_img_spec(u),
                    None => None,
                }))
            },
            _ => None,
        },
        _ => None,
    }
}

fn first_present_str<'a>(a: &'a Option<String>, b: &'a Option<String>, c: &'a Option<String>) -> (r: Option<&'a str>)
    ensures
        opt_str_view(r) == first_present(opt_view(*a), opt_view(*b), opt_view(*c)),
{
    match a {
        Some(x) => Some(x.as_str()),
        None => match b {
            Some(x) => Some(x.as_str()),
            None => match c {
                Some(x) => Some(x.as_str()),
                None => None,
            },
        },
    }
}

/// One card of a promotion's web page as an entry, if it links an album and
/// has a name.
pub fn promote_card(href: Option<&str>, img: Option<&CardImage>) -> (r: Option<ComicItem>)
    ensures
        match card_spec(opt_str_view(href), match img { Some(i) => Some(*i), None => None }) {
            Some((id, name, image)) => r matches Some(item) && item.id@ == id && opt_view(item.name)
                == Some(name) && opt_view(item.image) == image && item.author is None
                && item.description is None && item.category is None && item.category_sub is None,
            None => r is None,
        },
{
    let h = match href {
        Some(h) => h,
        None => return None,
    };
    let im = match img {
        Some(im) => im,
        None => return None,
    };
    let id = match extract_id(h, "/album/") {
        Some(id) => id,
        None => return None,
    };
    let raw = match &im.title {
        Some(t) => t.as_str(),
        None => match &im.alt {
            Some(a) => a.as_str(),
            None => return None,
        },
    };
    let name = trim_chars(&chars_of(raw));
    if name.len() == 0 {
        return None;
    }
    let image = match first_present_str(&im.data_original, &im.data_src, &im.src) {
        Some(u) => normalize_img(u),
        None => None,
    };
    Some(ComicItem {
        id,
        name: Some(string_of(&name)),
        author: None,
        image,
        description: None,
        category: None,
        category_sub: None,
    })
}

/// A page of a promotion's web listing: an error when no card could be
/// read; else the entries the block rules let through, and whether a full
/// page suggests another.
pub fn promote_page(items: Vec<ComicItem>, cdn_base: &str, ctx: &BlockState) -> (r: Result<(Vec<JmManga>, bool), JmError>)
    ensures
        items@.len() == 0 <==> r == Err::<(Vec<JmManga>, bool), JmError>(JmError::PageParse),
        r matches Ok((ms, next)) ==> shown_all(ms@) == visible_spec(items@, cdn_base@, *ctx)
            && next == (items@.len() >= PROMOTE_PAGE_SIZE),
{
    if items.len() == 0 {
        return Err(JmError::PageParse);
    }
    let next = items.len() >= PROMOTE_PAGE_SIZE;
    Ok((visible_mangas(items, cdn_base, ctx), next))
}

/// How a promotion listing page is fetched.
#[derive(Debug, Clone, Copy, PartialEq, Eq)]
pub enum ListingPlan {
    /// From the web listing, at this page (at least 1).
    Web(i32),
    /// Nothing: only the first page of a small section exists.
    Empty,
    /// From the section of that id on the promotion answer.
    Section,
}

/// Decides how a promotion listing page is fetched: the large sections page
/// through the web site; the others have only a first page, taken from the
/// promotion answer.
pub fn listing_plan(group_id: &str, page: i32) -> (r: ListingPlan)
    ensures
        PromoteGroup::large_listing(group_id@) ==> r == ListingPlan::Web(if page < 1 { 1 } else { page }),
        !PromoteGroup::large_listing(group_id@) ==> r == (if page > 1 { ListingPlan::Empty } else { ListingPlan::Section }),
{
    let page = if page < 1 { 1 } else { page };
    if PromoteGroup::is_large_listing_id(group_id) {
        ListingPlan::Web(page)
    } else if page > 1 {
        ListingPlan::Empty
    } else {
        ListingPlan::Section
    }
}

/// An album as the app shows it.
pub struct AlbumManga {
    pub key: String,
    pub title: String,
    pub cover: String,
    pub authors: Option<Vec<String>>,
    pub description: Option<String>,
    pub tags: Option<Vec<String>>,
    pub url: String,
    pub status: MangaStatus,
    pub content_rating: ContentRating,
    pub viewer: Viewer,
}

/// The tags an album shows: each trimmed, the blank ones left out.
pub open spec fn shown_tags(ts: Seq<Seq<char>>) -> Seq<Seq<char>>
    decreases ts.len(),
{
    if ts.len() == 0 {
        Seq::empty()
    } else if trim(ts.last()).len() == 0 {
        shown_tags(ts.drop_last())
    } else {
        shown_tags(ts.drop_last()).push(trim(ts.last()))
    }
}

/// A description unless it is blank.
pub open spec fn shown_description(d: Option<Seq<char>>) -> Option<Seq<char>> {
    match d {
        Some(t) if trim(t).len() > 0 => Some(t),
        _ => None,
    }
}

fn trimmed_tags(tags: &Vec<String>) -> (r: Vec<String>)
    ensures
        views(r@) == shown_tags(views(tags@)),
{
    let ghost all = views(tags@);
    let mut out: Vec<String> = Vec::new();
    let mut i: usize = 0;
    assert(all.take(0) =~= Seq::<Seq<char>>::empty());
    assert(views(out@) =~= Seq::<Seq<char>>::empty());
    while i < tags.len()
        invariant
            i <= tags@.len(),
            all == views(tags@),
            views(out@) == shown_tags(all.take(i as int)),
        decreases tags@.len() - i,
    {
        let t = trim_chars(&chars_of(tags[i].as_str()));
        assert(all.take(i + 1).drop_last() =~= all.take(i as int));
        assert(all.take(i + 1).last() == tags@[i as int]@);
        if t.len() > 0 {
            let ghost prev = out@;
            out.push(string_of(&t));
            assert(views(out@) =~= views(prev).push(t@));
        }
        i = i + 1;
    }
    assert(all.take(tags@.len() as int) =~= all);
    out
}

/// The reading direction an album is shown with: what the labels, the kana
/// and the share of ASCII decide, or no preference.
pub open spec fn album_viewer(a: AlbumResp, name_mostly_ascii: bool, desc_mostly_ascii: bool) -> Viewer {
    match viewer_spec(
        label_viewer(a.labels_spec()),
        a.labels_spec().contains("英文"@),
        has_japanese_spec(or_empty(opt_view(a.name))),
        has_japanese_spec(or_empty(opt_view(a.description))),
        name_mostly_ascii,
        desc_mostly_ascii,
    ) {
        Some(v) => v,
        None => Viewer::Unknown,
    }
}

impl AlbumResp {
    /// This album as the app shows it under `key`. Whether the name, and the
    /// description, are at least 45% ASCII is measured by the caller.
    pub fn into_manga(self, key: &str, cdn_base: &str, name_mostly_ascii: bool, desc_mostly_ascii: bool) -> (r: AlbumManga)
        ensures
            r.key@ == key@,
            r.title@ == or_empty(opt_view(self.name)),
            r.cover@ == cdn_base@ + "/media/albums/"@ + key@ + "_3x4.jpg"@,
            match r.authors {
                Some(a) => self.author matches Some(b) && views(a@) == views(b@),
                None => self.author is None,
            },
            opt_view(r.description) == shown_description(opt_view(self.description)),
            match r.tags {
                Some(t) => self.tags matches Some(u) && views(t@) == shown_tags(views(u@)),
                None => self.tags is None,
            },
            r.url@ == WEB_URL@ + "/album/"@ + key@,
            r.status == status_of(opt_list(self.tags)),
            r.content_rating == rating_of(self.labels_spec()),
            r.viewer == album_viewer(self, name_mostly_ascii, desc_mostly_ascii),
    {
        let status = self.status();
        let content_rating = self.content_rating();
        let (by_labels, has_english) = self.label_viewer();
        let name_kana = match &self.name {
            Some(n) => has_japanese(n.as_str()),
            None => false,
        };
        let desc_kana = match &self.description {
            Some(d) => has_japanese(d.as_str()),
            None => false,
        };
        proof {
            reveal_strlit("");
            assert(!has_japanese_spec(""@));
        }
        let viewer = match decide_viewer(by_labels, has_english, name_kana, desc_kana, name_mostly_ascii, desc_mostly_ascii) {
            Some(v) => v,
            None => Viewer::Unknown,
        };
        let tags = match &self.tags {
            Some(t) => Some(trimmed_tags(t)),
            None => None,
        };
        let description = match self.description {
            Some(d) => {
                if trim_chars(&chars_of(d.as_str())).len() > 0 {
                    Some(d)
                } else {
                    None
                }
            },
            None => None,
        };
        let title = match self.name {
            Some(n) => n,
            None => String::new(),
        };
        let mut url = chars_of(WEB_URL);
        append_chars(&mut url, &chars_of("/album/"));
        append_chars(&mut url, &chars_of(key));
        AlbumManga {
            key: string_of(&chars_of(key)),
            title,
            cover: cover_url(cdn_base, key),
            authors: self.author,
            description,
            tags,
            url: string_of(&url),
            status,
            content_rating,
            viewer,
        }
    }
}

/// No entry that the block rules match is ever listed: each listed entry is
/// the listing of an input entry that the rules let through, and every such
/// input entry is listed.
pub proof fn law_blocked_never_listed(items: Seq<ComicItem>, cdn: Seq<char>, ctx: BlockState)
    ensures
        forall|j: int|
            0 <= j < visible_spec(items, cdn, ctx).len() ==> exists|i: int|
                0 <= i < items.len() && !ctx.blocks(items[i].id@, items[i].fields_spec())
                    && #[trigger] visible_spec(items, cdn, ctx)[j] == item_manga(items[i], cdn),
        forall|i: int|
            0 <= i < items.len() && !ctx.blocks(items[i].id@, items[i].fields_spec())
                ==> visible_spec(items, cdn, ctx).contains(item_manga(#[trigger] items[i], cdn)),
    decreases items.len(),
{
    if items.len() > 0 {
        let init = items.drop_last();
        law_blocked_never_listed(init, cdn, ctx);
        let v = visible_spec(items, cdn, ctx);
        let w = visible_spec(init, cdn, ctx);
        assert forall|j: int| 0 <= j < v.len() implies exists|i: int|
            0 <= i < items.len() && !ctx.blocks(items[i].id@, items[i].fields_spec())
                && #[trigger] v[j] == item_manga(items[i], cdn) by {
            if j < w.len() {
                assert(v[j] == w[j]);
                let i = choose|i: int|
                    0 <= i < init.len() && !ctx.blocks(init[i].id@, init[i].fields_spec())
                        && #[trigger] w[j] == item_manga(init[i], cdn);
                assert(items[i] == init[i]);
            } else {
                assert(items[items.len() - 1] == items.last());
            }
        }
        assert forall|i: int|
            0 <= i < items.len() && !ctx.blocks(items[i].id@, items[i].fields_spec()) implies v.contains(
                item_manga(#[trigger] items[i], cdn),
            ) by {
            if i < init.len() {
                assert(items[i] == init[i]);
                let j = choose|j: int| 0 <= j < w.len() && w[j] == item_manga(init[i], cdn);
                assert(v[j] == w[j]);
            } else {
                assert(items[i] == items.last());
                assert(v[v.len() - 1] == item_manga(items[i], cdn));
            }
        }
    }
}

} // verus!

//! MangaFire: the VRF request signature, the canonical query that it signs,
//! and the decisions the source makes on links, listings and filters.
use vstd::prelude::*;

use vstd::string::StringSliceAdditionalSpecFns;
use vstd::utf8::encode_utf8;
use crate::primitives::{base64_decode, base64_standard_decode, base64_url_encode, base64_url_nopad_encode};
use crate::model::{opt_link_view, ContentRating, DeepLink, DeepLinkView, FilterValue, MangaStatus, Viewer};
use crate::text::{
    pairs_view, push_pair,
    str_eq, find_first_index, append_chars, chars_of, find_chars, find, has_prefix, slice_chars,
    starts_with, string_of, trim, trim_chars, opt_view,
};

verus! {

// ---------------------------------------------------------------------------
// VRF
// ---------------------------------------------------------------------------

/// The substitution table of the first stage (base64).
pub const TABLE_1: &'static str = "yINlmUNho8VYJT+ibTIP+9ESiULpVEtMOoD6U6lRE0R/xwXo/Xp9NrUgC4cw/Lmo33vUyjUE40kUoEWIr/fxfNNcq2s79ShQ5NhNrFnJ4hXPwOu/SuXzIbuTQKGFvfm08E9jvCfqAtoDqvQq3dVWPQFmJjgvkISBeXY3BgANR+yVnjGbcxZ47d6kLNfZPIayTq3/YGySb1KuVZodWp/WGNAO5pfMcpaK53Hhs0allBszaMaxuouOwdxbwgxIw6YunSsXjI05Yi0j9j4eHKfSXR8Ifo/Od+8iamRfCXTyvm7NGRGYdcQ0ywcK/u6RXhrbcCm4t2eCtrDgQVecJGkQ+A==";

/// The key of the first stage (base64).
pub const KEY_1: &'static str = "0Ec58JOY3uBzJK9m3zqIOpdlF7UFiax9DmA=";

/// The substitution table of the second stage (base64).
pub const TABLE_2: &'static str = "IUFltCxD3Oc2cwCgkJffthaOg9cgPUb0LgW6H/VtfcF0kc5F25t+aWj6JH9VOhOaY0rAFdUxlDnl5BLNvwEJvQtP5qcw7vdb/K+chnbwnspSHT8mz5lqwz41TezG0hkO06FTjJZhsyNuFLDpD2ZZxQj/QIRcF90zpmQ7Byu483WsQqUE0C342HL+JXngRB6fRzxRyVTaKu83h7UYTJ0QMt6ixFh6S3F8gqkKwrGTL3jHNBsD45UnifK8+RGtishQV2K3rujLKEkiZxpr2dYcudFW4oFsDKhad3CLBvuyTqsCo4B7mL5IKQ1vXo/MOOvq1I1d8ar9X6Ttu5KF4fZgiA==";

/// The key of the second stage (base64).
pub const KEY_2: &'static str = "AAdjb1iPY8CiDmq9H34tKTBF8a3oDQ==";

/// The substitution table of the third stage (base64).
pub const TABLE_3: &'static str = "NQHlu1/wVO5EmkwQymF810qqY2xG1k2obcas4Z9mCsPEIFl9pRIjFxbJ7ybMHbBckT5Ton85E0FOeHezbh/mjlEYpmpnlXOS8dgrqeq2KfxImTh1YK9y0PeMNhzA1OQzSY9brYOJq/l2QnE/hwOeZIhPixVSKIUlDb5vLcH6RWKxkIEMuP0bDwIqQ71AJJaEaMJL7A6YtyIwoRT+L5v4aZzodN/0+3nOGsfblFjgxSfPzVDjNFeNl5P26+kEC/8AHgdrpAbt3hHz3HrRN1Y6e+JHgF7ncFWnoF0y3THL1S71WgWGCa6KtSzTCCG58n68nTyj2T3Sshk7utqCtMi/ZQ==";

/// The key of the third stage (base64).
pub const KEY_3: &'static str = "DELOJgPsVaCcblDtTGMdHzM=";

/// The chaining value before output byte `out.len()`: the IV, then the last
/// output byte.
pub open spec fn stage_prev(iv: u8, out: Seq<u8>) -> u8 {
    if out.len() == 0 {
        iv
    } else {
        out.last()
    }
}

/// The first `n` output bytes of one substitution stage: each byte is the
/// table entry at the input byte xor the cycled key xor the previous output.
pub open spec fn stage(data: Seq<u8>, table: Seq<u8>, key: Seq<u8>, iv: u8, n: nat) -> Seq<u8>
    decreases n,
{
    if n == 0 {
        Seq::empty()
    } else {
        let p = stage(data, table, key, iv, (n - 1) as nat);
        p.push(table[(data[n - 1] ^ key[((n - 1) as int) % (key.len() as int)] ^ stage_prev(iv, p)) as int])
    }
}

/// One whole stage over `data`.
pub open spec fn stage_all(data: Seq<u8>, table: Seq<u8>, key: Seq<u8>, iv: u8) -> Seq<u8> {
    stage(data, table, key, iv, data.len())
}

proof fn lemma_stage_len(data: Seq<u8>, table: Seq<u8>, key: Seq<u8>, iv: u8, n: nat)
    ensures
        stage(data, table, key, iv, n).len() == n,
    decreases n,
{
    if n > 0 {
        lemma_stage_len(data, table, key, iv, (n - 1) as nat);
    }
}

/// One substitution stage of the VRF cipher.
pub fn encrypt_stage(data: &[u8], table: &[u8], key: &[u8], iv: u8) -> (r: Vec<u8>)
    requires
        table@.len() == 256,
        key@.len() > 0,
    ensures
        r@ == stage_all(data@, table@, key@, iv),
{
    let mut output: Vec<u8> = Vec::new();
    let mut previous = iv;
    let mut index: usize = 0;
    while index < data.len()
        invariant
            index <= data@.len(),
            table@.len() == 256,
            key@.len() > 0,
            output@ == stage(data@, table@, key@, iv, index as nat),
            previous == stage_prev(iv, output@),
        decreases data@.len() - index,
    {
        let k = key[index % key.len()];
        previous = table[(data[index] ^ k ^ previous) as usize];
        output.push(previous);
        index = index + 1;
    }
    output
}

/// The three stages, in order, with their IVs.
pub open spec fn vrf_transform(
    data: Seq<u8>,
    t1: Seq<u8>,
    k1: Seq<u8>,
    t2: Seq<u8>,
    k2: Seq<u8>,
    t3: Seq<u8>,
    k3: Seq<u8>,
) -> Seq<u8> {
    stage_all(stage_all(stage_all(data, t1, k1, 0x5Au8), t2, k2, 0x35u8), t3, k3, 0xBAu8)
}

/// The stage tables and keys decode, to 256-byte tables and non-empty keys.
pub open spec fn stages_usable(t1: Option<Seq<u8>>, k1: Option<Seq<u8>>, t2: Option<Seq<u8>>, k2: Option<Seq<u8>>, t3: Option<Seq<u8>>, k3: Option<Seq<u8>>) -> bool {
    &&& t1 matches Some(t) && t.len() == 256
    &&& k1 matches Some(k) && k.len() > 0
    &&& t2 matches Some(t) && t.len() == 256
    &&& k2 matches Some(k) && k.len() > 0
    &&& t3 matches Some(t) && t.len() == 256
    &&& k3 matches Some(k) && k.len() > 0
}

/// The VRF signature of `data` under the decoded stage material: the three
/// stages, then URL-safe base64 without padding.
pub open spec fn vrf_signature(data: Seq<u8>, t1: Seq<u8>, k1: Seq<u8>, t2: Seq<u8>, k2: Seq<u8>, t3: Seq<u8>, k3: Seq<u8>) -> Seq<char> {
    base64_url_nopad_encode(vrf_transform(data, t1, k1, t2, k2, t3, k3))
}

/// Signs `path` with stage material that is already decoded.
pub fn sign_with(
    path: &[u8],
    t1: &[u8],
    k1: &[u8],
    t2: &[u8],
    k2: &[u8],
    t3: &[u8],
    k3: &[u8],
) -> (r: String)
    requires
        t1@.len() == 256,
        t2@.len() == 256,
        t3@.len() == 256,
        k1@.len() > 0,
        k2@.len() > 0,
        k3@.len() > 0,
    ensures
        r@ == vrf_signature(path@, t1@, k1@, t2@, k2@, t3@, k3@),
{
    let d1 = encrypt_stage(path, t1, k1, 0x5A);
    let d2 = encrypt_stage(&d1, t2, k2, 0x35);
    let d3 = encrypt_stage(&d2, t3, k3, 0xBA);
    base64_url_encode(&d3)
}

/// The `vrf` parameter of a canonical request path under the built-in stage
/// material; none only when that material does not decode to usable tables
/// and keys.
pub open spec fn vrf_for(path: Seq<char>) -> Option<Seq<char>> {
    let t1 = base64_standard_decode(TABLE_1.spec_bytes());
    let k1 = base64_standard_decode(KEY_1.spec_bytes());
    let t2 = base64_standard_decode(TABLE_2.spec_bytes());
    let k2 = base64_standard_decode(KEY_2.spec_bytes());
    let t3 = base64_standard_decode(TABLE_3.spec_bytes());
    let k3 = base64_standard_decode(KEY_3.spec_bytes());
    if stages_usable(t1, k1, t2, k2, t3, k3) {
        Some(vrf_signature(encode_utf8(path), t1->0, k1->0, t2->0, k2->0, t3->0, k3->0))
    } else {
        None
    }
}

/// The `vrf` parameter for a canonical request path (`sign`).
pub fn sign(path: &str) -> (r: Option<String>)
    ensures
        opt_view(r) == vrf_for(path@),
{
    let t1 = base64_decode(TABLE_1.as_bytes());
    let k1 = base64_decode(KEY_1.as_bytes());
    let t2 = base64_decode(TABLE_2.as_bytes());
    let k2 = base64_decode(KEY_2.as_bytes());
    let t3 = base64_decode(TABLE_3.as_bytes());
    let k3 = base64_decode(KEY_3.as_bytes());
    match (t1, k1, t2, k2, t3, k3) {
        (Some(t1), Some(k1), Some(t2), Some(k2), Some(t3), Some(k3)) => {
            if t1.len() == 256 && t2.len() == 256 && t3.len() == 256 && k1.len() > 0 && k2.len() > 0
                && k3.len() > 0 {
                Some(sign_with(path.as_bytes(), &t1, &k1, &t2, &k2, &t3, &k3))
            } else {
                None
            }
        },
        _ => None,
    }
}


// ---------------------------------------------------------------------------
// Canonical API queries
// ---------------------------------------------------------------------------

/// `a` comes before `b` in code point order (which is the byte order of
/// their UTF-8 encodings, the order of `str`).
pub open spec fn key_less(a: Seq<char>, b: Seq<char>) -> bool
    decreases a.len(),
{
    if a.len() == 0 {
        b.len() > 0
    } else if b.len() == 0 {
        false
    } else if a[0] != b[0] {
        a[0] < b[0]
    } else {
        key_less(a.drop_first(), b.drop_first())
    }
}

proof fn lemma_key_less_irreflexive(a: Seq<char>)
    ensures
        !key_less(a, a),
    decreases a.len(),
{
    if a.len() > 0 {
        lemma_key_less_irreflexive(a.drop_first());
    }
}

proof fn lemma_key_less_total(a: Seq<char>, b: Seq<char>)
    ensures
        a == b || key_less(a, b) || key_less(b, a),
        !(key_less(a, b) && key_less(b, a)),
    decreases a.len(),
{
    if a.len() > 0 && b.len() > 0 && a[0] == b[0] {
        lemma_key_less_total(a.drop_first(), b.drop_first());
        if a.drop_first() == b.drop_first() {
            assert(a =~= seq![a[0]] + a.drop_first());
            assert(b =~= seq![b[0]] + b.drop_first());
        }
    } else if a.len() > 0 && b.len() > 0 {
        assert(a[0] != b[0]);
    } else if a.len() == 0 && b.len() == 0 {
        assert(a =~= b);
    }
}

proof fn lemma_key_less_transitive(a: Seq<char>, b: Seq<char>, c: Seq<char>)
    requires
        key_less(a, b),
        key_less(b, c),
    ensures
        key_less(a, c),
    decreases a.len(),
{
    if a.len() > 0 && b.len() > 0 && c.len() > 0 && a[0] == b[0] && b[0] == c[0] {
        lemma_key_less_transitive(a.drop_first(), b.drop_first(), c.drop_first());
    }
}

fn chars_less(a: &[char], b: &[char]) -> (r: bool)
    ensures
        r == key_less(a@, b@),
{
    let mut i: usize = 0;
    assert(a@.skip(0) =~= a@);
    assert(b@.skip(0) =~= b@);
    while i < a.len() && i < b.len() && a[i] == b[i]
        invariant
            i <= a@.len(),
            i <= b@.len(),
            key_less(a@, b@) == key_less(a@.skip(i as int), b@.skip(i as int)),
        decreases a@.len() - i,
    {
        assert(a@.skip(i as int).drop_first() =~= a@.skip(i + 1));
        assert(b@.skip(i as int).drop_first() =~= b@.skip(i + 1));
        i = i + 1;
    }
    if i == a.len() {
        i < b.len()
    } else if i == b.len() {
        false
    } else {
        assert(a@.skip(i as int)[0] == a@[i as int]);
        assert(b@.skip(i as int)[0] == b@[i as int]);
        a[i] < b[i]
    }
}

/// The key of a query parameter.
pub open spec fn pkey(p: (String, String)) -> Seq<char> {
    p.0@
}

/// Where a parameter goes among parameters sorted by key: before the first
/// one whose key is greater than its own, so after those with an equal key.
pub open spec fn insert_pos(s: Seq<(String, String)>, x: (String, String)) -> int {
    let k = find_first_index(s.map_values(|p: (String, String)| key_less(pkey(x), pkey(p))));
    if k < 0 {
        s.len() as int
    } else {
        k
    }
}

/// The parameters sorted by key, keeping the order of parameters with equal
/// keys (`sort_by` on the keys).
pub open spec fn sort_params_spec(s: Seq<(String, String)>) -> Seq<(String, String)>
    decreases s.len(),
{
    if s.len() == 0 {
        Seq::empty()
    } else {
        let t = sort_params_spec(s.drop_last());
        t.insert(insert_pos(t, s.last()), s.last())
    }
}

proof fn lemma_insert_pos_range(s: Seq<(String, String)>, x: (String, String))
    ensures
        0 <= insert_pos(s, x) <= s.len(),
        forall|i: int| 0 <= i < insert_pos(s, x) ==> !key_less(pkey(x), pkey(#[trigger] s[i])),
        insert_pos(s, x) < s.len() ==> key_less(pkey(x), pkey(s[insert_pos(s, x)])),
{
    let bs = s.map_values(|p: (String, String)| key_less(pkey(x), pkey(p)));
    let k = find_first_index(bs);
    crate::text::lemma_find_first_spec(bs);
    if k >= 0 {
        assert(bs[k]);
    }
    assert forall|i: int| 0 <= i < insert_pos(s, x) implies !key_less(pkey(x), pkey(#[trigger] s[i])) by {
        assert(!bs[i]);
    }
}

fn sort_params(params: Vec<(String, String)>) -> (r: Vec<(String, String)>)
    ensures
        r@ == sort_params_spec(params@),
{
    let ghost orig = params@;
    let n = params.len();
    let mut rest = params;
    let mut out: Vec<(String, String)> = Vec::new();
    let mut i: usize = 0;
    while rest.len() > 0
        invariant
            i + rest@.len() == orig.len(),
            orig.len() == n,
            rest@ == orig.skip(i as int),
            out@ == sort_params_spec(orig.take(i as int)),
        decreases rest@.len(),
    {
        let x = rest.remove(0);
        assert(x == orig[i as int]);
        assert(orig.take(i + 1).drop_last() =~= orig.take(i as int));
        assert(orig.take(i + 1).last() == x);
        let xk = chars_of(x.0.as_str());
        let ghost bs = out@.map_values(|p: (String, String)| key_less(pkey(x), pkey(p)));
        let mut j: usize = 0;
        let mut pos: usize = out.len();
        let mut found = false;
        while j < out.len() && !found
            invariant
                j <= out@.len(),
                xk@ == pkey(x),
                bs == out@.map_values(|p: (String, String)| key_less(pkey(x), pkey(p))),
                !found ==> pos == out@.len(),
                !found ==> forall|k: int| 0 <= k < j ==> !bs[k],
                found ==> pos < out@.len() && bs[pos as int] && forall|k: int| 0 <= k < pos ==> !bs[k],
            decreases out@.len() - j + if found { 0int } else { 1int },
        {
            let yk = chars_of(out[j].0.as_str());
            if chars_less(&xk, &yk) {
                pos = j;
                found = true;
            } else {
                j = j + 1;
            }
        }
        proof {
            if found {
                crate::text::lemma_find_first_index(bs, pos as int);
            } else {
                crate::text::lemma_find_first_none(bs);
            }
        }
        out.insert(pos, x);
        i = i + 1;
        assert(rest@ =~= orig.skip(i as int));
    }
    assert(orig.take(i as int) =~= orig);
    out
}

/// Parameters sorted by key: no key comes before an earlier one.
pub open spec fn sorted_by_key(s: Seq<(String, String)>) -> bool {
    forall|i: int, j: int| 0 <= i < j < s.len() ==> !key_less(pkey(#[trigger] s[j]), pkey(#[trigger] s[i]))
}

/// Sorting the parameters orders them by key and keeps every parameter.
pub proof fn law_sort_params(s: Seq<(String, String)>)
    ensures
        sorted_by_key(sort_params_spec(s)),
        sort_params_spec(s).to_multiset() == s.to_multiset(),
    decreases s.len(),
{
    broadcast use vstd::multiset::group_multiset_axioms;
    if s.len() > 0 {
        let t = sort_params_spec(s.drop_last());
        let x = s.last();
        law_sort_params(s.drop_last());
        lemma_insert_pos_range(t, x);
        let p = insert_pos(t, x);
        let u = t.insert(p, x);
        assert forall|i: int, j: int| 0 <= i < j < u.len() implies !key_less(pkey(#[trigger] u[j]), pkey(#[trigger] u[i])) by {
            if j < p {
                assert(u[i] == t[i] && u[j] == t[j]);
            } else if j == p {
                assert(u[i] == t[i]);
                assert(!key_less(pkey(x), pkey(t[i])));
            } else if i < p {
                assert(u[i] == t[i] && u[j] == t[j - 1]);
            } else if i == p {
                assert(u[j] == t[j - 1]);
                assert(key_less(pkey(x), pkey(t[p])));
                if key_less(pkey(t[j - 1]), pkey(x)) {
                    if j - 1 == p {
                        lemma_key_less_total(pkey(x), pkey(t[p]));
                    } else {
                        assert(!key_less(pkey(t[j - 1]), pkey(t[p])));
                        lemma_key_less_transitive(pkey(t[j - 1]), pkey(x), pkey(t[p]));
                    }
                }
            } else {
                assert(u[i] == t[i - 1] && u[j] == t[j - 1]);
            }
        }
        vstd::seq_lib::to_multiset_insert(t, p, x);
        assert(s.drop_last().push(x) =~= s);
        vstd::seq_lib::to_multiset_build(s.drop_last(), x);
    } else {
        assert(s =~= Seq::<(String, String)>::empty());
    }
}

/// Where writing the canonical query stands: the last array key, the next
/// index for it, and the text so far.
pub type CanonState = (Seq<char>, nat, Seq<char>);

/// Writes the parameter at `position`: `&` between parameters; a key ending
/// in `[]` is written with the index of the value among the consecutive
/// parameters of that key (`key[0]`, `key[1]`, ...).
pub open spec fn canon_step(st: CanonState, position: int, key: Seq<char>, value: Seq<char>) -> CanonState {
    let text = if position != 0 { st.2 + "&"@ } else { st.2 };
    if key.len() >= 2 && key.skip(key.len() - 2) == "[]"@ {
        let index = if st.0 != key { 0nat } else { st.1 };
        (key, index + 1, text + key.take(key.len() - 2) + "["@ + crate::text::decimal(index) + "]"@
            + "="@ + value)
    } else {
        (st.0, st.1, text + key + "="@ + value)
    }
}

/// The state after writing the parameters, in order.
pub open spec fn canon_fold(ps: Seq<(String, String)>) -> CanonState
    decreases ps.len(),
{
    if ps.len() == 0 {
        (Seq::empty(), 0, Seq::empty())
    } else {
        canon_step(canon_fold(ps.drop_last()), ps.len() - 1, ps.last().0@, ps.last().1@)
    }
}

/// The canonical form of a request that the signature covers: the path,
/// then `?` and the parameters when there are any.
pub open spec fn canonical_spec(path: Seq<char>, ps: Seq<(String, String)>) -> Seq<char> {
    if ps.len() == 0 {
        path
    } else {
        path + "?"@ + canon_fold(ps).2
    }
}

fn canon_write(
    text: &mut Vec<char>,
    last_key: &mut Vec<char>,
    index: &mut u64,
    position: usize,
    key: Vec<char>,
    value: &[char],
)
    requires
        *old(index) <= position,
        position < usize::MAX,
    ensures
        (final(last_key)@, *final(index) as nat, final(text)@) == canon_step(
            (old(last_key)@, *old(index) as nat, old(text)@),
            position as int,
            key@,
            value@,
        ),
        *final(index) <= position + 1,
{
    if position != 0 {
        text.push('&');
        proof {
            reveal_strlit("&");
        }
    }
    let ghost t0 = text@;
    let suffix = chars_of("[]");
    proof {
        reveal_strlit("[]");
    }
    if crate::text::has_suffix(&key, &suffix) {
        let kl = key.len();
        assert(key@.skip(kl - 2) =~= key@.subrange(kl - 2, kl as int));
        if !crate::text::chars_eq(last_key, &key) {
            *index = 0;
        }
        let base = slice_chars(&key, 0, kl - 2);
        assert(base@ =~= key@.take(kl - 2));
        append_chars(text, &base);
        text.push('[');
        let d = crate::text::u64_decimal(*index);
        append_chars(text, &d);
        text.push(']');
        text.push('=');
        append_chars(text, value);
        proof {
            reveal_strlit("[");
            reveal_strlit("]");
            reveal_strlit("=");
        }
        assert(text@ =~= t0 + key@.take(kl - 2) + "["@ + crate::text::decimal(*index as nat) + "]"@ + "="@ + value@);
        *last_key = key;
        *index = *index + 1;
    } else {
        proof {
            if key@.len() >= 2 {
                assert(key@.skip(key@.len() - 2) =~= key@.subrange(key@.len() - 2, key@.len() as int));
            }
        }
        append_chars(text, &key);
        text.push('=');
        append_chars(text, value);
        proof {
            reveal_strlit("=");
        }
        assert(text@ =~= t0 + key@ + "="@ + value@);
    }
}

fn canonical(path: &str, ps: &Vec<(String, String)>) -> (r: String)
    ensures
        r@ == canonical_spec(path@, ps@),
{
    let mut text: Vec<char> = Vec::new();
    let mut last_key: Vec<char> = Vec::new();
    let mut index: u64 = 0;
    let mut i: usize = 0;
    assert(ps@.take(0) =~= Seq::<(String, String)>::empty());
    while i < ps.len()
        invariant
            i <= ps@.len(),
            (last_key@, index as nat, text@) == canon_fold(ps@.take(i as int)),
            index <= i,
        decreases ps@.len() - i,
    {
        assert(ps@.take(i + 1).drop_last() =~= ps@.take(i as int));
        assert(ps@.take(i + 1).last() == ps@[i as int]);
        let key = chars_of(ps[i].0.as_str());
        let value = chars_of(ps[i].1.as_str());
        canon_write(&mut text, &mut last_key, &mut index, i, key, &value);
        i = i + 1;
    }
    assert(ps@.take(ps@.len() as int) =~= ps@);
    let mut out = chars_of(path);
    if ps.len() > 0 {
        out.push('?');
        append_chars(&mut out, &text);
        proof {
            reveal_strlit("?");
        }
        assert(out@ =~= path@ + "?"@ + text@);
    }
    string_of(&out)
}

/// The signed form of an API request (`api_request`): the parameters sorted
/// by key, the canonical text, and its `vrf` signature; `api_url` writes
/// the address from them.
pub fn api_request(path: &str, params: Vec<(String, String)>) -> (r: (Vec<(String, String)>, String, Option<String>))
    ensures
        r.0@ == sort_params_spec(params@),
        r.1@ == canonical_spec(path@, r.0@),
        opt_view(r.2) == vrf_for(r.1@),
{
    let sorted = sort_params(params);
    let c = canonical(path, &sorted);
    let v = sign(c.as_str());
    (sorted, c, v)
}


/// The address of a signed API request: the sorted parameters
/// percent-encoded as URI components, then the `vrf` signature of their
/// canonical text; none when the text cannot be signed.
pub fn api_url(path: &str, params: Vec<(String, String)>) -> (r: Option<String>)
    ensures
        match vrf_for(canonical_spec(path@, sort_params_spec(params@))) {
            Some(v) => r matches Some(u) && u@ == BASE_URL@ + "/api"@ + path@ + "?"@
                + crate::text::query_string_spec(crate::text::pairs_view(sort_params_spec(params@)))
                + (if params@.len() > 0 { "&"@ } else { Seq::empty() }) + "vrf="@ + v,
            None => r is None,
        },
{
    let n = params.len();
    let (sorted, _c, v) = api_request(path, params);
    match v {
        None => None,
        Some(v) => {
            let mut out = chars_of(BASE_URL);
            append_chars(&mut out, &chars_of("/api"));
            append_chars(&mut out, &chars_of(path));
            append_chars(&mut out, &chars_of("?"));
            append_chars(&mut out, &chars_of(crate::text::query_string(&sorted).as_str()));
            if n > 0 {
                append_chars(&mut out, &chars_of("&"));
            } else {
                assert(out@ + Seq::<char>::empty() =~= out@);
            }
            append_chars(&mut out, &chars_of("vrf="));
            append_chars(&mut out, &chars_of(v.as_str()));
            Some(string_of(&out))
        },
    }
}

/// The parameters with key `k`, in order.
pub open spec fn with_key(s: Seq<(String, String)>, k: Seq<char>) -> Seq<(String, String)>
    decreases s.len(),
{
    if s.len() == 0 {
        Seq::empty()
    } else if pkey(s.last()) == k {
        with_key(s.drop_last(), k).push(s.last())
    } else {
        with_key(s.drop_last(), k)
    }
}

proof fn lemma_with_key_append(a: Seq<(String, String)>, b: Seq<(String, String)>, k: Seq<char>)
    ensures
        with_key(a + b, k) == with_key(a, k) + with_key(b, k),
    decreases b.len(),
{
    if b.len() == 0 {
        assert(a + b =~= a);
        assert(with_key(a, k) + with_key(b, k) =~= with_key(a, k));
    } else {
        lemma_with_key_append(a, b.drop_last(), k);
        assert((a + b).drop_last() =~= a + b.drop_last());
        assert((a + b).last() == b.last());
        if pkey(b.last()) == k {
            assert(with_key(a, k) + with_key(b.drop_last(), k).push(b.last()) =~= (with_key(a, k) + with_key(b.drop_last(), k)).push(b.last()));
        }
    }
}

proof fn lemma_with_key_none(b: Seq<(String, String)>, k: Seq<char>)
    requires
        forall|i: int| 0 <= i < b.len() ==> pkey(#[trigger] b[i]) != k,
    ensures
        with_key(b, k) == Seq::<(String, String)>::empty(),
    decreases b.len(),
{
    if b.len() > 0 {
        lemma_with_key_none(b.drop_last(), k);
        assert(pkey(b[b.len() - 1]) != k);
    }
}

/// Sorting keeps the order of parameters that share a key.
pub proof fn law_sort_params_stable(s: Seq<(String, String)>, k: Seq<char>)
    ensures
        with_key(sort_params_spec(s), k) == with_key(s, k),
    decreases s.len(),
{
    if s.len() > 0 {
        let t = sort_params_spec(s.drop_last());
        let x = s.last();
        law_sort_params_stable(s.drop_last(), k);
        law_sort_params(s.drop_last());
        lemma_insert_pos_range(t, x);
        let p = insert_pos(t, x);
        let a = t.take(p);
        let b = t.skip(p);
        assert(t =~= a + b);
        assert(t.insert(p, x) =~= a.push(x) + b);
        lemma_with_key_append(a, b, k);
        lemma_with_key_append(a.push(x), b, k);
        assert(a.push(x).drop_last() =~= a);
        if pkey(x) == k {
            assert forall|i: int| 0 <= i < b.len() implies pkey(#[trigger] b[i]) != k by {
                assert(b[i] == t[p + i]);
                if i > 0 {
                    assert(!key_less(pkey(t[p + i]), pkey(t[p])));
                    lemma_key_less_total(pkey(t[p + i]), pkey(t[p]));
                    if pkey(t[p + i]) == k {
                        lemma_key_less_transitive(pkey(x), pkey(t[p]), pkey(t[p + i]));
                        lemma_key_less_irreflexive(k);
                    }
                } else {
                    lemma_key_less_irreflexive(k);
                }
            }
            lemma_with_key_none(b, k);
            assert(with_key(a, k).push(x) + Seq::<(String, String)>::empty() =~= with_key(a, k).push(x));
            assert(with_key(a, k) + Seq::<(String, String)>::empty() =~= with_key(a, k));
        }
    }
}


// ---------------------------------------------------------------------------
// Search, details, links and listings
// ---------------------------------------------------------------------------

/// The site.
pub const BASE_URL: &'static str = "https://mangafire.to";

/// The sort orders, by sort option index.
pub open spec fn sort_values() -> Seq<&'static str> {
    seq![
        "most_relevance", "recently_updated", "recently_added", "release_date", "trending",
        "title_az", "scores", "mal_scores", "most_viewed", "most_favourited",
    ]
}

fn sort_table() -> (r: Vec<&'static str>)
    ensures
        r@ == sort_values(),
{
    let r = vec![
        "most_relevance", "recently_updated", "recently_added", "release_date", "trending",
        "title_az", "scores", "mal_scores", "most_viewed", "most_favourited",
    ];
    assert(r@ =~= sort_values());
    r
}

/// What a search asks for: the author page (by slug, percent-encoded), or
/// the filter page; the query parameters, which `search_url` writes
/// percent-encoded; and the keyword.
pub struct SearchPlan {
    pub author: Option<String>,
    pub params: Vec<(String, String)>,
    pub keyword: Option<String>,
}

/// Why the filters cannot be turned into a search.
#[derive(Debug, PartialEq, Eq, Structural)]
pub enum SearchError {
    /// A text filter other than the author.
    InvalidTextFilter,
    /// A sort option that does not exist.
    InvalidSortIndex,
}


/// The slug of an author's name: lower case, spaces as `-`, percent-encoded
/// as a URI component.
pub open spec fn author_slug(name: Seq<char>) -> Seq<char> {
    crate::text::encode_component_spec(crate::text::replace_char(crate::text::lowercase(name), ' ', "-"@))
}

/// The parameters a multi-select adds: the included options, then the
/// excluded ones with a leading `-`.
pub open spec fn multi_params(id: Seq<char>, included: Seq<Seq<char>>, excluded: Seq<Seq<char>>) -> Seq<(Seq<char>, Seq<char>)> {
    included.map_values(|o: Seq<char>| (id, o)) + excluded.map_values(|o: Seq<char>| (id, "-"@ + o))
}

/// Where reading the filters stands: the author slug and the parameters so
/// far, or an error.
pub open spec fn search_fold(fs: Seq<FilterValue>) -> Result<(Option<Seq<char>>, Seq<(Seq<char>, Seq<char>)>), SearchError>
    decreases fs.len(),
{
    if fs.len() == 0 {
        Ok((None, Seq::empty()))
    } else {
        match search_fold(fs.drop_last()) {
            Err(e) => Err(e),
            Ok((author, ps)) => match fs.last() {
                FilterValue::Text { id, value } => if id@ == "author"@ {
                    Ok((Some(author_slug(value@)), ps))
                } else {
                    Err(SearchError::InvalidTextFilter)
                },
                FilterValue::Sort { id, index, ascending } => if 0 <= index < 10 {
                    Ok((author, ps.push(("sort"@, sort_values()[index as int]@))))
                } else {
                    Err(SearchError::InvalidSortIndex)
                },
                FilterValue::MultiSelect { id, included, excluded } => Ok((
                    author,
                    ps + multi_params(id@, crate::text::string_views(included@), crate::text::string_views(excluded@)),
                )),
                FilterValue::Select { id, value } => Ok((author, ps.push((id@, value@)))),
                _ => Ok((author, ps)),
            },
        }
    }
}


fn push_multi(ps: &mut Vec<(String, String)>, id: &str, included: &Vec<String>, excluded: &Vec<String>)
    ensures
        pairs_view(final(ps)@) == pairs_view(old(ps)@) + multi_params(id@, crate::text::string_views(included@), crate::text::string_views(excluded@)),
{
    let ghost start = pairs_view(ps@);
    let ghost inc = crate::text::string_views(included@);
    let ghost exc = crate::text::string_views(excluded@);
    let mut i: usize = 0;
    while i < included.len()
        invariant
            i <= included@.len(),
            inc == crate::text::string_views(included@),
            pairs_view(ps@) == start + inc.take(i as int).map_values(|o: Seq<char>| (id@, o)),
        decreases included@.len() - i,
    {
        push_pair(ps, id, included[i].as_str());
        assert(inc.take(i + 1).map_values(|o: Seq<char>| (id@, o)) =~= inc.take(i as int).map_values(|o: Seq<char>| (id@, o)).push((id@, included@[i as int]@)));
        i = i + 1;
    }
    assert(inc.take(inc.len() as int) =~= inc);
    let mut j: usize = 0;
    while j < excluded.len()
        invariant
            j <= excluded@.len(),
            exc == crate::text::string_views(excluded@),
            pairs_view(ps@) == start + inc.map_values(|o: Seq<char>| (id@, o)) + exc.take(j as int).map_values(|o: Seq<char>| (id@, "-"@ + o)),
        decreases excluded@.len() - j,
    {
        let mut v: Vec<char> = Vec::new();
        crate::text::push_str(&mut v, "-");
        crate::text::push_str(&mut v, excluded[j].as_str());
        let vs = string_of(&v);
        push_pair(ps, id, vs.as_str());
        assert(exc.take(j + 1).map_values(|o: Seq<char>| (id@, "-"@ + o)) =~= exc.take(j as int).map_values(|o: Seq<char>| (id@, "-"@ + o)).push((id@, "-"@ + excluded@[j as int]@)));
        j = j + 1;
    }
    assert(exc.take(exc.len() as int) =~= exc);
    assert(start + multi_params(id@, inc, exc) =~= start + inc.map_values(|o: Seq<char>| (id@, o)) + exc.map_values(|o: Seq<char>| (id@, "-"@ + o)));
}

/// The search that a query and the filters make (`get_search_manga_list`).
pub fn search_plan(query: Option<&str>, filters: &[FilterValue]) -> (r: Result<SearchPlan, SearchError>)
    ensures
        match r {
            Ok(plan) => search_fold(filters@) == Ok::<(Option<Seq<char>>, Seq<(Seq<char>, Seq<char>)>), SearchError>((opt_view(plan.author), pairs_view(plan.params@)))
                && opt_view(plan.keyword) == crate::text::opt_str_view(query),
            Err(e) => search_fold(filters@) == Err::<(Option<Seq<char>>, Seq<(Seq<char>, Seq<char>)>), SearchError>(e),
        },
{
    let mut author: Option<String> = None;
    let mut params: Vec<(String, String)> = Vec::new();
    let mut i: usize = 0;
    assert(filters@.take(0) =~= Seq::<FilterValue>::empty());
    assert(pairs_view(params@) =~= Seq::<(Seq<char>, Seq<char>)>::empty());
    while i < filters.len()
        invariant
            i <= filters@.len(),
            search_fold(filters@.take(i as int)) == Ok::<(Option<Seq<char>>, Seq<(Seq<char>, Seq<char>)>), SearchError>((opt_view(author), pairs_view(params@))),
        decreases filters@.len() - i,
    {
        assert(filters@.take(i + 1).drop_last() =~= filters@.take(i as int));
        assert(filters@.take(i + 1).last() == filters@[i as int]);
        match &filters[i] {
            FilterValue::Text { id, value } => {
                if str_eq(id.as_str(), "author") {
                    let lower = crate::text::to_lowercase(value.as_str());
                    let slug = string_of(&crate::text::replace_char_chars(&chars_of(lower.as_str()), ' ', "-"));
                    author = Some(crate::text::encode_uri_component(slug.as_str()));
                } else {
                    proof {
                        lemma_search_err_stays(filters@, i as int + 1);
                    }
                    return Err(SearchError::InvalidTextFilter);
                }
            },
            FilterValue::Sort { id, index, ascending } => {
                if *index >= 0 && *index < 10 {
                    let t = sort_table();
                    push_pair(&mut params, "sort", t[*index as usize]);
                } else {
                    proof {
                        lemma_search_err_stays(filters@, i as int + 1);
                    }
                    return Err(SearchError::InvalidSortIndex);
                }
            },
            FilterValue::MultiSelect { id, included, excluded } => {
                push_multi(&mut params, id.as_str(), included, excluded);
            },
            FilterValue::Select { id, value } => {
                push_pair(&mut params, id.as_str(), value.as_str());
            },
            _ => {},
        }
        i = i + 1;
    }
    assert(filters@.take(filters@.len() as int) =~= filters@);
    let keyword = match query {
        Some(q) => Some(string_of(&chars_of(q))),
        None => None,
    };
    Ok(SearchPlan { author, params, keyword })
}

proof fn lemma_search_err_stays(fs: Seq<FilterValue>, i: int)
    requires
        0 <= i <= fs.len(),
        search_fold(fs.take(i)) is Err,
    ensures
        search_fold(fs) == search_fold(fs.take(i)),
    decreases fs.len() - i,
{
    if i < fs.len() {
        assert(fs.take(i + 1).drop_last() =~= fs.take(i));
        lemma_search_err_stays(fs, i + 1);
    } else {
        assert(fs.take(i) =~= fs);
    }
}

/// The address of a search: the author page or the filter page, with the
/// page number and the parameters, percent-encoded. The caller adds the
/// keyword and its signature to the parameters when there is a query.
pub fn search_url(author: Option<&str>, page: i32, params: &Vec<(String, String)>) -> (r: String)
    ensures
        r@ == (match author {
            Some(a) => BASE_URL@ + "/author/"@ + a@,
            None => BASE_URL@ + "/filter"@,
        }) + "?page="@ + crate::text::int_decimal(page as int) + "&"@ + crate::text::query_string_spec(pairs_view(params@)),
{
    let mut a: Vec<char> = Vec::new();
    crate::text::push_str(&mut a, BASE_URL);
    match author {
        Some(name) => {
            crate::text::push_str(&mut a, "/author/");
            crate::text::push_str(&mut a, name);
        },
        None => crate::text::push_str(&mut a, "/filter"),
    }
    crate::text::push_str(&mut a, "?page=");
    let n = crate::text::i64_decimal(page as i64);
    append_chars(&mut a, &n);
    crate::text::push_str(&mut a, "&");
    crate::text::push_str(&mut a, crate::text::query_string(params).as_str());
    string_of(&a)
}

/// The status a detail page's status text gives, compared in lower case.
pub open spec fn status_spec(text: Option<Seq<char>>) -> MangaStatus {
    match text {
        Some(t) => {
            let l = crate::text::lowercase(t);
            if l == "releasing"@ {
                MangaStatus::Ongoing
            } else if l == "completed"@ {
                MangaStatus::Completed
            } else if l == "on_hiatus"@ {
                MangaStatus::Hiatus
            } else if l == "discontinued"@ {
                MangaStatus::Cancelled
            } else {
                MangaStatus::Unknown
            }
        },
        None => MangaStatus::Unknown,
    }
}

/// The status a detail page's status text gives.
pub fn status_from_text(text: Option<&str>) -> (r: MangaStatus)
    ensures
        r == status_spec(crate::text::opt_str_view(text)),
{
    match text {
        Some(t) => {
            let l = crate::text::to_lowercase(t);
            let l = l.as_str();
            if str_eq(l, "releasing") {
                MangaStatus::Ongoing
            } else if str_eq(l, "completed") {
                MangaStatus::Completed
            } else if str_eq(l, "on_hiatus") {
                MangaStatus::Hiatus
            } else if str_eq(l, "discontinued") {
                MangaStatus::Cancelled
            } else {
                MangaStatus::Unknown
            }
        },
        None => MangaStatus::Unknown,
    }
}

/// The rating the tags give: suggestive with the tag `Ecchi`.
pub fn content_rating(tags: &Option<Vec<String>>) -> (r: ContentRating)
    ensures
        r == (match tags {
            Some(t) => if crate::text::string_views(t@).contains("Ecchi"@) {
                ContentRating::Suggestive
            } else {
                ContentRating::Unknown
            },
            None => ContentRating::Unknown,
        }),
{
    match tags {
        Some(t) => if has_tag(t, "Ecchi") {
            ContentRating::Suggestive
        } else {
            ContentRating::Unknown
        },
        None => ContentRating::Unknown,
    }
}

fn has_tag(t: &Vec<String>, tag: &str) -> (r: bool)
    ensures
        r == crate::text::string_views(t@).contains(tag@),
{
    let ghost vs = crate::text::string_views(t@);
    let mut i: usize = 0;
    while i < t.len()
        invariant
            i <= t@.len(),
            vs == crate::text::string_views(t@),
            forall|k: int| 0 <= k < i ==> vs[k] != tag@,
        decreases t@.len() - i,
    {
        if str_eq(t[i].as_str(), tag) {
            assert(vs[i as int] == tag@);
            return true;
        }
        i = i + 1;
    }
    false
}

/// The reading direction the type text gives: manhua and manhwa scroll.
pub fn viewer_from_type(text: Option<&str>) -> (r: Viewer)
    ensures
        r == (match text {
            Some(t) => if t@ == "Manhua"@ || t@ == "Manhwa"@ {
                Viewer::Webtoon
            } else {
                Viewer::RightToLeft
            },
            None => Viewer::RightToLeft,
        }),
{
    match text {
        Some(t) => if str_eq(t, "Manhua") || str_eq(t, "Manhwa") {
            Viewer::Webtoon
        } else {
            Viewer::RightToLeft
        },
        None => Viewer::RightToLeft,
    }
}

/// The tags of a comma-separated genre text, without surrounding white
/// space.
pub fn tags_from_text(text: &str) -> (r: Vec<String>)
    ensures
        crate::text::string_views(r@) == crate::text::split_two(text@, ',', ',').map_values(|p: Seq<char>| trim(p)),
{
    let parts = crate::text::split_two_chars(&chars_of(text), ',', ',');
    let ghost ps = parts@.map_values(|x: Vec<char>| x@);
    let mut out: Vec<String> = Vec::new();
    let mut i: usize = 0;
    while i < parts.len()
        invariant
            i <= parts@.len(),
            ps == parts@.map_values(|x: Vec<char>| x@),
            ps == crate::text::split_two(text@, ',', ','),
            crate::text::string_views(out@) == ps.take(i as int).map_values(|p: Seq<char>| trim(p)),
        decreases parts@.len() - i,
    {
        let ghost before = out@;
        let piece = string_of(&trim_chars(&parts[i]));
        assert(piece@ == trim(ps[i as int]));
        out.push(piece);
        assert(crate::text::string_views(out@) =~= crate::text::string_views(before).push(piece@));
        assert(ps.take(i + 1) =~= ps.take(i as int).push(ps[i as int]));
        assert(ps.take(i + 1).map_values(|p: Seq<char>| trim(p)) =~= ps.take(i as int).map_values(|p: Seq<char>| trim(p)).push(trim(ps[i as int])));
        i = i + 1;
    }
    assert(ps.take(ps.len() as int) =~= ps);
    out
}

/// The id of a title: what follows the last `.` of its address, without
/// surrounding white space.
pub open spec fn manga_id_spec(url: Seq<char>) -> Seq<char> {
    let k = crate::text::rfind_char(url, '.');
    trim(if k < 0 { url } else { url.skip(k + 1) })
}

/// The id of a title, from its address.
pub fn manga_id(url: &str) -> (r: String)
    ensures
        r@ == manga_id_spec(url@),
{
    let v = chars_of(url);
    let tail = match crate::text::rfind_char_chars(&v, '.') {
        Some(k) => {
            let n = v.len();
            let t = slice_chars(&v, k + 1, n);
            assert(t@ =~= v@.skip(k + 1));
            t
        },
        None => v,
    };
    string_of(&trim_chars(&tail))
}

/// A chapter title without the `Chap <number>:` it starts with, if it does.
pub open spec fn chapter_title_spec(title: Seq<char>, number: Seq<char>) -> Seq<char> {
    let prefix = "Chap "@ + number + ":"@;
    if starts_with(title, prefix) {
        trim(title.skip(prefix.len() as int))
    } else {
        title
    }
}

/// A chapter title without its `Chap <number>:` prefix.
pub fn chapter_title(title: &str, number: &str) -> (r: String)
    ensures
        r@ == chapter_title_spec(title@, number@),
{
    let mut prefix: Vec<char> = Vec::new();
    crate::text::push_str(&mut prefix, "Chap ");
    crate::text::push_str(&mut prefix, number);
    crate::text::push_str(&mut prefix, ":");
    let t = chars_of(title);
    if has_prefix(&t, &prefix) {
        let n = t.len();
        let m = prefix.len();
        let rest = slice_chars(&t, m, n);
        assert(rest@ =~= title@.skip(m as int));
        string_of(&trim_chars(&rest))
    } else {
        string_of(&t)
    }
}

/// The key of a chapter: `chapter/` and the chapter's id.
pub fn chapter_key(data_id: &str) -> (r: String)
    ensures
        r@ == "chapter/"@ + data_id@,
{
    let mut a: Vec<char> = Vec::new();
    crate::text::push_str(&mut a, "chapter/");
    crate::text::push_str(&mut a, data_id);
    string_of(&a)
}

/// The text that the page list request signs: the chapter key with `@` for
/// each `/`.
pub fn page_list_vrf_input(chapter_key: &str) -> (r: String)
    ensures
        r@ == crate::text::replace_char(chapter_key@, '/', "@"@),
{
    string_of(&crate::text::replace_char_chars(&chars_of(chapter_key), '/', "@"))
}

/// The link that a site address opens: a title page is the title; a reader
/// page is its title (the chapter cannot be told from the address).
pub open spec fn deep_link_spec(url: Seq<char>) -> Option<DeepLinkView> {
    if !starts_with(url, BASE_URL@) {
        None
    } else {
        let path = url.skip(BASE_URL@.len() as int);
        if starts_with(path, "/manga"@) {
            Some(DeepLinkView::Manga { key: path })
        } else if starts_with(path, "/read"@) {
            let rest = path.skip(5);
            let i = find(rest, seq!['/']);
            let end = if i < 0 {
                rest.len() as int
            } else {
                let j = find(rest.skip(i + 1), seq!['/']);
                if j < 0 { rest.len() as int } else { i + 1 + j }
            };
            Some(DeepLinkView::Manga { key: "/manga"@ + rest.take(end) })
        } else {
            None
        }
    }
}

/// The title that a site address opens (`handle_deep_link`).
pub fn handle_deep_link(url: &str) -> (r: Option<DeepLink>)
    ensures
        opt_link_view(r) == deep_link_spec(url@),
{
    let v = chars_of(url);
    let base = chars_of(BASE_URL);
    if !has_prefix(&v, &base) {
        return None;
    }
    let n = v.len();
    let b = base.len();
    let path = slice_chars(&v, b, n);
    assert(path@ =~= url@.skip(BASE_URL@.len() as int));
    if has_prefix(&path, &chars_of("/manga")) {
        return Some(DeepLink::Manga { key: string_of(&path) });
    }
    let read = chars_of("/read");
    proof {
        reveal_strlit("/read");
    }
    if !has_prefix(&path, &read) {
        return None;
    }
    let pl = path.len();
    let rest = slice_chars(&path, 5, pl);
    assert(rest@ =~= path@.skip(5));
    let mut slash: Vec<char> = Vec::new();
    slash.push('/');
    assert(slash@ =~= seq!['/']);
    let rl = rest.len();
    let end: usize = match find_chars(&rest, &slash) {
        None => rl,
        Some(i) => {
            let after = slice_chars(&rest, i + 1, rl);
            assert(after@ =~= rest@.skip(i + 1));
            match find_chars(&after, &slash) {
                None => rl,
                Some(j) => i + 1 + j,
            }
        },
    };
    let mut key = chars_of("/manga");
    let head = slice_chars(&rest, 0, end);
    append_chars(&mut key, &head);
    Some(DeepLink::Manga { key: string_of(&key) })
}

/// The address of a listing page; none for an unknown listing.
pub fn listing_url(id: &str, page: i32) -> (r: Option<String>)
    ensures
        match r {
            Some(u) => (id@ == "Newest"@ || id@ == "Updated"@ || id@ == "Added"@) && u@ == BASE_URL@
                + (if id@ == "Newest"@ { "/newest"@ } else if id@ == "Updated"@ { "/updated"@ } else { "/added"@ })
                + "?page="@ + crate::text::int_decimal(page as int),
            None => !(id@ == "Newest"@ || id@ == "Updated"@ || id@ == "Added"@),
        },
{
    let path = if str_eq(id, "Newest") {
        "/newest"
    } else if str_eq(id, "Updated") {
        "/updated"
    } else if str_eq(id, "Added") {
        "/added"
    } else {
        return None;
    };
    let mut a: Vec<char> = Vec::new();
    crate::text::push_str(&mut a, BASE_URL);
    crate::text::push_str(&mut a, path);
    crate::text::push_str(&mut a, "?page=");
    let n = crate::text::i64_decimal(page as i64);
    append_chars(&mut a, &n);
    Some(string_of(&a))
}

/// A tag as the tag search returns it.
pub struct TagRef {
    pub id: String,
    pub tag_type: String,
    pub name: String,
}

/// Where a tag has the type and, ignoring ASCII case, the keyword as name.
pub open spec fn exact_tag_flags(tags: Seq<TagRef>, keyword: Seq<char>, tag_type: Seq<char>) -> Seq<bool> {
    tags.map_values(|t: TagRef| t.tag_type@ == tag_type && crate::text::eq_ignore_ascii_case(t.name@, keyword))
}

/// Where a tag has the type.
pub open spec fn type_flags(tags: Seq<TagRef>, tag_type: Seq<char>) -> Seq<bool> {
    tags.map_values(|t: TagRef| t.tag_type@ == tag_type)
}

/// The id of the tag a keyword names: the first tag of the type whose name
/// equals the keyword ignoring ASCII case, else the first tag of the type.
pub open spec fn find_tag_spec(tags: Seq<TagRef>, keyword: Seq<char>, tag_type: Seq<char>) -> Option<Seq<char>> {
    let exact = find_first_index(exact_tag_flags(tags, keyword, tag_type));
    let any = find_first_index(type_flags(tags, tag_type));
    if exact >= 0 {
        Some(tags[exact].id@)
    } else if any >= 0 {
        Some(tags[any].id@)
    } else {
        None
    }
}

/// The id of the tag a keyword names (`find_tag_id`), among the tags that the
/// tag search returned.
pub fn find_tag_id(tags: &Vec<TagRef>, keyword: &str, tag_type: &str) -> (r: Option<String>)
    ensures
        opt_view(r) == find_tag_spec(tags@, keyword@, tag_type@),
{
    let kw = chars_of(keyword);
    let ghost exact = exact_tag_flags(tags@, keyword@, tag_type@);
    let ghost any = type_flags(tags@, tag_type@);
    let mut i: usize = 0;
    while i < tags.len()
        invariant
            i <= tags@.len(),
            kw@ == keyword@,
            exact == exact_tag_flags(tags@, keyword@, tag_type@),
            forall|k: int| 0 <= k < i ==> !exact[k],
        decreases tags@.len() - i,
    {
        if str_eq(tags[i].tag_type.as_str(), tag_type) && crate::text::chars_eq_ignore_ascii_case(&chars_of(tags[i].name.as_str()), &kw) {
            proof {
                crate::text::lemma_find_first_index(exact, i as int);
            }
            return Some(tags[i].id.clone());
        }
        i = i + 1;
    }
    proof {
        crate::text::lemma_find_first_none(exact);
    }
    let mut j: usize = 0;
    while j < tags.len()
        invariant
            j <= tags@.len(),
            any == type_flags(tags@, tag_type@),
            exact == exact_tag_flags(tags@, keyword@, tag_type@),
            find_first_index(exact) == -1,
            forall|k: int| 0 <= k < j ==> !any[k],
        decreases tags@.len() - j,
    {
        if str_eq(tags[j].tag_type.as_str(), tag_type) {
            proof {
                crate::text::lemma_find_first_index(any, j as int);
            }
            return Some(tags[j].id.clone());
        }
        j = j + 1;
    }
    proof {
        crate::text::lemma_find_first_none(any);
    }
    None
}

/// The tags of a title: the genre titles, then the theme titles
/// (`api_tags`).
pub fn api_tags(genres: Option<Vec<String>>, themes: Option<Vec<String>>) -> (r: Vec<String>)
    ensures
        r@ == (match genres {
            Some(g) => g@,
            None => Seq::empty(),
        }) + (match themes {
            Some(t) => t@,
            None => Seq::empty(),
        }),
{
    let mut tags: Vec<String> = Vec::new();
    if let Some(mut g) = genres {
        tags.append(&mut g);
    }
    if let Some(mut t) = themes {
        tags.append(&mut t);
    }
    assert(tags@ =~= (match genres {
        Some(g) => g@,
        None => Seq::<String>::empty(),
    }) + (match themes {
        Some(t) => t@,
        None => Seq::<String>::empty(),
    }));
    tags
}

/// The site's code of a language setting: `pt-br` for `pt-BR`, `es-la` for
/// `es-419`, others as they are.
pub open spec fn language_code(lang: Seq<char>) -> Seq<char> {
    if lang == "pt-BR"@ {
        "pt-br"@
    } else if lang == "es-419"@ {
        "es-la"@
    } else {
        lang
    }
}

/// The site's codes of the language settings (`get_languages`).
pub fn get_languages(langs: Vec<String>) -> (r: Vec<String>)
    ensures
        crate::text::string_views(r@) == crate::text::string_views(langs@).map_values(|l: Seq<char>| language_code(l)),
{
    let mut out: Vec<String> = Vec::new();
    let mut i: usize = 0;
    while i < langs.len()
        invariant
            i <= langs@.len(),
            crate::text::string_views(out@) == crate::text::string_views(langs@).take(i as int).map_values(|l: Seq<char>| language_code(l)),
        decreases langs@.len() - i,
    {
        let l = langs[i].as_str();
        let code = if str_eq(l, "pt-BR") {
            string_of(&chars_of("pt-br"))
        } else if str_eq(l, "es-419") {
            string_of(&chars_of("es-la"))
        } else {
            langs[i].clone()
        };
        let ghost before = out@;
        let ghost lv = crate::text::string_views(langs@);
        assert(code@ == language_code(lv[i as int]));
        out.push(code);
        assert(crate::text::string_views(out@) =~= crate::text::string_views(before).push(code@));
        assert(lv.take(i + 1) =~= lv.take(i as int).push(lv[i as int]));
        assert(lv.take(i + 1).map_values(|l: Seq<char>| language_code(l)) =~= lv.take(i as int).map_values(|l: Seq<char>| language_code(l)).push(language_code(lv[i as int])));
        i = i + 1;
    }
    assert(crate::text::string_views(langs@).take(langs@.len() as int) =~= crate::text::string_views(langs@));
    out
}

// ---------------------------------------------------------------------------
// Results of several languages
// ---------------------------------------------------------------------------

/// The positions of the entries kept when results of several languages are
/// merged: each key once, at its first entry, in order.
pub open spec fn first_key_positions_spec(keys: Seq<Seq<char>>) -> Seq<int>
    decreases keys.len(),
{
    if keys.len() == 0 {
        Seq::empty()
    } else {
        let n = keys.len() - 1;
        first_key_positions_spec(keys.drop_last()) + if keys.drop_last().contains(keys[n]) {
            Seq::empty()
        } else {
            seq![n]
        }
    }
}

/// The entries kept when search results of several languages are merged
/// (`get_search_manga_list`): the position of the first entry of each key.
pub fn first_key_positions(keys: &Vec<String>) -> (r: Vec<usize>)
    ensures
        r@.map_values(|i: usize| i as int) == first_key_positions_spec(crate::text::string_views(keys@)),
{
    let ghost ks = crate::text::string_views(keys@);
    let mut out: Vec<usize> = Vec::new();
    let mut i: usize = 0;
    assert(ks.take(0) =~= Seq::<Seq<char>>::empty());
    while i < keys.len()
        invariant
            i <= keys@.len(),
            ks == crate::text::string_views(keys@),
            out@.map_values(|i: usize| i as int) == first_key_positions_spec(ks.take(i as int)),
        decreases keys@.len() - i,
    {
        let ghost t = ks.take(i + 1);
        assert(t.drop_last() =~= ks.take(i as int));
        assert(t[i as int] == keys@[i as int]@);
        let mut seen = false;
        let mut j: usize = 0;
        while j < i
            invariant
                j <= i,
                i < keys@.len(),
                ks == crate::text::string_views(keys@),
                seen == exists|k: int| 0 <= k < j && ks[k] == ks[i as int],
            decreases i - j,
        {
            assert(ks[j as int] == keys@[j as int]@ && ks[i as int] == keys@[i as int]@);
            if crate::text::str_eq(keys[j].as_str(), keys[i].as_str()) {
                seen = true;
            }
            j = j + 1;
        }
        assert(seen == ks.take(i as int).contains(ks[i as int])) by {
            if seen {
                let k = choose|k: int| 0 <= k < i && ks[k] == ks[i as int];
                assert(ks.take(i as int)[k] == ks[k]);
            }
            if ks.take(i as int).contains(ks[i as int]) {
                let k = choose|k: int| 0 <= k < i && ks.take(i as int)[k] == ks[i as int];
                assert(ks[k] == ks.take(i as int)[k]);
            }
        }
        let ghost prev = out@;
        if !seen {
            out.push(i);
            assert(out@.map_values(|i: usize| i as int) =~= prev.map_values(|i: usize| i as int) + seq![i as int]);
        } else {
            assert(out@.map_values(|i: usize| i as int) =~= prev.map_values(|i: usize| i as int) + Seq::<int>::empty());
        }
        i = i + 1;
    }
    assert(ks.take(ks.len() as int) =~= ks);
    out
}

} // verus!

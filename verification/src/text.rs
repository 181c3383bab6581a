//! Text primitives shared by the sources: whitespace trimming, searching,
//! prefix tests and decimal rendering, over sequences of `char`.
use vstd::prelude::*;
use vstd::utf8::*;

verus! {

// ---------------------------------------------------------------------------
// Specifications
// ---------------------------------------------------------------------------

/// Unicode `White_Space`, the property that `char::is_whitespace` tests.
pub open spec fn is_white_space(c: char) -> bool {
    ||| '\u{9}' <= c <= '\u{d}'
    ||| c == ' '
    ||| c == '\u{85}'
    ||| c == '\u{a0}'
    ||| c == '\u{1680}'
    ||| '\u{2000}' <= c <= '\u{200a}'
    ||| c == '\u{2028}'
    ||| c == '\u{2029}'
    ||| c == '\u{202f}'
    ||| c == '\u{205f}'
    ||| c == '\u{3000}'
}

/// `s` without its leading white space.
pub open spec fn trim_start(s: Seq<char>) -> Seq<char>
    decreases s.len(),
{
    if s.len() > 0 && is_white_space(s[0]) {
        trim_start(s.drop_first())
    } else {
        s
    }
}

/// `s` without its trailing white space.
pub open spec fn trim_end(s: Seq<char>) -> Seq<char>
    decreases s.len(),
{
    if s.len() > 0 && is_white_space(s.last()) {
        trim_end(s.drop_last())
    } else {
        s
    }
}

/// `s` without white space at either end (`str::trim`).
pub open spec fn trim(s: Seq<char>) -> Seq<char> {
    trim_end(trim_start(s))
}

/// `p` is a prefix of `s`.
pub open spec fn starts_with(s: Seq<char>, p: Seq<char>) -> bool {
    p.len() <= s.len() && s.subrange(0, p.len() as int) == p
}

/// `p` is a suffix of `s`.
pub open spec fn ends_with(s: Seq<char>, p: Seq<char>) -> bool {
    p.len() <= s.len() && s.subrange(s.len() - p.len(), s.len() as int) == p
}

/// `p` occurs in `s` starting at index `i`.
pub open spec fn occurs_at<T>(s: Seq<T>, p: Seq<T>, i: int) -> bool {
    0 <= i && i + p.len() <= s.len() && s.subrange(i, i + p.len()) == p
}

/// The first index, not below `i`, at which `p` occurs in `s`, or -1.
pub open spec fn find_from<T>(s: Seq<T>, p: Seq<T>, i: int) -> int
    decreases s.len() + 1 - i,
{
    if i < 0 || i + p.len() > s.len() {
        -1
    } else if s.subrange(i, i + p.len()) == p {
        i
    } else {
        find_from(s, p, i + 1)
    }
}

/// The first index at which `p` occurs in `s`, or -1 (`str::find`).
pub open spec fn find<T>(s: Seq<T>, p: Seq<T>) -> int {
    find_from(s, p, 0)
}

/// `p` occurs somewhere in `s` (`str::contains`).
pub open spec fn contains_seq<T>(s: Seq<T>, p: Seq<T>) -> bool {
    find(s, p) >= 0
}

/// The last index of `c` in `s`, or -1 (`str::rfind` with a `char`).
pub open spec fn rfind_char(s: Seq<char>, c: char) -> int
    decreases s.len(),
{
    if s.len() == 0 {
        -1
    } else if s.last() == c {
        s.len() - 1
    } else {
        rfind_char(s.drop_last(), c)
    }
}

/// `s` without all trailing occurrences of `c` (`str::trim_end_matches`).
pub open spec fn trim_end_char(s: Seq<char>, c: char) -> Seq<char>
    decreases s.len(),
{
    if s.len() > 0 && s.last() == c {
        trim_end_char(s.drop_last(), c)
    } else {
        s
    }
}

/// `s` without all leading repetitions of `p` (`str::trim_start_matches`).
pub open spec fn trim_start_seq(s: Seq<char>, p: Seq<char>) -> Seq<char>
    decreases s.len(),
{
    if p.len() > 0 && starts_with(s, p) {
        trim_start_seq(s.subrange(p.len() as int, s.len() as int), p)
    } else {
        s
    }
}

/// The decimal digit for `d < 10`.
pub open spec fn digit_char(d: nat) -> char {
    if d == 0 { '0' }
    else if d == 1 { '1' }
    else if d == 2 { '2' }
    else if d == 3 { '3' }
    else if d == 4 { '4' }
    else if d == 5 { '5' }
    else if d == 6 { '6' }
    else if d == 7 { '7' }
    else if d == 8 { '8' }
    else { '9' }
}

/// The decimal rendering of a natural number, without leading zeros.
pub open spec fn decimal(n: nat) -> Seq<char>
    decreases n,
{
    if n < 10 {
        seq![digit_char(n)]
    } else {
        decimal(n / 10).push(digit_char(n % 10))
    }
}

/// The decimal rendering of an integer, as `Display` prints it.
pub open spec fn int_decimal(n: int) -> Seq<char> {
    if n < 0 {
        seq!['-'] + decimal((-n) as nat)
    } else {
        decimal(n as nat)
    }
}

/// `c` is an ASCII decimal digit.
pub open spec fn is_ascii_digit(c: char) -> bool {
    '0' <= c <= '9'
}

/// Every character of `s` is an ASCII decimal digit.
pub open spec fn all_ascii_digits(s: Seq<char>) -> bool {
    forall|i: int| 0 <= i < s.len() ==> is_ascii_digit(#[trigger] s[i])
}

/// What `str::to_lowercase` returns for a string of these characters.
pub uninterp spec fn lowercase(s: Seq<char>) -> Seq<char>;

/// The upper case of a character, as `char::to_uppercase` gives it (one to
/// three characters).
pub uninterp spec fn uppercase_char(c: char) -> Seq<char>;

// ---------------------------------------------------------------------------
// Lemmas
// ---------------------------------------------------------------------------

/// What `find_from` returns is an occurrence, and none comes earlier.
pub proof fn lemma_find_from_spec<T>(s: Seq<T>, p: Seq<T>, i: int)
    requires
        0 <= i,
    ensures
        find_from(s, p, i) == -1 || (i <= find_from(s, p, i) && occurs_at(s, p, find_from(s, p, i))),
        forall|j: int| i <= j && (find_from(s, p, i) == -1 || j < find_from(s, p, i)) ==> !occurs_at(s, p, j),
    decreases s.len() + 1 - i,
{
    if i + p.len() > s.len() {
    } else if s.subrange(i, i + p.len()) == p {
    } else {
        lemma_find_from_spec(s, p, i + 1);
    }
}

/// Trimming the start drops a prefix of white space and stops at a
/// character that is not white space.
pub proof fn lemma_trim_start_shape(s: Seq<char>)
    ensures
        exists|a: int| 0 <= a <= s.len() && trim_start(s) == s.skip(a),
        trim_start(s).len() > 0 ==> !is_white_space(trim_start(s)[0]),
    decreases s.len(),
{
    if s.len() > 0 && is_white_space(s[0]) {
        lemma_trim_start_shape(s.drop_first());
        let a = choose|a: int| 0 <= a <= s.drop_first().len() && trim_start(s.drop_first()) == s.drop_first().skip(a);
        assert(s.drop_first().skip(a) =~= s.skip(a + 1));
    } else {
        assert(s.skip(0) =~= s);
    }
}

/// Trimming the end drops a suffix of white space and stops at a character
/// that is not white space.
pub proof fn lemma_trim_end_shape(s: Seq<char>)
    ensures
        exists|b: int| 0 <= b <= s.len() && trim_end(s) == s.take(b),
        trim_end(s).len() > 0 ==> !is_white_space(trim_end(s).last()),
    decreases s.len(),
{
    if s.len() > 0 && is_white_space(s.last()) {
        lemma_trim_end_shape(s.drop_last());
        let b = choose|b: int| 0 <= b <= s.drop_last().len() && trim_end(s.drop_last()) == s.drop_last().take(b);
        assert(s.drop_last().take(b) =~= s.take(b));
    } else {
        assert(s.take(s.len() as int) =~= s);
    }
}

/// A trimmed text is a piece of the text, and trimming it again changes
/// nothing.
pub proof fn lemma_trim_shape(s: Seq<char>)
    ensures
        exists|a: int, b: int| 0 <= a <= b <= s.len() && trim(s) == s.subrange(a, b),
        trim(trim(s)) == trim(s),
{
    lemma_trim_start_shape(s);
    let ts = trim_start(s);
    lemma_trim_end_shape(ts);
    let a = choose|a: int| 0 <= a <= s.len() && trim_start(s) == s.skip(a);
    let b = choose|b: int| 0 <= b <= ts.len() && trim_end(ts) == ts.take(b);
    assert(trim(s) =~= s.subrange(a, a + b));
    let u = trim(s);
    if u.len() > 0 {
        assert(u[0] == ts[0]);
    }
    assert(trim_start(u) == u);
    lemma_trim_end_shape(u);
    if u.len() > 0 {
        assert(u.drop_last().len() < u.len());
    }
    assert(trim_end(u) == u);
}

// ---------------------------------------------------------------------------
// Conversions between strings and characters
// ---------------------------------------------------------------------------

/// The characters of a string slice, in order.
pub fn chars_of(s: &str) -> (v: Vec<char>)
    ensures
        v@ == s@,
{
    let mut v: Vec<char> = Vec::new();
    for c in it: s.chars()
        invariant
            v@ == it.seq().take(it.index() as int),
            it.seq() == s@,
    {
        v.push(c);
    }
    v
}

/// Appends one character to a string (`String::push`).
#[verifier::external_body]
pub(crate) fn push_char(s: &mut String, c: char)
    ensures
        final(s)@ == old(s)@.push(c),
{
    s.push(c);
}

/// A string holding exactly the given characters.
pub fn string_of(v: &[char]) -> (s: String)
    ensures
        s@ == v@,
{
    let mut s = String::new();
    let mut i: usize = 0;
    while i < v.len()
        invariant
            i <= v@.len(),
            s@ == v@.take(i as int),
        decreases v@.len() - i,
    {
        push_char(&mut s, v[i]);
        i = i + 1;
        assert(v@.take(i as int) == v@.take(i - 1).push(v@[i - 1]));
    }
    assert(v@.take(v@.len() as int) == v@);
    s
}

/// `str::to_lowercase`.
#[verifier::external_body]
pub(crate) fn to_lowercase(s: &str) -> (r: String)
    ensures
        r@ == lowercase(s@),
{
    s.to_lowercase()
}

/// The characters `v[start..end]`.
pub fn slice_chars(v: &[char], start: usize, end: usize) -> (r: Vec<char>)
    requires
        start <= end <= v@.len(),
    ensures
        r@ == v@.subrange(start as int, end as int),
{
    let mut r: Vec<char> = Vec::new();
    let mut i = start;
    while i < end
        invariant
            start <= i <= end <= v@.len(),
            r@ == v@.subrange(start as int, i as int),
        decreases end - i,
    {
        r.push(v[i]);
        i = i + 1;
    }
    r
}

/// Appends the characters of `b` to `a`.
pub fn append_chars(a: &mut Vec<char>, b: &[char])
    ensures
        final(a)@ == old(a)@ + b@,
{
    let mut i: usize = 0;
    while i < b.len()
        invariant
            i <= b@.len(),
            a@ == old(a)@ + b@.take(i as int),
        decreases b@.len() - i,
    {
        a.push(b[i]);
        i = i + 1;
        assert(b@.take(i as int) == b@.take(i - 1).push(b@[i - 1]));
    }
    assert(b@.take(b@.len() as int) == b@);
}

// ---------------------------------------------------------------------------
// Character classes
// ---------------------------------------------------------------------------

/// `char::is_whitespace`.
pub fn is_whitespace(c: char) -> (r: bool)
    ensures
        r == is_white_space(c),
{
    ('\u{9}' <= c && c <= '\u{d}') || c == ' ' || c == '\u{85}' || c == '\u{a0}' || c == '\u{1680}'
        || ('\u{2000}' <= c && c <= '\u{200a}') || c == '\u{2028}' || c == '\u{2029}' || c
        == '\u{202f}' || c == '\u{205f}' || c == '\u{3000}'
}

/// All characters are ASCII digits (`chars().all(|c| c.is_ascii_digit())`).
pub fn all_digits(v: &[char]) -> (r: bool)
    ensures
        r == all_ascii_digits(v@),
{
    let mut i: usize = 0;
    while i < v.len()
        invariant
            i <= v@.len(),
            forall|k: int| 0 <= k < i ==> is_ascii_digit(#[trigger] v@[k]),
        decreases v@.len() - i,
    {
        if !('0' <= v[i] && v[i] <= '9') {
            return false;
        }
        i = i + 1;
    }
    true
}

// ---------------------------------------------------------------------------
// Trimming
// ---------------------------------------------------------------------------

proof fn lemma_trim_start_skip(s: Seq<char>, i: int)
    requires
        0 <= i < s.len(),
        is_white_space(s[i]),
    ensures
        trim_start(s.skip(i)) == trim_start(s.skip(i + 1)),
{
    assert(s.skip(i).drop_first() == s.skip(i + 1));
}

proof fn lemma_trim_end_take(s: Seq<char>, j: int)
    requires
        0 < j <= s.len(),
        is_white_space(s[j - 1]),
    ensures
        trim_end(s.take(j)) == trim_end(s.take(j - 1)),
{
    assert(s.take(j).drop_last() == s.take(j - 1));
}

/// The bounds of `v` without its surrounding white space.
pub fn trim_bounds(v: &[char]) -> (r: (usize, usize))
    ensures
        r.0 <= r.1 <= v@.len(),
        v@.subrange(r.0 as int, r.1 as int) == trim(v@),
        trim_start(v@) == v@.skip(r.0 as int),
{
    let mut i: usize = 0;
    assert(v@.skip(0) == v@);
    while i < v.len() && is_whitespace(v[i])
        invariant
            i <= v@.len(),
            trim_start(v@) == trim_start(v@.skip(i as int)),
        decreases v@.len() - i,
    {
        proof {
            lemma_trim_start_skip(v@, i as int);
        }
        i = i + 1;
    }
    let ghost t = v@.skip(i as int);
    assert(trim_start(v@) == t);
    let mut j: usize = v.len();
    assert(t.take(t.len() as int) == t);
    while j > i && is_whitespace(v[j - 1])
        invariant
            i <= j <= v@.len(),
            t == v@.skip(i as int),
            trim_end(t) == trim_end(t.take(j - i)),
        decreases j,
    {
        proof {
            lemma_trim_end_take(t, j - i);
        }
        j = j - 1;
    }
    assert(t.take(j - i) == v@.subrange(i as int, j as int));
    (i, j)
}

/// `str::trim`, over characters.
pub fn trim_chars(v: &[char]) -> (r: Vec<char>)
    ensures
        r@ == trim(v@),
{
    let (a, b) = trim_bounds(v);
    slice_chars(v, a, b)
}

/// `trim_end_matches` with one character.
pub fn trim_end_char_chars(v: &[char], c: char) -> (r: Vec<char>)
    ensures
        r@ == trim_end_char(v@, c),
{
    let mut j: usize = v.len();
    assert(v@.take(v@.len() as int) == v@);
    while j > 0 && v[j - 1] == c
        invariant
            j <= v@.len(),
            trim_end_char(v@, c) == trim_end_char(v@.take(j as int), c),
        decreases j,
    {
        assert(v@.take(j as int).drop_last() == v@.take(j - 1));
        j = j - 1;
    }
    slice_chars(v, 0, j)
}

/// `trim_start_matches` with a string pattern.
pub fn trim_start_seq_chars(v: &[char], p: &[char]) -> (r: Vec<char>)
    ensures
        r@ == trim_start_seq(v@, p@),
{
    let mut i: usize = 0;
    assert(v@.skip(0) == v@);
    if p.len() == 0 {
        return slice_chars(v, 0, v.len());
    }
    while p.len() <= v.len() - i && starts_with_at(v, p, i)
        invariant
            i <= v@.len(),
            p@.len() > 0,
            trim_start_seq(v@, p@) == trim_start_seq(v@.skip(i as int), p@),
        decreases v@.len() - i,
    {
        assert(v@.skip(i as int).subrange(0, p@.len() as int) == v@.subrange(i as int, i + p@.len()));
        assert(v@.skip(i as int).subrange(p@.len() as int, v@.skip(i as int).len() as int) == v@.skip(
            i + p@.len(),
        ));
        i = i + p.len();
    }
    if p.len() <= v.len() - i {
        assert(v@.skip(i as int).subrange(0, p@.len() as int) == v@.subrange(i as int, i + p@.len()));
    }
    slice_chars(v, i, v.len())
}

// ---------------------------------------------------------------------------
// Searching
// ---------------------------------------------------------------------------

/// `p` occurs in `v` at `i`.
pub fn starts_with_at(v: &[char], p: &[char], i: usize) -> (r: bool)
    requires
        i + p@.len() <= v@.len(),
    ensures
        r == (v@.subrange(i as int, i + p@.len()) == p@),
{
    let mut k: usize = 0;
    while k < p.len()
        invariant
            k <= p@.len(),
            i + p@.len() <= v@.len(),
            v@.len() == v.len(),
            forall|m: int| 0 <= m < k ==> v@[i + m] == p@[m],
        decreases p@.len() - k,
    {
        if v[i + k] != p[k] {
            assert(v@.subrange(i as int, i + p@.len())[k as int] != p@[k as int]);
            return false;
        }
        k = k + 1;
    }
    assert(v@.subrange(i as int, i + p@.len()) == p@);
    true
}

/// `p` is a prefix of `v`.
pub fn has_prefix(v: &[char], p: &[char]) -> (r: bool)
    ensures
        r == starts_with(v@, p@),
{
    p.len() <= v.len() && starts_with_at(v, p, 0)
}

/// `p` is a suffix of `v`.
pub fn has_suffix(v: &[char], p: &[char]) -> (r: bool)
    ensures
        r == ends_with(v@, p@),
{
    p.len() <= v.len() && starts_with_at(v, p, v.len() - p.len())
}

/// The first index at which `p` occurs in `v` (`str::find`).
pub fn find_chars(v: &[char], p: &[char]) -> (r: Option<usize>)
    ensures
        match r {
            Some(i) => i == find(v@, p@) && i + p@.len() <= v@.len() && v@.subrange(
                i as int,
                i + p@.len(),
            ) == p@,
            None => find(v@, p@) == -1,
        },
{
    if p.len() > v.len() {
        return None;
    }
    let last = v.len() - p.len();
    let mut i: usize = 0;
    loop
        invariant
            i <= last,
            last == v@.len() - p@.len(),
            p@.len() <= v@.len(),
            find(v@, p@) == find_from(v@, p@, i as int),
        decreases last - i,
    {
        if starts_with_at(v, p, i) {
            return Some(i);
        }
        if i == last {
            assert(find_from(v@, p@, i + 1) == -1);
            return None;
        }
        i = i + 1;
    }
}

/// The last index of `c` in `v` (`str::rfind` with a `char`).
pub fn rfind_char_chars(v: &[char], c: char) -> (r: Option<usize>)
    ensures
        match r {
            Some(i) => i == rfind_char(v@, c) && i < v@.len() && v@[i as int] == c,
            None => rfind_char(v@, c) == -1,
        },
{
    let mut j: usize = v.len();
    assert(v@.take(v@.len() as int) == v@);
    while j > 0 && v[j - 1] != c
        invariant
            j <= v@.len(),
            rfind_char(v@, c) == rfind_char(v@.take(j as int), c),
        decreases j,
    {
        assert(v@.take(j as int).drop_last() == v@.take(j - 1));
        j = j - 1;
    }
    if j == 0 {
        None
    } else {
        Some(j - 1)
    }
}

/// Character sequences are equal.
pub fn chars_eq(a: &[char], b: &[char]) -> (r: bool)
    ensures
        r == (a@ == b@),
{
    if a.len() != b.len() {
        return false;
    }
    let r = starts_with_at(a, b, 0);
    assert(a@.subrange(0, b@.len() as int) == a@);
    r
}


// ---------------------------------------------------------------------------
// Splitting and first matches
// ---------------------------------------------------------------------------

/// `s` split at every `a` and every `b` (`str::split` with two characters):
/// n separators give n + 1 parts.
pub open spec fn split_two(s: Seq<char>, a: char, b: char) -> Seq<Seq<char>>
    decreases s.len(),
{
    if s.len() == 0 {
        seq![Seq::<char>::empty()]
    } else {
        let p = split_two(s.drop_last(), a, b);
        if s.last() == a || s.last() == b {
            p.push(Seq::<char>::empty())
        } else {
            p.update(p.len() - 1, p.last().push(s.last()))
        }
    }
}

proof fn lemma_split_two_nonempty(s: Seq<char>, a: char, b: char)
    ensures
        split_two(s, a, b).len() >= 1,
    decreases s.len(),
{
    if s.len() > 0 {
        lemma_split_two_nonempty(s.drop_last(), a, b);
    }
}

/// The parts of `v` between the separators `a` and `b`.
pub fn split_two_chars(v: &[char], a: char, b: char) -> (r: Vec<Vec<char>>)
    ensures
        r@.map_values(|p: Vec<char>| p@) == split_two(v@, a, b),
{
    let mut parts: Vec<Vec<char>> = Vec::new();
    let mut cur: Vec<char> = Vec::new();
    let mut i: usize = 0;
    assert(v@.take(0) == Seq::<char>::empty());
    while i < v.len()
        invariant
            i <= v@.len(),
            parts@.map_values(|p: Vec<char>| p@).push(cur@) == split_two(v@.take(i as int), a, b),
        decreases v@.len() - i,
    {
        let c = v[i];
        let ghost prev = split_two(v@.take(i as int), a, b);
        proof {
            lemma_split_two_nonempty(v@.take(i as int), a, b);
        }
        assert(v@.take(i + 1).drop_last() == v@.take(i as int));
        if c == a || c == b {
            let done = cur;
            parts.push(done);
            cur = Vec::new();
            assert(parts@.map_values(|p: Vec<char>| p@).push(cur@) =~= prev.push(Seq::<char>::empty()));
        } else {
            cur.push(c);
            assert(parts@.map_values(|p: Vec<char>| p@).push(cur@) =~= prev.update(
                prev.len() - 1,
                prev.last().push(c),
            ));
        }
        i = i + 1;
    }
    assert(v@.take(v@.len() as int) == v@);
    parts.push(cur);
    parts
}

/// The first index at or after `i` at which `bs` holds, or -1.
pub open spec fn first_true_from(bs: Seq<bool>, i: int) -> int
    decreases bs.len() - i,
{
    if i < 0 || i >= bs.len() {
        -1
    } else if bs[i] {
        i
    } else {
        first_true_from(bs, i + 1)
    }
}

/// The first index at which `bs` holds, or -1.
pub open spec fn find_first_index(bs: Seq<bool>) -> int {
    first_true_from(bs, 0)
}

proof fn lemma_first_true_from(bs: Seq<bool>, i: int, j: int)
    requires
        0 <= i <= j < bs.len(),
        bs[j],
        forall|k: int| 0 <= k < j ==> !bs[k],
    ensures
        first_true_from(bs, i) == j,
    decreases j - i,
{
    if i < j {
        lemma_first_true_from(bs, i + 1, j);
    }
}

proof fn lemma_first_true_from_none(bs: Seq<bool>, i: int)
    requires
        0 <= i,
        forall|k: int| 0 <= k < bs.len() ==> !bs[k],
    ensures
        first_true_from(bs, i) == -1,
    decreases bs.len() - i,
{
    if i < bs.len() {
        lemma_first_true_from_none(bs, i + 1);
    }
}

/// The first index is `j` when `bs` holds at `j` and nowhere before.
pub proof fn lemma_find_first_index(bs: Seq<bool>, j: int)
    requires
        0 <= j < bs.len(),
        bs[j],
        forall|k: int| 0 <= k < j ==> !bs[k],
    ensures
        find_first_index(bs) == j,
{
    lemma_first_true_from(bs, 0, j);
}

/// There is no first index when `bs` holds nowhere.
pub proof fn lemma_find_first_none(bs: Seq<bool>)
    requires
        forall|k: int| 0 <= k < bs.len() ==> !bs[k],
    ensures
        find_first_index(bs) == -1,
{
    lemma_first_true_from_none(bs, 0);
}

// ---------------------------------------------------------------------------
// ASCII case
// ---------------------------------------------------------------------------

/// The ASCII lower case of a character; other characters are unchanged.
pub open spec fn ascii_lower(c: char) -> char {
    if 'A' <= c <= 'Z' {
        (((c as u32) + 32) as u8) as char
    } else {
        c
    }
}

/// `str::eq_ignore_ascii_case`.
pub open spec fn eq_ignore_ascii_case(a: Seq<char>, b: Seq<char>) -> bool {
    a.len() == b.len() && forall|i: int| 0 <= i < a.len() ==> ascii_lower(#[trigger] a[i]) == ascii_lower(b[i])
}

fn ascii_lower_exec(c: char) -> (r: char)
    ensures
        r == ascii_lower(c),
{
    if 'A' <= c && c <= 'Z' {
        let code = (c as u32) + 32;
        (code as u8) as char
    } else {
        c
    }
}

/// Equality up to ASCII case.
pub fn chars_eq_ignore_ascii_case(a: &[char], b: &[char]) -> (r: bool)
    ensures
        r == eq_ignore_ascii_case(a@, b@),
{
    if a.len() != b.len() {
        return false;
    }
    let mut i: usize = 0;
    while i < a.len()
        invariant
            i <= a@.len(),
            a@.len() == b@.len(),
            forall|k: int| 0 <= k < i ==> ascii_lower(#[trigger] a@[k]) == ascii_lower(b@[k]),
        decreases a@.len() - i,
    {
        if ascii_lower_exec(a[i]) != ascii_lower_exec(b[i]) {
            return false;
        }
        i = i + 1;
    }
    true
}

// ---------------------------------------------------------------------------
// Decimal rendering
// ---------------------------------------------------------------------------

/// The decimal digits of `n`.
pub fn u64_decimal(n: u64) -> (r: Vec<char>)
    ensures
        r@ == decimal(n as nat),
    decreases n,
{
    let d = n % 10;
    let c = if d == 0 { '0' }
        else if d == 1 { '1' }
        else if d == 2 { '2' }
        else if d == 3 { '3' }
        else if d == 4 { '4' }
        else if d == 5 { '5' }
        else if d == 6 { '6' }
        else if d == 7 { '7' }
        else if d == 8 { '8' }
        else { '9' };
    if n < 10 {
        let mut r = Vec::new();
        r.push(c);
        r
    } else {
        let mut r = u64_decimal(n / 10);
        r.push(c);
        r
    }
}

/// The decimal rendering of `n`, as `Display` prints it.
pub fn i64_decimal(n: i64) -> (r: Vec<char>)
    ensures
        r@ == int_decimal(n as int),
{
    if n < 0 {
        let m: u64 = if n == i64::MIN {
            9223372036854775808u64
        } else {
            (-n) as u64
        };
        let mut r = Vec::new();
        r.push('-');
        let d = u64_decimal(m);
        append_chars(&mut r, &d);
        r
    } else {
        u64_decimal(n as u64)
    }
}


// ---------------------------------------------------------------------------
// Equality and joining
// ---------------------------------------------------------------------------

/// Two string slices hold the same characters (`==` on `str`).
pub fn str_eq(a: &str, b: &str) -> (r: bool)
    ensures
        r == (a@ == b@),
{
    let x = chars_of(a);
    let y = chars_of(b);
    chars_eq(&x, &y)
}

/// The parts joined with `sep` between each two of them (`[String]::join`).
pub open spec fn join(parts: Seq<Seq<char>>, sep: Seq<char>) -> Seq<char>
    decreases parts.len(),
{
    if parts.len() == 0 {
        Seq::empty()
    } else if parts.len() == 1 {
        parts[0]
    } else {
        join(parts.drop_last(), sep) + sep + parts.last()
    }
}

/// The views of a list of strings.
pub open spec fn string_views(v: Seq<String>) -> Seq<Seq<char>> {
    v.map_values(|s: String| s@)
}

/// Joins the strings with `sep` between each two of them.
pub fn join_strings(parts: &Vec<String>, sep: &str) -> (r: String)
    ensures
        r@ == join(string_views(parts@), sep@),
{
    let mut acc: Vec<char> = Vec::new();
    let sepc = chars_of(sep);
    let mut i: usize = 0;
    while i < parts.len()
        invariant
            i <= parts@.len(),
            sepc@ == sep@,
            acc@ == join(string_views(parts@.take(i as int)), sep@),
        decreases parts@.len() - i,
    {
        let piece = chars_of(parts[i].as_str());
        assert(string_views(parts@.take(i + 1)).drop_last() =~= string_views(parts@.take(i as int)));
        if i > 0 {
            append_chars(&mut acc, &sepc);
        }
        append_chars(&mut acc, &piece);
        i = i + 1;
        assert(string_views(parts@.take(i as int)).last() == parts@[i - 1]@);
    }
    assert(parts@.take(parts@.len() as int) =~= parts@);
    string_of(&acc)
}


/// Appends the characters of a string slice.
pub fn push_str(acc: &mut Vec<char>, s: &str)
    ensures
        final(acc)@ == old(acc)@ + s@,
{
    let c = chars_of(s);
    append_chars(acc, &c);
}


/// The characters of an optional string.
pub open spec fn opt_view(o: Option<String>) -> Option<Seq<char>> {
    match o {
        Some(s) => Some(s@),
        None => None,
    }
}

/// The characters of an optional string slice.
pub open spec fn opt_str_view(o: Option<&str>) -> Option<Seq<char>> {
    match o {
        Some(s) => Some(s@),
        None => None,
    }
}


/// The second piece of `s` split at `p` (`s.split(p).nth(1)` for a
/// non-empty `p`): the text after the first occurrence of `p` up to the next
/// one; none when `p` does not occur.
pub open spec fn piece_after(s: Seq<char>, p: Seq<char>) -> Option<Seq<char>> {
    let k = find(s, p);
    if k < 0 {
        None
    } else {
        let rest = s.skip(k + p.len());
        let e = find(rest, p);
        Some(if e < 0 { rest } else { rest.take(e) })
    }
}

/// The second piece of `v` split at the non-empty `p`.
pub fn piece_after_chars(v: &[char], p: &[char]) -> (r: Option<Vec<char>>)
    ensures
        match r {
            Some(x) => piece_after(v@, p@) == Some(x@),
            None => piece_after(v@, p@) is None,
        },
{
    match find_chars(v, p) {
        None => None,
        Some(k) => {
            let n = v.len();
            let m = p.len();
            assert(k + m <= n);
            let rest = slice_chars(v, k + m, n);
            assert(rest@ =~= v@.skip(k + p@.len()));
            match find_chars(&rest, p) {
                None => Some(rest),
                Some(e) => {
                    let piece = slice_chars(&rest, 0, e);
                    assert(piece@ =~= rest@.take(e as int));
                    Some(piece)
                },
            }
        },
    }
}

/// The first piece of `s` split at `c` (`s.split(c).next()`): the text
/// before the first `c`, or all of `s`.
pub open spec fn before_char(s: Seq<char>, c: char) -> Seq<char> {
    let k = find(s, seq![c]);
    if k < 0 {
        s
    } else {
        s.take(k)
    }
}

/// The text of `v` before its first `c`.
pub fn before_char_chars(v: &[char], c: char) -> (r: Vec<char>)
    ensures
        r@ == before_char(v@, c),
{
    let mut p: Vec<char> = Vec::new();
    p.push(c);
    assert(p@ =~= seq![c]);
    match find_chars(v, &p) {
        None => slice_chars(v, 0, v.len()),
        Some(k) => slice_chars(v, 0, k),
    }
}

/// `s` without all leading and trailing occurrences of `c`
/// (`str::trim_matches` with a `char`).
pub open spec fn trim_char(s: Seq<char>, c: char) -> Seq<char> {
    trim_end_char(trim_start_seq(s, seq![c]), c)
}

/// `v` without all leading and trailing occurrences of `c`.
pub fn trim_char_chars(v: &[char], c: char) -> (r: Vec<char>)
    ensures
        r@ == trim_char(v@, c),
{
    let mut p: Vec<char> = Vec::new();
    p.push(c);
    assert(p@ =~= seq![c]);
    let a = trim_start_seq_chars(v, &p);
    trim_end_char_chars(&a, c)
}


/// The non-empty pieces, in order.
pub open spec fn nonempty_pieces(p: Seq<Seq<char>>) -> Seq<Seq<char>>
    decreases p.len(),
{
    if p.len() == 0 {
        Seq::empty()
    } else {
        let q = nonempty_pieces(p.drop_last());
        if p.last().len() > 0 {
            q.push(p.last())
        } else {
            q
        }
    }
}

/// The non-empty pieces of `v` split at `c` (`split(c).filter(|s| !s.is_empty())`).
pub fn nonempty_split(v: &[char], c: char) -> (r: Vec<Vec<char>>)
    ensures
        r@.map_values(|x: Vec<char>| x@) == nonempty_pieces(split_two(v@, c, c)),
{
    let parts = split_two_chars(v, c, c);
    let ghost views = parts@.map_values(|x: Vec<char>| x@);
    let mut out: Vec<Vec<char>> = Vec::new();
    let mut i: usize = 0;
    assert(views.take(0) =~= Seq::<Seq<char>>::empty());
    while i < parts.len()
        invariant
            i <= parts@.len(),
            views == parts@.map_values(|x: Vec<char>| x@),
            views == split_two(v@, c, c),
            out@.map_values(|x: Vec<char>| x@) == nonempty_pieces(views.take(i as int)),
        decreases parts@.len() - i,
    {
        assert(views.take(i + 1).drop_last() =~= views.take(i as int));
        assert(views.take(i + 1).last() == parts@[i as int]@);
        if parts[i].len() > 0 {
            let piece = slice_chars(&parts[i], 0, parts[i].len());
            assert(piece@ =~= parts@[i as int]@);
            let ghost before = out@;
            out.push(piece);
            assert(out@.map_values(|x: Vec<char>| x@) =~= before.map_values(|x: Vec<char>| x@).push(piece@));
        }
        i = i + 1;
    }
    assert(views.take(views.len() as int) =~= views);
    out
}

/// The value of a string of decimal digits.
pub open spec fn digits_value(d: Seq<char>) -> nat
    decreases d.len(),
{
    if d.len() == 0 {
        0
    } else {
        digits_value(d.drop_last()) * 10 + ((d.last() as int - '0' as int) as nat)
    }
}

/// `str::parse::<usize>`: an optional `+` followed by at least one ASCII
/// digit, whose value fits in a `usize`.
pub open spec fn parse_usize_spec(s: Seq<char>) -> Option<nat> {
    let d = if s.len() > 0 && s[0] == '+' { s.drop_first() } else { s };
    if d.len() > 0 && all_ascii_digits(d) && digits_value(d) <= usize::MAX {
        Some(digits_value(d))
    } else {
        None
    }
}

proof fn lemma_digits_value_grows(d: Seq<char>, i: int, j: int)
    requires
        0 <= i <= j <= d.len(),
        all_ascii_digits(d),
    ensures
        digits_value(d.take(i)) <= digits_value(d.take(j)),
    decreases j - i,
{
    if i < j {
        lemma_digits_value_grows(d, i, j - 1);
        assert(d.take(j).drop_last() =~= d.take(j - 1));
        assert(is_ascii_digit(d[j - 1]));
    }
}

/// The number a string gives (`str::parse::<usize>`).
pub fn parse_usize(v: &[char]) -> (r: Option<usize>)
    ensures
        match r {
            Some(n) => parse_usize_spec(v@) == Some(n as nat),
            None => parse_usize_spec(v@) is None,
        },
{
    let start: usize = if v.len() > 0 && v[0] == '+' { 1 } else { 0 };
    let ghost d = if v@.len() > 0 && v@[0] == '+' { v@.drop_first() } else { v@ };
    assert(d =~= v@.skip(start as int));
    if start == v.len() {
        return None;
    }
    let digits = slice_chars(v, start, v.len());
    assert(digits@ =~= d);
    if !all_digits(&digits) {
        return None;
    }
    let mut acc: usize = 0;
    let mut i: usize = 0;
    assert(d.take(0) =~= Seq::<char>::empty());
    while i < digits.len()
        invariant
            i <= d.len(),
            digits@ == d,
            d == (if v@.len() > 0 && v@[0] == '+' { v@.drop_first() } else { v@ }),
            d.len() > 0,
            all_ascii_digits(d),
            acc as nat == digits_value(d.take(i as int)),
        decreases d.len() - i,
    {
        assert(d.take(i + 1).drop_last() =~= d.take(i as int));
        assert(d.take(i + 1).last() == d[i as int]);
        assert(is_ascii_digit(d[i as int]));
        let digit = (digits[i] as u32 - '0' as u32) as usize;
        match acc.checked_mul(10) {
            None => {
                proof {
                    lemma_digits_value_grows(d, i + 1, d.len() as int);
                    assert(d.take(d.len() as int) =~= d);
                }
                return None;
            },
            Some(m) => match m.checked_add(digit) {
                None => {
                    proof {
                        lemma_digits_value_grows(d, i + 1, d.len() as int);
                        assert(d.take(d.len() as int) =~= d);
                    }
                    return None;
                },
                Some(n) => {
                    acc = n;
                },
            },
        }
        i = i + 1;
    }
    assert(d.take(d.len() as int) =~= d);
    Some(acc)
}


/// `s` split at every white space character; n separators give n + 1
/// parts.
pub open spec fn split_ws(s: Seq<char>) -> Seq<Seq<char>>
    decreases s.len(),
{
    if s.len() == 0 {
        seq![Seq::<char>::empty()]
    } else {
        let p = split_ws(s.drop_last());
        if is_white_space(s.last()) {
            p.push(Seq::<char>::empty())
        } else {
            p.update(p.len() - 1, p.last().push(s.last()))
        }
    }
}

/// The words of `s` (`str::split_whitespace`).
pub open spec fn words(s: Seq<char>) -> Seq<Seq<char>> {
    nonempty_pieces(split_ws(s))
}

proof fn lemma_split_ws_nonempty(s: Seq<char>)
    ensures
        split_ws(s).len() >= 1,
    decreases s.len(),
{
    if s.len() > 0 {
        lemma_split_ws_nonempty(s.drop_last());
    }
}

/// The words of `v`, in order.
pub fn words_of(v: &[char]) -> (r: Vec<Vec<char>>)
    ensures
        r@.map_values(|x: Vec<char>| x@) == words(v@),
{
    let mut out: Vec<Vec<char>> = Vec::new();
    let mut cur: Vec<char> = Vec::new();
    let mut i: usize = 0;
    assert(v@.take(0) =~= Seq::<char>::empty());
    while i < v.len()
        invariant
            i <= v@.len(),
            split_ws(v@.take(i as int)).len() >= 1,
            cur@ == split_ws(v@.take(i as int)).last(),
            out@.map_values(|x: Vec<char>| x@) == nonempty_pieces(split_ws(v@.take(i as int)).drop_last()),
        decreases v@.len() - i,
    {
        let c = v[i];
        let ghost prev = split_ws(v@.take(i as int));
        assert(v@.take(i + 1).drop_last() =~= v@.take(i as int));
        assert(v@.take(i + 1).last() == c);
        if is_whitespace(c) {
            let ghost before = out@;
            if cur.len() > 0 {
                let done = cur;
                out.push(done);
                assert(out@.map_values(|x: Vec<char>| x@) =~= before.map_values(|x: Vec<char>| x@).push(prev.last()));
            }
            cur = Vec::new();
            assert(split_ws(v@.take(i + 1)) == prev.push(Seq::<char>::empty()));
            assert(prev.push(Seq::<char>::empty()).drop_last() =~= prev);
            assert(prev =~= prev.drop_last().push(prev.last()));
        } else {
            cur.push(c);
            assert(split_ws(v@.take(i + 1)) == prev.update(prev.len() - 1, prev.last().push(c)));
            assert(prev.update(prev.len() - 1, prev.last().push(c)).drop_last() =~= prev.drop_last());
        }
        i = i + 1;
    }
    assert(v@.take(v@.len() as int) =~= v@);
    let ghost all = split_ws(v@);
    assert(all =~= all.drop_last().push(all.last()));
    if cur.len() > 0 {
        let ghost before = out@;
        out.push(cur);
        assert(out@.map_values(|x: Vec<char>| x@) =~= before.map_values(|x: Vec<char>| x@).push(all.last()));
    }
    out
}

/// `str::parse::<i64>`: an optional sign followed by at least one ASCII
/// digit, whose value fits in an `i64`.
pub open spec fn parse_i64_spec(s: Seq<char>) -> Option<int> {
    let neg = s.len() > 0 && s[0] == '-';
    let d = if s.len() > 0 && (s[0] == '+' || s[0] == '-') { s.drop_first() } else { s };
    let v = if neg { -digits_value(d) } else { digits_value(d) as int };
    if d.len() > 0 && all_ascii_digits(d) && i64::MIN <= v <= i64::MAX {
        Some(v)
    } else {
        None
    }
}

/// The number a string gives (`str::parse::<i64>`).
pub fn parse_i64(v: &[char]) -> (r: Option<i64>)
    ensures
        match r {
            Some(n) => parse_i64_spec(v@) == Some(n as int),
            None => parse_i64_spec(v@) is None,
        },
{
    let neg = v.len() > 0 && v[0] == '-';
    let start: usize = if v.len() > 0 && (v[0] == '+' || v[0] == '-') { 1 } else { 0 };
    let ghost d = if v@.len() > 0 && (v@[0] == '+' || v@[0] == '-') { v@.drop_first() } else { v@ };
    assert(d =~= v@.skip(start as int));
    if start == v.len() {
        return None;
    }
    let digits = slice_chars(v, start, v.len());
    assert(digits@ =~= d);
    if !all_digits(&digits) {
        return None;
    }
    let limit: u64 = if neg { 9223372036854775808u64 } else { 9223372036854775807u64 };
    let mut acc: u64 = 0;
    let mut i: usize = 0;
    assert(d.take(0) =~= Seq::<char>::empty());
    while i < digits.len()
        invariant
            i <= d.len(),
            digits@ == d,
            d == (if v@.len() > 0 && (v@[0] == '+' || v@[0] == '-') { v@.drop_first() } else { v@ }),
            neg == (v@.len() > 0 && v@[0] == '-'),
            limit == (if neg { 9223372036854775808u64 } else { 9223372036854775807u64 }),
            d.len() > 0,
            all_ascii_digits(d),
            acc as nat == digits_value(d.take(i as int)),
            acc <= limit,
        decreases d.len() - i,
    {
        assert(d.take(i + 1).drop_last() =~= d.take(i as int));
        assert(d.take(i + 1).last() == d[i as int]);
        assert(is_ascii_digit(d[i as int]));
        let digit = (digits[i] as u32 - '0' as u32) as u64;
        if acc > (limit - digit) / 10 {
            proof {
                assert(acc * 10 + digit > limit) by (nonlinear_arith)
                    requires acc > (limit - digit) / 10, digit <= 9, limit >= 9;
                lemma_digits_value_grows(d, i + 1, d.len() as int);
                assert(d.take(d.len() as int) =~= d);
            }
            return None;
        }
        proof {
            assert(acc * 10 + digit <= limit) by (nonlinear_arith)
                requires acc <= (limit - digit) / 10, digit <= 9, limit >= 9;
        }
        acc = acc * 10 + digit;
        i = i + 1;
    }
    assert(d.take(d.len() as int) =~= d);
    if neg {
        if acc == 9223372036854775808u64 {
            Some(i64::MIN)
        } else {
            Some(-(acc as i64))
        }
    } else {
        Some(acc as i64)
    }
}


/// `s` with every `c` replaced by `r` (`str::replace` with a `char`).
pub open spec fn replace_char(s: Seq<char>, c: char, r: Seq<char>) -> Seq<char>
    decreases s.len(),
{
    if s.len() == 0 {
        Seq::empty()
    } else {
        replace_char(s.drop_last(), c, r) + if s.last() == c {
            r
        } else {
            seq![s.last()]
        }
    }
}

/// `v` with every `c` replaced by `r`.
pub fn replace_char_chars(v: &[char], c: char, r: &str) -> (out: Vec<char>)
    ensures
        out@ == replace_char(v@, c, r@),
{
    let rc = chars_of(r);
    let mut out: Vec<char> = Vec::new();
    let mut i: usize = 0;
    assert(v@.take(0) =~= Seq::<char>::empty());
    while i < v.len()
        invariant
            i <= v@.len(),
            rc@ == r@,
            out@ == replace_char(v@.take(i as int), c, r@),
        decreases v@.len() - i,
    {
        assert(v@.take(i + 1).drop_last() =~= v@.take(i as int));
        assert(v@.take(i + 1).last() == v@[i as int]);
        if v[i] == c {
            append_chars(&mut out, &rc);
        } else {
            let ghost before = out@;
            out.push(v[i]);
            assert(out@ =~= before + seq![v@[i as int]]);
        }
        i = i + 1;
    }
    assert(v@.take(v@.len() as int) =~= v@);
    out
}


/// `s` with every occurrence of the non-empty `p`, from left to right and
/// not overlapping, replaced by `r` (`str::replace`).
pub open spec fn replace_all(s: Seq<char>, p: Seq<char>, r: Seq<char>) -> Seq<char>
    decreases s.len(),
{
    let k = find(s, p);
    if p.len() == 0 || k < 0 {
        s
    } else {
        proof {
            lemma_find_from_spec(s, p, 0);
        }
        s.take(k) + r + replace_all(s.skip(k + p.len()), p, r)
    }
}

/// `v` with every occurrence of the non-empty `p` replaced by `r`.
pub fn replace_all_chars(v: &[char], p: &[char], r: &[char]) -> (out: Vec<char>)
    requires
        p@.len() > 0,
    ensures
        out@ == replace_all(v@, p@, r@),
{
    let mut out: Vec<char> = Vec::new();
    let mut rest = slice_chars(v, 0, v.len());
    assert(rest@ =~= v@);
    let mut done = false;
    while !done
        invariant
            p@.len() > 0,
            out@ + replace_all(rest@, p@, r@) == replace_all(v@, p@, r@),
            done ==> find(rest@, p@) < 0,
        decreases rest@.len() + if done { 0int } else { 1int },
    {
        match find_chars(&rest, p) {
            None => {
                done = true;
            },
            Some(k) => {
                let n = rest.len();
                let m = p.len();
                assert(k + m <= n);
                let before = slice_chars(&rest, 0, k);
                let after = slice_chars(&rest, k + m, n);
                assert(before@ =~= rest@.take(k as int));
                assert(after@ =~= rest@.skip(k + m));
                let ghost old_out = out@;
                append_chars(&mut out, &before);
                append_chars(&mut out, r);
                assert(out@ + replace_all(after@, p@, r@) =~= old_out + replace_all(rest@, p@, r@));
                rest = after;
            },
        }
    }
    append_chars(&mut out, &rest);
    out
}


/// `find_first_index` is -1 or an index where `bs` holds and nowhere
/// before.
pub proof fn lemma_find_first_spec(bs: Seq<bool>)
    ensures
        find_first_index(bs) == -1 || (0 <= find_first_index(bs) < bs.len() && bs[find_first_index(bs)]),
        forall|k: int| 0 <= k < bs.len() && (find_first_index(bs) == -1 || k < find_first_index(bs)) ==> !bs[k],
{
    lemma_first_true_from_spec(bs, 0);
}

proof fn lemma_first_true_from_spec(bs: Seq<bool>, i: int)
    requires
        0 <= i,
    ensures
        first_true_from(bs, i) == -1 || (i <= first_true_from(bs, i) < bs.len() && bs[first_true_from(bs, i)]),
        forall|k: int| i <= k < bs.len() && (first_true_from(bs, i) == -1 || k < first_true_from(bs, i)) ==> !bs[k],
    decreases bs.len() - i,
{
    if i < bs.len() && !bs[i] {
        lemma_first_true_from_spec(bs, i + 1);
    }
}


/// Splitting gives at least one part.
pub proof fn lemma_split_two_len(s: Seq<char>, a: char, b: char)
    ensures
        split_two(s, a, b).len() >= 1,
{
    lemma_split_two_nonempty(s, a, b);
}


/// The last index at or before `j` at which `p` occurs in `s`, or -1.
pub open spec fn rfind_from(s: Seq<char>, p: Seq<char>, j: int) -> int
    decreases j + 1,
{
    if j < 0 {
        -1
    } else if occurs_at(s, p, j) {
        j
    } else {
        rfind_from(s, p, j - 1)
    }
}

/// The last index at which `p` occurs in `s`, or -1 (`str::rfind`).
pub open spec fn rfind_seq(s: Seq<char>, p: Seq<char>) -> int {
    rfind_from(s, p, s.len() - p.len())
}

/// The text after the last occurrence of `p`
/// (`rsplit_once(p).map(|(_, tail)| tail)`).
pub open spec fn after_last(s: Seq<char>, p: Seq<char>) -> Option<Seq<char>> {
    let k = rfind_seq(s, p);
    if k < 0 {
        None
    } else {
        Some(s.skip(k + p.len()))
    }
}

proof fn lemma_rfind_from_range(s: Seq<char>, p: Seq<char>, j: int)
    ensures
        rfind_from(s, p, j) == -1 || (0 <= rfind_from(s, p, j) <= j && occurs_at(s, p, rfind_from(s, p, j))),
    decreases j + 1,
{
    if j >= 0 && !occurs_at(s, p, j) {
        lemma_rfind_from_range(s, p, j - 1);
    }
}

/// The text after the last occurrence of `p` in `v`.
pub fn after_last_chars(v: &[char], p: &[char]) -> (r: Option<Vec<char>>)
    ensures
        match r {
            Some(x) => after_last(v@, p@) == Some(x@),
            None => after_last(v@, p@) is None,
        },
{
    if p.len() > v.len() {
        assert(rfind_from(v@, p@, v@.len() - p@.len()) == -1);
        return None;
    }
    let mut j: usize = v.len() - p.len();
    loop
        invariant
            p@.len() <= v@.len(),
            j <= v@.len() - p@.len(),
            rfind_seq(v@, p@) == rfind_from(v@, p@, j as int),
        decreases j,
    {
        if starts_with_at(v, p, j) {
            let n = v.len();
            let m = p.len();
            let t = slice_chars(v, j + m, n);
            assert(t@ =~= v@.skip(j + m));
            return Some(t);
        }
        if j == 0 {
            assert(rfind_from(v@, p@, -1) == -1);
            return None;
        }
        j = j - 1;
    }
}

/// `s` without all trailing repetitions of `p` (`str::trim_end_matches`).
pub open spec fn trim_end_seq(s: Seq<char>, p: Seq<char>) -> Seq<char>
    decreases s.len(),
{
    if p.len() > 0 && ends_with(s, p) {
        trim_end_seq(s.take(s.len() - p.len()), p)
    } else {
        s
    }
}

/// `v` without all trailing repetitions of `p`.
pub fn trim_end_seq_chars(v: &[char], p: &[char]) -> (r: Vec<char>)
    ensures
        r@ == trim_end_seq(v@, p@),
{
    let mut cur = slice_chars(v, 0, v.len());
    assert(cur@ =~= v@);
    if p.len() == 0 {
        return cur;
    }
    while has_suffix(&cur, p)
        invariant
            p@.len() > 0,
            trim_end_seq(cur@, p@) == trim_end_seq(v@, p@),
        decreases cur@.len(),
    {
        let n = cur.len();
        let m = p.len();
        let next = slice_chars(&cur, 0, n - m);
        assert(next@ =~= cur@.take(n - m));
        cur = next;
    }
    cur
}

/// The text after the last `c`, or all of `s` (`rsplit(c).next()`).
pub open spec fn after_last_char(s: Seq<char>, c: char) -> Seq<char> {
    let k = rfind_char(s, c);
    if k < 0 {
        s
    } else {
        s.skip(k + 1)
    }
}

/// The text of `v` after its last `c`, or all of it.
pub fn after_last_char_chars(v: &[char], c: char) -> (r: Vec<char>)
    ensures
        r@ == after_last_char(v@, c),
{
    let n = v.len();
    match rfind_char_chars(v, c) {
        None => slice_chars(v, 0, n),
        Some(k) => {
            let t = slice_chars(v, k + 1, n);
            assert(t@ =~= v@.skip(k + 1));
            t
        },
    }
}


/// `char::to_uppercase`, collected into a string.
#[verifier::external_body]
pub(crate) fn char_to_uppercase(c: char) -> (r: String)
    ensures
        r@ == uppercase_char(c),
{
    c.to_uppercase().collect::<String>()
}

/// The characters of a list of key and value pairs.
pub open spec fn pairs_view(ps: Seq<(String, String)>) -> Seq<(Seq<char>, Seq<char>)> {
    ps.map_values(|p: (String, String)| (p.0@, p.1@))
}

/// Appends a key and value pair.
pub fn push_pair(ps: &mut Vec<(String, String)>, key: &str, value: &str)
    ensures
        pairs_view(final(ps)@) == pairs_view(old(ps)@).push((key@, value@)),
{
    let ghost before = ps@;
    ps.push((string_of(&chars_of(key)), string_of(&chars_of(value))));
    assert(pairs_view(ps@) =~= pairs_view(before).push((key@, value@)));
}

/// What follows the prefix `p` of `s`, if `s` starts with it
/// (`str::strip_prefix`).
pub open spec fn strip_prefix(s: Seq<char>, p: Seq<char>) -> Option<Seq<char>> {
    if starts_with(s, p) {
        Some(s.skip(p.len() as int))
    } else {
        None
    }
}

/// What follows the prefix `p` of a string, if it starts with it.
pub fn strip_prefix_str(s: &str, p: &str) -> (r: Option<String>)
    ensures
        opt_view(r) == strip_prefix(s@, p@),
{
    let v = chars_of(s);
    let pv = chars_of(p);
    if has_prefix(&v, &pv) {
        let rest = slice_chars(&v, pv.len(), v.len());
        assert(rest@ =~= s@.skip(p@.len() as int));
        Some(string_of(&rest))
    } else {
        None
    }
}

/// `s` without the leading run of `c` (`str::trim_start_matches` with a
/// `char`).
pub open spec fn trim_start_char(s: Seq<char>, c: char) -> Seq<char>
    decreases s.len(),
{
    if s.len() > 0 && s[0] == c {
        trim_start_char(s.drop_first(), c)
    } else {
        s
    }
}

/// The characters without their leading run of `c`.
pub fn trim_start_char_chars(v: &[char], c: char) -> (r: Vec<char>)
    ensures
        r@ == trim_start_char(v@, c),
{
    let mut i: usize = 0;
    assert(v@.skip(0) =~= v@);
    while i < v.len() && v[i] == c
        invariant
            i <= v@.len(),
            trim_start_char(v@, c) == trim_start_char(v@.skip(i as int), c),
        decreases v@.len() - i,
    {
        assert(v@.skip(i as int).drop_first() =~= v@.skip(i + 1));
        i = i + 1;
    }
    let r = slice_chars(v, i, v.len());
    assert(r@ =~= v@.skip(i as int));
    r
}

// ---------------------------------------------------------------------------
// Percent-encoding
// ---------------------------------------------------------------------------

/// The bytes that percent-encoding of a URI component leaves as they are:
/// ASCII letters and digits and `-_.!~*'()`.
pub open spec fn component_keeps(b: u8) -> bool {
    (48 <= b <= 57) || (65 <= b <= 90) || (97 <= b <= 122) || b == 45 || b == 95 || b == 46
        || b == 33 || b == 126 || b == 42 || b == 39 || b == 40 || b == 41
}

/// The bytes that percent-encoding of a whole URI leaves as they are: those
/// of a component, and the reserved `;,/?:@&=+$#`.
pub open spec fn uri_keeps(b: u8) -> bool {
    component_keeps(b) || b == 59 || b == 44 || b == 47 || b == 63 || b == 58 || b == 64 || b == 38
        || b == 61 || b == 43 || b == 36 || b == 35
}

/// The lower-case hexadecimal digit of `d < 16`.
pub open spec fn hex_digit_char(d: int) -> char {
    if d < 10 {
        (48 + d) as char
    } else {
        (87 + d) as char
    }
}

/// `%` and the two hexadecimal digits of a byte.
pub open spec fn escape_byte(b: u8) -> Seq<char> {
    seq!['%', hex_digit_char((b / 16) as int), hex_digit_char((b % 16) as int)]
}

/// Bytes percent-encoded: each byte that is kept stays as its character,
/// every other becomes `%XX`.
pub open spec fn percent_encoded(bs: Seq<u8>, whole_uri: bool) -> Seq<char>
    decreases bs.len(),
{
    if bs.len() == 0 {
        Seq::empty()
    } else {
        let b = bs.last();
        percent_encoded(bs.drop_last(), whole_uri) + if (if whole_uri {
            uri_keeps(b)
        } else {
            component_keeps(b)
        }) {
            seq![b as char]
        } else {
            escape_byte(b)
        }
    }
}

/// A text encoded as a URI component (`encode_uri_component`): its UTF-8
/// bytes percent-encoded.
pub open spec fn encode_component_spec(s: Seq<char>) -> Seq<char> {
    percent_encoded(encode_utf8(s), false)
}

/// A text encoded as a whole URI (`encode_uri`): its UTF-8 bytes
/// percent-encoded, the reserved characters kept.
pub open spec fn encode_uri_spec(s: Seq<char>) -> Seq<char> {
    percent_encoded(encode_utf8(s), true)
}

fn hex_digit(d: u8) -> (c: char)
    requires
        d < 16,
    ensures
        c == hex_digit_char(d as int),
{
    if d < 10 {
        (48 + d) as char
    } else {
        (87 + d) as char
    }
}

fn percent_encode(s: &str, whole_uri: bool) -> (r: String)
    ensures
        r@ == percent_encoded(encode_utf8(s@), whole_uri),
{
    let bytes = s.as_bytes();
    let ghost bs = bytes@;
    let mut out: Vec<char> = Vec::new();
    let mut i: usize = 0;
    assert(bs.take(0) =~= Seq::<u8>::empty());
    while i < bytes.len()
        invariant
            i <= bs.len(),
            bs == bytes@,
            out@ == percent_encoded(bs.take(i as int), whole_uri),
        decreases bs.len() - i,
    {
        let b = bytes[i];
        assert(bs.take(i + 1).drop_last() =~= bs.take(i as int));
        assert(bs.take(i + 1).last() == b);
        let keep = (48 <= b && b <= 57) || (65 <= b && b <= 90) || (97 <= b && b <= 122) || b == 45
            || b == 95 || b == 46 || b == 33 || b == 126 || b == 42 || b == 39 || b == 40 || b == 41
            || (whole_uri && (b == 59 || b == 44 || b == 47 || b == 63 || b == 58 || b == 64 || b
            == 38 || b == 61 || b == 43 || b == 36 || b == 35));
        let ghost prev = out@;
        if keep {
            out.push(b as char);
            assert(out@ =~= prev + seq![b as char]);
        } else {
            out.push('%');
            out.push(hex_digit(b / 16));
            out.push(hex_digit(b % 16));
            assert(out@ =~= prev + escape_byte(b));
        }
        i = i + 1;
    }
    assert(bs.take(bs.len() as int) =~= bs);
    string_of(&out)
}

/// Percent-encodes a URI component (`encode_uri_component`).
pub fn encode_uri_component(s: &str) -> (r: String)
    ensures
        r@ == encode_component_spec(s@),
{
    percent_encode(s, false)
}

/// Percent-encodes a whole URI, keeping its reserved characters
/// (`encode_uri`).
pub fn encode_uri(s: &str) -> (r: String)
    ensures
        r@ == encode_uri_spec(s@),
{
    percent_encode(s, true)
}

/// A query string: each name and value encoded as a URI component, joined
/// as `name=value` pairs by `&`.
pub open spec fn query_string_spec(ps: Seq<(Seq<char>, Seq<char>)>) -> Seq<char>
    decreases ps.len(),
{
    if ps.len() == 0 {
        Seq::empty()
    } else {
        let p = ps.last();
        query_string_spec(ps.drop_last()) + (if ps.len() > 1 { seq!['&'] } else { Seq::empty() })
            + encode_component_spec(p.0) + seq!['='] + encode_component_spec(p.1)
    }
}

/// Writes parameter pairs as a query string, each name and value
/// percent-encoded.
pub fn query_string(ps: &Vec<(String, String)>) -> (r: String)
    ensures
        r@ == query_string_spec(pairs_view(ps@)),
{
    let ghost pv = pairs_view(ps@);
    let mut out: Vec<char> = Vec::new();
    let mut i: usize = 0;
    assert(pv.take(0) =~= Seq::<(Seq<char>, Seq<char>)>::empty());
    while i < ps.len()
        invariant
            i <= ps@.len(),
            pv == pairs_view(ps@),
            out@ == query_string_spec(pv.take(i as int)),
        decreases ps@.len() - i,
    {
        assert(pv.take(i + 1).drop_last() =~= pv.take(i as int));
        assert(pv.take(i + 1).last() == pv[i as int]);
        let ghost prev = out@;
        if i > 0 {
            out.push('&');
        }
        let k = encode_uri_component(ps[i].0.as_str());
        let v = encode_uri_component(ps[i].1.as_str());
        append_chars(&mut out, &chars_of(k.as_str()));
        out.push('=');
        append_chars(&mut out, &chars_of(v.as_str()));
        assert(out@ =~= prev + (if i + 1 > 1 { seq!['&'] } else { Seq::<char>::empty() }) + k@
            + seq!['='] + v@);
        i = i + 1;
    }
    assert(pv.take(pv.len() as int) =~= pv);
    string_of(&out)
}

/// A query string of parameters that may lack a value: each name and value
/// encoded as a URI component, a parameter without value written as its
/// name alone, joined by `&`.
pub open spec fn query_string_opt_spec(ps: Seq<(Seq<char>, Option<Seq<char>>)>) -> Seq<char>
    decreases ps.len(),
{
    if ps.len() == 0 {
        Seq::empty()
    } else {
        let p = ps.last();
        query_string_opt_spec(ps.drop_last()) + (if ps.len() > 1 { seq!['&'] } else { Seq::empty() })
            + encode_component_spec(p.0) + match p.1 {
            Some(v) => seq!['='] + encode_component_spec(v),
            None => Seq::empty(),
        }
    }
}

/// What parameters that may lack a value hold.
pub open spec fn opt_pairs_view(ps: Seq<(String, Option<String>)>) -> Seq<(Seq<char>, Option<Seq<char>>)> {
    ps.map_values(|p: (String, Option<String>)| (p.0@, opt_view(p.1)))
}

/// Writes parameters that may lack a value as a query string, each name and
/// value percent-encoded.
pub fn query_string_opt(ps: &Vec<(String, Option<String>)>) -> (r: String)
    ensures
        r@ == query_string_opt_spec(opt_pairs_view(ps@)),
{
    let ghost pv = opt_pairs_view(ps@);
    let mut out: Vec<char> = Vec::new();
    let mut i: usize = 0;
    assert(pv.take(0) =~= Seq::<(Seq<char>, Option<Seq<char>>)>::empty());
    while i < ps.len()
        invariant
            i <= ps@.len(),
            pv == opt_pairs_view(ps@),
            out@ == query_string_opt_spec(pv.take(i as int)),
        decreases ps@.len() - i,
    {
        assert(pv.take(i + 1).drop_last() =~= pv.take(i as int));
        assert(pv.take(i + 1).last() == pv[i as int]);
        let ghost prev = out@;
        if i > 0 {
            out.push('&');
        }
        let ghost mid = out@;
        let k = encode_uri_component(ps[i].0.as_str());
        append_chars(&mut out, &chars_of(k.as_str()));
        match &ps[i].1 {
            Some(v) => {
                out.push('=');
                let e = encode_uri_component(v.as_str());
                append_chars(&mut out, &chars_of(e.as_str()));
                assert(out@ =~= mid + k@ + (seq!['='] + e@));
            },
            None => {
                assert(out@ =~= mid + k@ + Seq::<char>::empty());
            },
        }
        assert(mid =~= prev + (if i + 1 > 1 { seq!['&'] } else { Seq::<char>::empty() }));
        i = i + 1;
    }
    assert(pv.take(pv.len() as int) =~= pv);
    string_of(&out)
}

/// The value of a hexadecimal digit byte, in either case.
pub open spec fn hex_value_of(b: u8) -> Option<u8> {
    if 48 <= b <= 57 {
        Some((b - 48) as u8)
    } else if 97 <= b <= 102 {
        Some((b - 87) as u8)
    } else if 65 <= b <= 70 {
        Some((b - 55) as u8)
    } else {
        None
    }
}

/// Bytes percent-decoded: `%` followed by two hexadecimal digits is the
/// byte they give; every other byte stays.
pub open spec fn percent_decoded(bs: Seq<u8>) -> Seq<u8>
    decreases bs.len(),
{
    if bs.len() == 0 {
        Seq::empty()
    } else if bs.len() >= 3 && bs[0] == 37 && hex_value_of(bs[1]) is Some && hex_value_of(bs[2]) is Some {
        seq![(hex_value_of(bs[1])->0 * 16 + hex_value_of(bs[2])->0) as u8] + percent_decoded(bs.skip(3))
    } else {
        seq![bs[0]] + percent_decoded(bs.skip(1))
    }
}

fn hex_value_exec(b: u8) -> (r: Option<u8>)
    ensures
        r == hex_value_of(b),
        r matches Some(v) ==> v < 16,
{
    if 48 <= b && b <= 57 {
        Some(b - 48)
    } else if 97 <= b && b <= 102 {
        Some(b - 87)
    } else if 65 <= b && b <= 70 {
        Some(b - 55)
    } else {
        None
    }
}

/// Percent-decodes a text (`decode_uri`): the decoded bytes, as a string
/// when they are UTF-8.
pub fn decode_uri(s: &str) -> (r: Option<String>)
    ensures
        r is Some <==> valid_utf8(percent_decoded(encode_utf8(s@))),
        r matches Some(t) ==> t@ == decode_utf8(percent_decoded(encode_utf8(s@))),
{
    let bytes = s.as_bytes();
    let ghost bs = bytes@;
    let n = bytes.len();
    let mut out: Vec<u8> = Vec::new();
    let mut i: usize = 0;
    assert(bs.skip(0) =~= bs);
    assert(out@ + percent_decoded(bs) =~= percent_decoded(bs));
    while i < n
        invariant
            i <= n,
            n == bs.len(),
            bs == bytes@,
            out@ + percent_decoded(bs.skip(i as int)) == percent_decoded(bs),
        decreases n - i,
    {
        let ghost rest = bs.skip(i as int);
        let ghost prev = out@;
        let mut step: usize = 1;
        let mut decoded = false;
        if n - i >= 3 && bytes[i] == 37 {
            match (hex_value_exec(bytes[i + 1]), hex_value_exec(bytes[i + 2])) {
                (Some(h), Some(l)) => {
                    out.push(h * 16 + l);
                    step = 3;
                    decoded = true;
                    assert(rest[0] == bytes[i as int] && rest[1] == bytes[i + 1] && rest[2] == bytes[i + 2]);
                    assert(rest.skip(3) =~= bs.skip(i + 3));
                },
                _ => {},
            }
        }
        if !decoded {
            out.push(bytes[i]);
            assert(rest.len() > 0 && rest[0] == bytes[i as int]);
            if n - i >= 3 && bytes[i] == 37 {
                assert(rest[1] == bytes[i + 1] && rest[2] == bytes[i + 2]);
            }
            assert(rest.skip(1) =~= bs.skip(i + 1));
        }
        assert(out@ + percent_decoded(bs.skip(i + step)) == percent_decoded(bs)) by {
            assert(percent_decoded(rest) == out@.skip(prev.len() as int) + percent_decoded(bs.skip(i + step)));
        }
        i = i + step;
    }
    assert(bs.skip(n as int) =~= Seq::<u8>::empty());
    assert(out@ =~= out@ + Seq::<u8>::empty());
    crate::primitives::string_from_utf8(out)
}

} // verus!

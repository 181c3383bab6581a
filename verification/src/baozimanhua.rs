//! Baozimanhua: artists, covers, descriptions, reading direction, status and
//! chapter keys as the pages give them, and the chapter number's text.
use vstd::prelude::*;

use crate::model::{MangaStatus, Viewer};
use crate::primitives::{capture_group, capture_spec, present_texts};
use crate::text::{
    after_last_char, after_last_char_chars, chars_of, contains_seq, ends_with, find, find_chars,
    has_suffix, join, join_strings, opt_view, rfind_char, rfind_char_chars, slice_chars, split_two,
    split_two_chars, str_eq, string_of, string_views, trim, trim_chars,
};

verus! {

/// The names in `s` split at `,`, without surrounding white space, blank ones
/// left out.
pub open spec fn names_spec(s: Seq<Seq<char>>) -> Seq<Seq<char>>
    decreases s.len(),
{
    if s.len() == 0 {
        Seq::empty()
    } else {
        let p = names_spec(s.drop_last());
        let t = trim(s.last());
        if t.len() > 0 {
            p.push(t)
        } else {
            p
        }
    }
}

/// `s` without consecutive repeats (`Vec::dedup`).
pub open spec fn dedup_adjacent(s: Seq<Seq<char>>) -> Seq<Seq<char>>
    decreases s.len(),
{
    if s.len() == 0 {
        Seq::empty()
    } else {
        let p = dedup_adjacent(s.drop_last());
        if p.len() > 0 && p.last() == s.last() {
            p
        } else {
            p.push(s.last())
        }
    }
}

/// After removing consecutive repeats no two neighbours are equal.
pub proof fn law_dedup_adjacent(s: Seq<Seq<char>>)
    ensures
        forall|i: int| 0 <= i < dedup_adjacent(s).len() - 1 ==> #[trigger] dedup_adjacent(s)[i] != dedup_adjacent(s)[i + 1],
        dedup_adjacent(s).len() <= s.len(),
    decreases s.len(),
{
    if s.len() > 0 {
        law_dedup_adjacent(s.drop_last());
        let p = dedup_adjacent(s.drop_last());
        if !(p.len() > 0 && p.last() == s.last()) {
            assert forall|i: int| 0 <= i < p.push(s.last()).len() - 1 implies #[trigger] p.push(s.last())[i] != p.push(s.last())[i + 1] by {
                if i < p.len() - 1 {
                    assert(p.push(s.last())[i] == p[i]);
                    assert(p.push(s.last())[i + 1] == p[i + 1]);
                }
            }
        }
    }
}

/// The artists of a comma-separated author text: trimmed, blank ones left
/// out, consecutive repeats removed, joined with `, `.
pub open spec fn artists_spec(text: Seq<char>) -> Seq<char> {
    join(dedup_adjacent(names_spec(split_two(text, ',', ','))), ", "@)
}

/// The artists of a comma-separated author text.
pub fn artists(text: &str) -> (r: String)
    ensures
        r@ == artists_spec(text@),
{
    let parts = split_two_chars(&chars_of(text), ',', ',');
    let ghost pv = parts@.map_values(|x: Vec<char>| x@);
    let mut names: Vec<String> = Vec::new();
    let mut i: usize = 0;
    assert(pv.take(0) =~= Seq::<Seq<char>>::empty());
    while i < parts.len()
        invariant
            i <= parts@.len(),
            pv == parts@.map_values(|x: Vec<char>| x@),
            string_views(names@) == dedup_adjacent(names_spec(pv.take(i as int))),
        decreases parts@.len() - i,
    {
        assert(pv.take(i + 1).drop_last() =~= pv.take(i as int));
        assert(pv.take(i + 1).last() == parts@[i as int]@);
        let t = trim_chars(&parts[i]);
        let ghost s0 = names_spec(pv.take(i as int));
        if t.len() > 0 {
            assert(names_spec(pv.take(i + 1)) == s0.push(t@));
            assert(s0.push(t@).drop_last() =~= s0);
            assert(s0.push(t@).last() == t@);
            let ts = string_of(&t);
            let n = names.len();
            let repeat = n > 0 && names[n - 1] == ts;
            if !repeat {
                let ghost before = names@;
                names.push(ts);
                assert(string_views(names@) =~= string_views(before).push(t@));
            } else {
                assert(string_views(names@).last() == names@[n - 1]@);
            }
        } else {
            assert(names_spec(pv.take(i + 1)) == s0);
        }
        i = i + 1;
    }
    assert(pv.take(pv.len() as int) =~= pv);
    join_strings(&names, ", ")
}

/// An address without its query: what comes before its last `?`.
pub open spec fn without_query_spec(url: Seq<char>) -> Seq<char> {
    let k = rfind_char(url, '?');
    if k < 0 {
        url
    } else {
        url.take(k)
    }
}

/// An address without its query (covers are served without one).
pub fn without_query(url: &str) -> (r: String)
    ensures
        r@ == without_query_spec(url@),
{
    let v = chars_of(url);
    match rfind_char_chars(&v, '?') {
        Some(k) => string_of(&slice_chars(&v, 0, k)),
        None => string_of(&v),
    }
}

/// A description without the `<title》全集，` that the site puts before it.
pub open spec fn description_spec(desc: Seq<char>) -> Seq<char> {
    let k = find(desc, "》全集，"@);
    if k < 0 {
        desc
    } else {
        trim(desc.skip(k + "》全集，"@.len()))
    }
}

/// A description without its prefix.
pub fn description(desc: &str) -> (r: String)
    ensures
        r@ == description_spec(desc@),
{
    let v = chars_of(desc);
    let marker = chars_of("》全集，");
    match find_chars(&v, &marker) {
        None => string_of(&v),
        Some(k) => {
            let n = v.len();
            let m = marker.len();
            assert(k + m <= n);
            let rest = slice_chars(&v, k + m, n);
            assert(rest@ =~= desc@.skip(k + "》全集，"@.len()));
            string_of(&trim_chars(&rest))
        },
    }
}

/// Some tag holds `p`.
pub open spec fn any_tag_has(tags: Seq<Seq<char>>, p: Seq<char>) -> bool {
    exists|i: int| 0 <= i < tags.len() && contains_seq(#[trigger] tags[i], p)
}

fn any_tag_contains(tags: &Vec<String>, p: &str) -> (r: bool)
    ensures
        r == any_tag_has(string_views(tags@), p@),
{
    let ghost vs = string_views(tags@);
    let pc = chars_of(p);
    let mut i: usize = 0;
    while i < tags.len()
        invariant
            i <= tags@.len(),
            vs == string_views(tags@),
            pc@ == p@,
            forall|k: int| 0 <= k < i ==> !contains_seq(#[trigger] vs[k], p@),
        decreases tags@.len() - i,
    {
        if find_chars(&chars_of(tags[i].as_str()), &pc).is_some() {
            assert(contains_seq(vs[i as int], p@));
            return true;
        }
        i = i + 1;
    }
    false
}

/// The reading direction the tags give: Chinese and Korean comics scroll,
/// Japanese ones read right to left, others left to right.
pub open spec fn viewer_spec(tags: Seq<Seq<char>>) -> Viewer {
    if any_tag_has(tags, "國漫"@) || any_tag_has(tags, "韓國"@) {
        Viewer::Webtoon
    } else if any_tag_has(tags, "日本"@) {
        Viewer::RightToLeft
    } else {
        Viewer::LeftToRight
    }
}

/// The reading direction the tags give.
pub fn viewer_from_tags(tags: &Vec<String>) -> (r: Viewer)
    ensures
        r == viewer_spec(string_views(tags@)),
{
    if any_tag_contains(tags, "國漫") || any_tag_contains(tags, "韓國") {
        Viewer::Webtoon
    } else if any_tag_contains(tags, "日本") {
        Viewer::RightToLeft
    } else {
        Viewer::LeftToRight
    }
}

/// The status the status text gives.
pub fn status_from_text(text: &str) -> (r: MangaStatus)
    ensures
        r == (if text@ == "連載中"@ || text@ == "连载中"@ {
            MangaStatus::Ongoing
        } else if text@ == "已完結"@ || text@ == "已完结"@ {
            MangaStatus::Completed
        } else {
            MangaStatus::Unknown
        }),
{
    if str_eq(text, "連載中") || str_eq(text, "连载中") {
        MangaStatus::Ongoing
    } else if str_eq(text, "已完結") || str_eq(text, "已完结") {
        MangaStatus::Completed
    } else {
        MangaStatus::Unknown
    }
}

/// The key of a chapter: what follows the last `=` of its address.
pub fn chapter_key(url: &str) -> (r: String)
    ensures
        r@ == after_last_char(url@, '='),
{
    string_of(&after_last_char_chars(&chars_of(url), '='))
}

/// A chapter title that ends in 卷, after trimming, names a volume.
pub fn is_volume_title(title: &str) -> (r: bool)
    ensures
        r == ends_with(trim(title@), "卷"@),
{
    has_suffix(&trim_chars(&chars_of(title)), &chars_of("卷"))
}

/// The patterns tried in turn for a chapter number: a number after a
/// 第N话-style marker, the number of such a marker, a leading number.
pub open spec fn number_patterns() -> Seq<Seq<char>> {
    seq![
        "(?:第\\s*\\d+(?:\\.\\d+)?\\s*(?:话|話|章|回|卷|册|冊)\\s*)(\\d+(?:\\.\\d+)?)"@,
        "(?:第\\s*)(\\d+(?:\\.\\d+)?)\\s*(?:话|話|章|回|卷|册|冊)"@,
        "^(\\d+(?:\\.\\d+)?)"@,
    ]
}

/// The texts of a title that may give its chapter number, in the order they
/// are tried; the app takes the first that reads as a number
/// (`extract_chapter_number`).
pub fn chapter_number_candidates(title: &str) -> (r: Vec<String>)
    ensures
        string_views(r@) == present_texts(seq![
            capture_spec(number_patterns()[0], title@, 1),
            capture_spec(number_patterns()[1], title@, 1),
            capture_spec(number_patterns()[2], title@, 1),
        ]),
{
    let a = capture_group("(?:第\\s*\\d+(?:\\.\\d+)?\\s*(?:话|話|章|回|卷|册|冊)\\s*)(\\d+(?:\\.\\d+)?)", title, 1);
    let b = capture_group("(?:第\\s*)(\\d+(?:\\.\\d+)?)\\s*(?:话|話|章|回|卷|册|冊)", title, 1);
    let c = capture_group("^(\\d+(?:\\.\\d+)?)", title, 1);
    let ghost opts = seq![opt_view(a), opt_view(b), opt_view(c)];
    let mut out: Vec<String> = Vec::new();
    push_some(&mut out, a);
    push_some(&mut out, b);
    push_some(&mut out, c);
    assert(opts.drop_last().drop_last().drop_last() =~= Seq::<Option<Seq<char>>>::empty());
    proof {
        reveal_with_fuel(present_texts, 4);
    }
    out
}

/// Appends a present text.
pub fn push_some(out: &mut Vec<String>, o: Option<String>)
    ensures
        string_views(final(out)@) == (match opt_view(o) {
            Some(t) => string_views(old(out)@).push(t),
            None => string_views(old(out)@),
        }),
{
    if let Some(t) = o {
        let ghost before = out@;
        let ghost tv = t@;
        out.push(t);
        assert(string_views(out@) =~= string_views(before).push(tv));
    }
}

} // verus!

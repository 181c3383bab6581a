//! nhentai: the search query the filters and settings make, how a gallery
//! reads as a title (its tags grouped and ordered by use, its description
//! and title), image addresses, and links into the site.
use vstd::prelude::*;

use crate::model::{ContentRating, FilterValue, MangaStatus, Viewer};
use crate::text::{
    chars_of, encode_component_spec, encode_uri_component, find_first_index, i64_decimal, int_decimal, join, join_strings, opt_str_view,
    opt_view, push_str, starts_with, str_eq, string_of, string_views,
};

verus! {

/// The site.
pub const BASE_URL: &'static str = "https://nhentai.net";

/// The API.
pub const API_URL: &'static str = "https://nhentai.net/api/v2";

// ---------------------------------------------------------------------------
// Tags ordered by use
// ---------------------------------------------------------------------------

/// Where a tag goes among tags ordered by use, most used first: before the
/// first tag used less, so after those used as often.
pub open spec fn count_pos<T>(s: Seq<(T, i32)>, x: (T, i32)) -> int {
    let k = find_first_index(less_used(s, x.1));
    if k < 0 {
        s.len() as int
    } else {
        k
    }
}

/// Which tags are used less than `count` times.
pub open spec fn less_used<T>(s: Seq<(T, i32)>, count: i32) -> Seq<bool> {
    s.map_values(|p: (T, i32)| p.1 < count)
}

/// The tags ordered by use, most used first, keeping the order of tags used
/// equally often (`sort_by` on the counts, descending).
pub open spec fn sort_by_count<T>(s: Seq<(T, i32)>) -> Seq<(T, i32)>
    decreases s.len(),
{
    if s.len() == 0 {
        Seq::empty()
    } else {
        let t = sort_by_count(s.drop_last());
        t.insert(count_pos(t, s.last()), s.last())
    }
}

proof fn lemma_count_pos<T>(s: Seq<(T, i32)>, x: (T, i32))
    ensures
        0 <= count_pos(s, x) <= s.len(),
        forall|i: int| 0 <= i < count_pos(s, x) ==> (#[trigger] s[i]).1 >= x.1,
        count_pos(s, x) < s.len() ==> s[count_pos(s, x)].1 < x.1,
{
    let bs = less_used(s, x.1);
    crate::text::lemma_find_first_spec(bs);
    let k = find_first_index(bs);
    if k >= 0 {
        assert(bs[k]);
    }
    assert forall|i: int| 0 <= i < count_pos(s, x) implies (#[trigger] s[i]).1 >= x.1 by {
        assert(!bs[i]);
    }
}

/// Tags ordered by use, most used first.
pub open spec fn by_use<T>(s: Seq<(T, i32)>) -> bool {
    forall|i: int, j: int| 0 <= i < j < s.len() ==> (#[trigger] s[i]).1 >= (#[trigger] s[j]).1
}

/// Ordering tags by use orders them, most used first, and keeps every tag.
pub proof fn law_sort_by_count<T>(s: Seq<(T, i32)>)
    ensures
        by_use(sort_by_count(s)),
        sort_by_count(s).to_multiset() == s.to_multiset(),
    decreases s.len(),
{
    broadcast use vstd::multiset::group_multiset_axioms;
    if s.len() > 0 {
        let t = sort_by_count(s.drop_last());
        let x = s.last();
        law_sort_by_count(s.drop_last());
        lemma_count_pos(t, x);
        let p = count_pos(t, x);
        let u = t.insert(p, x);
        assert forall|i: int, j: int| 0 <= i < j < u.len() implies (#[trigger] u[i]).1 >= (#[trigger] u[j]).1 by {
            if j < p {
                assert(u[i] == t[i] && u[j] == t[j]);
            } else if j == p {
                assert(u[i] == t[i]);
            } else if i < p {
                assert(u[i] == t[i] && u[j] == t[j - 1]);
            } else if i == p {
                assert(u[j] == t[j - 1]);
            } else {
                assert(u[i] == t[i - 1] && u[j] == t[j - 1]);
            }
        }
        vstd::seq_lib::to_multiset_insert(t, p, x);
        assert(s.drop_last().push(x) =~= s);
        vstd::seq_lib::to_multiset_build(s.drop_last(), x);
    } else {
        assert(s =~= Seq::<(T, i32)>::empty());
    }
}

/// The tags used exactly `c` times, in order.
pub open spec fn with_count<T>(s: Seq<(T, i32)>, c: i32) -> Seq<(T, i32)>
    decreases s.len(),
{
    if s.len() == 0 {
        Seq::empty()
    } else if s.last().1 == c {
        with_count(s.drop_last(), c).push(s.last())
    } else {
        with_count(s.drop_last(), c)
    }
}

proof fn lemma_with_count_append<T>(a: Seq<(T, i32)>, b: Seq<(T, i32)>, c: i32)
    ensures
        with_count(a + b, c) == with_count(a, c) + with_count(b, c),
    decreases b.len(),
{
    if b.len() == 0 {
        assert(a + b =~= a);
        assert(with_count(a, c) + with_count(b, c) =~= with_count(a, c));
    } else {
        lemma_with_count_append(a, b.drop_last(), c);
        assert((a + b).drop_last() =~= a + b.drop_last());
        assert((a + b).last() == b.last());
        if b.last().1 == c {
            assert(with_count(a, c) + with_count(b.drop_last(), c).push(b.last()) =~= (with_count(a, c)
                + with_count(b.drop_last(), c)).push(b.last()));
        }
    }
}

proof fn lemma_with_count_none<T>(b: Seq<(T, i32)>, c: i32)
    requires
        forall|i: int| 0 <= i < b.len() ==> (#[trigger] b[i]).1 != c,
    ensures
        with_count(b, c) == Seq::<(T, i32)>::empty(),
    decreases b.len(),
{
    if b.len() > 0 {
        lemma_with_count_none(b.drop_last(), c);
        assert(b[b.len() - 1].1 != c);
    }
}

/// Ordering tags by use is stable: tags used equally often keep their
/// order.
pub proof fn law_sort_by_count_stable<T>(s: Seq<(T, i32)>, c: i32)
    ensures
        with_count(sort_by_count(s), c) == with_count(s, c),
    decreases s.len(),
{
    if s.len() > 0 {
        let t = sort_by_count(s.drop_last());
        let x = s.last();
        law_sort_by_count_stable(s.drop_last(), c);
        law_sort_by_count(s.drop_last());
        lemma_count_pos(t, x);
        let p = count_pos(t, x);
        let a = t.take(p);
        let b = t.skip(p);
        assert(t =~= a + b);
        assert(t.insert(p, x) =~= a.push(x) + b);
        lemma_with_count_append(a, b, c);
        lemma_with_count_append(a.push(x), b, c);
        assert(a.push(x).drop_last() =~= a);
        if x.1 == c {
            assert forall|i: int| 0 <= i < b.len() implies (#[trigger] b[i]).1 != c by {
                assert(b[i] == t[p + i]);
                assert(t[p].1 < x.1);
                if i > 0 {
                    assert(t[p].1 >= t[p + i].1);
                }
            }
            lemma_with_count_none(b, c);
            assert(with_count(a, c).push(x) + Seq::<(T, i32)>::empty() =~= with_count(a, c).push(x));
            assert(with_count(a, c) + Seq::<(T, i32)>::empty() =~= with_count(a, c));
        }
    }
}

/// Tags ordered by use.
fn sort_tags<T>(tags: Vec<(T, i32)>) -> (r: Vec<(T, i32)>)
    ensures
        r@ == sort_by_count(tags@),
{
    let ghost orig = tags@;
    let n = tags.len();
    let mut rest = tags;
    let mut out: Vec<(T, i32)> = Vec::new();
    let mut i: usize = 0;
    while rest.len() > 0
        invariant
            i + rest@.len() == orig.len(),
            orig.len() == n,
            rest@ == orig.skip(i as int),
            out@ == sort_by_count(orig.take(i as int)),
        decreases rest@.len(),
    {
        let x = rest.remove(0);
        assert(x == orig[i as int]);
        assert(orig.take(i + 1).drop_last() =~= orig.take(i as int));
        assert(orig.take(i + 1).last() == x);
        let ghost bs = less_used(out@, x.1);
        let mut j: usize = 0;
        let mut pos: usize = out.len();
        let mut found = false;
        while j < out.len() && !found
            invariant
                j <= out@.len(),
                bs == less_used(out@, x.1),
                !found ==> pos == out@.len(),
                !found ==> forall|k: int| 0 <= k < j ==> !bs[k],
                found ==> pos < out@.len() && bs[pos as int] && forall|k: int| 0 <= k < pos ==> !bs[k],
            decreases out@.len() - j + if found { 0int } else { 1int },
        {
            assert(bs[j as int] == (out@[j as int].1 < x.1));
            if out[j].1 < x.1 {
                pos = j;
                found = true;
            } else {
                j = j + 1;
            }
        }
        proof {
            if found {
                crate::text::lemma_find_first_index(bs, pos as int);
            } else {
                crate::text::lemma_find_first_none(bs);
            }
        }
        out.insert(pos, x);
        i = i + 1;
        assert(rest@ =~= orig.skip(i as int));
    }
    assert(orig.take(i as int) =~= orig);
    out
}

// ---------------------------------------------------------------------------
// A gallery as a title
// ---------------------------------------------------------------------------

/// A tag of a gallery: its name, how many galleries use it, and its kind
/// (`tag`, `artist`, `group`, `parody`, `character`, `language`, ...).
pub struct GalleryTag {
    pub name: String,
    pub count: i32,
    pub kind: String,
}

/// The kinds of tags a title shows.
#[derive(Debug, Clone, Copy, PartialEq, Eq, Structural)]
pub enum TagKind {
    Tag,
    Artist,
    Group,
    Parody,
    Character,
}

/// How the site names a kind of tag.
pub open spec fn kind_text(k: TagKind) -> Seq<char> {
    match k {
        TagKind::Tag => "tag"@,
        TagKind::Artist => "artist"@,
        TagKind::Group => "group"@,
        TagKind::Parody => "parody"@,
        TagKind::Character => "character"@,
    }
}

fn kind_str(k: TagKind) -> (r: &'static str)
    ensures
        r@ == kind_text(k),
{
    match k {
        TagKind::Tag => "tag",
        TagKind::Artist => "artist",
        TagKind::Group => "group",
        TagKind::Parody => "parody",
        TagKind::Character => "character",
    }
}

/// A tag is shown among those of kind `k`: it is of that kind, and a parody
/// is not `original` or `various`.
pub open spec fn shown_as(t: GalleryTag, k: TagKind) -> bool {
    t.kind@ == kind_text(k) && (k == TagKind::Parody ==> t.name@ != "original"@ && t.name@ != "various"@)
}

/// The tags of kind `k`, by position, with their counts, in the gallery's
/// order.
pub open spec fn kind_tags(ts: Seq<GalleryTag>, k: TagKind) -> Seq<(usize, i32)>
    decreases ts.len(),
{
    if ts.len() == 0 {
        seq![]
    } else {
        let prev = kind_tags(ts.drop_last(), k);
        if shown_as(ts.last(), k) {
            prev.push(((ts.len() - 1) as usize, ts.last().count))
        } else {
            prev
        }
    }
}

/// The names of the tags of kind `k`, most used first.
pub open spec fn kind_names(ts: Seq<GalleryTag>, k: TagKind) -> Seq<Seq<char>> {
    sort_by_count(kind_tags(ts, k)).map_values(|p: (usize, i32)| ts[p.0 as int].name@)
}

proof fn lemma_kind_tags_below(ts: Seq<GalleryTag>, k: TagKind)
    requires
        ts.len() <= usize::MAX,
    ensures
        forall|i: int| 0 <= i < kind_tags(ts, k).len() ==> (#[trigger] kind_tags(ts, k)[i]).0 < ts.len(),
    decreases ts.len(),
{
    if ts.len() > 0 {
        lemma_kind_tags_below(ts.drop_last(), k);
        let prev = kind_tags(ts.drop_last(), k);
        let cur = kind_tags(ts, k);
        assert(((ts.len() - 1) as usize) as int == ts.len() - 1);
        assert forall|i: int| 0 <= i < cur.len() implies (#[trigger] cur[i]).0 < ts.len() by {
            if i < prev.len() {
                assert(cur[i] == prev[i]);
            }
        }
    }
}

proof fn lemma_sorted_members<T>(s: Seq<(T, i32)>)
    ensures
        forall|i: int| 0 <= i < sort_by_count(s).len() ==> s.contains(#[trigger] sort_by_count(s)[i]),
        sort_by_count(s).len() == s.len(),
    decreases s.len(),
{
    if s.len() > 0 {
        let d = s.drop_last();
        lemma_sorted_members(d);
        let t = sort_by_count(d);
        let x = s.last();
        lemma_count_pos(t, x);
        let p = count_pos(t, x);
        let u = t.insert(p, x);
        assert forall|i: int| 0 <= i < u.len() implies s.contains(#[trigger] u[i]) by {
            if i == p {
                assert(s[s.len() - 1] == x);
            } else {
                let y = if i < p { t[i] } else { t[i - 1] };
                assert(u[i] == y);
                assert(d.contains(y));
                let k = choose|k: int| 0 <= k < d.len() && d[k] == y;
                assert(s[k] == y);
            }
        }
    }
}

/// The names of the tags of one kind, most used first.
pub fn tag_names(tags: &Vec<GalleryTag>, kind: TagKind) -> (r: Vec<String>)
    ensures
        string_views(r@) == kind_names(tags@, kind),
{
    let ghost ts = tags@;
    let n = tags.len();
    let want = kind_str(kind);
    let mut picked: Vec<(usize, i32)> = Vec::new();
    let mut i: usize = 0;
    assert(ts.take(0) =~= Seq::<GalleryTag>::empty());
    while i < tags.len()
        invariant
            ts == tags@,
            i <= ts.len(),
            want@ == kind_text(kind),
            picked@ == kind_tags(ts.take(i as int), kind),
        decreases ts.len() - i,
    {
        assert(ts.take(i + 1).drop_last() =~= ts.take(i as int));
        assert(ts.take(i + 1).last() == ts[i as int]);
        let t = &tags[i];
        let shown = str_eq(t.kind.as_str(), want) && (kind != TagKind::Parody || (!str_eq(t.name.as_str(), "original")
            && !str_eq(t.name.as_str(), "various")));
        if shown {
            picked.push((i, t.count));
        }
        i = i + 1;
    }
    assert(ts.take(ts.len() as int) =~= ts);
    let sorted = sort_tags(picked);
    proof {
        lemma_kind_tags_below(ts, kind);
        lemma_sorted_members(kind_tags(ts, kind));
    }
    let mut names: Vec<String> = Vec::new();
    let mut j: usize = 0;
    while j < sorted.len()
        invariant
            j <= sorted@.len(),
            sorted@ == sort_by_count(kind_tags(ts, kind)),
            ts == tags@,
            forall|k: int| 0 <= k < sorted@.len() ==> (#[trigger] sorted@[k]).0 < ts.len(),
            string_views(names@) == sorted@.take(j as int).map_values(|p: (usize, i32)| ts[p.0 as int].name@),
        decreases sorted@.len() - j,
    {
        let idx = sorted[j].0;
        let name = string_of(&chars_of(tags[idx].name.as_str()));
        let ghost old_names = names@;
        names.push(name);
        assert(string_views(names@) =~= string_views(old_names).push(ts[idx as int].name@));
        assert(sorted@.take(j + 1).map_values(|p: (usize, i32)| ts[p.0 as int].name@) =~= sorted@.take(
            j as int,
        ).map_values(|p: (usize, i32)| ts[p.0 as int].name@).push(ts[idx as int].name@));
        j = j + 1;
    }
    assert(sorted@.take(sorted@.len() as int) =~= sorted@);
    names
}

/// Which of a gallery's titles is shown.
#[derive(Debug, Clone, Copy, PartialEq, Eq, Structural)]
pub enum TitlePreference {
    Japanese,
    English,
}

/// An image's address: a full `http://` or `https://` address as it is, a
/// path below the thumbnail host for covers or the image host for pages.
pub open spec fn image_url_spec(path: Seq<char>, is_cover: bool) -> Seq<char> {
    if starts_with(path, "http://"@) || starts_with(path, "https://"@) {
        path
    } else {
        let host = if is_cover { "https://t.nhentai.net"@ } else { "https://i.nhentai.net"@ };
        if starts_with(path, "/"@) {
            host + path
        } else {
            host + "/"@ + path
        }
    }
}

/// An image's address (`make_image_url`).
pub fn make_image_url(path: &str, is_cover: bool) -> (r: String)
    ensures
        r@ == image_url_spec(path@, is_cover),
{
    let v = chars_of(path);
    if crate::text::has_prefix(&v, &chars_of("http://")) || crate::text::has_prefix(&v, &chars_of("https://")) {
        return string_of(&v);
    }
    let mut a: Vec<char> = Vec::new();
    push_str(&mut a, if is_cover { "https://t.nhentai.net" } else { "https://i.nhentai.net" });
    if !crate::text::has_prefix(&v, &chars_of("/")) {
        push_str(&mut a, "/");
    }
    crate::text::append_chars(&mut a, &v);
    string_of(&a)
}

/// A page's address as the page list makes it: anything starting with
/// `http` as it is, else a path below the image host.
pub open spec fn page_url_spec(path: Seq<char>) -> Seq<char> {
    if starts_with(path, "http"@) {
        path
    } else if starts_with(path, "/"@) {
        "https://i.nhentai.net"@ + path
    } else {
        "https://i.nhentai.net/"@ + path
    }
}

/// A page's address (`get_page_list`).
pub fn page_url(path: &str) -> (r: String)
    ensures
        r@ == page_url_spec(path@),
{
    let v = chars_of(path);
    if crate::text::has_prefix(&v, &chars_of("http")) {
        return string_of(&v);
    }
    let mut a: Vec<char> = Vec::new();
    if crate::text::has_prefix(&v, &chars_of("/")) {
        push_str(&mut a, "https://i.nhentai.net");
    } else {
        push_str(&mut a, "https://i.nhentai.net/");
    }
    crate::text::append_chars(&mut a, &v);
    string_of(&a)
}

/// The title of a search result: the Japanese title where preferred and
/// not empty, else the English; with the English preferred, the English
/// unless empty, else the Japanese, else `#` and the id.
pub open spec fn list_title_spec(pref: TitlePreference, english: Seq<char>, japanese: Option<Seq<char>>, id: i32) -> Seq<char> {
    match pref {
        TitlePreference::Japanese => match japanese {
            Some(j) => if j.len() > 0 { j } else { english },
            None => english,
        },
        TitlePreference::English => if english.len() > 0 {
            english
        } else {
            match japanese {
                Some(j) => j,
                None => "#"@ + int_decimal(id as int),
            }
        },
    }
}

/// The title of a search result.
pub fn list_title(pref: TitlePreference, english: &str, japanese: Option<&str>, id: i32) -> (r: String)
    ensures
        r@ == list_title_spec(pref, english@, opt_str_view(japanese), id),
{
    match pref {
        TitlePreference::Japanese => match japanese {
            Some(j) => if !j.is_empty() { string_of(&chars_of(j)) } else { string_of(&chars_of(english)) },
            None => string_of(&chars_of(english)),
        },
        TitlePreference::English => if !english.is_empty() {
            string_of(&chars_of(english))
        } else {
            match japanese {
                Some(j) => string_of(&chars_of(j)),
                None => {
                    let mut a: Vec<char> = Vec::new();
                    push_str(&mut a, "#");
                    crate::text::append_chars(&mut a, &i64_decimal(id as i64));
                    string_of(&a)
                },
            }
        },
    }
}

/// The title of a gallery: the Japanese title where preferred and not
/// empty, else the English.
pub open spec fn gallery_title_spec(pref: TitlePreference, english: Seq<char>, japanese: Option<Seq<char>>) -> Seq<char> {
    match (pref, japanese) {
        (TitlePreference::Japanese, Some(j)) => if j.len() > 0 { j } else { english },
        _ => english,
    }
}

/// The description of a gallery: its number, its parodies and characters
/// where it has any, its page count and, when anyone favorited it, how
/// many did; one line each.
pub open spec fn description_spec(id: i32, parodies: Seq<Seq<char>>, characters: Seq<Seq<char>>, pages: i32, favorites: i32) -> Seq<char> {
    let parts = seq!["#"@ + int_decimal(id as int)]
        + (if parodies.len() > 0 { seq!["Parodies: "@ + join(parodies, ", "@)] } else { seq![] })
        + (if characters.len() > 0 { seq!["Characters: "@ + join(characters, ", "@)] } else { seq![] })
        + seq!["Pages: "@ + int_decimal(pages as int)]
        + (if favorites > 0 { seq!["Favorited by: "@ + int_decimal(favorites as int)] } else { seq![] });
    join(parts, "  \n"@)
}

fn labelled(label: &str, v: &Vec<char>) -> (r: String)
    ensures
        r@ == label@ + v@,
{
    let mut a: Vec<char> = Vec::new();
    push_str(&mut a, label);
    crate::text::append_chars(&mut a, v);
    string_of(&a)
}

/// The description of a gallery.
pub fn gallery_description(id: i32, parodies: &Vec<String>, characters: &Vec<String>, pages: i32, favorites: i32) -> (r: String)
    ensures
        r@ == description_spec(id, string_views(parodies@), string_views(characters@), pages, favorites),
{
    let mut parts: Vec<String> = Vec::new();
    parts.push(labelled("#", &i64_decimal(id as i64)));
    if parodies.len() > 0 {
        let j = join_strings(parodies, ", ");
        parts.push(labelled("Parodies: ", &chars_of(j.as_str())));
    }
    if characters.len() > 0 {
        let j = join_strings(characters, ", ");
        parts.push(labelled("Characters: ", &chars_of(j.as_str())));
    }
    parts.push(labelled("Pages: ", &i64_decimal(pages as i64)));
    if favorites > 0 {
        parts.push(labelled("Favorited by: ", &i64_decimal(favorites as i64)));
    }
    let r = join_strings(&parts, "  \n");
    assert(string_views(parts@) =~= seq!["#"@ + int_decimal(id as int)]
        + (if parodies@.len() > 0 { seq!["Parodies: "@ + join(string_views(parodies@), ", "@)] } else { seq![] })
        + (if characters@.len() > 0 { seq!["Characters: "@ + join(string_views(characters@), ", "@)] } else { seq![] })
        + seq!["Pages: "@ + int_decimal(pages as int)]
        + (if favorites > 0 { seq!["Favorited by: "@ + int_decimal(favorites as int)] } else { seq![] }));
    r
}

/// A gallery tagged `webtoon` is read as a webtoon, any other right to left.
pub fn gallery_viewer(tags: &Vec<String>) -> (r: Viewer)
    ensures
        r == if string_views(tags@).contains("webtoon"@) { Viewer::Webtoon } else { Viewer::RightToLeft },
{
    let mut i: usize = 0;
    while i < tags.len()
        invariant
            i <= tags@.len(),
            forall|k: int| 0 <= k < i ==> tags@[k]@ != "webtoon"@,
        decreases tags@.len() - i,
    {
        if str_eq(tags[i].as_str(), "webtoon") {
            assert(string_views(tags@)[i as int] == "webtoon"@);
            return Viewer::Webtoon;
        }
        i = i + 1;
    }
    assert forall|k: int| 0 <= k < string_views(tags@).len() implies string_views(tags@)[k] != "webtoon"@ by {
        assert(string_views(tags@)[k] == tags@[k]@);
    }
    Viewer::RightToLeft
}

/// What a gallery reads as, besides its fixed status (completed), rating
/// (NSFW) and never-updated strategy.
pub struct GalleryManga {
    pub key: String,
    pub title: String,
    pub cover: String,
    pub description: String,
    pub authors: Vec<String>,
    pub artists: Vec<String>,
    pub url: String,
    pub tags: Vec<String>,
    pub viewer: Viewer,
    pub status: MangaStatus,
    pub content_rating: ContentRating,
}

/// A gallery as the source reads it.
pub struct Gallery {
    pub id: i32,
    pub english_title: String,
    pub japanese_title: Option<String>,
    pub cover_path: String,
    pub tags: Vec<GalleryTag>,
    pub num_pages: i32,
    pub num_favorites: i32,
}

/// A gallery as a title (`From<NHentaiGallery> for Manga`): its tags
/// grouped by kind, most used first; the groups and then the artists as
/// authors.
pub fn gallery_manga(g: &Gallery, pref: TitlePreference) -> (r: GalleryManga)
    ensures
        r.key@ == int_decimal(g.id as int),
        r.title@ == gallery_title_spec(pref, g.english_title@, opt_view(g.japanese_title)),
        r.cover@ == image_url_spec(g.cover_path@, true),
        r.description@ == description_spec(
            g.id,
            kind_names(g.tags@, TagKind::Parody),
            kind_names(g.tags@, TagKind::Character),
            g.num_pages,
            g.num_favorites,
        ),
        string_views(r.authors@) == kind_names(g.tags@, TagKind::Group) + kind_names(g.tags@, TagKind::Artist),
        string_views(r.artists@) == kind_names(g.tags@, TagKind::Artist),
        r.url@ == "https://nhentai.net/g/"@ + int_decimal(g.id as int),
        string_views(r.tags@) == kind_names(g.tags@, TagKind::Tag),
        r.viewer == if kind_names(g.tags@, TagKind::Tag).contains("webtoon"@) { Viewer::Webtoon } else { Viewer::RightToLeft },
        r.status == MangaStatus::Completed,
        r.content_rating == ContentRating::NSFW,
{
    let tags = tag_names(&g.tags, TagKind::Tag);
    let artists = tag_names(&g.tags, TagKind::Artist);
    let groups = tag_names(&g.tags, TagKind::Group);
    let parodies = tag_names(&g.tags, TagKind::Parody);
    let characters = tag_names(&g.tags, TagKind::Character);
    let description = gallery_description(g.id, &parodies, &characters, g.num_pages, g.num_favorites);
    let title = match (pref, &g.japanese_title) {
        (TitlePreference::Japanese, Some(j)) => if !j.as_str().is_empty() {
            string_of(&chars_of(j.as_str()))
        } else {
            string_of(&chars_of(g.english_title.as_str()))
        },
        _ => string_of(&chars_of(g.english_title.as_str())),
    };
    let viewer = gallery_viewer(&tags);
    let mut authors: Vec<String> = Vec::new();
    let mut i: usize = 0;
    while i < groups.len()
        invariant
            i <= groups@.len(),
            string_views(authors@) == string_views(groups@).take(i as int),
        decreases groups@.len() - i,
    {
        let ghost before = authors@;
        authors.push(string_of(&chars_of(groups[i].as_str())));
        assert(string_views(authors@) =~= string_views(before).push(groups@[i as int]@));
        assert(string_views(groups@).take(i + 1) =~= string_views(groups@).take(i as int).push(groups@[i as int]@));
        i = i + 1;
    }
    assert(string_views(groups@).take(groups@.len() as int) =~= string_views(groups@));
    let mut j: usize = 0;
    while j < artists.len()
        invariant
            j <= artists@.len(),
            string_views(authors@) == string_views(groups@) + string_views(artists@).take(j as int),
        decreases artists@.len() - j,
    {
        let ghost before = authors@;
        authors.push(string_of(&chars_of(artists[j].as_str())));
        assert(string_views(authors@) =~= string_views(before).push(artists@[j as int]@));
        assert(string_views(artists@).take(j + 1) =~= string_views(artists@).take(j as int).push(artists@[j as int]@));
        j = j + 1;
    }
    assert(string_views(artists@).take(artists@.len() as int) =~= string_views(artists@));
    let mut url: Vec<char> = Vec::new();
    push_str(&mut url, "https://nhentai.net/g/");
    crate::text::append_chars(&mut url, &i64_decimal(g.id as i64));
    GalleryManga {
        key: string_of(&i64_decimal(g.id as i64)),
        title,
        cover: make_image_url(g.cover_path.as_str(), true),
        description,
        authors,
        artists,
        url: string_of(&url),
        tags,
        viewer,
        status: MangaStatus::Completed,
        content_rating: ContentRating::NSFW,
    }
}

// ---------------------------------------------------------------------------
// Search, listings, chapters and links
// ---------------------------------------------------------------------------

/// A query that reads as an `i32` names a gallery by id.
pub open spec fn query_id_spec(q: Seq<char>) -> Option<i32> {
    match crate::text::parse_i64_spec(q) {
        Some(v) => if i32::MIN <= v <= i32::MAX { Some(v as i32) } else { None },
        None => None,
    }
}

/// The gallery id a query names (`q.parse::<i32>()`).
pub fn query_id(q: &str) -> (r: Option<i32>)
    ensures
        r == query_id_spec(q@),
{
    match crate::text::parse_i64(&chars_of(q)) {
        Some(v) => if i32::MIN as i64 <= v && v <= i32::MAX as i64 { Some(v as i32) } else { None },
        None => None,
    }
}

/// The sort a sort option asks for; unknown options sort by date.
pub open spec fn sort_spec(index: i32) -> Seq<char> {
    if index == 1 {
        "popular-today"@
    } else if index == 2 {
        "popular-week"@
    } else if index == 3 {
        "popular"@
    } else {
        "date"@
    }
}

fn sort_str(index: i32) -> (r: &'static str)
    ensures
        r@ == sort_spec(index),
{
    if index == 1 {
        "popular-today"
    } else if index == 2 {
        "popular-week"
    } else if index == 3 {
        "popular"
    } else {
        "date"
    }
}

/// The terms of the search's query.
pub open spec fn quoted_tags(prefix: Seq<char>, tags: Seq<Seq<char>>) -> Seq<Seq<char>> {
    tags.map_values(|t: Seq<char>| prefix + "tag:\""@ + t + "\""@)
}

/// How the search stands after some filters: its terms and its sort.
pub open spec fn search_step(st: (Seq<Seq<char>>, Seq<char>), f: FilterValue) -> (Seq<Seq<char>>, Seq<char>) {
    let (terms, sort) = st;
    match f {
        FilterValue::Text { id, value } => if id@ == "author"@ {
            (terms.push(value@), sort)
        } else if id@ == "artist"@ {
            (terms.push("artist:"@ + value@), sort)
        } else if id@ == "groups"@ {
            (terms.push("group:"@ + value@), sort)
        } else {
            st
        },
        FilterValue::Sort { index, .. } => (terms, sort_spec(index)),
        FilterValue::MultiSelect { id, included, excluded } => if id@ == "tags"@ {
            (terms + quoted_tags(Seq::empty(), string_views(included@)) + quoted_tags("-"@, string_views(excluded@)), sort)
        } else {
            st
        },
        FilterValue::Select { id, value } => if id@ == "genre"@ {
            (terms.push("tag:\""@ + value@ + "\""@), sort)
        } else {
            st
        },
        _ => st,
    }
}

/// The search after all filters, from a start.
pub open spec fn search_fold(st: (Seq<Seq<char>>, Seq<char>), fs: Seq<FilterValue>) -> (Seq<Seq<char>>, Seq<char>)
    decreases fs.len(),
{
    if fs.len() == 0 {
        st
    } else {
        search_step(search_fold(st, fs.drop_last()), fs.last())
    }
}

/// The blocked tags that are excluded: each non-empty one as `-tag:"..."`.
pub open spec fn blocked_terms(blocklist: Seq<Seq<char>>) -> Seq<Seq<char>>
    decreases blocklist.len(),
{
    if blocklist.len() == 0 {
        seq![]
    } else {
        blocked_terms(blocklist.drop_last()) + if blocklist.last().len() > 0 {
            seq!["-tag:\""@ + blocklist.last() + "\""@]
        } else {
            seq![]
        }
    }
}

/// The query and sort of a search: the query, the filters' terms, the
/// language setting and the blocklist, joined by spaces (a lone space when
/// there are no terms); sorted by date unless a sort option says otherwise.
pub open spec fn search_spec(
    query: Option<Seq<char>>,
    fs: Seq<FilterValue>,
    language: Option<Seq<char>>,
    blocklist: Seq<Seq<char>>,
) -> (Seq<char>, Seq<char>) {
    let start: Seq<Seq<char>> = match query {
        Some(q) => seq![q],
        None => seq![],
    };
    let (terms, sort) = search_fold((start, "date"@), fs);
    let all = terms + (match language {
        Some(l) => seq!["language:"@ + l],
        None => seq![],
    }) + blocked_terms(blocklist);
    (if all.len() == 0 { " "@ } else { join(all, " "@) }, sort)
}

fn push_term(terms: &mut Vec<String>, a: &str, b: &str, c: &str)
    ensures
        string_views(final(terms)@) == string_views(old(terms)@).push(a@ + b@ + c@),
{
    let mut v: Vec<char> = Vec::new();
    push_str(&mut v, a);
    push_str(&mut v, b);
    push_str(&mut v, c);
    let ghost before = terms@;
    terms.push(string_of(&v));
    assert(string_views(terms@) =~= string_views(before).push(a@ + b@ + c@));
}

fn push_tags(terms: &mut Vec<String>, prefix: &str, tags: &Vec<String>)
    ensures
        string_views(final(terms)@) == string_views(old(terms)@) + quoted_tags(prefix@, string_views(tags@)),
{
    let ghost start = string_views(terms@);
    let mut i: usize = 0;
    while i < tags.len()
        invariant
            i <= tags@.len(),
            string_views(terms@) == start + quoted_tags(prefix@, string_views(tags@).take(i as int)),
        decreases tags@.len() - i,
    {
        let mut p: Vec<char> = Vec::new();
        push_str(&mut p, prefix);
        push_str(&mut p, "tag:\"");
        let ps = string_of(&p);
        push_term(terms, ps.as_str(), tags[i].as_str(), "\"");
        assert(string_views(tags@).take(i + 1) =~= string_views(tags@).take(i as int).push(tags@[i as int]@));
        assert(quoted_tags(prefix@, string_views(tags@).take(i + 1)) =~= quoted_tags(prefix@, string_views(tags@).take(i as int)).push(
            prefix@ + "tag:\""@ + tags@[i as int]@ + "\""@,
        ));
        i = i + 1;
    }
    assert(string_views(tags@).take(tags@.len() as int) =~= string_views(tags@));
}

/// The query text and sort of a search (`get_search_manga_list`);
/// `search_url` writes them into the address. A query that names a gallery by id is asked
/// for directly instead (`query_id`).
pub fn search_query(
    query: Option<&str>,
    filters: &[FilterValue],
    language: Option<&str>,
    blocklist: &Vec<String>,
) -> (r: (String, &'static str))
    ensures
        (r.0@, r.1@) == search_spec(opt_str_view(query), filters@, opt_str_view(language), string_views(blocklist@)),
{
    proof {
        reveal_strlit("");
    }
    let mut terms: Vec<String> = Vec::new();
    if let Some(q) = query {
        terms.push(string_of(&chars_of(q)));
    }
    let ghost start = string_views(terms@);
    assert(start =~= match opt_str_view(query) {
        Some(q) => seq![q],
        None => Seq::<Seq<char>>::empty(),
    });
    let mut sort: &'static str = "date";
    let mut i: usize = 0;
    assert(filters@.take(0) =~= Seq::<FilterValue>::empty());
    while i < filters.len()
        invariant
            i <= filters@.len(),
            (string_views(terms@), sort@) == search_fold((start, "date"@), filters@.take(i as int)),
        decreases filters@.len() - i,
    {
        assert(filters@.take(i + 1).drop_last() =~= filters@.take(i as int));
        assert(filters@.take(i + 1).last() == filters@[i as int]);
        let ghost before = string_views(terms@);
        proof {
            reveal_strlit("");
        }
        match &filters[i] {
            FilterValue::Text { id, value } => {
                if str_eq(id.as_str(), "author") {
                    push_term(&mut terms, "", value.as_str(), "");
                    assert(""@ + value@ + ""@ =~= value@);
                } else if str_eq(id.as_str(), "artist") {
                    push_term(&mut terms, "artist:", value.as_str(), "");
                    assert("artist:"@ + value@ + ""@ =~= "artist:"@ + value@);
                } else if str_eq(id.as_str(), "groups") {
                    push_term(&mut terms, "group:", value.as_str(), "");
                    assert("group:"@ + value@ + ""@ =~= "group:"@ + value@);
                }
            },
            FilterValue::Sort { index, .. } => {
                sort = sort_str(*index);
            },
            FilterValue::MultiSelect { id, included, excluded } => {
                if str_eq(id.as_str(), "tags") {
                    push_tags(&mut terms, "", included);
                    push_tags(&mut terms, "-", excluded);
                    assert(quoted_tags(""@, string_views(included@)) =~= quoted_tags(Seq::empty(), string_views(included@)));
                }
            },
            FilterValue::Select { id, value } => {
                if str_eq(id.as_str(), "genre") {
                    push_term(&mut terms, "tag:\"", value.as_str(), "\"");
                }
            },
            _ => {},
        }
        i = i + 1;
    }
    assert(filters@.take(filters@.len() as int) =~= filters@);
    let ghost after_filters = string_views(terms@);
    if let Some(l) = language {
        push_term(&mut terms, "language:", l, "");
        assert("language:"@ + l@ + ""@ =~= "language:"@ + l@);
    }
    let ghost mid = string_views(terms@);
    let mut b: usize = 0;
    assert(string_views(blocklist@).take(0) =~= Seq::<Seq<char>>::empty());
    while b < blocklist.len()
        invariant
            b <= blocklist@.len(),
            string_views(terms@) == mid + blocked_terms(string_views(blocklist@).take(b as int)),
        decreases blocklist@.len() - b,
    {
        assert(string_views(blocklist@).take(b + 1).drop_last() =~= string_views(blocklist@).take(b as int));
        assert(string_views(blocklist@).take(b + 1).last() == blocklist@[b as int]@);
        let ghost before = string_views(terms@);
        if !blocklist[b].as_str().is_empty() {
            push_term(&mut terms, "-tag:\"", blocklist[b].as_str(), "\"");
        } else {
            assert(string_views(terms@) =~= before + Seq::<Seq<char>>::empty());
        }
        b = b + 1;
    }
    assert(string_views(blocklist@).take(blocklist@.len() as int) =~= string_views(blocklist@));
    let combined = if terms.len() == 0 {
        string_of(&chars_of(" "))
    } else {
        join_strings(&terms, " ")
    };
    assert(string_views(terms@) =~= after_filters + (match opt_str_view(language) {
        Some(l) => seq!["language:"@ + l],
        None => Seq::<Seq<char>>::empty(),
    }) + blocked_terms(string_views(blocklist@)));
    (combined, sort)
}

/// A search has a next page when its page is before the last.
pub fn has_next_page(page: i32, num_pages: i32) -> (r: bool)
    ensures
        r == (page < num_pages),
{
    page < num_pages
}

/// The sort option a listing stands for: latest, popular today, this week,
/// of all time; other listings are not offered.
pub fn listing_sort(id: &str) -> (r: Option<i32>)
    ensures
        r == if id@ == "popular-today"@ {
            Some(1i32)
        } else if id@ == "popular-week"@ {
            Some(2i32)
        } else if id@ == "popular"@ {
            Some(3i32)
        } else if id@ == "latest"@ {
            Some(0i32)
        } else {
            None::<i32>
        },
{
    if str_eq(id, "popular-today") {
        Some(1)
    } else if str_eq(id, "popular-week") {
        Some(2)
    } else if str_eq(id, "popular") {
        Some(3)
    } else if str_eq(id, "latest") {
        Some(0)
    } else {
        None
    }
}

/// The languages a gallery's chapter credits: its `language` tags other
/// than `translated` and `rewrite`, joined by commas; none without any.
pub open spec fn language_names(ts: Seq<GalleryTag>) -> Seq<Seq<char>>
    decreases ts.len(),
{
    if ts.len() == 0 {
        seq![]
    } else {
        let t = ts.last();
        language_names(ts.drop_last()) + if t.kind@ == "language"@ && t.name@ != "translated"@ && t.name@ != "rewrite"@ {
            seq![t.name@]
        } else {
            seq![]
        }
    }
}

/// The credit of a gallery's single chapter.
pub fn chapter_scanlator(tags: &Vec<GalleryTag>) -> (r: Option<String>)
    ensures
        opt_view(r) == if language_names(tags@).len() > 0 {
            Some(join(language_names(tags@), ", "@))
        } else {
            None
        },
{
    let ghost ts = tags@;
    let mut names: Vec<String> = Vec::new();
    let mut i: usize = 0;
    assert(ts.take(0) =~= Seq::<GalleryTag>::empty());
    while i < tags.len()
        invariant
            ts == tags@,
            i <= ts.len(),
            string_views(names@) == language_names(ts.take(i as int)),
        decreases ts.len() - i,
    {
        assert(ts.take(i + 1).drop_last() =~= ts.take(i as int));
        assert(ts.take(i + 1).last() == ts[i as int]);
        let t = &tags[i];
        let ghost before = names@;
        if str_eq(t.kind.as_str(), "language") && !str_eq(t.name.as_str(), "translated") && !str_eq(t.name.as_str(), "rewrite") {
            names.push(string_of(&chars_of(t.name.as_str())));
            assert(string_views(names@) =~= string_views(before) + seq![t.name@]);
        } else {
            assert(string_views(names@) =~= string_views(before) + Seq::<Seq<char>>::empty());
        }
        i = i + 1;
    }
    assert(ts.take(ts.len() as int) =~= ts);
    if names.len() > 0 {
        Some(join_strings(&names, ", "))
    } else {
        None
    }
}

/// The gallery a link to the site opens: the segment after its first
/// `/g/`, up to the next `/`.
pub open spec fn deep_link_spec(url: Seq<char>) -> Option<Seq<char>> {
    if !starts_with(url, BASE_URL@) {
        None
    } else {
        let i = crate::text::find(url, "/g/"@);
        if i < 0 {
            None
        } else {
            Some(crate::text::before_char(url.skip(i + 3), '/'))
        }
    }
}

/// The gallery a link to the site opens, if any.
pub fn handle_deep_link(url: &str) -> (r: Option<String>)
    ensures
        opt_view(r) == deep_link_spec(url@),
{
    let v = chars_of(url);
    if !crate::text::has_prefix(&v, &chars_of(BASE_URL)) {
        return None;
    }
    let g = chars_of("/g/");
    proof {
        reveal_strlit("/g/");
    }
    match crate::text::find_chars(&v, &g) {
        Some(i) => {
            let n = v.len();
            let rest = crate::text::slice_chars(&v, i + 3, n);
            assert(rest@ =~= url@.skip(i + 3));
            Some(string_of(&crate::text::before_char_chars(&rest, '/')))
        },
        None => None,
    }
}

/// Where a gallery is read from the API.
pub fn gallery_api_url(key: &str) -> (r: String)
    ensures
        r@ == API_URL@ + "/galleries/"@ + key@,
{
    let mut a: Vec<char> = Vec::new();
    push_str(&mut a, API_URL);
    push_str(&mut a, "/galleries/");
    push_str(&mut a, key);
    string_of(&a)
}

/// The address of a search page: the query text of `search_query`,
/// percent-encoded as a URI component, the page and the sort.
pub fn search_url(
    query: Option<&str>,
    filters: &[FilterValue],
    language: Option<&str>,
    blocklist: &Vec<String>,
    page: i32,
) -> (r: String)
    ensures
        r@ == API_URL@ + "/search?query="@ + encode_component_spec(search_spec(opt_str_view(query), filters@, opt_str_view(language), string_views(blocklist@)).0)
            + "&page="@ + int_decimal(page as int) + "&sort="@ + search_spec(opt_str_view(query), filters@, opt_str_view(language), string_views(blocklist@)).1,
{
    let (q, sort) = search_query(query, filters, language, blocklist);
    let mut a: Vec<char> = Vec::new();
    push_str(&mut a, API_URL);
    push_str(&mut a, "/search?query=");
    let e = encode_uri_component(q.as_str());
    push_str(&mut a, e.as_str());
    push_str(&mut a, "&page=");
    let d = i64_decimal(page as i64);
    crate::text::append_chars(&mut a, &d);
    push_str(&mut a, "&sort=");
    push_str(&mut a, sort);
    string_of(&a)
}

/// Where a gallery's pages are read from the API.
pub fn pages_api_url(key: &str) -> (r: String)
    ensures
        r@ == API_URL@ + "/galleries/"@ + key@ + "/pages"@,
{
    let mut a: Vec<char> = Vec::new();
    push_str(&mut a, API_URL);
    push_str(&mut a, "/galleries/");
    push_str(&mut a, key);
    push_str(&mut a, "/pages");
    string_of(&a)
}

/// The address of a gallery on the site, which its single chapter links.
pub fn chapter_url(key: &str) -> (r: String)
    ensures
        r@ == BASE_URL@ + "/g/"@ + key@,
{
    let mut a: Vec<char> = Vec::new();
    push_str(&mut a, BASE_URL);
    push_str(&mut a, "/g/");
    push_str(&mut a, key);
    string_of(&a)
}

} // verus!

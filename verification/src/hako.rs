//! Hako: ids from addresses, covers from styles, search queries, and the
//! clean-up of a chapter's text (hidden nodes, note links, comments).
use vstd::prelude::*;

use crate::model::FilterValue;
use crate::text::{
    pairs_view, push_pair,
    all_ascii_digits, all_digits, append_chars, chars_eq, chars_of, contains_seq, find, find_chars,
    lemma_find_from_spec, push_str, slice_chars, split_two, split_two_chars, starts_with,
    string_of, string_views, trim_start_seq, trim_start_seq_chars,
};

verus! {

// ---------------------------------------------------------------------------
// Ids and covers
// ---------------------------------------------------------------------------

/// The text after the first occurrence of `p`, or empty when `p` does not
/// occur (`split_once(p).map(|(_, rest)| rest).unwrap_or_default()`).
pub open spec fn after_first(s: Seq<char>, p: Seq<char>) -> Seq<char> {
    let k = find(s, p);
    if k < 0 {
        Seq::empty()
    } else {
        s.skip(k + p.len())
    }
}

fn after_first_chars(v: &[char], p: &[char]) -> (r: Vec<char>)
    ensures
        r@ == after_first(v@, p@),
{
    match find_chars(v, p) {
        None => Vec::new(),
        Some(k) => {
            let n = v.len();
            let m = p.len();
            assert(k + m <= n);
            let r = slice_chars(v, k + m, n);
            assert(r@ =~= v@.skip(k + m));
            r
        },
    }
}

/// The id of a title: the path of its address after the host, without
/// leading `/`.
pub open spec fn manga_id_spec(url: Seq<char>) -> Seq<char> {
    trim_start_seq(after_first(after_first(url, "//"@), "/"@), "/"@)
}

/// The id of a title from its address (`manga_parse_id`).
pub fn manga_parse_id(url: &str) -> (r: String)
    ensures
        r@ == manga_id_spec(url@),
{
    let a = after_first_chars(&chars_of(url), &chars_of("//"));
    let b = after_first_chars(&a, &chars_of("/"));
    string_of(&trim_start_seq_chars(&b, &chars_of("/")))
}

/// The id of a chapter: the last piece of its address split at `/`, after
/// leading `/`s are dropped.
pub open spec fn chapter_id_spec(url: Seq<char>) -> Seq<char> {
    split_two(trim_start_seq(url, "/"@), '/', '/').last()
}

/// The id of a chapter from its address (`chapter_parse_id`).
pub fn chapter_parse_id(url: &str) -> (r: String)
    ensures
        r@ == chapter_id_spec(url@),
{
    let t = trim_start_seq_chars(&chars_of(url), &chars_of("/"));
    let parts = split_two_chars(&t, '/', '/');
    proof {
        crate::text::lemma_split_two_len(t@, '/', '/');
    }
    let n = parts.len();
    assert(parts@.map_values(|p: Vec<char>| p@)[n - 1] == parts@[n - 1]@);
    string_of(&parts[n - 1])
}

/// The address inside a `background-image: url('...')` style: from after
/// `url('` (or the start) to the next `')` (or the end).
pub open spec fn cover_spec(style: Seq<char>) -> Seq<char> {
    let k = find(style, "url('"@);
    let start = if k < 0 { 0 } else { k + 5 };
    let rest = style.skip(start);
    let e = find(rest, "')"@);
    if e < 0 {
        rest
    } else {
        rest.take(e)
    }
}

/// The address inside a cover's style (`manga_details_cover_transformer`).
pub fn cover_from_style(style: &str) -> (r: String)
    ensures
        r@ == cover_spec(style@),
{
    let v = chars_of(style);
    let marker = chars_of("url('");
    proof {
        reveal_strlit("url('");
    }
    let n = v.len();
    let start: usize = match find_chars(&v, &marker) {
        None => 0,
        Some(k) => k + 5,
    };
    let rest = slice_chars(&v, start, n);
    assert(rest@ =~= style@.skip(start as int));
    match find_chars(&rest, &chars_of("')")) {
        None => string_of(&rest),
        Some(e) => {
            let t = slice_chars(&rest, 0, e);
            assert(t@ =~= rest@.take(e as int));
            string_of(&t)
        },
    }
}

// ---------------------------------------------------------------------------
// Search
// ---------------------------------------------------------------------------

/// A search: the plain search page with the query, or the advanced search
/// with included and excluded genres and further parameters, which
/// `text::query_string` writes percent-encoded.
pub struct SearchPlan {
    pub advanced: bool,
    pub params: Vec<(String, String)>,
    pub included: Vec<String>,
    pub excluded: Vec<String>,
}


/// The parameters and genre lists after the filters: text and select filters
/// add their value under their id, a sort its index; multi-selects add to
/// the genre lists.
pub open spec fn search_fold(fs: Seq<FilterValue>) -> (Seq<(Seq<char>, Seq<char>)>, Seq<Seq<char>>, Seq<Seq<char>>)
    decreases fs.len(),
{
    if fs.len() == 0 {
        (Seq::empty(), Seq::empty(), Seq::empty())
    } else {
        let (ps, inc, exc) = search_fold(fs.drop_last());
        match fs.last() {
            FilterValue::Text { id, value } => (ps.push((id@, value@)), inc, exc),
            FilterValue::Select { id, value } => (ps.push((id@, value@)), inc, exc),
            FilterValue::Sort { id, index, ascending } => (ps.push((id@, crate::text::int_decimal(index as int))), inc, exc),
            FilterValue::MultiSelect { id, included, excluded } => (ps, inc + string_views(included@), exc + string_views(excluded@)),
            _ => (ps, inc, exc),
        }
    }
}

/// The search parameters of a query and page: the query (empty when none) as
/// `query`, `keywords` and `title`, then the page.
pub open spec fn base_params(query: Seq<char>, page: i32) -> Seq<(Seq<char>, Seq<char>)> {
    seq![("query"@, query), ("keywords"@, query), ("title"@, query), ("page"@, crate::text::int_decimal(page as int))]
}


fn extend_strings(out: &mut Vec<String>, more: &Vec<String>)
    ensures
        string_views(final(out)@) == string_views(old(out)@) + string_views(more@),
{
    let ghost start = string_views(out@);
    let mut i: usize = 0;
    while i < more.len()
        invariant
            i <= more@.len(),
            string_views(out@) == start + string_views(more@).take(i as int),
        decreases more@.len() - i,
    {
        let ghost before = out@;
        out.push(more[i].clone());
        assert(string_views(out@) =~= string_views(before).push(more@[i as int]@));
        assert(string_views(more@).take(i + 1) =~= string_views(more@).take(i as int).push(more@[i as int]@));
        i = i + 1;
    }
    assert(string_views(more@).take(more@.len() as int) =~= string_views(more@));
}

/// The search that a query, page and filters make (`get_search_url`): with
/// no filter, the plain search; else the advanced one.
pub fn search_plan(query: Option<&str>, page: i32, filters: &[FilterValue]) -> (r: SearchPlan)
    ensures
        r.advanced == (filters@.len() > 0),
        pairs_view(r.params@) == base_params(
            match query {
                Some(q) => q@,
                None => Seq::empty(),
            },
            page,
        ) + search_fold(filters@).0,
        string_views(r.included@) == search_fold(filters@).1,
        string_views(r.excluded@) == search_fold(filters@).2,
{
    let q = match query {
        Some(q) => string_of(&chars_of(q)),
        None => String::new(),
    };
    let mut params: Vec<(String, String)> = Vec::new();
    push_pair(&mut params, "query", q.as_str());
    push_pair(&mut params, "keywords", q.as_str());
    push_pair(&mut params, "title", q.as_str());
    let p = string_of(&crate::text::i64_decimal(page as i64));
    push_pair(&mut params, "page", p.as_str());
    let ghost base = pairs_view(params@);
    let mut included: Vec<String> = Vec::new();
    let mut excluded: Vec<String> = Vec::new();
    let mut i: usize = 0;
    assert(filters@.take(0) =~= Seq::<FilterValue>::empty());
    assert(base + Seq::<(Seq<char>, Seq<char>)>::empty() =~= base);
    while i < filters.len()
        invariant
            i <= filters@.len(),
            pairs_view(params@) == base + search_fold(filters@.take(i as int)).0,
            string_views(included@) == search_fold(filters@.take(i as int)).1,
            string_views(excluded@) == search_fold(filters@.take(i as int)).2,
        decreases filters@.len() - i,
    {
        assert(filters@.take(i + 1).drop_last() =~= filters@.take(i as int));
        assert(filters@.take(i + 1).last() == filters@[i as int]);
        let ghost prev = search_fold(filters@.take(i as int)).0;
        match &filters[i] {
            FilterValue::Text { id, value } => {
                push_pair(&mut params, id.as_str(), value.as_str());
                assert(base + prev.push((id@, value@)) =~= (base + prev).push((id@, value@)));
            },
            FilterValue::Select { id, value } => {
                push_pair(&mut params, id.as_str(), value.as_str());
                assert(base + prev.push((id@, value@)) =~= (base + prev).push((id@, value@)));
            },
            FilterValue::Sort { id, index, ascending } => {
                let v = string_of(&crate::text::i64_decimal(*index as i64));
                push_pair(&mut params, id.as_str(), v.as_str());
                assert(base + prev.push((id@, v@)) =~= (base + prev).push((id@, v@)));
            },
            FilterValue::MultiSelect { id, included: inc, excluded: exc } => {
                extend_strings(&mut included, inc);
                extend_strings(&mut excluded, exc);
            },
            _ => {},
        }
        i = i + 1;
    }
    assert(filters@.take(filters@.len() as int) =~= filters@);
    SearchPlan { advanced: filters.len() > 0, params, included, excluded }
}

// ---------------------------------------------------------------------------
// Chapter text
// ---------------------------------------------------------------------------

/// A style hides its node: it has `display:` and, from there on, `none`.
pub open spec fn hides_spec(style: Seq<char>) -> bool {
    let k = find(style, "display:"@);
    k >= 0 && contains_seq(style.skip(k), "none"@)
}

/// A style hides its node.
pub fn hides(style: &str) -> (r: bool)
    ensures
        r == hides_spec(style@),
{
    let v = chars_of(style);
    match find_chars(&v, &chars_of("display:")) {
        None => false,
        Some(k) => {
            let n = v.len();
            let rest = slice_chars(&v, k, n);
            assert(rest@ =~= style@.skip(k as int));
            find_chars(&rest, &chars_of("none")).is_some()
        },
    }
}

/// A note marker's text: `note` followed by at least one ASCII digit.
pub open spec fn is_note(inner: Seq<char>) -> bool {
    inner.len() > 4 && starts_with(inner, "note"@) && all_ascii_digits(inner.skip(4))
}

/// The link that replaces a note marker.
pub open spec fn note_anchor(id: Seq<char>) -> Seq<char> {
    "<a id=\"anchor-"@ + id + "\" href=\"#"@ + id + "\" class=\"note-link\">**</a>"@
}

/// The text with each bracketed note marker `[noteN]` whose id is among the
/// notes replaced by a link to the note; other bracketed text is kept.
pub open spec fn link_notes_spec(s: Seq<char>, ids: Seq<Seq<char>>) -> Seq<char>
    decreases s.len(),
{
    let a = find(s, seq!['[']);
    if a < 0 {
        s
    } else {
        let rest = s.skip(a + 1);
        let b = find(rest, seq![']']);
        if b < 0 {
            s
        } else {
            proof {
                lemma_find_from_spec(s, seq!['['], 0);
                lemma_find_from_spec(rest, seq![']'], 0);
            }
            let inner = rest.take(b);
            (if is_note(inner) && ids.contains(inner) {
                s.take(a) + note_anchor(inner)
            } else {
                s.take(a + b + 2)
            }) + link_notes_spec(s.skip(a + b + 2), ids)
        }
    }
}

fn is_note_chars(inner: &[char]) -> (r: bool)
    ensures
        r == is_note(inner@),
{
    let note = chars_of("note");
    proof {
        reveal_strlit("note");
    }
    if inner.len() > 4 && crate::text::has_prefix(inner, &note) {
        let n = inner.len();
        let digits = slice_chars(inner, 4, n);
        assert(digits@ =~= inner@.skip(4));
        all_digits(&digits)
    } else {
        false
    }
}

fn contains_id(ids: &Vec<String>, inner: &[char]) -> (r: bool)
    ensures
        r == string_views(ids@).contains(inner@),
{
    let ghost vs = string_views(ids@);
    let mut i: usize = 0;
    while i < ids.len()
        invariant
            i <= ids@.len(),
            vs == string_views(ids@),
            forall|k: int| 0 <= k < i ==> vs[k] != inner@,
        decreases ids@.len() - i,
    {
        if chars_eq(&chars_of(ids[i].as_str()), inner) {
            assert(vs[i as int] == inner@);
            return true;
        }
        i = i + 1;
    }
    false
}

/// The text with its note markers turned into links to the notes whose ids
/// are given (the note rewriting of `get_page_list`).
pub fn link_notes(text: &str, ids: &Vec<String>) -> (r: String)
    ensures
        r@ == link_notes_spec(text@, string_views(ids@)),
{
    let mut out: Vec<char> = Vec::new();
    let mut rest = chars_of(text);
    let mut open: Vec<char> = Vec::new();
    open.push('[');
    assert(open@ =~= seq!['[']);
    let mut close: Vec<char> = Vec::new();
    close.push(']');
    assert(close@ =~= seq![']']);
    let mut done = false;
    while !done
        invariant
            open@ == seq!['['],
            close@ == seq![']'],
            out@ + link_notes_spec(rest@, string_views(ids@)) == link_notes_spec(text@, string_views(ids@)),
            done ==> link_notes_spec(rest@, string_views(ids@)) == rest@,
        decreases rest@.len() + if done { 0int } else { 1int },
    {
        let n = rest.len();
        match find_chars(&rest, &open) {
            None => {
                done = true;
            },
            Some(a) => {
                let after = slice_chars(&rest, a + 1, n);
                assert(after@ =~= rest@.skip(a + 1));
                match find_chars(&after, &close) {
                    None => {
                        done = true;
                    },
                    Some(b) => {
                        let inner = slice_chars(&after, 0, b);
                        assert(inner@ =~= after@.take(b as int));
                        let ghost old_out = out@;
                        if is_note_chars(&inner) && contains_id(ids, &inner) {
                            let head = slice_chars(&rest, 0, a);
                            assert(head@ =~= rest@.take(a as int));
                            append_chars(&mut out, &head);
                            push_str(&mut out, "<a id=\"anchor-");
                            append_chars(&mut out, &inner);
                            push_str(&mut out, "\" href=\"#");
                            append_chars(&mut out, &inner);
                            push_str(&mut out, "\" class=\"note-link\">**</a>");
                            assert(out@ =~= old_out + (rest@.take(a as int) + note_anchor(inner@)));
                        } else {
                            let head = slice_chars(&rest, 0, a + b + 2);
                            assert(head@ =~= rest@.take(a + b + 2));
                            append_chars(&mut out, &head);
                        }
                        let tail = slice_chars(&rest, a + b + 2, n);
                        assert(tail@ =~= rest@.skip(a + b + 2));
                        rest = tail;
                    },
                }
            },
        }
    }
    append_chars(&mut out, &rest);
    string_of(&out)
}

/// The text without its HTML comments: each first `<!--` up to the next
/// `-->` after it is removed, until a comment has no end.
pub open spec fn strip_comments_spec(s: Seq<char>) -> Seq<char>
    decreases s.len(),
{
    let a = find(s, "<!--"@);
    if a < 0 {
        s
    } else {
        let e = find(s.skip(a), "-->"@);
        if e < 0 {
            s
        } else {
            proof {
                lemma_find_from_spec(s, "<!--"@, 0);
                lemma_find_from_spec(s.skip(a), "-->"@, 0);
                reveal_strlit("-->");
            }
            strip_comments_spec(s.take(a) + s.skip(a + e + 3))
        }
    }
}

/// The text without its HTML comments (`get_page_list`).
pub fn strip_comments(text: &str) -> (r: String)
    ensures
        r@ == strip_comments_spec(text@),
{
    let mut cur = chars_of(text);
    let start_marker = chars_of("<!--");
    let end_marker = chars_of("-->");
    proof {
        reveal_strlit("-->");
    }
    let mut done = false;
    while !done
        invariant
            start_marker@ == "<!--"@,
            end_marker@ == "-->"@,
            end_marker@.len() == 3,
            strip_comments_spec(cur@) == strip_comments_spec(text@),
            done ==> strip_comments_spec(cur@) == cur@,
        decreases cur@.len() + if done { 0int } else { 1int },
    {
        let n = cur.len();
        match find_chars(&cur, &start_marker) {
            None => {
                done = true;
            },
            Some(a) => {
                let after = slice_chars(&cur, a, n);
                assert(after@ =~= cur@.skip(a as int));
                match find_chars(&after, &end_marker) {
                    None => {
                        done = true;
                    },
                    Some(e) => {
                        let mut next = slice_chars(&cur, 0, a);
                        let tail = slice_chars(&cur, a + e + 3, n);
                        assert(next@ =~= cur@.take(a as int));
                        assert(tail@ =~= cur@.skip(a + e + 3));
                        append_chars(&mut next, &tail);
                        cur = next;
                    },
                }
            },
        }
    }
    string_of(&cur)
}

/// `s` without leading `:`, `-` and spaces.
pub open spec fn trim_separators_start(s: Seq<char>) -> Seq<char>
    decreases s.len(),
{
    if s.len() > 0 && (s[0] == ':' || s[0] == '-' || s[0] == ' ') {
        trim_separators_start(s.drop_first())
    } else {
        s
    }
}

fn trim_separators_start_chars(v: &[char]) -> (r: Vec<char>)
    ensures
        r@ == trim_separators_start(v@),
{
    let mut i: usize = 0;
    assert(v@.skip(0) =~= v@);
    while i < v.len() && (v[i] == ':' || v[i] == '-' || v[i] == ' ')
        invariant
            i <= v@.len(),
            trim_separators_start(v@) == trim_separators_start(v@.skip(i as int)),
        decreases v@.len() - i,
    {
        assert(v@.skip(i as int).drop_first() =~= v@.skip(i + 1));
        i = i + 1;
    }
    let r = slice_chars(v, i, v.len());
    assert(r@ =~= v@.skip(i as int));
    r
}

/// The title left of a volume's or chapter's heading: what follows the
/// first occurrence of its number's text, without leading separators and
/// trimmed; without the number, the heading without the series title,
/// trimmed.
pub open spec fn heading_title_spec(heading: Seq<char>, number: Seq<char>, series: Seq<char>) -> Seq<char> {
    let k = find(heading, number);
    if k >= 0 {
        crate::text::trim(trim_separators_start(heading.skip(k + number.len())))
    } else {
        crate::text::trim(crate::text::replace_all(heading, series, Seq::empty()))
    }
}

/// The title left of a volume's or chapter's heading, given the text of its
/// number as the app writes it and the series title (`get_chapter_list`).
pub fn heading_title(heading: &str, number: &str, series: &str) -> (r: String)
    ensures
        r@ == heading_title_spec(heading@, number@, series@),
{
    let h = chars_of(heading);
    let n = chars_of(number);
    match find_chars(&h, &n) {
        Some(k) => {
            let len = h.len();
            let rest = slice_chars(&h, k + n.len(), len);
            assert(rest@ =~= h@.skip(k + n@.len()));
            string_of(&crate::text::trim_chars(&trim_separators_start_chars(&rest)))
        },
        None => {
            let t = chars_of(series);
            if t.len() == 0 {
                assert(crate::text::replace_all(h@, t@, Seq::empty()) == h@);
                string_of(&crate::text::trim_chars(&h))
            } else {
                let e: Vec<char> = Vec::new();
                assert(e@ =~= Seq::<char>::empty());
                string_of(&crate::text::trim_chars(&crate::text::replace_all_chars(&h, &t, &e)))
            }
        },
    }
}

/// The title of a chapter: its own title, then ` - ` and the volume's title
/// when that is not empty.
pub fn chapter_title(own_title: &str, volume_title: &str) -> (r: String)
    ensures
        r@ == own_title@ + (if volume_title@.len() == 0 { Seq::empty() } else { " - "@ }) + volume_title@,
{
    let mut a: Vec<char> = Vec::new();
    push_str(&mut a, own_title);
    if !volume_title.is_empty() {
        push_str(&mut a, " - ");
    } else {
        assert(a@ + Seq::<char>::empty() =~= a@);
    }
    push_str(&mut a, volume_title);
    string_of(&a)
}

/// The text with every occurrence of a node's markup removed; an empty
/// markup removes nothing.
pub open spec fn remove_fragment_spec(content: Seq<char>, fragment: Seq<char>) -> Seq<char> {
    if fragment.len() == 0 {
        content
    } else {
        crate::text::replace_all(content, fragment, Seq::empty())
    }
}

/// The chapter text without a node's markup (`remove_node`).
pub fn remove_fragment(content: &str, fragment: &str) -> (r: String)
    ensures
        r@ == remove_fragment_spec(content@, fragment@),
{
    if fragment.is_empty() {
        string_of(&chars_of(content))
    } else {
        let e: Vec<char> = Vec::new();
        string_of(&crate::text::replace_all_chars(&chars_of(content), &chars_of(fragment), &e))
    }
}

/// The text of the chapter page: the cleaned markup, marked as HTML.
pub fn page_text(content: &str) -> (r: String)
    ensures
        r@ == "<!--html-->"@ + content@,
{
    let mut a: Vec<char> = Vec::new();
    push_str(&mut a, "<!--html-->");
    push_str(&mut a, content);
    string_of(&a)
}

/// A volume is a one-shot when its title says so, in any case.
pub fn is_one_shot(volume_title: &str) -> (r: bool)
    ensures
        r == contains_seq(crate::text::lowercase(volume_title@), "one shot"@),
{
    let l = crate::text::to_lowercase(volume_title);
    find_chars(&chars_of(l.as_str()), &chars_of("one shot")).is_some()
}

/// `s` without its leading `:`, `-` and spaces.
pub open spec fn trim_separators(s: Seq<char>) -> Seq<char>
    decreases s.len(),
{
    if s.len() > 0 && (s[0] == ':' || s[0] == '-' || s[0] == ' ') {
        trim_separators(s.drop_first())
    } else {
        s
    }
}

/// The part of a chapter's or volume's name that becomes its title: what
/// follows its number (as the number reads) without leading separators;
/// without the number in the text, the text without the series title;
/// trimmed either way.
pub open spec fn part_title_spec(text: Seq<char>, number: Seq<char>, series: Seq<char>) -> Seq<char> {
    let i = find(text, number);
    if i >= 0 {
        crate::text::trim(trim_separators(text.skip(i + number.len())))
    } else {
        crate::text::trim(remove_fragment_spec(text, series))
    }
}

/// The title part of a chapter's or volume's name; `number` is its number
/// as text.
pub fn part_title(text: &str, number: &str, series: &str) -> (r: String)
    ensures
        r@ == part_title_spec(text@, number@, series@),
{
    let v = chars_of(text);
    let nv = chars_of(number);
    match find_chars(&v, &nv) {
        Some(i) => {
            let n = v.len();
            let mut j: usize = i + nv.len();
            assert(v@.skip(i + nv@.len()) =~= v@.skip(j as int));
            while j < n && (v[j] == ':' || v[j] == '-' || v[j] == ' ')
                invariant
                    j <= n,
                    n == v@.len(),
                    trim_separators(v@.skip(i + nv@.len())) == trim_separators(v@.skip(j as int)),
                decreases n - j,
            {
                assert(v@.skip(j as int).drop_first() =~= v@.skip(j + 1));
                j = j + 1;
            }
            let rest = slice_chars(&v, j, n);
            assert(rest@ =~= v@.skip(j as int));
            string_of(&crate::text::trim_chars(&rest))
        },
        None => {
            let removed = remove_fragment(text, series);
            string_of(&crate::text::trim_chars(&chars_of(removed.as_str())))
        },
    }
}

} // verus!

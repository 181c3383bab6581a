//! Manhuagui: ids and covers from links, status, reading direction and
//! rating from the detail page, chapter ids and titles, and the chapter
//! number's text.
use vstd::prelude::*;

use crate::model::{ContentRating, MangaStatus, Viewer};
use crate::primitives::{first_or_second, first_or_second_group};
use crate::text::{
    after_last_char, after_last_char_chars, chars_of, encode_uri, encode_uri_spec, contains_seq, find_chars, opt_view, push_str,
    replace_all, replace_all_chars, replace_char, replace_char_chars, string_of,
};

verus! {

/// Where covers are served.
pub const COVER_URL: &'static str = "https://cf.hamreus.com/cpic/b/";

/// The id of a title from its link: without `/comic/` and without `/`.
pub open spec fn manga_id_spec(href: Seq<char>) -> Seq<char> {
    replace_char(replace_all(href, "/comic/"@, Seq::empty()), '/', ""@)
}

/// The id of a title from its link.
pub fn manga_id(href: &str) -> (r: String)
    ensures
        r@ == manga_id_spec(href@),
{
    let p = chars_of("/comic/");
    proof {
        reveal_strlit("/comic/");
        reveal_strlit("");
    }
    let none: Vec<char> = Vec::new();
    let a = replace_all_chars(&chars_of(href), &p, &none);
    string_of(&replace_char_chars(&a, '/', ""))
}

/// The cover of a title.
pub fn cover_url(id: &str) -> (r: String)
    ensures
        r@ == COVER_URL@ + id@ + ".jpg"@,
{
    let mut a: Vec<char> = Vec::new();
    push_str(&mut a, COVER_URL);
    push_str(&mut a, id);
    push_str(&mut a, ".jpg");
    string_of(&a)
}

/// The status the status text gives: finished when it says so, else
/// ongoing.
pub fn status_from_text(text: &str) -> (r: MangaStatus)
    ensures
        r == (if contains_seq(text@, "已完结"@) || contains_seq(text@, "已完結"@) {
            MangaStatus::Completed
        } else {
            MangaStatus::Ongoing
        }),
{
    let v = chars_of(text);
    if find_chars(&v, &chars_of("已完结")).is_some() || find_chars(&v, &chars_of("已完結")).is_some() {
        MangaStatus::Completed
    } else {
        MangaStatus::Ongoing
    }
}

/// The reading direction the country gives: Chinese and Korean comics
/// scroll, Japanese ones read right to left, others left to right.
pub fn viewer_from_country(country: Option<&str>) -> (r: Viewer)
    ensures
        r == (match country {
            Some(c) => if contains_seq(c@, "内地"@) || contains_seq(c@, "韩国"@) || contains_seq(c@, "韓國"@) {
                Viewer::Webtoon
            } else if contains_seq(c@, "日本"@) {
                Viewer::RightToLeft
            } else {
                Viewer::LeftToRight
            },
            None => Viewer::LeftToRight,
        }),
{
    match country {
        Some(c) => {
            let v = chars_of(c);
            if find_chars(&v, &chars_of("内地")).is_some() || find_chars(&v, &chars_of("韩国")).is_some()
                || find_chars(&v, &chars_of("韓國")).is_some() {
                Viewer::Webtoon
            } else if find_chars(&v, &chars_of("日本")).is_some() {
                Viewer::RightToLeft
            } else {
                Viewer::LeftToRight
            }
        },
        None => Viewer::LeftToRight,
    }
}

/// A title behind the adult check is NSFW.
pub fn content_rating(has_check_adult: bool, has_viewstate: bool) -> (r: ContentRating)
    ensures
        r == (if has_check_adult || has_viewstate { ContentRating::NSFW } else { ContentRating::Safe }),
{
    if has_check_adult || has_viewstate {
        ContentRating::NSFW
    } else {
        ContentRating::Safe
    }
}

/// The id of a chapter from its link: the last path piece, without
/// `/comic/` and `.html`.
pub open spec fn chapter_id_spec(href: Seq<char>) -> Seq<char> {
    after_last_char(replace_all(replace_all(href, "/comic/"@, Seq::empty()), ".html"@, Seq::empty()), '/')
}

/// The id of a chapter from its link.
pub fn chapter_id(href: &str) -> (r: String)
    ensures
        r@ == chapter_id_spec(href@),
{
    let p = chars_of("/comic/");
    let q = chars_of(".html");
    proof {
        reveal_strlit("/comic/");
        reveal_strlit(".html");
    }
    let none: Vec<char> = Vec::new();
    let a = replace_all_chars(&chars_of(href), &p, &none);
    let b = replace_all_chars(&a, &q, &none);
    string_of(&after_last_char_chars(&b, '/'))
}

/// A chapter title with its page count, when the list gives one.
pub fn chapter_title(title: &str, pages: Option<&str>) -> (r: String)
    ensures
        r@ == (match pages {
            Some(p) => if p@.len() > 0 { title@ + " ("@ + p@ + ")"@ } else { title@ },
            None => title@,
        }),
{
    let mut a = chars_of(title);
    match pages {
        Some(p) => if !p.is_empty() {
            push_str(&mut a, " (");
            push_str(&mut a, p);
            push_str(&mut a, ")");
        },
        None => {},
    }
    string_of(&a)
}

/// The pattern that finds a chapter number.
pub open spec fn number_pattern() -> Seq<char> {
    "(?:第\\s*)(\\d+(?:\\.\\d+)?)|(\\d+(?:\\.\\d+)?)\\s*(?:话|話|章|回|卷|册|冊)"@
}

/// The text of a title that may give its chapter number; the app reads it as
/// a number (`extract_chapter_number`).
pub fn chapter_number_text(title: &str) -> (r: Option<String>)
    ensures
        opt_view(r) == first_or_second(number_pattern(), title@),
{
    first_or_second_group("(?:第\\s*)(\\d+(?:\\.\\d+)?)|(\\d+(?:\\.\\d+)?)\\s*(?:话|話|章|回|卷|册|冊)", title)
}

/// The addresses of a chapter's images on the image host, from the path
/// and file names its reader script gives: the path percent-encoded as a
/// URI, then each file name.
pub fn page_image_urls(path: &str, files: &Vec<String>) -> (r: Vec<String>)
    ensures
        r@.len() == files@.len(),
        forall|i: int|
            0 <= i < files@.len() ==> #[trigger] r@[i]@ == "https://i.hamreus.com"@ + encode_uri_spec(path@)
                + files@[i]@,
{
    let encoded = encode_uri(path);
    let mut out: Vec<String> = Vec::new();
    let mut i: usize = 0;
    while i < files.len()
        invariant
            i <= files@.len(),
            encoded@ == encode_uri_spec(path@),
            out@.len() == i,
            forall|k: int|
                0 <= k < i ==> #[trigger] out@[k]@ == "https://i.hamreus.com"@ + encode_uri_spec(path@)
                    + files@[k]@,
        decreases files@.len() - i,
    {
        let mut u: Vec<char> = Vec::new();
        push_str(&mut u, "https://i.hamreus.com");
        push_str(&mut u, encoded.as_str());
        push_str(&mut u, files[i].as_str());
        out.push(string_of(&u));
        i = i + 1;
    }
    out
}

} // verus!

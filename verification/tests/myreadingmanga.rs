use aidoku_sources::model::FilterValue;
use aidoku_sources::myreadingmanga::{
    clean_title, entry_key, entry_url, filter_id, filter_options, handle_deep_link,
    lang_display_to_code, listing_base, listing_entries, map_lang_to_class, meta_authors_tags,
    page_url, schema_thumbnail, search_query, search_url, strip_thumbnail_size, user_language_classes,
    manga_details, ArticleInfo, MetaSpan,
};
use aidoku_sources::model::{ContentRating, MangaStatus, Viewer};

fn strings(v: &[&str]) -> Vec<String> {
    v.iter().map(|s| s.to_string()).collect()
}

#[test]
fn mrm_pages_titles_and_languages() {
    assert_eq!(page_url("https://myreadingmanga.info/popular", 1), "https://myreadingmanga.info/popular");
    assert_eq!(page_url("https://myreadingmanga.info/popular/", 3), "https://myreadingmanga.info/popular/page/3/");
    assert_eq!(
        page_url("https://myreadingmanga.info/?s=a&ep_sort=date", 2),
        "https://myreadingmanga.info/page/2/?s=a&ep_sort=date"
    );
    assert_eq!(clean_title("  Title [English] "), "Title");
    assert_eq!(clean_title(" Plain "), "Plain");
    assert_eq!(map_lang_to_class(" JA "), Some("jp"));
    assert_eq!(map_lang_to_class("xx"), None);
    assert_eq!(user_language_classes(&strings(&["en", "EN", "zh", "xx"])), strings(&["english", "chinese"]));
    assert_eq!(lang_display_to_code("English"), "en");
    assert_eq!(lang_display_to_code("Klingon"), "Klingon");
    assert_eq!(strip_thumbnail_size("https://x/a-300x200.jpg".to_string()), "https://x/a.jpg");
    assert_eq!(strip_thumbnail_size("https://x/a-b.jpg".to_string()), "https://x/a-b.jpg");
}

#[test]
fn mrm_search_query_and_listings() {
    let filters = vec![
        FilterValue::Sort { id: "sort".to_string(), index: 0, ascending: true },
        FilterValue::Select { id: "genre".to_string(), value: "yaoi".to_string() },
        FilterValue::Select { id: "status".to_string(), value: String::new() },
        FilterValue::Select { id: "other".to_string(), value: "x".to_string() },
        FilterValue::Text { id: "tag".to_string(), value: "  Big Guy ".to_string() },
    ];
    let q = search_query(Some("love"), &filters);
    let expect: Vec<(String, String, bool)> = vec![
        ("s".to_string(), "love".to_string(), true),
        ("ep_filter_genre".to_string(), "yaoi".to_string(), false),
        ("ep_filter_post_tag".to_string(), "big-guy".to_string(), true),
        ("ep_sort".to_string(), "date_asc".to_string(), false),
    ];
    assert_eq!(q, expect);
    let q = search_query(None, &[]);
    assert_eq!(q, vec![("s".to_string(), String::new(), true), ("ep_sort".to_string(), "date".to_string(), false)]);
    assert_eq!(listing_base("Bara"), "https://myreadingmanga.info/genre/bara");
    assert_eq!(listing_base("Random"), "https://myreadingmanga.info/?ep_sort=rand&s=");
    assert_eq!(listing_base("Other"), "https://myreadingmanga.info");
    assert_eq!(entry_key("http://myreadingmanga.info/some-title/"), "/some-title");
    assert_eq!(entry_key("https://myreadingmanga.info/some-title/2/"), "/some-title/2");
    assert_eq!(handle_deep_link("https://myreadingmanga.info/abc/"), "/abc");
    assert_eq!(entry_url("abc"), "https://myreadingmanga.info/abc/");
}

#[test]
fn mrm_reading_pages() {
    let arts = vec![
        ArticleInfo { class: Some("post category-video lang-english".to_string()), href: Some("https://myreadingmanga.info/v/".to_string()), text: "V".to_string() },
        ArticleInfo { class: Some("post lang-english".to_string()), href: Some("https://myreadingmanga.info/a/".to_string()), text: "A [English]".to_string() },
        ArticleInfo { class: Some("post lang-jp".to_string()), href: Some("https://myreadingmanga.info/b/".to_string()), text: "B".to_string() },
        ArticleInfo { class: None, href: Some("https://myreadingmanga.info/a".to_string()), text: "A again".to_string() },
        ArticleInfo { class: None, href: None, text: "no link".to_string() },
        ArticleInfo { class: None, href: Some("https://myreadingmanga.info/".to_string()), text: "empty key".to_string() },
        ArticleInfo { class: None, href: Some("https://myreadingmanga.info/c/".to_string()), text: " C ".to_string() },
    ];
    let es = listing_entries(&arts, &strings(&["english"]));
    assert_eq!(es, vec![("/a".to_string(), "A".to_string(), 1), ("/c".to_string(), "C".to_string(), 6)]);
    assert_eq!(listing_entries(&arts, &vec![]).len(), 3);
    assert_eq!(
        schema_thumbnail("{\"thumbnailUrl\":\"https:\\/\\/x\\/c.jpg\",\"y\":1}"),
        Some("https://x/c.jpg".to_string())
    );
    assert_eq!(schema_thumbnail("{}"), None);
    let spans = vec![
        MetaSpan { label: "Creator:".to_string(), class: "entry-terms".to_string(), links: strings(&[" Ann ", ""]) },
        MetaSpan { label: "Creator:".to_string(), class: "entry-terms".to_string(), links: strings(&["Bob"]) },
        MetaSpan { label: "Language:".to_string(), class: "entry-terms".to_string(), links: strings(&["English"]) },
        MetaSpan { label: "Genre:".to_string(), class: "entry-terms".to_string(), links: strings(&["Yaoi", "Drama"]) },
        MetaSpan { label: "".to_string(), class: "entry-tags".to_string(), links: strings(&["Drama", "Office"]) },
    ];
    let (authors, tags) = meta_authors_tags(&spans);
    assert_eq!(authors, strings(&["Ann"]));
    assert_eq!(tags, strings(&["Yaoi", "Drama", "Office"]));
    assert_eq!(filter_id("Circle/ Artist"), Some("artist"));
    assert_eq!(filter_id("Other"), None);
    let opts = filter_options(&vec![("Yaoi".to_string(), "yaoi".to_string()), ("".to_string(), "x".to_string())]);
    assert_eq!(opts, vec![("Any".to_string(), String::new()), ("Yaoi".to_string(), "yaoi".to_string())]);
}

#[test]
fn mrm_search_address_encodes_marked_values() {
    let filters = vec![
        FilterValue::Text { id: "tag".to_string(), value: " Big Tag ".to_string() },
        FilterValue::Select { id: "genre".to_string(), value: "a b".to_string() },
    ];
    assert_eq!(
        search_url(Some("x&y"), &filters, 1),
        "https://myreadingmanga.info?s=x%26y&ep_filter_post_tag=big-tag&ep_filter_genre=a b&ep_sort=date"
    );
    assert_eq!(
        search_url(None, &[], 2),
        "https://myreadingmanga.info/page/2/?s=&ep_sort=date"
    );
}

#[test]
fn mrm_title_page_details() {
    let spans = vec![
        MetaSpan { label: "Creator:".to_string(), class: "entry-terms".to_string(), links: strings(&["Ann"]) },
        MetaSpan { label: "Genre:".to_string(), class: "entry-terms".to_string(), links: strings(&["Yaoi", "Yaoi"]) },
    ];
    let d = manga_details("abc", Some(" Title [English] "), false, None, Some("https://x/c.jpg"), &spans);
    assert_eq!(d.title.as_deref(), Some("Title"));
    assert_eq!(d.cover.as_deref(), Some("https://x/c.jpg"));
    assert_eq!(d.authors, Some(strings(&["Ann"])));
    assert_eq!(d.artists, Some(strings(&["Ann"])));
    assert_eq!(d.tags, Some(strings(&["Yaoi"])));
    assert_eq!(d.status, MangaStatus::Completed);
    assert_eq!(d.content_rating, ContentRating::NSFW);
    assert_eq!(d.viewer, Viewer::RightToLeft);
    assert_eq!(d.url, "https://myreadingmanga.info/abc/");
    let d = manga_details("abc", Some("  "), true, Some("{\"thumbnailUrl\":\"t\"}"), None, &vec![]);
    assert_eq!(d.title, None);
    assert_eq!(d.cover, None);
    assert_eq!(d.authors, None);
    assert_eq!(d.tags, None);
    let d = manga_details("abc", None, false, Some("{\"thumbnailUrl\":\"https:\\/\\/t\"}"), Some("img"), &vec![]);
    assert_eq!(d.cover.as_deref(), Some("https://t"));
}

#[test]
fn mrm_clean_title_is_idempotent() {
    for raw in ["  Title [English] [x] ", "Plain", " a [b", "[x] y"] {
        let once = clean_title(raw);
        assert_eq!(clean_title(&once), once);
        assert!(!once.contains(" ["));
    }
}

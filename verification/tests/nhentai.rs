use aidoku_sources::model::{ContentRating, FilterValue, MangaStatus, Viewer};
use aidoku_sources::nhentai::{
    chapter_scanlator, chapter_url, gallery_api_url, gallery_description, gallery_manga,
    gallery_viewer, handle_deep_link, has_next_page, list_title, listing_sort, make_image_url,
    page_url, pages_api_url, query_id, search_query, search_url, tag_names, Gallery, GalleryTag, TagKind,
    TitlePreference,
};

fn tag(name: &str, count: i32, kind: &str) -> GalleryTag {
    GalleryTag { name: name.to_string(), count, kind: kind.to_string() }
}

fn strings(v: &[&str]) -> Vec<String> {
    v.iter().map(|s| s.to_string()).collect()
}

#[test]
fn nhentai_tags_grouped_and_ordered_by_use() {
    let tags = vec![
        tag("a", 5, "tag"),
        tag("b", 9, "tag"),
        tag("c", 5, "tag"),
        tag("original", 100, "parody"),
        tag("x", 3, "parody"),
        tag("ann", 2, "artist"),
        tag("english", 1, "language"),
    ];
    assert_eq!(tag_names(&tags, TagKind::Tag), strings(&["b", "a", "c"]));
    assert_eq!(tag_names(&tags, TagKind::Parody), strings(&["x"]));
    assert_eq!(tag_names(&tags, TagKind::Group), Vec::<String>::new());
    let g = Gallery {
        id: 177013,
        english_title: "Eng".to_string(),
        japanese_title: Some(String::new()),
        cover_path: "/galleries/1/cover.jpg".to_string(),
        tags: vec![tag("webtoon", 4, "tag"), tag("grp", 1, "group"), tag("ann", 2, "artist"), tag("ch", 7, "character")],
        num_pages: 20,
        num_favorites: 0,
    };
    let m = gallery_manga(&g, TitlePreference::Japanese);
    assert_eq!(m.key, "177013");
    assert_eq!(m.title, "Eng");
    assert_eq!(m.cover, "https://t.nhentai.net/galleries/1/cover.jpg");
    assert_eq!(m.description, "#177013  \nCharacters: ch  \nPages: 20");
    assert_eq!(m.authors, strings(&["grp", "ann"]));
    assert_eq!(m.artists, strings(&["ann"]));
    assert_eq!(m.url, "https://nhentai.net/g/177013");
    assert_eq!(m.tags, strings(&["webtoon"]));
    assert_eq!(m.viewer, Viewer::Webtoon);
    assert_eq!(m.status, MangaStatus::Completed);
    assert_eq!(m.content_rating, ContentRating::NSFW);
}

#[test]
fn nhentai_titles_descriptions_and_images() {
    assert_eq!(list_title(TitlePreference::English, "", None, 42), "#42");
    assert_eq!(list_title(TitlePreference::English, "", Some("jp"), 42), "jp");
    assert_eq!(list_title(TitlePreference::Japanese, "en", Some(""), 42), "en");
    assert_eq!(list_title(TitlePreference::Japanese, "en", Some("jp"), 42), "jp");
    assert_eq!(
        gallery_description(1, &strings(&["p1", "p2"]), &vec![], 3, 5),
        "#1  \nParodies: p1, p2  \nPages: 3  \nFavorited by: 5"
    );
    assert_eq!(gallery_viewer(&strings(&["a"])), Viewer::RightToLeft);
    assert_eq!(make_image_url("https://x/y.jpg", true), "https://x/y.jpg");
    assert_eq!(make_image_url("a/b.jpg", false), "https://i.nhentai.net/a/b.jpg");
    assert_eq!(page_url("/g/1.jpg"), "https://i.nhentai.net/g/1.jpg");
    assert_eq!(page_url("g/1.jpg"), "https://i.nhentai.net/g/1.jpg");
    assert_eq!(page_url("httpx"), "httpx");
}

#[test]
fn nhentai_search_query_and_links() {
    assert_eq!(query_id("177013"), Some(177013));
    assert_eq!(query_id("-5"), Some(-5));
    assert_eq!(query_id("3000000000"), None);
    assert_eq!(query_id("abc"), None);
    let filters = vec![
        FilterValue::Text { id: "artist".to_string(), value: "ann".to_string() },
        FilterValue::Sort { id: "sort".to_string(), index: 2, ascending: false },
        FilterValue::MultiSelect { id: "tags".to_string(), included: strings(&["big"]), excluded: strings(&["gore"]) },
        FilterValue::Select { id: "genre".to_string(), value: "x".to_string() },
        FilterValue::Text { id: "other".to_string(), value: "ignored".to_string() },
    ];
    let (q, sort) = search_query(Some("hello"), &filters, Some("english"), &strings(&["", "yaoi"]));
    assert_eq!(q, "hello artist:ann tag:\"big\" -tag:\"gore\" tag:\"x\" language:english -tag:\"yaoi\"");
    assert_eq!(sort, "popular-week");
    assert_eq!(search_query(None, &[], None, &vec![]), (" ".to_string(), "date"));
    assert!(has_next_page(1, 2));
    assert!(!has_next_page(2, 2));
    assert_eq!(listing_sort("popular"), Some(3));
    assert_eq!(listing_sort("latest"), Some(0));
    assert_eq!(listing_sort("random"), None);
    assert_eq!(handle_deep_link("https://nhentai.net/g/177013/"), Some("177013".to_string()));
    assert_eq!(handle_deep_link("https://nhentai.net/g/12"), Some("12".to_string()));
    assert_eq!(handle_deep_link("https://nhentai.net/tag/x/"), None);
    assert_eq!(handle_deep_link("https://example.com/g/1"), None);
    let tags = vec![tag("english", 1, "language"), tag("translated", 1, "language"), tag("japanese", 1, "language")];
    assert_eq!(chapter_scanlator(&tags), Some("english, japanese".to_string()));
    assert_eq!(chapter_scanlator(&vec![tag("translated", 1, "language")]), None);
    assert_eq!(gallery_api_url("9"), "https://nhentai.net/api/v2/galleries/9");
    assert_eq!(pages_api_url("9"), "https://nhentai.net/api/v2/galleries/9/pages");
    assert_eq!(chapter_url("9"), "https://nhentai.net/g/9");
}

#[test]
fn nhentai_search_address_is_encoded() {
    assert_eq!(
        search_url(Some("a b"), &[], Some("english"), &vec![], 2),
        "https://nhentai.net/api/v2/search?query=a%20b%20language%3aenglish&page=2&sort=date"
    );
    assert_eq!(
        search_url(None, &[], None, &vec![], 1),
        "https://nhentai.net/api/v2/search?query=%20&page=1&sort=date"
    );
}

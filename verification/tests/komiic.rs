use aidoku_sources::komiic::{
    author_keyword, author_matches, category_filter_value, category_id, category_listing,
    chapter_title, chapter_url, comic_url, deduplicate_manga, handle_deep_link, image_url,
    listing_request, manga_status, matching_author_ids, offset, order_by_ids, parse_manga,
    parse_search_filters, response_error, search_request, select_chapter_version, sort_order,
    unique_ids, AuthorRef, ComicFields, KomiicManga, ListingRequest, SearchRequest,
};
use aidoku_sources::model::{ContentRating, DeepLink, FilterValue, MangaStatus, Viewer};

fn text(id: &str, value: &str) -> FilterValue {
    FilterValue::Text { id: id.to_string(), value: value.to_string() }
}

fn select(id: &str, value: &str) -> FilterValue {
    FilterValue::Select { id: id.to_string(), value: value.to_string() }
}

fn entry(key: &str, title: &str) -> KomiicManga {
    parse_manga(
        ComicFields {
            id: Some(key.to_string()),
            title: Some(title.to_string()),
            image_url: None,
            status: None,
            description: None,
            author_names: None,
            category_names: None,
        },
        true,
    )
}

#[test]
fn sort_filter_uses_index_value() {
    let filters = vec![FilterValue::Sort { id: "sort".to_string(), index: 2, ascending: false }];
    let (order_by, _, _, _, _) = parse_search_filters(None, &filters);
    assert_eq!(order_by, "FAVORITE_COUNT");
}

#[test]
fn author_filter_uses_author_search() {
    let filters = vec![text("author", "米二")];
    let (_, _, _, keyword, author) = parse_search_filters(None, &filters);
    assert_eq!(keyword, None);
    assert_eq!(author.as_deref(), Some("米二"));
    match search_request(None, &filters) {
        SearchRequest::Author { author } => assert_eq!(author, "米二"),
        _ => panic!("expected an author search"),
    }
}

#[test]
fn default_search_parameters() {
    let (order_by, status, category, keyword, author) = parse_search_filters(Some("  "), &[]);
    assert_eq!(order_by, "DATE_UPDATED");
    assert_eq!(status, "");
    assert_eq!(category, "0");
    assert_eq!(keyword, None);
    assert_eq!(author, None);
    let (_, _, _, keyword, _) = parse_search_filters(Some(" 一人之下 "), &[]);
    assert_eq!(keyword.as_deref(), Some("一人之下"));
}

#[test]
fn genre_filter_selects_category_or_keyword() {
    let filters = vec![select("genre", " 熱血 "), select("status", "END")];
    let (_, status, category, keyword, _) = parse_search_filters(None, &filters);
    assert_eq!(category, "21");
    assert_eq!(status, "END");
    assert_eq!(keyword, None);
    let filters = vec![select("genre", "不知道")];
    let (_, _, category, keyword, _) = parse_search_filters(None, &filters);
    assert_eq!(category, "0");
    assert_eq!(keyword.as_deref(), Some("不知道"));
    let filters = vec![select("category", "不知道"), select("category", "")];
    let (_, _, category, keyword, _) = parse_search_filters(None, &filters);
    assert_eq!(category, "0");
    assert_eq!(keyword, None);
}

#[test]
fn categories_by_name_and_id() {
    assert_eq!(category_id("愛情"), Some("1"));
    assert_eq!(category_id(" 后宫 "), Some("2"));
    assert_eq!(category_id("黑道"), Some("42"));
    assert_eq!(category_id("未知"), None);
    assert_eq!(category_filter_value(" 40 ").as_deref(), Some("40"));
    assert_eq!(category_filter_value("29"), None);
    assert_eq!(category_filter_value("音乐").as_deref(), Some("37"));
    assert_eq!(sort_order(0), Some("DATE_UPDATED"));
    assert_eq!(sort_order(3), None);
    assert_eq!(sort_order(-1), None);
}

#[test]
fn keyword_naming_a_category_opens_it() {
    match search_request(Some("科幻"), &[]) {
        SearchRequest::Category { category_id, order_by, status } => {
            assert_eq!(category_id, "17");
            assert_eq!(order_by, "DATE_UPDATED");
            assert_eq!(status, "");
        }
        _ => panic!("expected a category"),
    }
    match search_request(Some("海贼"), &[]) {
        SearchRequest::Keyword { keyword } => assert_eq!(keyword, "海贼"),
        _ => panic!("expected a keyword search"),
    }
}

#[test]
fn listings() {
    match listing_request("month_views") {
        ListingRequest::ComicList { operation, order_by } => {
            assert_eq!(operation, "hotComics");
            assert_eq!(order_by, "MONTH_VIEWS");
        }
        _ => panic!("expected a ranked list"),
    }
    assert!(matches!(listing_request("recommendations"), ListingRequest::Recommendations));
    match listing_request("category:1:DATE_UPDATED") {
        ListingRequest::Category { category_id, order_by } => {
            assert_eq!(category_id, "1");
            assert_eq!(order_by, "DATE_UPDATED");
        }
        _ => panic!("expected a category"),
    }
    assert_eq!(category_listing("category:5"), Some(("5".to_string(), "DATE_UPDATED".to_string())));
    assert_eq!(category_listing("category"), None);
    assert!(matches!(listing_request("other"), ListingRequest::Empty));
}

#[test]
fn komiic_deep_links() {
    match handle_deep_link("https://komiic.com/comic/2100") {
        Some(DeepLink::Manga { key }) => assert_eq!(key, "2100"),
        _ => panic!("expected a title"),
    }
    match handle_deep_link("https://komiic.com/comic/2100/chapter/77/images/all") {
        Some(DeepLink::Chapter { manga_key, key }) => {
            assert_eq!(manga_key, "2100");
            assert_eq!(key, "77");
        }
        _ => panic!("expected a chapter"),
    }
    assert!(handle_deep_link("https://komiic.com/comic/2100/x").is_none());
    assert!(handle_deep_link("https://komiic.com/other/2100").is_none());
}

#[test]
fn manga_list_reports_raw_count_before_deduplication() {
    let entries = vec![entry("1", "A"), entry("1", "A duplicate")];
    let raw_count = entries.len();
    let entries = deduplicate_manga(entries);
    assert_eq!(raw_count, 2);
    assert_eq!(entries.len(), 1);
    assert_eq!(entries[0].title, "A");
}

#[test]
fn deduplication_keeps_first_of_each_key() {
    let entries = vec![entry("1", "a"), entry("2", "b"), entry("1", "c"), entry("3", "d"), entry("2", "e")];
    let kept = deduplicate_manga(entries);
    let titles: Vec<&str> = kept.iter().map(|m| m.title.as_str()).collect();
    assert_eq!(titles, vec!["a", "b", "d"]);
    let again = deduplicate_manga(kept);
    assert_eq!(again.len(), 3);
}

#[test]
fn manga_list_uses_minimal_fields() {
    let manga = parse_manga(
        ComicFields {
            id: Some("1".to_string()),
            title: Some("A".to_string()),
            image_url: Some("https://example.com/cover.jpg".to_string()),
            status: Some("ONGOING".to_string()),
            description: Some("detail-only".to_string()),
            author_names: Some(vec!["作者A".to_string(), "作者B".to_string()]),
            category_names: Some(vec!["熱血".to_string()]),
        },
        true,
    );
    assert_eq!(manga.key, "1");
    assert_eq!(manga.title, "A");
    assert_eq!(manga.cover.as_deref(), Some("https://example.com/cover.jpg"));
    assert_eq!(manga.url, "https://komiic.com/comic/1");
    assert_eq!(manga.status, MangaStatus::Ongoing);
    assert_eq!(manga.content_rating, ContentRating::Safe);
    assert_eq!(manga.viewer, Viewer::RightToLeft);
    assert_eq!(manga.authors, None);
    assert_eq!(manga.description, None);
    assert_eq!(manga.tags, None);
}

#[test]
fn home_manga_list_preserves_authors_and_tags() {
    let manga = parse_manga(
        ComicFields {
            id: Some("1".to_string()),
            title: None,
            image_url: None,
            status: Some("END".to_string()),
            description: Some("  ".to_string()),
            author_names: Some(vec!["作者A".to_string(), "作者B".to_string()]),
            category_names: Some(vec![]),
        },
        false,
    );
    assert_eq!(manga.title, "1");
    assert_eq!(manga.status, MangaStatus::Completed);
    assert_eq!(manga.authors, Some(vec!["作者A".to_string(), "作者B".to_string()]));
    assert_eq!(manga.description, None);
    assert_eq!(manga.tags, None);
    assert_eq!(manga_status(Some("HIATUS")), MangaStatus::Unknown);
    assert_eq!(manga_status(None), MangaStatus::Unknown);
}

#[test]
fn comics_follow_requested_order() {
    let ids = vec!["3".to_string(), "9".to_string(), "1".to_string()];
    let entries = vec![entry("1", "a"), entry("2", "b"), entry("3", "c")];
    let ordered = order_by_ids(&ids, entries);
    let keys: Vec<&str> = ordered.iter().map(|m| m.key.as_str()).collect();
    assert_eq!(keys, vec!["3", "1"]);
}

#[test]
fn author_ids_are_unique_matches() {
    let a = |id: &str, name: &str, ch: Option<&str>| AuthorRef {
        id: Some(id.to_string()),
        name: Some(name.to_string()),
        ch_name: ch.map(str::to_string),
        en_name: None,
    };
    let authors = vec![a("1", "米二", None), a("2", "其他", Some(" 米二 ")), a("1", "米二", None), a("3", "米", None)];
    assert!(author_matches(&authors[1], "米二"));
    assert!(!author_matches(&authors[3], "米二"));
    assert_eq!(matching_author_ids(&authors, "米二"), vec!["1".to_string(), "2".to_string()]);
    assert_eq!(author_keyword("  "), None);
    assert_eq!(author_keyword(" 米二 ").as_deref(), Some("米二"));
    let ids = vec![Some("5".to_string()), None, Some("4".to_string()), Some("5".to_string())];
    assert_eq!(unique_ids(ids), vec!["5".to_string(), "4".to_string()]);
}

#[test]
fn chapter_version_selection_matches_preference() {
    let books = vec!["book-1"];
    let web = vec!["chapter-1"];
    assert_eq!(select_chapter_version(books.clone(), web.clone(), true)[0], "book-1");
    assert_eq!(select_chapter_version(books.clone(), web.clone(), false)[0], "chapter-1");
    assert_eq!(select_chapter_version(Vec::new(), web.clone(), true)[0], "chapter-1");
    assert_eq!(select_chapter_version(books, Vec::new(), false)[0], "book-1");
}

#[test]
fn chapter_titles() {
    assert_eq!(chapter_title(Some(" 12 "), true, false), None);
    assert_eq!(chapter_title(Some(" "), false, false), None);
    assert_eq!(chapter_title(None, false, true), None);
    assert_eq!(chapter_title(Some("番外"), false, true).as_deref(), Some("卷番外"));
    assert_eq!(chapter_title(Some(" 番外 "), false, false).as_deref(), Some("番外"));
}

#[test]
fn addresses_and_errors() {
    assert_eq!(comic_url("7"), "https://komiic.com/comic/7");
    assert_eq!(chapter_url("7", "8"), "https://komiic.com/comic/7/chapter/8/images/all");
    assert_eq!(image_url("abc"), "https://komiic.com/api/image/abc");
    assert_eq!(offset(1, 20), 0);
    assert_eq!(offset(-3, 20), 0);
    assert_eq!(offset(3, 30), 60);
    assert_eq!(response_error(500, None).as_deref(), Some("Komiic HTTP 500"));
    assert_eq!(response_error(200, Some(Some("boom".to_string()))).as_deref(), Some("Komiic boom"));
    assert_eq!(response_error(200, Some(None)).as_deref(), Some("Komiic GraphQL error"));
    assert_eq!(response_error(200, None), None);
}

#[test]
fn komiic_chapters_split_by_type() {
    let types = vec![Some("book".to_string()), Some("chapter".to_string()), None, Some("book".to_string())];
    assert_eq!(aidoku_sources::komiic::split_by_type(&types), (vec![0, 3], vec![1, 2]));
}

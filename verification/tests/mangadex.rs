use aidoku_sources::mangadex::{
    custom_list_ids, find_title, home_layout, latest_chapters_url, latest_titles_url, list_listing_id,
    list_titles, list_titles_url, list_url, popular_url, recent_url, seasonal_lists_url,
    cover_locales, cover_url, created_at_since, dynamic_listings, first_chapter_per_title,
    handle_deep_link, has_next_page, ids_params, listing_request, page_offsets, page_urls,
    pick_seasonal, search_offset, search_params, seasonal_key, DexLink, ListingRequest,
    PagesError, SearchError,
};
use aidoku_sources::model::{FilterValue, HomeKind};

fn s(x: &str) -> String {
    x.to_string()
}

fn kv(k: &str, v: &str) -> (String, String) {
    (s(k), s(v))
}

#[test]
fn dex_search_params() {
    let filters = vec![
        FilterValue::Text { id: s("author"), value: s("oda") },
        FilterValue::Sort { id: s(""), index: 2, ascending: false },
        FilterValue::MultiSelect { id: s("lang"), included: vec![s("ja,ko")], excluded: vec![s("en")] },
        FilterValue::MultiSelect { id: s("tags"), included: vec![s("t1")], excluded: vec![s("t2")] },
        FilterValue::Select { id: s("includedTagsMode"), value: s("AND") },
    ];
    let ids = vec![Some(s("a-1")), None, None, None, None];
    let ratings = vec![s("safe")];
    let langs = vec![s("en")];
    let ps = search_params(Some("one"), &filters, &ids, Some(&ratings), Some(&langs)).ok().unwrap();
    assert_eq!(
        ps,
        vec![
            kv("authorOrArtist", "a-1"),
            kv("order[followedCount]", "desc"),
            kv("originalLanguage[]", "ja"),
            kv("originalLanguage[]", "ko"),
            kv("excludedOriginalLanguage[]", "en"),
            kv("includedTags[]", "t1"),
            kv("excludedTags[]", "t2"),
            kv("includedTagsMode", "AND"),
            kv("title", "one"),
            kv("contentRating[]", "safe"),
            kv("hasAvailableChapters", "true"),
            kv("availableTranslatedLanguage[]", "en")
        ]
    );
}

#[test]
fn dex_search_switches_and_errors() {
    let filters = vec![
        FilterValue::MultiSelect { id: s("rating"), included: vec![s("erotica")], excluded: vec![] },
        FilterValue::Check { id: s("hasAvailableChapters"), value: 0 },
    ];
    let ids = vec![None, None];
    let ps = search_params(None, &filters, &ids, None, None).ok().unwrap();
    assert_eq!(ps, vec![kv("contentRating[]", "erotica")]);
    let ps = search_params(None, &[], &vec![], None, Some(&vec![]));
    assert_eq!(ps.err(), Some(SearchError::MissingSetting));
    let bad = vec![FilterValue::Text { id: s("title"), value: s("x") }];
    assert_eq!(search_params(None, &bad, &vec![None], None, None).err(), Some(SearchError::InvalidTextFilter));
    let bad = vec![FilterValue::Sort { id: s(""), index: 6, ascending: true }];
    assert_eq!(search_params(None, &bad, &vec![None], None, None).err(), Some(SearchError::InvalidSortIndex));
    assert_eq!(search_offset(3), 40);
    assert!(has_next_page(20, Some(41)));
    assert!(!has_next_page(20, Some(40)));
    assert!(!has_next_page(20, None));
}

#[test]
fn dex_listings_and_links() {
    assert!(matches!(listing_request("recent"), ListingRequest::Sorted { index: 3 }));
    assert!(matches!(listing_request("popular"), ListingRequest::Sorted { index: 2 }));
    assert!(matches!(listing_request("latest"), ListingRequest::Latest));
    match listing_request("list-abc") {
        ListingRequest::CustomList { id } => assert_eq!(id, "abc"),
        _ => panic!("expected a custom list"),
    }
    assert!(matches!(listing_request("x"), ListingRequest::Unimplemented));
    match handle_deep_link("https://mangadex.org/title/a96676e5/komi-san") {
        Some(DexLink::Manga { key }) => assert_eq!(key, "a96676e5"),
        _ => panic!("expected a title"),
    }
    match handle_deep_link("https://mangadex.org/chapter/56eecc6f") {
        Some(DexLink::Chapter { key }) => assert_eq!(key, "56eecc6f"),
        _ => panic!("expected a chapter"),
    }
    assert!(handle_deep_link("https://mangadex.org/user/x").is_none());
    assert_eq!(dynamic_listings(true), vec![kv("library", "Library")]);
    assert!(dynamic_listings(false).is_empty());
}

#[test]
fn dex_pages_and_covers() {
    let urls = page_urls("https://s", "h", Some(vec![s("1.png")]), Some(vec![s("1.jpg")]), true).ok().unwrap();
    assert_eq!(urls, vec![s("https://s/data-saver/h/1.jpg")]);
    let urls = page_urls("https://s", "h", Some(vec![s("1.png"), s("2.png")]), None, false).ok().unwrap();
    assert_eq!(urls, vec![s("https://s/data/h/1.png"), s("https://s/data/h/2.png")]);
    assert_eq!(page_urls("https://s", "h", Some(vec![]), None, true).err(), Some(PagesError::MissingChapterData));
    assert_eq!(cover_locales("&locales[]=en"), "&locales[]=en&locales[]=ja");
    assert_eq!(cover_locales("&locales[]=ja"), "&locales[]=ja");
    assert_eq!(cover_url("m", "c.jpg", ".512.jpg"), "https://uploads.mangadex.org/covers/m/c.jpg.512.jpg");
    assert_eq!(page_offsets(1200, 500), vec![500, 1000]);
    assert_eq!(page_offsets(500, 500), Vec::<i64>::new());
}

#[test]
fn dex_home_choices() {
    let ids = vec![Some(s("a")), None, Some(s("b")), Some(s("a")), Some(s("c")), Some(s("d"))];
    assert_eq!(first_chapter_per_title(&ids, 3), vec![0, 2, 4]);
    assert_eq!(ids_params(&vec![s("a"), s("b")]), "&ids[]=a&ids[]=b");
    assert_eq!(seasonal_key("Seasonal: Fall 2024"), Some((Some(2024), 4)));
    assert_eq!(seasonal_key("Seasonal:Winter 2025"), Some((Some(2025), 1)));
    assert_eq!(seasonal_key("Staff Picks"), None);
    let names = vec![s("Seasonal: Fall 2024"), s("Other"), s("Seasonal: Winter 2025"), s("Seasonal: Spring 2024")];
    assert_eq!(pick_seasonal(&names), Some(2));
    assert_eq!(pick_seasonal(&vec![s("x")]), None);
    assert_eq!(created_at_since(1_700_000_000).as_deref(), Some("2023-10-15T11:40:00"));
}

#[test]
fn mangadex_home_layout_and_requests() {
    let names = vec!["Staff Picks".to_string(), "Seasonal: Fall 2025".to_string()];
    let layout = home_layout(&names);
    assert_eq!(layout.len(), 5);
    assert_eq!(layout[0], ("Popular New Titles".to_string(), HomeKind::BigScroller));
    assert_eq!(layout[1], ("Latest Updates".to_string(), HomeKind::MangaChapterList { page_size: None }));
    assert_eq!(layout[3], ("Seasonal: Fall 2025".to_string(), HomeKind::Scroller));
    assert_eq!(layout[4], ("Recently Added".to_string(), HomeKind::Scroller));
    assert_eq!(custom_list_ids().len(), 3);
    assert_eq!(list_url("abc"), "https://api.mangadex.org/list/abc");
    assert_eq!(seasonal_lists_url(), "https://api.mangadex.org/user/d2ae45e0-b5e2-4e7f-a688-17925c2d7d6b/list");
    let rels = vec![
        ("manga".to_string(), "m1".to_string()),
        ("user".to_string(), "u1".to_string()),
        ("manga".to_string(), "m2".to_string()),
    ];
    assert_eq!(list_titles(&rels), vec!["m1".to_string(), "m2".to_string()]);
    assert_eq!(
        popular_url("2024-01-01T00:00:00", "&contentRating[]=safe"),
        "https://api.mangadex.org/manga?includes[]=cover_art&includes[]=artist&includes[]=author&order[followedCount]=desc&hasAvailableChapters=true&createdAtSince=2024-01-01T00:00:00&contentRating[]=safe"
    );
    assert_eq!(recent_url(""), "https://api.mangadex.org/manga?limit=15&order[createdAt]=desc&includes[]=cover_art");
    assert_eq!(
        latest_chapters_url("&translatedLanguage[]=en", ""),
        "https://api.mangadex.org/chapter?includes[]=scanlation_group&limit=15&order[readableAt]=desc&translatedLanguage[]=en"
    );
    assert_eq!(latest_titles_url("", "&ids[]=a"), "https://api.mangadex.org/manga?includes[]=cover_art&ids[]=a");
    assert_eq!(
        list_titles_url("", &vec!["a".to_string(), "b".to_string()]),
        "https://api.mangadex.org/manga?limit=100&includes[]=cover_art&ids[]=a&ids[]=b"
    );
    assert_eq!(list_listing_id("xyz"), "list-xyz");
    let keys = vec!["a".to_string(), "b".to_string()];
    assert_eq!(find_title(&keys, "b"), Some(1));
    assert_eq!(find_title(&keys, "c"), None);
}

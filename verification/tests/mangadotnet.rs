use aidoku_sources::mangadotnet::{
    chapter_title, chapter_url, content_rating, cover_url, dedup_chapters, handle_deep_link,
    has_next_page, home_sections, image_data, images_url, is_better, is_official_like,
    listing_of, listing_params, listing_path, manga_status, manga_url, page_image_url,
    parse_flag, search_params, section_params, viewer_of, volume_url, ChapterCandidate,
    DotLink, DotListing, SearchError, StringOrVec,
};
use aidoku_sources::mangadotnet::{check_response, fetch_error_message, FetchError};
use aidoku_sources::model::{ContentRating, FilterValue, MangaStatus, Viewer};

fn pairs(v: &[(&str, &str)]) -> Vec<(String, String)> {
    v.iter().map(|(a, b)| (a.to_string(), b.to_string())).collect()
}

fn cand(key: &str, group: Option<i32>, name: Option<&str>, at: Option<i64>) -> ChapterCandidate {
    ChapterCandidate {
        number_key: key.to_string(),
        group_id: group,
        scanlator_name: name.map(|n| n.to_string()),
        created_at: at,
    }
}

#[test]
fn mangadotnet_search_params_and_errors() {
    let filters = vec![
        FilterValue::Text { id: "author".to_string(), value: "Oda".to_string() },
        FilterValue::Sort { id: "sort".to_string(), index: 4, ascending: false },
        FilterValue::Select { id: "status".to_string(), value: "ongoing".to_string() },
        FilterValue::MultiSelect {
            id: "genre".to_string(),
            included: vec!["action".to_string()],
            excluded: vec!["horror".to_string()],
        },
    ];
    assert_eq!(
        search_params(Some("pirate"), 2, &filters, false),
        Ok(pairs(&[
            ("search", "pirate"),
            ("page", "2"),
            ("author", "Oda"),
            ("sortBy", "views"),
            ("sortOrder", "desc"),
            ("status", "ongoing"),
            ("genre", "action"),
            ("-horror", "-horror"),
            ("adult", "both"),
            ("_routes", "pages/SearchPage"),
        ]))
    );
    assert_eq!(
        search_params(None, 1, &[], true),
        Ok(pairs(&[("page", "1"), ("_routes", "pages/SearchPage")]))
    );
    let bad_sort = vec![FilterValue::Sort { id: "sort".to_string(), index: 9, ascending: true }];
    assert_eq!(search_params(None, 1, &bad_sort, true), Err(SearchError::InvalidSort));
    let bad = vec![FilterValue::Check { id: "x".to_string(), value: 1 }];
    assert_eq!(search_params(None, 1, &bad, true), Err(SearchError::InvalidFilter));
    assert!(has_next_page(Some((1, 3))));
    assert!(!has_next_page(Some((3, 3))));
    assert!(!has_next_page(None));
}

#[test]
fn mangadotnet_listings_and_home() {
    assert_eq!(listing_of("most_tracked"), Some(DotListing::MostTracked));
    assert_eq!(listing_of("featured"), None);
    assert_eq!(listing_path(DotListing::TopRated), "/view-all/top-rated.data");
    assert_eq!(
        listing_params(false, 2, Some("manga,manhwa")),
        pairs(&[("adult", "both"), ("page", "2"), ("origin", "manga"), ("origin", "manhwa"), ("_routes", "pages/ViewAllPage")])
    );
    assert_eq!(listing_params(true, 1, None), pairs(&[("_routes", "pages/ViewAllPage")]));
    let home = home_sections();
    assert_eq!(home, vec![DotListing::LatestUpdates, DotListing::RecentlyAdded, DotListing::MostTracked, DotListing::TopRated]);
    assert_eq!(home[2].title(), "Most Tracked");
    assert_eq!(home[2].subtitle(), "Reader Favorites");
    assert_eq!(home[0].id(), "latest_updates");
    assert_eq!(
        section_params(DotListing::RecentlyAdded, true, Some("manga,manhua")),
        pairs(&[("id", "recently_added"), ("adult", "0"), ("origin", "manga,manhua"), ("limit", "21")])
    );
}

#[test]
fn mangadotnet_links_and_addresses() {
    assert!(matches!(handle_deep_link("https://mangadot.net/manga/6953"), Some(DotLink::Manga(ref k)) if k == "6953"));
    assert!(matches!(handle_deep_link("https://mangadot.net/chapter/533518#p=1"), Some(DotLink::Chapter(ref k)) if k == "533518"));
    assert!(matches!(handle_deep_link("https://mangadot.net/chapter/151856?source=user#p=1"), Some(DotLink::UserChapter(ref k)) if k == "151856"));
    assert!(handle_deep_link("https://mangadot.net/chapter/533518").is_none());
    assert!(handle_deep_link("https://mangadot.net/search").is_none());
    assert!(handle_deep_link("https://example.com/manga/1").is_none());
    assert_eq!(images_url("77", Some("https://mangadot.net/chapter/77?source=user")), "https://mangadot.net/api/uploads/77/images");
    assert_eq!(images_url("77", None), "https://mangadot.net/api/chapters/77/images");
    assert_eq!(page_image_url("//img/1.webp"), "https://mangadot.net/img/1.webp");
    assert_eq!(chapter_url(5, Some("user"), false), "https://mangadot.net/chapter/5?source=user");
    assert_eq!(chapter_url(5, None, true), "https://mangadot.net/chapter/5?source=user");
    assert_eq!(chapter_url(5, Some("site"), false), "https://mangadot.net/chapter/5");
    assert_eq!(volume_url(6, true), "https://mangadot.net/chapter/6?source=user&mode=volume");
    assert_eq!(volume_url(6, false), "https://mangadot.net/chapter/6?mode=volume");
    assert_eq!(manga_url(12), "https://mangadot.net/manga/12");
    assert_eq!(cover_url(Some("/covers/a.jpg")), Some("https://mangadot.net/covers/a.jpg".to_string()));
    assert_eq!(cover_url(Some("covers/a.jpg")), None);
    assert_eq!(chapter_title(Some("Chapter 5")), None);
    assert_eq!(chapter_title(Some("The End")), Some("The End".to_string()));
}

#[test]
fn mangadotnet_title_fields() {
    assert_eq!(manga_status("Ongoing", true), MangaStatus::Hiatus);
    assert_eq!(manga_status("Ongoing", false), MangaStatus::Ongoing);
    assert_eq!(manga_status("Completed", false), MangaStatus::Completed);
    assert_eq!(manga_status("Dropped", false), MangaStatus::Unknown);
    assert_eq!(content_rating(false, true, Some("safe")), ContentRating::NSFW);
    assert_eq!(content_rating(false, false, Some("erotica")), ContentRating::Suggestive);
    assert_eq!(content_rating(false, false, Some("safe")), ContentRating::Safe);
    assert_eq!(content_rating(false, false, None), ContentRating::Unknown);
    assert_eq!(viewer_of(Some("JP")), Viewer::RightToLeft);
    assert_eq!(viewer_of(Some("CN")), Viewer::Webtoon);
    assert_eq!(viewer_of(Some("US")), Viewer::Unknown);
    assert_eq!(parse_flag("YES"), Some(true));
    assert_eq!(parse_flag("0"), Some(false));
    assert_eq!(parse_flag("maybe"), None);
    assert_eq!(StringOrVec::Single("[\"a\",\"b\"]".to_string()).into_vec(), vec!["a".to_string(), "b".to_string()]);
    assert_eq!(StringOrVec::Single("Oda".to_string()).into_vec(), vec!["Oda".to_string()]);
    assert_eq!(StringOrVec::Multiple(vec!["x".to_string()]).into_vec(), vec!["x".to_string()]);
    assert_eq!(image_data("data:image/png;base64,AQID"), Some(vec![1, 2, 3]));
    assert_eq!(image_data("no comma"), None);
}

#[test]
fn mangadotnet_keeps_best_upload_per_chapter() {
    let official = cand("1", Some(10712), None, Some(10));
    let newer = cand("1", None, Some("fans"), Some(99));
    assert!(is_official_like(&official));
    assert!(is_official_like(&cand("1", None, Some("comikey"), None)));
    assert!(!is_official_like(&newer));
    assert!(is_better(&official, &newer));
    assert!(!is_better(&newer, &official));
    assert!(is_better(&cand("2", None, None, Some(5)), &cand("2", None, None, None)));
    let cs = vec![
        cand("1", None, Some("a"), Some(1)),
        cand("2", None, Some("b"), Some(1)),
        cand("1", None, Some("c"), Some(3)),
        cand("1", Some(17423), None, None),
        cand("2", None, Some("d"), Some(1)),
    ];
    assert_eq!(dedup_chapters(&cs), vec![3, 1]);
}

#[test]
fn dot_response_checks() {
    assert_eq!(check_response(200, None), Ok(()));
    assert_eq!(check_response(403, Some("challenge")), Err(FetchError::Challenge));
    assert_eq!(check_response(403, Some("other")), Err(FetchError::Status(403)));
    assert_eq!(check_response(403, None), Err(FetchError::Status(403)));
    assert_eq!(check_response(500, Some("challenge")), Err(FetchError::Status(500)));
    assert_eq!(check_response(399, None), Ok(()));
    assert_eq!(fetch_error_message(FetchError::Status(404)), "Response Error: 404");
    assert!(fetch_error_message(FetchError::Challenge).starts_with("Response returned CF challenge page"));
}

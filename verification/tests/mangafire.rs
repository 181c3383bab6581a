use aidoku_sources::mangafire::sign;

#[test]
fn signs_titles_query() {
    assert_eq!(
        sign(
            "/titles?content_rating[0]=safe&content_rating[1]=suggestive&limit=30&order[chapter_updated_at]=desc&page=1"
        )
        .unwrap(),
        "8sK3xtqdFZdOu6WNqS1bZ0shnUDqyRXMnh4NlZ7aYCPUhmAbm1C1qPzeL_OIIf0obIggCZIHJHIF_VdaYGWoz1D2WyKu2XhBqaoQcC-UzOL9vlMOE6MXU01kzYuIPwgPSvk_Z55Rw17nfA"
    );
}

use aidoku_sources::mangafire::{
    api_request, api_tags, api_url, chapter_key, chapter_title, content_rating, find_tag_id, get_languages,
    handle_deep_link, listing_url, manga_id, page_list_vrf_input, search_plan, search_url,
    status_from_text, tags_from_text, viewer_from_type, SearchError, TagRef,
};
use aidoku_sources::model::{ContentRating, DeepLink, FilterValue, MangaStatus, Viewer};

fn kv(k: &str, v: &str) -> (String, String) {
    (k.to_string(), v.to_string())
}

#[test]
fn canonical_query_sorts_and_numbers_arrays() {
    let params = vec![
        kv("page", "1"),
        kv("content_rating[]", "safe"),
        kv("order[chapter_updated_at]", "desc"),
        kv("limit", "30"),
        kv("content_rating[]", "suggestive"),
    ];
    let (sorted, canonical, vrf) = api_request("/titles", params);
    assert_eq!(
        sorted,
        vec![
            kv("content_rating[]", "safe"),
            kv("content_rating[]", "suggestive"),
            kv("limit", "30"),
            kv("order[chapter_updated_at]", "desc"),
            kv("page", "1")
        ]
    );
    assert_eq!(
        canonical,
        "/titles?content_rating[0]=safe&content_rating[1]=suggestive&limit=30&order[chapter_updated_at]=desc&page=1"
    );
    assert_eq!(
        vrf.unwrap(),
        "8sK3xtqdFZdOu6WNqS1bZ0shnUDqyRXMnh4NlZ7aYCPUhmAbm1C1qPzeL_OIIf0obIggCZIHJHIF_VdaYGWoz1D2WyKu2XhBqaoQcC-UzOL9vlMOE6MXU01kzYuIPwgPSvk_Z55Rw17nfA"
    );
}

#[test]
fn canonical_query_without_params_is_the_path() {
    let (sorted, canonical, vrf) = api_request("/top-titles", vec![]);
    assert!(sorted.is_empty());
    assert_eq!(canonical, "/top-titles");
    assert!(vrf.is_some());
    let (_, canonical, _) = api_request("/x", vec![kv("b[]", "1"), kv("a", "2"), kv("b[]", "3"), kv("c[]", "4")]);
    assert_eq!(canonical, "/x?a=2&b[0]=1&b[1]=3&c[0]=4");
}

#[test]
fn search_plans() {
    let filters = vec![
        FilterValue::Text { id: "author".to_string(), value: "Oda Eiichiro".to_string() },
        FilterValue::Sort { id: "sort".to_string(), index: 4, ascending: false },
        FilterValue::MultiSelect {
            id: "genre[]".to_string(),
            included: vec!["1".to_string()],
            excluded: vec!["2".to_string()],
        },
        FilterValue::Select { id: "type".to_string(), value: "manga".to_string() },
    ];
    let plan = search_plan(Some("one piece"), &filters).ok().unwrap();
    assert_eq!(plan.author.as_deref(), Some("oda-eiichiro"));
    assert_eq!(
        plan.params,
        vec![kv("sort", "trending"), kv("genre[]", "1"), kv("genre[]", "-2"), kv("type", "manga")]
    );
    assert_eq!(plan.keyword.as_deref(), Some("one piece"));
    let bad = vec![FilterValue::Text { id: "title".to_string(), value: "x".to_string() }];
    assert_eq!(search_plan(None, &bad).err(), Some(SearchError::InvalidTextFilter));
    let bad = vec![FilterValue::Sort { id: "sort".to_string(), index: 10, ascending: false }];
    assert_eq!(search_plan(None, &bad).err(), Some(SearchError::InvalidSortIndex));
    let ps = vec![("sort".to_string(), "x".to_string()), ("genre[]".to_string(), "a b".to_string())];
    assert_eq!(search_url(Some("oda"), 2, &ps), "https://mangafire.to/author/oda?page=2&sort=x&genre%5b%5d=a%20b");
    assert_eq!(search_url(None, 1, &vec![]), "https://mangafire.to/filter?page=1&");
}

#[test]
fn details() {
    assert_eq!(status_from_text(Some("Releasing")), MangaStatus::Ongoing);
    assert_eq!(status_from_text(Some("On_Hiatus")), MangaStatus::Hiatus);
    assert_eq!(status_from_text(Some("discontinued")), MangaStatus::Cancelled);
    assert_eq!(status_from_text(None), MangaStatus::Unknown);
    assert_eq!(content_rating(&Some(vec!["Action".to_string(), "Ecchi".to_string()])), ContentRating::Suggestive);
    assert_eq!(content_rating(&Some(vec!["Action".to_string()])), ContentRating::Unknown);
    assert_eq!(viewer_from_type(Some("Manhwa")), Viewer::Webtoon);
    assert_eq!(viewer_from_type(Some("Manga")), Viewer::RightToLeft);
    assert_eq!(tags_from_text("Action, Comedy ,Drama"), vec!["Action".to_string(), "Comedy".to_string(), "Drama".to_string()]);
    assert_eq!(manga_id("https://mangafire.to/manga/one-piecee.dkw "), "dkw");
    assert_eq!(chapter_title("Chap 12: The End ", "12"), "The End");
    assert_eq!(chapter_title("Chapter 12", "12"), "Chapter 12");
    assert_eq!(chapter_key("4455"), "chapter/4455");
    assert_eq!(page_list_vrf_input("chapter/4455"), "chapter@4455");
}

#[test]
fn mangafire_deep_links() {
    match handle_deep_link("https://mangafire.to/manga/one-piecee.dkw") {
        Some(DeepLink::Manga { key }) => assert_eq!(key, "/manga/one-piecee.dkw"),
        _ => panic!("expected a title"),
    }
    match handle_deep_link("https://mangafire.to/read/one-piecee.dkw/en/chapter-1") {
        Some(DeepLink::Manga { key }) => assert_eq!(key, "/manga/one-piecee.dkw"),
        _ => panic!("expected a title"),
    }
    assert!(handle_deep_link("https://mangafire.to/home").is_none());
    assert!(handle_deep_link("https://other.to/manga/x").is_none());
}

#[test]
fn listings_tags_languages() {
    assert_eq!(listing_url("Newest", 2).as_deref(), Some("https://mangafire.to/newest?page=2"));
    assert_eq!(listing_url("Other", 2), None);
    let tags = vec![
        TagRef { id: "1".to_string(), tag_type: "genre".to_string(), name: "Action Plus".to_string() },
        TagRef { id: "2".to_string(), tag_type: "genre".to_string(), name: "ACTION".to_string() },
        TagRef { id: "3".to_string(), tag_type: "theme".to_string(), name: "action".to_string() },
    ];
    assert_eq!(find_tag_id(&tags, "action", "genre").as_deref(), Some("2"));
    assert_eq!(find_tag_id(&tags, "drama", "genre").as_deref(), Some("1"));
    assert_eq!(find_tag_id(&tags, "drama", "type"), None);
    assert_eq!(
        api_tags(Some(vec!["A".to_string()]), Some(vec!["B".to_string()])),
        vec!["A".to_string(), "B".to_string()]
    );
    assert_eq!(api_tags(None, None), Vec::<String>::new());
    assert_eq!(
        get_languages(vec!["en".to_string(), "pt-BR".to_string(), "es-419".to_string()]),
        vec!["en".to_string(), "pt-br".to_string(), "es-la".to_string()]
    );
}

#[test]
fn api_address_encodes_sorted_params_and_signs() {
    let params = vec![kv("page", "1"), kv("content_rating[]", "safe")];
    let (_, _, vrf) = api_request("/titles", params.clone());
    assert_eq!(
        api_url("/titles", params).unwrap(),
        format!("https://mangafire.to/api/titles?content_rating%5b%5d=safe&page=1&vrf={}", vrf.unwrap())
    );
    let (_, _, vrf) = api_request("/top-titles", vec![]);
    assert_eq!(api_url("/top-titles", vec![]).unwrap(), format!("https://mangafire.to/api/top-titles?vrf={}", vrf.unwrap()));
}

#[test]
fn merged_results_keep_first_of_each_key() {
    let keys: Vec<String> = ["a", "b", "a", "c", "b"].iter().map(|s| s.to_string()).collect();
    assert_eq!(aidoku_sources::mangafire::first_key_positions(&keys), vec![0, 1, 3]);
    assert!(aidoku_sources::mangafire::first_key_positions(&vec![]).is_empty());
}

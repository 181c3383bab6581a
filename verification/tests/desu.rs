use aidoku_sources::desu::{
    api_url, base_url, chapter_url, handle_deep_link, has_next_page, read_answer, search_params,
    title_url, Answer,
};
use aidoku_sources::model::FilterValue;

fn pairs(v: &[(&str, &str)]) -> Vec<(String, String)> {
    v.iter().map(|(a, b)| (a.to_string(), b.to_string())).collect()
}

#[test]
fn desu_addresses() {
    assert_eq!(base_url(None), "https://desu.uno");
    assert_eq!(api_url(Some("desu.me")), "https://desu.me/manga/api");
    assert_eq!(title_url("https://desu.uno/manga/api", "42"), "https://desu.uno/manga/api/42");
    assert_eq!(chapter_url("https://desu.uno/manga/api", "42", "7"), "https://desu.uno/manga/api/42/chapter/7");
}

#[test]
fn desu_search_params() {
    let filters = vec![
        FilterValue::Sort { id: "sort".to_string(), index: 2, ascending: false },
        FilterValue::MultiSelect {
            id: "genres".to_string(),
            included: vec!["action".to_string()],
            excluded: vec!["drama".to_string()],
        },
        FilterValue::MultiSelect {
            id: "kinds".to_string(),
            included: vec!["manga".to_string(), "manhwa".to_string()],
            excluded: vec![],
        },
        FilterValue::MultiSelect { id: "tags".to_string(), included: vec!["x".to_string()], excluded: vec![] },
        FilterValue::Select { id: "status".to_string(), value: "ongoing".to_string() },
    ];
    assert_eq!(
        search_params(Some("abc"), 2, &filters),
        pairs(&[
            ("limit", "20"),
            ("page", "2"),
            ("search", "abc"),
            ("kinds", "manga,manhwa"),
            ("status", "ongoing"),
            ("order", "popular"),
            ("genres", "action,!drama,x"),
        ])
    );
    assert_eq!(search_params(None, 1, &[]), pairs(&[("limit", "20"), ("order", "updated")]));
    assert!(has_next_page(20));
    assert!(!has_next_page(19));
    assert_eq!(read_answer(true, true), Answer::Error);
    assert_eq!(read_answer(false, true), Answer::Response);
    assert_eq!(read_answer(false, false), Answer::Nothing);
}

#[test]
fn desu_deep_links() {
    let base = "https://desu.uno";
    assert_eq!(handle_deep_link("https://desu.uno/manga/one-piece.1", base), Some(Some("one-piece.1".to_string())));
    assert_eq!(handle_deep_link("https://desu.uno/manga/api/x.5/chapter", base), Some(Some("x.5".to_string())));
    assert_eq!(handle_deep_link("https://desu.uno/manga/plain", base), Some(None));
    assert_eq!(handle_deep_link("https://other.org/manga/x.1", base), None);
}

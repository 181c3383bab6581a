use aidoku_sources::bilimanga::{chapter_number_candidates, extract_key};
use aidoku_sources::bilimanga::Url;
use aidoku_sources::model::FilterValue;

const BASE: &str = "https://www.bilimanga.net";

fn select(id: &str, value: &str) -> FilterValue {
    FilterValue::Select { id: id.to_string(), value: value.to_string() }
}

#[test]
fn query_searches_title() {
    let url = Url::from_query_or_filters(Some("三体"), 1, &[]);
    assert_eq!(url.to_url(BASE), "https://www.bilimanga.net/search.html?searchkey=%e4%b8%89%e4%bd%93");
    assert_eq!(
        url.search_referer(BASE).as_deref(),
        Some("https://www.bilimanga.net/search.html?searchkey=%e4%b8%89%e4%bd%93")
    );
    let url = Url::from_query_or_filters(Some("abc"), 3, &[]);
    assert_eq!(url.to_url(BASE), "https://www.bilimanga.net/search/abc_3.html");
}

#[test]
fn no_filters_gives_default_catalogue() {
    let url = Url::from_query_or_filters(None, 2, &[]);
    assert_eq!(url.to_url(BASE), "https://www.bilimanga.net/filter/lastupdate_0_0_0_0_0_0_0_2_0.html");
    assert_eq!(url.search_referer(BASE), None);
}

#[test]
fn selects_set_their_parameters() {
    let filters = vec![
        select("连载状态", "1"),
        select("是否动画", "2"),
        select("是否轻改", "3"),
        select("文库地区", "4"),
        select("更新时间", "5"),
        select("作品分类", "6"),
        select("genre", "魔法"),
        FilterValue::Sort { id: "排序".to_string(), index: 2, ascending: false },
    ];
    let url = Url::from_query_or_filters(None, 1, &filters);
    assert_eq!(url.to_url(BASE), "https://www.bilimanga.net/filter/weekvisit_5_1_2_4_6_5_3_1_0.html");
}

#[test]
fn unknown_genre_and_out_of_range_sort_change_nothing() {
    let filters = vec![
        select("genre", "不存在"),
        FilterValue::Sort { id: "排序".to_string(), index: 10, ascending: false },
        FilterValue::Sort { id: "排序".to_string(), index: -1, ascending: false },
    ];
    let url = Url::from_query_or_filters(None, 1, &filters);
    assert_eq!(url.to_url(BASE), "https://www.bilimanga.net/filter/lastupdate_0_0_0_0_0_0_0_1_0.html");
}

#[test]
fn last_genre_and_theme_join() {
    let url = Url::from_query_or_filters(None, 1, &[select("genre", "超自然")]);
    assert_eq!(url.to_url(BASE), "https://www.bilimanga.net/filter/lastupdate_65_0_0_0_0_0_0_1_0.html");
    let themes = FilterValue::MultiSelect {
        id: "作品主题".to_string(),
        included: vec!["12".to_string(), "34".to_string()],
        excluded: vec![],
    };
    let url = Url::from_query_or_filters(None, 1, &[themes]);
    assert_eq!(url.to_url(BASE), "https://www.bilimanga.net/filter/lastupdate_12-34_0_0_0_0_0_0_1_0.html");
}

#[test]
fn first_text_filter_wins() {
    let filters = vec![
        select("连载状态", "1"),
        FilterValue::Text { id: "author".to_string(), value: "佚名".to_string() },
        FilterValue::Text { id: "title".to_string(), value: "x".to_string() },
    ];
    let url = Url::from_query_or_filters(None, 1, &filters);
    assert_eq!(url.to_url(BASE), "https://www.bilimanga.net/author/%e4%bd%9a%e5%90%8d.html");
    let filters = vec![FilterValue::Text { id: "title".to_string(), value: "x".to_string() }];
    let url = Url::from_query_or_filters(None, 4, &filters);
    assert_eq!(url.to_url(BASE), "https://www.bilimanga.net/search/x_4.html");
}

#[test]
fn page_addresses() {
    assert_eq!(Url::manga("12".to_string()).to_url(BASE), "https://www.bilimanga.net/detail/12.html");
    assert_eq!(Url::chapter_list("12".to_string()).to_url(BASE), "https://www.bilimanga.net/read/12/catalog");
    assert_eq!(
        Url::chapter("12".to_string(), "345".to_string()).to_url(BASE),
        "https://www.bilimanga.net/read/12/345.html"
    );
}

#[test]
fn bilimanga_chapter_numbers_and_keys() {
    assert_eq!(chapter_number_candidates("第１２．５话"), vec!["12.5".to_string()]);
    assert_eq!(chapter_number_candidates("Vol. 3"), vec!["3".to_string()]);
    assert!(chapter_number_candidates("序章").is_empty());
    assert_eq!(extract_key("/read/12/345.html"), "345");
    assert_eq!(extract_key("///"), "");
}

#[test]
fn searched_text_is_uri_encoded() {
    let url = Url::from_query_or_filters(Some("a b&c/d?é"), 2, &[]);
    assert_eq!(url.to_url(BASE), "https://www.bilimanga.net/search/a%20b&c/d?%c3%a9_2.html");
}

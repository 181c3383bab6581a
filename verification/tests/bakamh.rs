use aidoku_sources::bakamh::{
    chapter_key, full_cover, manga_url, parse_chapter_date, relative_date, status_from_text, Url,
    DAY, HOUR, YEAR,
};
use aidoku_sources::model::{FilterValue, MangaStatus};

#[test]
fn search_and_author_addresses() {
    let url = Url::from_query_or_filters(Some("abc"), 2, &[]);
    assert_eq!(url.to_url(), "https://bakamh.com/page/2/?s=abc&post_type=wp-manga");
    let url = Url::from_query_or_filters(Some("a b#"), 1, &[]);
    assert!(url.to_url().contains("s=a%20b#"));
    let filters = vec![
        FilterValue::Text { id: "author".to_string(), value: "".to_string() },
        FilterValue::Text { id: "author".to_string(), value: "Some Author".to_string() },
    ];
    let url = Url::from_query_or_filters(None, 1, &filters);
    assert_eq!(url.to_url(), "https://bakamh.com/manga-author/some-author/page/1/");
}

#[test]
fn catalogue_addresses() {
    let filters = vec![FilterValue::Select { id: "genre".to_string(), value: "Action/Fantasy".to_string() }];
    let url = Url::from_query_or_filters(None, 3, &filters);
    assert_eq!(url.to_url(), "https://bakamh.com/manga-tag/action-fantasy/page/3/");
    let filters = vec![FilterValue::Select { id: "分类".to_string(), value: "manga".to_string() }];
    let url = Url::from_query_or_filters(None, 1, &filters);
    assert_eq!(url.to_url(), "https://bakamh.com/manga/page/1/");
    let url = Url::from_query_or_filters(None, 1, &[]);
    assert_eq!(url.to_url(), "https://bakamh.com/page/1/");
    assert_eq!(manga_url("abc"), "https://bakamh.com/manga/abc/");
}

#[test]
fn statuses_keys_and_covers() {
    assert_eq!(status_from_text(" Ongoing "), MangaStatus::Ongoing);
    assert_eq!(status_from_text("完结"), MangaStatus::Completed);
    assert_eq!(status_from_text("x"), MangaStatus::Unknown);
    assert_eq!(chapter_key("https://bakamh.com/manga/a/c-1/"), "/manga/a/c-1/");
    assert_eq!(chapter_key("http://x"), "http://x");
    assert_eq!(full_cover("https://a/b-193x278.jpg", true), "https://a/b.jpg");
    assert_eq!(full_cover("https://a/b-193x278.jpg", false), "https://a/b-193x278.jpg");
}

#[test]
fn relative_dates() {
    let now = 1_700_000_000i64;
    assert_eq!(relative_date("3 天前", now), Some(now - 3 * DAY));
    assert_eq!(relative_date("2 小時前", now), Some(now - 2 * HOUR));
    assert_eq!(relative_date("1 年前", now), Some(now - YEAR));
    assert_eq!(relative_date("剛剛", now), None);
    assert_eq!(relative_date("幾 天前", now), Some(now));
    assert_eq!(relative_date("9223372036854775807 年前", now), None);
    assert_eq!(parse_chapter_date("3 天前", Some(5), now), Some(5));
}

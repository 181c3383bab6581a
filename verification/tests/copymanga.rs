use aidoku_sources::copymanga::{
    content_key, filters_query, from_query_or_filters, full_cover, genre_filter, merge_groups,
    offset, script_key, search_api, search_has_next, search_query, sort_name, status_from_text,
    tag_text, chapter_name_parts, query_text, FilterError, GenreLink, GenreList, Plan, QueryParam, SearchType, Url,
};
use aidoku_sources::model::{FilterValue, MangaStatus};

fn pairs(ps: &[QueryParam]) -> Vec<(String, String, bool)> {
    ps.iter().map(|p| (p.key.clone(), p.value.clone(), p.encode)).collect()
}

fn p(k: &str, v: &str, e: bool) -> (String, String, bool) {
    (k.to_string(), v.to_string(), e)
}

fn no_genres() -> GenreList {
    GenreList { options: vec![], ids: None }
}

#[test]
fn offsets() {
    assert_eq!(offset(1, 50), 0);
    assert_eq!(offset(0, 50), 0);
    assert_eq!(offset(i32::MIN, 50), 0);
    assert_eq!(offset(3, 50), 100);
    assert_eq!(offset(i32::MAX, 50), i32::MAX);
    assert_eq!(sort_name(1), Some("popular"));
    assert_eq!(sort_name(2), None);
}

#[test]
fn catalogue_query() {
    let q = filters_query("", "1", "", false, "popular", 2);
    assert_eq!(
        pairs(&q),
        vec![p("status", "1", false), p("ordering", "-popular", false), p("offset", "50", false), p("limit", "50", false)]
    );
    let q = search_query(1, "海", SearchType::Author);
    assert_eq!(
        pairs(&q),
        vec![p("offset", "0", false), p("platform", "2", false), p("limit", "12", false), p("q", "海", true), p("q_type", "author", false)]
    );
}

#[test]
fn query_or_filters() {
    match from_query_or_filters(Some("abc"), 1, &[], &no_genres()) {
        Ok(Plan::Search { query }) => assert_eq!(pairs(&query)[4], p("q_type", "", false)),
        _ => panic!("expected a search"),
    }
    let genres = GenreList {
        options: vec!["全部".to_string(), "愛情".to_string()],
        ids: Some(vec!["".to_string(), "aiqing".to_string()]),
    };
    let filters = vec![
        FilterValue::Select { id: "genre".to_string(), value: "愛情".to_string() },
        FilterValue::Sort { id: "排序".to_string(), index: 0, ascending: true },
        FilterValue::Select { id: "地區".to_string(), value: "japan".to_string() },
    ];
    match from_query_or_filters(None, 1, &filters, &genres) {
        Ok(Plan::Filters { query }) => assert_eq!(
            pairs(&query),
            vec![
                p("theme", "aiqing", false),
                p("region", "japan", false),
                p("ordering", "datetime_updated", false),
                p("offset", "0", false),
                p("limit", "50", false)
            ]
        ),
        _ => panic!("expected the catalogue"),
    }
}

#[test]
fn filter_errors() {
    let e = |f: FilterValue| from_query_or_filters(None, 1, &[f], &no_genres()).err();
    assert_eq!(e(FilterValue::Text { id: "x".to_string(), value: "v".to_string() }), Some(FilterError::InvalidTextFilter));
    assert_eq!(e(FilterValue::Sort { id: "x".to_string(), index: 0, ascending: true }), Some(FilterError::InvalidSortFilter));
    assert_eq!(e(FilterValue::Sort { id: "排序".to_string(), index: 5, ascending: true }), Some(FilterError::InvalidSortIndex));
    assert_eq!(e(FilterValue::Select { id: "x".to_string(), value: "v".to_string() }), Some(FilterError::InvalidSelectFilter));
    assert_eq!(e(FilterValue::Select { id: "genre".to_string(), value: "v".to_string() }), Some(FilterError::GenreNotFound));
    assert_eq!(e(FilterValue::Other), Some(FilterError::InvalidFilter));
    let author = FilterValue::Text { id: "author".to_string(), value: "a".to_string() };
    assert!(matches!(from_query_or_filters(None, 1, &[author, FilterValue::Other], &no_genres()), Ok(Plan::Search { .. })));
}

#[test]
fn merging_groups_by_date() {
    assert!(merge_groups::<&str>(vec![]).is_none());
    let main = vec![(1, "a"), (3, "b"), (5, "c")];
    let extra = vec![(2, "x"), (4, "y"), (6, "z")];
    let merged = merge_groups(vec![main, extra]).unwrap();
    let names: Vec<&str> = merged.iter().map(|c| c.1).collect();
    assert_eq!(names, vec!["z", "c", "y", "b", "x", "a"]);
    let merged = merge_groups(vec![vec![(1, "a"), (2, "b")]]).unwrap();
    assert_eq!(merged, vec![(2, "b"), (1, "a")]);
}

#[test]
fn pages_of_the_site() {
    let genres = genre_filter(&vec![
        GenreLink { text: Some("愛情".to_string()), href: Some("/comics?theme=aiqing".to_string()) },
        GenreLink { text: None, href: Some("/comics?theme=x".to_string()) },
        GenreLink { text: Some("y".to_string()), href: Some("/comics".to_string()) },
    ]);
    assert_eq!(genres.options, vec!["全部".to_string(), "愛情".to_string()]);
    assert_eq!(genres.ids, Some(vec!["".to_string(), "aiqing".to_string()]));
    assert_eq!(search_api("x const countApi = \"/api/kb/web/searchbd/comics\"; y").as_deref(), Some("/api/kb/web/searchbd/comics"));
    assert_eq!(search_api("none"), None);
    assert!(search_has_next(0, 12, 30));
    assert!(!search_has_next(24, 12, 30));
    assert!(!search_has_next(u16::MAX, 1, 30));
    assert_eq!(script_key("var a = 'k1'; var b = 'k2';").as_deref(), Some("k1"));
    assert_eq!(content_key("var contentKey = 'abc';").as_deref(), Some("abc"));
    assert_eq!(content_key("var contentKey = 'abc"), None);
    assert_eq!(status_from_text(Some("短篇")), MangaStatus::Completed);
    assert_eq!(status_from_text(None), MangaStatus::Unknown);
    assert_eq!(full_cover("https://a/b.jpg.328x422.jpg"), "https://a/b.jpg");
    assert_eq!(tag_text("#熱血").as_deref(), Some("熱血"));
    assert_eq!(tag_text("熱血"), None);
    assert_eq!(Url::manga("k").to_url("https://www.mangacopy.com"), "https://www.mangacopy.com/comic/k");
    assert_eq!(Url::chapter_list("k").to_url("https://b"), "https://b/comicdetail/k/chapters");
    assert_eq!(Url::chapter("k", "c").to_url("https://b"), "https://b/comic/k/chapter/c");
    assert_eq!(Url::Search { api: "/api".to_string(), query: "q=1".to_string() }.to_url("https://b"), "https://b/api?q=1");
}

fn parts(kind: u8, name: &str) -> (Option<String>, Option<String>, Option<String>) {
    let p = chapter_name_parts(kind, name);
    (p.volume, p.chapter, p.title)
}

fn s(v: &str) -> Option<String> {
    Some(v.to_string())
}

#[test]
fn copymanga_chapter_name_parts() {
    assert_eq!(parts(3, "番外"), (None, None, s("番外")));
    assert_eq!(parts(3, "第1话"), (None, None, s("第1话")));
    assert_eq!(parts(0, "全一卷"), (s("1"), None, s("全一卷")));
    assert_eq!(parts(0, "全1话"), (None, s("1"), s("全1话")));
    assert_eq!(parts(0, "全一"), (None, None, s("全一")));
    assert_eq!(parts(0, "第1卷"), (s("1"), None, None));
    assert_eq!(parts(0, "第12话 标题"), (None, s("12"), s("标题")));
    assert_eq!(parts(0, "第1-3话"), (None, s("1"), s("第1-3话")));
    assert_eq!(parts(0, "特别篇"), (None, None, s("特别篇")));
    assert_eq!(parts(0, "第二卷 第十话 开始"), (s("二"), None, s("第十话 开始")));
    assert_eq!(parts(0, "第1话 再见第1话"), (None, s("1"), s("再见")));
    assert_eq!(parts(0, "连载5.5回"), (None, s("5.5"), None));
}

#[test]
fn copymanga_query_text_encodes_marked_values() {
    let q = query_text(&search_query(1, "海 贼", SearchType::All));
    assert_eq!(q, "offset=0&platform=2&limit=12&q=%e6%b5%b7%20%e8%b4%bc&q_type=");
}

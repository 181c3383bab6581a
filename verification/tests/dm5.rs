use aidoku_sources::dm5::{
    collect_page_urls, cover_from_style, extract_var, handle_deep_link, image_referer,
    image_script_url, last_segment, read_chapter_script, reader_base, status_from_text,
    ScriptError, Url,
};
use aidoku_sources::model::{DeepLink, FilterValue, MangaStatus};

fn select(id: &str, value: &str) -> FilterValue {
    FilterValue::Select { id: id.to_string(), value: value.to_string() }
}

#[test]
fn catalogue_segments_in_fixed_order() {
    let filters = vec![
        FilterValue::Sort { id: "排序".to_string(), index: 1, ascending: false },
        select("收费", "pay1"),
        select("genre", "搞笑"),
        select("地区", "area35"),
    ];
    let url = Url::from_query_or_filters(None, 2, &filters);
    assert_eq!(url.to_url(), "https://www.dm5.com/manhua-list-area35-tag37-pay1-s2-p2/");
    let url = Url::from_query_or_filters(None, 1, &[]);
    assert_eq!(url.to_url(), "https://www.dm5.com/manhua-list-p1/");
    let filters = vec![
        FilterValue::Sort { id: "排序".to_string(), index: 1, ascending: false },
        FilterValue::Sort { id: "排序".to_string(), index: 7, ascending: false },
        select("genre", "不存在"),
    ];
    let url = Url::from_query_or_filters(None, 1, &filters);
    assert_eq!(url.to_url(), "https://www.dm5.com/manhua-list-p1/");
}

#[test]
fn search_and_manga_addresses() {
    let url = Url::from_query_or_filters(Some("海贼"), 3, &[select("地区", "x")]);
    assert_eq!(url.to_url(), "https://www.dm5.com/search?title=%e6%b5%b7%e8%b4%bc&language=1&page=3");
    assert_eq!(Url::manga("manhua-yirenzhixia".to_string()).to_url(), "https://www.dm5.com/manhua-yirenzhixia");
}

#[test]
fn image_referers() {
    assert_eq!(image_referer("https://img.dm5.com/1.jpg?cid=12345&key=9"), "https://www.dm5.com/m12345");
    assert_eq!(image_referer("https://img.dm5.com/1.jpg"), "https://www.dm5.com");
}

#[test]
fn dm5_deep_links() {
    match handle_deep_link("https://www.dm5.com/manhua-abc/") {
        Some(DeepLink::Manga { key }) => assert_eq!(key, "manhua-abc"),
        _ => panic!("expected a title"),
    }
    match handle_deep_link("https://www.dm5.com/m123/456") {
        Some(DeepLink::Chapter { manga_key, key }) => {
            assert_eq!(manga_key, "m123");
            assert_eq!(key, "456");
        }
        _ => panic!("expected a chapter"),
    }
    assert!(handle_deep_link("https://www.dm5.com/search?x").is_none());
    assert!(handle_deep_link("https://www.dm5.com/").is_none());
}

#[test]
fn page_details() {
    assert_eq!(status_from_text("连载中"), MangaStatus::Ongoing);
    assert_eq!(status_from_text("已完结"), MangaStatus::Completed);
    assert_eq!(status_from_text("?"), MangaStatus::Unknown);
    assert_eq!(last_segment("/manhua-abc/").as_deref(), Some("manhua-abc"));
    assert_eq!(last_segment("//"), None);
    assert_eq!(
        cover_from_style("background: url(https://c.dm5.com/a.jpg) no-repeat").as_deref(),
        Some("https://c.dm5.com/a.jpg")
    );
    assert_eq!(cover_from_style("color: red"), None);
}

#[test]
fn reader_script() {
    let script = "var DM5_MID=42; var DM5_CID=100;var DM5_IMAGE_COUNT=3;var DM5_VIEWSIGN_DT=\"2024-01-01 10:00\";var DM5_VIEWSIGN=\"abc\";";
    assert_eq!(extract_var(script, "DM5_CID").as_deref(), Some("100"));
    assert_eq!(extract_var(script, "DM5_VIEWSIGN_DT").as_deref(), Some("2024-01-01 10:00"));
    assert_eq!(extract_var(script, "DM5_OTHER"), None);
    let c = read_chapter_script(script).ok().expect("readable");
    assert_eq!(c.cid, "100");
    assert_eq!(c.mid, "42");
    assert_eq!(c.sign, "abc");
    assert_eq!(c.image_count, 3);
    assert_eq!(read_chapter_script("var DM5_MID=1;").err(), Some(ScriptError::NotAvailable));
    assert_eq!(
        read_chapter_script("var DM5_VIEWSIGN_DT=1;var DM5_CID=1;var DM5_MID=1;var DM5_VIEWSIGN=s;").err(),
        Some(ScriptError::ImageCountNotFound)
    );
    assert_eq!(
        read_chapter_script("var DM5_VIEWSIGN_DT=1;var DM5_CID=1;var DM5_MID=1;var DM5_VIEWSIGN=s;var DM5_IMAGE_COUNT=x;").err(),
        Some(ScriptError::ImageCountNotFound)
    );
    assert_eq!(read_chapter_script("DM5_VIEWSIGN_DT").err(), Some(ScriptError::CidNotFound));
    let base = reader_base("/m100/?from=x");
    assert_eq!(base, "https://www.dm5.com/m100/");
    assert_eq!(
        image_script_url(&base, &c, 1),
        "https://www.dm5.com/m100//chapterfun.ashx?cid=100&page=1&key=&language=1&gtk=6&_cid=100&_mid=42&_dt=2024-01-01 10:00&_sign=abc"
    );
}

#[test]
fn image_script_results() {
    let mut pages = Vec::new();
    collect_page_urls(&mut pages, 3, " [\"https://a/1.jpg\", \"x\",\"http://a/2.jpg\"] ");
    assert_eq!(pages, vec!["https://a/1.jpg".to_string(), "http://a/2.jpg".to_string()]);
    collect_page_urls(&mut pages, 3, "[\"https://a/3.jpg\",\"https://a/4.jpg\"]");
    assert_eq!(pages.len(), 3);
    assert_eq!(pages[2], "https://a/3.jpg");
}

#[test]
fn dm5_chapter_numbers() {
    assert_eq!(aidoku_sources::dm5::chapter_number_text("第 7 话").as_deref(), Some("7"));
    assert_eq!(aidoku_sources::dm5::chapter_number_text("番外"), None);
}

use aidoku_sources::model::{FilterValue, HomeKind};
use aidoku_sources::wpsites::{
    last_path_segment, manga_page, nettruyen_chapter_page, nettruyen_search, truyen3q_id,
    truyen3q_search, truyenqq_chapter_id, truyenqq_chapter_page, truyenqq_cookie,
    truyenqq_manga_id, truyenqq_search, zettruyen_chapter_page, zettruyen_manga_id,
    zettruyen_search, zettruyen_chapter_slug, zettruyen_chapter_url, zettruyen_chapters_url,
    zettruyen_home_layout, zettruyen_more_chapters, zettruyen_related_url, zettruyen_top_sections,
    zettruyen_top_url, zettruyen_kind, zettruyen_sections, TopPeriod, ZetSection,
};

fn s(x: &str) -> String {
    x.to_string()
}

#[test]
fn wp_ids() {
    assert_eq!(truyenqq_manga_id("https://truyenqqno.com/truyen-tranh/abc-123/xyz"), "abc-123");
    assert_eq!(truyenqq_manga_id("https://truyenqqno.com/other"), "");
    assert_eq!(zettruyen_manga_id("https://z/truyen-tranh/abc.html"), "abc");
    assert_eq!(truyenqq_chapter_id("https://t/truyen-tranh/abc-chap-3-chap-12.html"), "12");
    assert_eq!(truyenqq_chapter_id("https://t/abc"), "");
    assert_eq!(last_path_segment("https://n/truyen-tranh/abc/chapter-1//"), "chapter-1");
    assert_eq!(truyen3q_id("https://t/truyen/abc"), "abc");
    assert_eq!(truyen3q_id("https://t/truyen/abc/"), "");
}

#[test]
fn wp_pages() {
    assert_eq!(truyenqq_cookie(Some("123/")), "visit-read=123");
    assert_eq!(truyenqq_cookie(None), "visit-read=");
    assert_eq!(manga_page("https://b", "k"), "https://b/truyen-tranh/k");
    assert_eq!(truyenqq_chapter_page("k", "5"), "https://truyenqqno.com/truyen-tranh/k-chap-5");
    assert_eq!(nettruyen_chapter_page("k", "c"), "https://nettruyenviet2.com/truyen-tranh/k/c");
    assert_eq!(zettruyen_chapter_page("k", "chapter-7"), "https://www.zettruyen.space/truyen-tranh/k/chuong-7");
}

#[test]
fn wp_searches() {
    let r = truyenqq_search(Some("abc"), 2, &[]);
    assert_eq!(r.path, "/tim-kiem/trang-2.html");
    assert_eq!(r.params, vec![(s("q"), Some(s("abc"))), (s("post_type"), Some(s("wp-manga")))]);
    let filters = vec![
        FilterValue::MultiSelect { id: s("g"), included: vec![s("1"), s("2")], excluded: vec![] },
        FilterValue::Text { id: s("title"), value: s("") },
        FilterValue::Sort { id: s("sort"), index: 3, ascending: false },
    ];
    let r = truyenqq_search(None, 1, &filters);
    assert_eq!(r.path, "/tim-kiem-nang-cao/trang-1.html");
    assert_eq!(
        r.params,
        vec![
            (s("q"), None),
            (s("post_type"), Some(s("wp-manga"))),
            (s("category"), Some(s("1,2"))),
            (s("notcategory"), Some(s(""))),
            (s("sort"), Some(s("3")))
        ]
    );
    let filters = vec![FilterValue::Text { id: s("title"), value: s("naruto") }];
    let r = truyenqq_search(None, 4, &filters);
    assert_eq!(r.path, "/tim-kiem/trang-4.html");
    assert_eq!(r.params, vec![(s("q"), Some(s("naruto")))]);

    let r = nettruyen_search(None, 3, &[FilterValue::Select { id: s("tag"), value: s("action") }, FilterValue::Select { id: s("status"), value: s("1") }]);
    assert_eq!(r.path, "/tim-truyen/action");
    assert_eq!(r.params[3], (s("status"), Some(s("1"))));
    let r = nettruyen_search(Some("x"), 1, &[]);
    assert_eq!(r.path, "/tim-truyen");
    assert_eq!(r.params[0], (s("keyword"), Some(s("x"))));

    let r = zettruyen_search(Some("x"), 1, &[FilterValue::MultiSelect { id: s("g"), included: vec![s("a")], excluded: vec![s("b")] }]);
    assert_eq!(r.path, "/tim-kiem-nang-cao");
    assert_eq!(r.params, vec![(s("name"), Some(s("x"))), (s("page"), Some(s("1"))), (s("category"), Some(s("a")))]);

    let r = truyen3q_search(None, 2, &[]);
    assert_eq!(r.path, "/tim-kiem-nang-cao/");
    assert_eq!(r.params, vec![(s("keyword"), None), (s("page"), Some(s("2"))), (s("post_type"), Some(s("wp-manga")))]);
}

#[test]
fn zettruyen_home_and_chapter_lists() {
    let layout = zettruyen_home_layout();
    assert_eq!(layout.len(), 6);
    assert_eq!(layout[0], (None, HomeKind::BigScroller));
    assert_eq!(layout[5], (Some("Mới cập nhật"), HomeKind::MangaChapterList { page_size: None }));
    let top = zettruyen_top_sections();
    assert_eq!(top, vec![("Top", TopPeriod::All), ("Top ngày", TopPeriod::Day), ("Top tháng", TopPeriod::Month), ("Top tuần", TopPeriod::Week)]);
    assert_eq!(zettruyen_top_url(), "https://www.zettruyen.space/api/comics/top");
    assert_eq!(zettruyen_related_url(), "https://www.zettruyen.space/api/comics/related?limit=10");
    assert_eq!(
        zettruyen_chapters_url("abc", 3),
        "https://www.zettruyen.space/api/comics/abc/chapters?page=3&per_page=100&order=desc"
    );
    assert_eq!(zettruyen_chapter_slug(Some("12"), "chapter-12"), "chuong-12");
    assert_eq!(zettruyen_chapter_slug(None, "chapter-7-chapter-8"), "chuong-7-chuong-8");
    assert_eq!(zettruyen_chapter_url("abc", "chuong-12"), "https://www.zettruyen.space/truyen-tranh/abc/chuong-12");
    assert!(zettruyen_more_chapters(1, 3, 100));
    assert!(!zettruyen_more_chapters(3, 3, 100));
    assert!(!zettruyen_more_chapters(1, 3, 25));
}

#[test]
fn search_addresses_are_encoded() {
    assert_eq!(
        truyenqq_search(Some("one piece"), 1, &[]).to_url("https://truyenqq.com"),
        "https://truyenqq.com/tim-kiem/trang-1.html?q=one%20piece&post_type=wp-manga"
    );
    assert_eq!(
        truyenqq_search(None, 1, &[]).to_url("https://truyenqq.com"),
        "https://truyenqq.com/tim-kiem/trang-1.html?q&post_type=wp-manga"
    );
    let title = vec![FilterValue::Text { id: "title".to_string(), value: "Đảo".to_string() }];
    assert_eq!(
        truyenqq_search(None, 2, &title).to_url("https://truyenqq.com"),
        "https://truyenqq.com/tim-kiem/trang-2.html?q=%c4%90%e1%ba%a3o"
    );
}

#[test]
fn zettruyen_home_sections_as_sent() {
    let s = zettruyen_sections(&vec![3, 0, 1]);
    assert_eq!(
        s,
        vec![
            ZetSection::Slider(0),
            ZetSection::Slider(2),
            ZetSection::Top(TopPeriod::All),
            ZetSection::Top(TopPeriod::Day),
            ZetSection::Top(TopPeriod::Month),
            ZetSection::Top(TopPeriod::Week),
            ZetSection::Latest,
        ]
    );
    assert_eq!(zettruyen_kind(ZetSection::Latest), HomeKind::MangaChapterList { page_size: Some(4) });
    assert_eq!(zettruyen_kind(ZetSection::Slider(1)), HomeKind::BigScroller);
    assert_eq!(zettruyen_sections(&vec![]).len(), 5);
}

#[test]
fn truyenqq_ids_round_trip() {
    let page = truyenqq_chapter_page("one-piece-128", "1050") + ".html";
    assert_eq!(page, "https://truyenqqno.com/truyen-tranh/one-piece-128-chap-1050.html");
    assert_eq!(truyenqq_chapter_id(&page), "1050");
    assert_eq!(truyenqq_manga_id(&manga_page("https://truyenqqno.com", "one-piece-128")), "one-piece-128");
}

use aidoku_sources::cmanga::{
    chapter_images_url, chapter_list_url, chapter_url, details_url, has_next_page, home_layout,
    home_sections, next_chapter_page, search_params,
};
use aidoku_sources::model::{FilterValue, HomeKind};

fn pairs(v: &[(&str, &str)]) -> Vec<(String, String)> {
    v.iter().map(|(a, b)| (a.to_string(), b.to_string())).collect()
}

#[test]
fn cmanga_home_sections_in_order() {
    let s = home_sections();
    assert_eq!(s.len(), 9);
    assert_eq!(s[0].title, "Truyện Nổi Bật");
    assert_eq!(s[0].kind, HomeKind::BigScroller);
    assert_eq!(
        s[0].url(),
        "https://cmangax12.com/api/home_album_list?file=image&sort=update&tag=&type=hot&limit=30&page=1"
    );
    assert_eq!(s[1].kind, HomeKind::MangaChapterList { page_size: Some(3) });
    assert_eq!(s[6].url(), "https://cmangax12.com/api/home_album_top?file=image&type=fire&limit=5");
    assert_eq!(s[8].title, "Hoàn Thành");
    let l = home_layout();
    assert_eq!(l.len(), 4);
    assert_eq!(l[2], ("TMới Cập Nhật", HomeKind::Scroller));
    assert_eq!(l[1], ("VIP", HomeKind::MangaChapterList { page_size: None }));
}

#[test]
fn cmanga_search_params_with_filters() {
    let filters = vec![
        FilterValue::MultiSelect {
            id: "genre".to_string(),
            included: vec!["Action".to_string(), "DRAMA".to_string()],
            excluded: vec![],
        },
        FilterValue::Select { id: "status".to_string(), value: "1".to_string() },
        FilterValue::Check { id: "x".to_string(), value: 1 },
    ];
    assert_eq!(
        search_params(Some("one piece"), 2, &filters),
        pairs(&[
            ("type", "image"),
            ("page", "2"),
            ("limit", "20"),
            ("team", "0"),
            ("string", "one piece"),
            ("id", "action,drama"),
            ("status", "1"),
        ])
    );
    assert_eq!(
        search_params(None, -1, &[]),
        pairs(&[("type", "image"), ("page", "-1"), ("limit", "20"), ("team", "0")])
    );
}

#[test]
fn cmanga_paging_and_addresses() {
    assert!(has_next_page(41, 2));
    assert!(!has_next_page(40, 2));
    assert_eq!(next_chapter_page(1, 100), Some(2));
    assert_eq!(next_chapter_page(3, 99), None);
    assert_eq!(
        chapter_list_url("123", 2),
        "https://cmangax12.com/api/chapter_list?album=123&page=2&limit=100&v=1v16"
    );
    assert_eq!(
        details_url("9"),
        "https://cmangax12.com/api/get_data_by_id?id=9&table=album&data=info"
    );
    assert_eq!(chapter_url("https://cmangax12.com/album/x-9", "77", "3.5"), "https://cmangax12.com/album/x-9/chapter-77-3.5");
    assert_eq!(chapter_images_url("77"), "https://cmangax12.com/api/chapter_image?chapter=77&v=0");
}

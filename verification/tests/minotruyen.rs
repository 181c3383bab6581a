use aidoku_sources::minotruyen::{
    capitalize, chapter_page_url, chapters_url, details_url, extract_data_chapter_block,
    extract_next_object, featured_url, flight_payload, get_viewer, has_next_page, home_layout, home_sections,
    is_manga, latest_page_url, latest_script, needs_drm, search_params, select_server,
    side_home_url,
};
use aidoku_sources::model::{ContentRating, FilterValue, HomeKind, Viewer};

#[test]
fn mino_next_object() {
    let script = r#"a {"x":1} b {"y":{"z":2}} c"#;
    assert_eq!(extract_next_object(script, None).as_deref(), Some(r#"{"x":1}"#));
    assert_eq!(extract_next_object(script, Some(3)).as_deref(), Some(r#"{"y":{"z":2}}"#));
    assert_eq!(extract_next_object(r#"x {\"k\":\"v\"} y"#, None).as_deref(), Some(r#"{"k":"v"}"#));
    assert_eq!(extract_next_object("no object {", None), None);
}

#[test]
fn mino_helpers() {
    assert_eq!(capitalize("manga"), "Manga");
    assert_eq!(capitalize(""), "");
    assert_eq!(capitalize("ßa"), "SSa");
    let cats = vec!["Ecchi".to_string(), "Manhwa".to_string()];
    assert_eq!(get_viewer(&cats, "manga"), (ContentRating::Suggestive, Viewer::Webtoon));
    let cats = vec!["Adult".to_string(), "16+".to_string()];
    assert_eq!(get_viewer(&cats, "comic"), (ContentRating::NSFW, Viewer::LeftToRight));
    assert_eq!(get_viewer(&vec![], "manga"), (ContentRating::Unknown, Viewer::RightToLeft));
    let block = format!("x \"{}:payload-1\" y", "0123456789abcdef0123456789abcdef");
    assert_eq!(extract_data_chapter_block(&block).as_deref(), Some("payload-1"));
    assert_eq!(extract_data_chapter_block("none"), None);
}

#[test]
fn minotruyen_home_and_addresses() {
    assert!(is_manga(Some("manga")));
    assert!(!is_manga(Some("comics")));
    assert!(!is_manga(None));
    assert_eq!(home_layout()[1], ("Mới Cập Nhật", HomeKind::MangaChapterList { page_size: None }));
    let s = home_sections();
    assert_eq!(s[1], ("Top", HomeKind::MangaList { ranking: true, page_size: Some(3) }));
    assert_eq!(s[2], ("Mới Cập Nhật", HomeKind::MangaChapterList { page_size: Some(4) }));
    assert_eq!(featured_url(true), "https://api.cloudkk.art/api/books/top/featured?category=manga&take=10");
    assert_eq!(side_home_url(false), "https://api.cloudkk.art/api/books/side-home?category=comics");
    assert_eq!(latest_page_url(true), "https://minotruyenv5.xyz/manga");
    assert_eq!(details_url("truyen/abc-12"), "https://minotruyenv5.xyz/truyen/books/abc-12");
    assert_eq!(chapters_url("truyen/abc-12"), "https://api.cloudkk.art/api/chapters/12?order=desc&take=5000");
    assert_eq!(chapter_page_url("truyen/abc-12", "c9"), "https://minotruyenv5.xyz/truyen/books/abc-12/c9");
}

#[test]
fn minotruyen_latest_script_and_payload() {
    let scripts = vec![
        Some("<script>self.__next_f.push([1,\"28:[[a]]\"])</script>".to_string()),
        None,
        Some("<script>other</script>".to_string()),
        Some("<script>self.__next_f.push([1,\"28:[[b]]\"])</script>".to_string()),
    ];
    assert_eq!(latest_script(&scripts), Some(3));
    assert_eq!(latest_script(&vec![None]), None);
    let script = format!("{}{}{}", "a".repeat(43), "[\\\"x\\\"]", "b".repeat(14));
    assert_eq!(flight_payload(&script), Some("[\"x\"]".to_string()));
}

#[test]
fn minotruyen_search_and_servers() {
    let filters = vec![
        FilterValue::MultiSelect {
            id: "genre".to_string(),
            included: vec!["action".to_string(), "drama".to_string()],
            excluded: vec![],
        },
        FilterValue::MultiSelect {
            id: "genre".to_string(),
            included: vec![],
            excluded: vec!["horror".to_string()],
        },
    ];
    let ps = search_params(Some("abc"), 2, Some("manga"), &filters);
    let expect: Vec<(String, Option<String>)> = vec![
        ("take".to_string(), Some("24".to_string())),
        ("page".to_string(), Some("2".to_string())),
        ("category".to_string(), Some("manga".to_string())),
        ("q".to_string(), Some("abc".to_string())),
        ("genres".to_string(), Some("action,drama".to_string())),
        ("notgenres".to_string(), Some("horror".to_string())),
    ];
    assert_eq!(ps, expect);
    let ps = search_params(None, 1, None, &[]);
    assert_eq!(ps[2], ("category".to_string(), None));
    assert_eq!(ps.len(), 3);
    assert!(has_next_page(Some(49), 2));
    assert!(!has_next_page(Some(48), 2));
    assert!(!has_next_page(None, 1));
    let clouds = vec!["TT1".to_string(), "TT2".to_string(), "TT3".to_string()];
    assert_eq!(select_server(&clouds, None), Some(1));
    assert_eq!(select_server(&clouds, Some("TT3")), Some(2));
    assert_eq!(select_server(&clouds, Some("X")), Some(0));
    assert_eq!(select_server(&vec![], None), None);
    assert!(needs_drm(Some("x")));
    assert!(!needs_drm(Some("")));
    assert!(!needs_drm(None));
}

use aidoku_sources::hako::{
    is_one_shot, page_text, part_title, remove_fragment,
    chapter_parse_id, chapter_title, cover_from_style, hides, link_notes, manga_parse_id,
    search_plan, strip_comments,
};
use aidoku_sources::model::FilterValue;

#[test]
fn ids_from_addresses() {
    assert_eq!(manga_parse_id("https://docln.net/truyen/123-abc"), "truyen/123-abc");
    assert_eq!(manga_parse_id("https://docln.net//truyen/1"), "truyen/1");
    assert_eq!(manga_parse_id("no-scheme"), "");
    assert_eq!(chapter_parse_id("/truyen/123-abc/c456-ch1"), "c456-ch1");
    assert_eq!(chapter_parse_id("https://docln.net/truyen/1/"), "");
}

#[test]
fn covers_from_styles() {
    assert_eq!(cover_from_style("background-image: url('https://i.docln.net/a.jpg');"), "https://i.docln.net/a.jpg");
    assert_eq!(cover_from_style("plain"), "plain");
}

#[test]
fn hako_search_plans() {
    let plan = search_plan(Some("abc"), 2, &[]);
    assert!(!plan.advanced);
    let pairs: Vec<(String, String)> = plan.params.clone();
    assert_eq!(
        pairs,
        vec![
            ("query".to_string(), "abc".to_string()),
            ("keywords".to_string(), "abc".to_string()),
            ("title".to_string(), "abc".to_string()),
            ("page".to_string(), "2".to_string())
        ]
    );
    let filters = vec![
        FilterValue::MultiSelect {
            id: "genres".to_string(),
            included: vec!["1".to_string(), "2".to_string()],
            excluded: vec!["3".to_string()],
        },
        FilterValue::Sort { id: "sort".to_string(), index: 3, ascending: true },
        FilterValue::Select { id: "status".to_string(), value: "2".to_string() },
    ];
    let plan = search_plan(None, 1, &filters);
    assert!(plan.advanced);
    assert_eq!(plan.included, vec!["1".to_string(), "2".to_string()]);
    assert_eq!(plan.excluded, vec!["3".to_string()]);
    assert_eq!(plan.params[0].1, "");
    assert_eq!(plan.params[4], ("sort".to_string(), "3".to_string()));
    assert_eq!(plan.params[5], ("status".to_string(), "2".to_string()));
}

#[test]
fn chapter_text_clean_up() {
    assert!(hides("color: red; display: none"));
    assert!(!hides("display: block"));
    assert!(!hides("none"));
    let ids = vec!["note1".to_string()];
    assert_eq!(
        link_notes("a[note1]b[note2][x] [note]", &ids),
        "a<a id=\"anchor-note1\" href=\"#note1\" class=\"note-link\">**</a>b[note2][x] [note]"
    );
    assert_eq!(link_notes("a[note1", &ids), "a[note1");
    assert_eq!(strip_comments("a<!-- x -->b<!-- y -->c"), "abc");
    assert_eq!(strip_comments("a<!-- open"), "a<!-- open");
    assert_eq!(chapter_title("Chương 1", "Tập 2"), "Chương 1 - Tập 2");
    assert_eq!(chapter_title("Chương 1", ""), "Chương 1");
}

#[test]
fn hako_chapter_names_and_page_text() {
    assert_eq!(part_title("Chương 12: Khởi đầu", "12", "Series"), "Khởi đầu");
    assert_eq!(part_title("Tập 3 - - Tên", "3", "Series"), "Tên");
    assert_eq!(part_title("Series Ngoại truyện", "-1", "Series"), "Ngoại truyện");
    assert!(is_one_shot("ONE SHOT đặc biệt"));
    assert!(!is_one_shot("Tập 1"));
    assert_eq!(remove_fragment("a<b>x</b>c<b>x</b>", "<b>x</b>"), "ac");
    assert_eq!(remove_fragment("abc", ""), "abc");
    assert_eq!(page_text("<p>x</p>"), "<!--html--><p>x</p>");
}

#[test]
fn hako_heading_titles() {
    assert_eq!(aidoku_sources::hako::heading_title("Chương 12: - Hello ", "12", "Series"), "Hello");
    assert_eq!(aidoku_sources::hako::heading_title(" Series Extra ", "3", "Series"), "Extra");
    assert_eq!(aidoku_sources::hako::heading_title("Tập 1 - Mở đầu", "1", ""), "Mở đầu");
}

use aidoku_sources::baozimanhua::{
    artists, chapter_key, chapter_number_candidates, description, is_volume_title,
    status_from_text, viewer_from_tags, without_query,
};
use aidoku_sources::model::{MangaStatus, Viewer};

#[test]
fn baozi_artists_and_covers() {
    assert_eq!(artists("甲, 甲,乙 , ,甲"), "甲, 乙, 甲");
    assert_eq!(artists(""), "");
    assert_eq!(without_query("https://a/b.jpg?w=1&h=2"), "https://a/b.jpg");
    assert_eq!(without_query("https://a/b.jpg"), "https://a/b.jpg");
    assert_eq!(description("《一人之下》全集， 故事简介 "), "故事简介");
    assert_eq!(description("简介"), "简介");
}

#[test]
fn baozi_details() {
    assert_eq!(viewer_from_tags(&vec!["連載中".to_string(), "國漫".to_string()]), Viewer::Webtoon);
    assert_eq!(viewer_from_tags(&vec!["日本".to_string()]), Viewer::RightToLeft);
    assert_eq!(viewer_from_tags(&vec![]), Viewer::LeftToRight);
    assert_eq!(status_from_text("连载中"), MangaStatus::Ongoing);
    assert_eq!(status_from_text("已完結"), MangaStatus::Completed);
    assert_eq!(status_from_text(""), MangaStatus::Unknown);
    assert_eq!(chapter_key("/user/page_direct?comic_id=x&section_slot=0&chapter_slot=12"), "12");
    assert!(is_volume_title(" 第1卷 "));
    assert!(!is_volume_title("第1话"));
}

#[test]
fn baozi_chapter_numbers() {
    assert_eq!(chapter_number_candidates("第183话 180"), vec!["180".to_string(), "183".to_string()]);
    assert_eq!(chapter_number_candidates("12.5 番外"), vec!["12.5".to_string()]);
    assert!(chapter_number_candidates("番外").is_empty());
}

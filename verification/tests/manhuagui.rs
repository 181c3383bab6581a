use aidoku_sources::manhuagui::{
    chapter_id, chapter_number_text, chapter_title, content_rating, cover_url, manga_id,
    page_image_urls, status_from_text, viewer_from_country,
};
use aidoku_sources::model::{ContentRating, MangaStatus, Viewer};

#[test]
fn manhuagui_pages() {
    assert_eq!(manga_id("/comic/12345/"), "12345");
    assert_eq!(cover_url("12345"), "https://cf.hamreus.com/cpic/b/12345.jpg");
    assert_eq!(status_from_text("状态：已完结"), MangaStatus::Completed);
    assert_eq!(status_from_text("连载中"), MangaStatus::Ongoing);
    assert_eq!(viewer_from_country(Some("韩国")), Viewer::Webtoon);
    assert_eq!(viewer_from_country(Some("日本")), Viewer::RightToLeft);
    assert_eq!(viewer_from_country(Some("欧美")), Viewer::LeftToRight);
    assert_eq!(viewer_from_country(None), Viewer::LeftToRight);
    assert_eq!(content_rating(false, true), ContentRating::NSFW);
    assert_eq!(content_rating(false, false), ContentRating::Safe);
    assert_eq!(chapter_id("/comic/12345/678.html"), "678");
    assert_eq!(chapter_title("第1话", Some("20p")), "第1话 (20p)");
    assert_eq!(chapter_title("第1话", Some("")), "第1话");
    assert_eq!(chapter_number_text("第 12 话").as_deref(), Some("12"));
    assert_eq!(chapter_number_text("番外 3.5话").as_deref(), Some("3.5"));
    assert_eq!(chapter_number_text("番外"), None);
}

#[test]
fn manhuagui_image_addresses_encode_the_path() {
    let files = vec!["1.jpg.webp".to_string(), "2.jpg.webp".to_string()];
    assert_eq!(
        page_image_urls("/ps1/h/海贼/第1话/", &files),
        vec![
            "https://i.hamreus.com/ps1/h/%e6%b5%b7%e8%b4%bc/%e7%ac%ac1%e8%af%9d/1.jpg.webp".to_string(),
            "https://i.hamreus.com/ps1/h/%e6%b5%b7%e8%b4%bc/%e7%ac%ac1%e8%af%9d/2.jpg.webp".to_string(),
        ]
    );
}

use aidoku_sources::mangaplus::{Language, Title};
use aidoku_sources::mangaplus_source::{
    api_url, auth_params, banner_link, daily_updates_group, decode_image, directory_page, flatten,
    handle_deep_link, home_url, language_allowed, listing_kind, parse_key, search_titles,
    search_url, select_titles, title_url, uuid, uuid_bytes, viewer_url, BannerLink, ListingKind,
};

fn title(id: i32, name: &str, author: Option<&str>, language: Option<Language>) -> Title {
    Title {
        title_id: id,
        name: name.to_string(),
        author: author.map(|a| a.to_string()),
        portrait_image_url: String::new(),
        view_count: 0,
        language,
    }
}

#[test]
fn mangaplus_titles_shown_once_in_chosen_languages() {
    let ts = vec![
        title(1, "One Piece", Some("Eiichiro Oda"), Some(Language::English)),
        title(2, "Uno", None, Some(Language::Spanish)),
        title(1, "One Piece", Some("Eiichiro Oda"), Some(Language::English)),
        title(3, "Dandadan", Some("Yukinobu Tatsu"), None),
        title(4, "Kagurabachi", None, Some(Language::English)),
    ];
    let chosen = vec![Language::English];
    assert!(language_allowed(None, &chosen));
    assert!(!language_allowed(Some(Language::Spanish), &chosen));
    assert_eq!(select_titles(&ts, &chosen, None), vec![0, 3, 4]);
    assert_eq!(select_titles(&ts, &chosen, Some(2)), vec![0, 3]);
    assert_eq!(select_titles(&ts, &vec![Language::Spanish], None), vec![1, 3]);
    assert_eq!(search_titles(&ts, &chosen, Some("TATSU")), vec![3]);
    assert_eq!(search_titles(&ts, &chosen, Some("piece")), vec![0, 2]);
    assert_eq!(search_titles(&ts, &chosen, None), vec![0, 2, 3, 4]);
}

#[test]
fn mangaplus_flatten_and_directory_pages() {
    assert_eq!(flatten(vec![vec![1, 2], vec![], vec![3]]), vec![1, 2, 3]);
    assert_eq!(directory_page(45, 1), (0, 20, true));
    assert_eq!(directory_page(45, 2), (20, 40, false));
    assert_eq!(directory_page(45, 3), (40, 45, false));
    assert_eq!(directory_page(45, 4), (45, 45, false));
    assert_eq!(directory_page(61, 2), (20, 40, true));
}

#[test]
fn mangaplus_addresses() {
    assert_eq!(api_url(false), "https://jumpg-webapi.tokyo-cdn.com/api");
    assert_eq!(api_url(true), "https://jumpg-api.tokyo-cdn.com/api");
    let auth = auth_params(true, "android", "32", "97", "s3");
    assert_eq!(auth, "&os=android&os_ver=32&app_ver=97&secret=s3");
    assert_eq!(auth_params(false, "android", "32", "97", "s3"), "");
    let api = "https://jumpg-webapi.tokyo-cdn.com/api";
    assert_eq!(
        search_url(Some("id:100020"), api, ""),
        "https://jumpg-webapi.tokyo-cdn.com/api/title_detailV3?title_id=100020&format=json"
    );
    assert_eq!(
        search_url(Some("chapter-id:1000486"), "https://jumpg-api.tokyo-cdn.com/api", &auth),
        "https://jumpg-webapi.tokyo-cdn.com/api/manga_viewer?chapter_id=1000486&split=no&img_quality=low&format=json"
    );
    assert_eq!(
        search_url(Some("one"), api, ""),
        "https://jumpg-webapi.tokyo-cdn.com/api/title_list/allV2?format=json"
    );
    assert_eq!(
        title_url(api, "7", "&x=1"),
        "https://jumpg-webapi.tokyo-cdn.com/api/title_detailV3?title_id=7&format=json&x=1"
    );
    assert_eq!(
        viewer_url(api, "9", true, "high", ""),
        "https://jumpg-webapi.tokyo-cdn.com/api/manga_viewer?chapter_id=9&split=yes&img_quality=high&format=json"
    );
    assert_eq!(home_url(), "https://jumpg-webapi.tokyo-cdn.com/api/web/web_homeV4?lang=eng&clang=eng&format=json");
}

#[test]
fn mangaplus_home_banners_listings_and_links() {
    assert!(matches!(banner_link("mangaplus://open/detail?id=100171"), BannerLink::Title(ref s) if s == "100171"));
    assert!(matches!(banner_link("mangaplus://open/webview?url=https%3A%2F%2Fx"), BannerLink::Url(ref s) if s == "https://x"));
    assert!(matches!(banner_link("mangaplus://open/webview?url=a%e3%81%82%zz"), BannerLink::Url(ref s) if s == "aあ%zz"));
    assert!(matches!(banner_link("mangaplus://open/webview?url=%ff"), BannerLink::NoLink));
    assert!(matches!(banner_link("https://example.com"), BannerLink::Url(ref s) if s == "https://example.com"));
    assert!(matches!(banner_link("http://example.com"), BannerLink::NoLink));
    let names = vec!["a".to_string(), "updates_latest_title_/_updates_past_24_title".to_string()];
    assert_eq!(daily_updates_group(&names), Some(1));
    assert_eq!(daily_updates_group(&vec!["a".to_string()]), None);
    assert_eq!(listing_kind("Updates"), Some(ListingKind::Updates));
    assert_eq!(listing_kind("Ranking"), Some(ListingKind::Ranking));
    assert_eq!(listing_kind("Featured"), None);
    assert_eq!(handle_deep_link("https://mangaplus.shueisha.co.jp/titles/100171"), Some("100171".to_string()));
    assert_eq!(handle_deep_link("https://mangaplus.shueisha.co.jp/viewer/1009921?timestamp=1"), None);
    assert_eq!(handle_deep_link("https://example.com/titles/1"), None);
}

#[test]
fn mangaplus_images_unscrambled_with_key() {
    assert_eq!(parse_key(b"0aFf+1"), Some(vec![0x0a, 0xff, 0x01]));
    assert_eq!(parse_key(b"0a1"), Some(vec![0x0a, 0x01]));
    assert_eq!(parse_key(b"zz"), None);
    assert_eq!(decode_image(&[0x0a, 0x00, 0xff], b"0aff"), Some(vec![0x00, 0xff, 0xf5]));
    assert_eq!(decode_image(&[1, 2], b"g0"), None);
    assert_eq!(decode_image(&[], b""), Some(vec![]));
    let data = vec![1u8, 2, 3, 250, 0, 77];
    let once = decode_image(&data, b"3fa0c1").unwrap();
    assert_ne!(once, data);
    assert_eq!(decode_image(&once, b"3fa0c1"), Some(data));
}

#[test]
fn mangaplus_device_id_from_seed() {
    assert_eq!(
        uuid_bytes(0),
        vec![0x5f, 0xf3, 0x6e, 0x3c, 0x32, 0x29, 0x50, 0x47, 0xe9, 0xf6, 0xcc, 0xd1, 0x34, 0x53, 0xf9, 0xaa]
    );
    assert_eq!(uuid(0), "5ff36e3c-3229-4047-a9f6-ccd13453f9aa");
    assert_eq!(uuid(1700000000), "5f30b85c-3242-460e-a93b-12cc34d4fbb6");
}

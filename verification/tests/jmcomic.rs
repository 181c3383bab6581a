use aidoku_sources::jmcomic::{
    aes256_ecb_decrypt, album_path, api_auth, calc_scramble_num, chapter_path, cover_url,
    decide_viewer, derive_aes_key, domain_refresh_plaintext, domain_refresh_urls, episode_id,
    extract_id, finish_search_result, has_japanese, json_span, login_path, normalize_cdn_base,
    normalize_domain, normalize_domains, normalize_img, parse_filters, parse_query_key,
    preferred_image_shunts, promote_page_url, promote_path, resolve_cover, scramble_slices,
    search_has_next, series_key, setting_path, AlbumResp, AuthData, BlockState, ComicItem,
    JmError, PromoteGroup, QueryKey, SeriesRef,
};
use aidoku_sources::jmcomic::{
    filter_path, login_body, search_path,
    listing_plan, promote_card, promote_page, visible_mangas, CardImage, ListingPlan,
};
use aidoku_sources::model::{ContentRating, FilterValue, MangaStatus, Viewer};

fn strings(v: &[&str]) -> Vec<String> {
    v.iter().map(|s| s.to_string()).collect()
}

#[test]
fn jm_domains_and_paths() {
    assert_eq!(normalize_cdn_base(" https://cdn.example/ "), Some("https://cdn.example".to_string()));
    assert_eq!(normalize_cdn_base("ftp://x"), None);
    assert_eq!(normalize_domain(" https://a.com/ "), Some("a.com".to_string()));
    assert_eq!(normalize_domain("https://"), None);
    assert_eq!(normalize_domains(&strings(&["https://a.com/", "a.com", "http://b.com", " "])), strings(&["a.com", "b.com"]));
    assert_eq!(album_path("123"), "/album?id=123");
    assert_eq!(chapter_path("9"), "/chapter?id=9");
    assert_eq!(promote_path(2), "/promote?page=2");
    assert_eq!(setting_path(3), "/setting?app_img_shunt=3&express=");
    assert_eq!(login_path(), "/login");
    assert_eq!(cover_url("https://cdn", "5"), "https://cdn/media/albums/5_3x4.jpg");
    assert_eq!(resolve_cover("https://cdn", "5", Some("")), "https://cdn/media/albums/5_3x4.jpg");
    assert_eq!(resolve_cover("https://cdn", "5", Some("https://x/y.jpg")), "https://x/y.jpg");
    assert_eq!(domain_refresh_urls().len(), 2);
    assert_eq!(preferred_image_shunts(), vec![3, 2, 4, 1]);
    assert_eq!(promote_page_url("29", 1), "https://jmcomic-zzz.one/promotes/29");
    assert_eq!(promote_page_url("29", 3), "https://jmcomic-zzz.one/promotes/29?page=3");
}

#[test]
fn jm_request_signature_and_decryption() {
    let (token, param) = api_auth(1700000000);
    assert_eq!(token, "8be524e958f97f014ddf2a570b011305");
    assert_eq!(param, "1700000000,2.0.16");
    let plain = domain_refresh_plaintext(" IUDuVamppL1EwN4laU1BIsdnRIGizHAGhV3sP7gNkHU=\n");
    assert_eq!(plain, Some(b"{\"Server\":[\"a.com\"]}".to_vec()));
    assert_eq!(domain_refresh_plaintext("not base64!"), None);
    let key = derive_aes_key("diosfjckwpqpdfjkvnqQjsik");
    assert_eq!(aes256_ecb_decrypt(&[1, 2, 3], &key), Err(JmError::Length));
    assert_eq!(json_span(b"xx{\"a\":1}yy"), Ok(b"{\"a\":1}".to_vec()));
}

#[test]
fn jm_blocking_and_albums() {
    let block = BlockState::new(strings(&["123", "gore"]));
    assert!(!block.is_empty());
    assert!(block.is_blocked("123", &vec![]));
    assert!(block.is_blocked("9", &vec!["A gore story"]));
    assert!(!block.is_blocked("9", &vec!["Romance"]));
    assert!(!BlockState::new(strings(&["Gore"])).is_blocked("9", &vec!["A gore story"]));
    let item = ComicItem {
        id: "7".to_string(),
        name: Some("Nice".to_string()),
        author: None,
        image: None,
        description: None,
        category: None,
        category_sub: None,
    };
    assert!(!item.is_blocked(&block));
    assert!(search_has_next(81));
    assert!(!search_has_next(80));
    assert_eq!(finish_search_result(1, true), Err(JmError::NothingFound));
    assert_eq!(finish_search_result(2, true), Ok(()));
    let album = AlbumResp {
        name: Some(" Title ".to_string()),
        author: Some(strings(&["Ann"])),
        addtime: None,
        description: None,
        tags: Some(strings(&["连载中", "非H"])),
        works: None,
        series: Some(vec![SeriesRef { id: "1".to_string(), name: None }]),
    };
    assert!(!album.is_missing());
    assert_eq!(album.content_rating(), ContentRating::Safe);
    assert_eq!(album.status(), MangaStatus::Ongoing);
    assert_eq!(album.label_viewer().0, None);
    assert_eq!(decide_viewer(None, false, true, false, true, true), None);
    assert_eq!(decide_viewer(None, false, false, false, true, false), Some(Viewer::LeftToRight));
    assert!(has_japanese("ひらがな"));
    assert!(!has_japanese("漢字"));
    assert_eq!(series_key("0", "5"), "5");
    assert_eq!(series_key("8", "5"), "8");
    assert_eq!(episode_id("", "5"), "5");
    assert!(AuthData { jwt_token: " t ".to_string() }.is_valid());
    assert!(!AuthData { jwt_token: "  ".to_string() }.is_valid());
}

#[test]
fn jm_listings_queries_and_images() {
    let g = PromoteGroup {
        id: "12".to_string(),
        title: Some("Hot".to_string()),
        group_type: Some("promote".to_string()),
        slug: Some("x".to_string()),
        content_len: 3,
    };
    assert!(g.is_visible());
    let l = g.listing().unwrap();
    assert_eq!(l.id, "promo:12");
    assert_eq!(l.name, "Hot");
    assert!(PromoteGroup::is_large_listing_id("29"));
    assert!(!PromoteGroup::is_large_listing_id("1"));
    assert_eq!(normalize_img("//cdn/x.jpg"), Some("https://cdn/x.jpg".to_string()));
    assert_eq!(normalize_img("/x.jpg"), Some("https://jmcomic-zzz.one/x.jpg".to_string()));
    assert_eq!(normalize_img("https://a/blank.jpg"), None);
    assert_eq!(extract_id("https://x/album/123/title", "/album/"), Some("123".to_string()));
    assert_eq!(extract_id("https://x/album/abc", "/album/"), None);
    assert!(matches!(parse_query_key(" 42 "), Some(QueryKey::Album(ref k)) if k == "42"));
    assert!(matches!(parse_query_key("https://x/photo/77?x=1"), Some(QueryKey::Chapter(ref k)) if k == "77"));
    assert!(parse_query_key("hello").is_none());
    let filters = vec![
        FilterValue::Select { id: "sort".to_string(), value: "mv".to_string() },
        FilterValue::Select { id: "category".to_string(), value: "doujin".to_string() },
        FilterValue::Select { id: "category".to_string(), value: "single".to_string() },
        FilterValue::Text { id: "author".to_string(), value: "Ann".to_string() },
    ];
    assert_eq!(
        parse_filters(Some("q"), &filters),
        ("mv".to_string(), "doujin".to_string(), Some("Ann".to_string()))
    );
    assert_eq!(parse_filters(Some(""), &vec![]), ("mr".to_string(), String::new(), None));
    assert_eq!(calc_scramble_num(100, "a.jpg"), 0);
    assert_eq!(calc_scramble_num(250000, "a.jpg"), 10);
    assert_eq!(calc_scramble_num(300000, "00001.webp"), 16);
    assert_eq!(calc_scramble_num(500000, "00001.webp"), 12);
    assert_eq!(scramble_slices(10, 3), vec![(6, 4, 0), (3, 3, 4), (0, 3, 7)]);
}

fn item(id: &str, name: &str, author: Option<&str>, image: Option<&str>) -> ComicItem {
    ComicItem {
        id: id.to_string(),
        name: Some(name.to_string()),
        author: author.map(|a| a.to_string()),
        image: image.map(|i| i.to_string()),
        description: None,
        category: None,
        category_sub: None,
    }
}

#[test]
fn jm_promote_cards_and_pages() {
    let img = CardImage {
        title: None,
        alt: Some("  Foo  ".to_string()),
        data_original: None,
        data_src: Some("//cdn/a.jpg".to_string()),
        src: Some("/b.jpg".to_string()),
    };
    let card = promote_card(Some("/album/42/foo"), Some(&img)).unwrap();
    assert_eq!(card.id, "42");
    assert_eq!(card.name.as_deref(), Some("Foo"));
    assert_eq!(card.image.as_deref(), Some("https://cdn/a.jpg"));
    assert!(promote_card(Some("/photo/42"), Some(&img)).is_none());
    assert!(promote_card(None, Some(&img)).is_none());
    assert!(promote_card(Some("/album/42"), None).is_none());
    let blank = CardImage { title: Some("  ".to_string()), alt: Some("x".to_string()), data_original: None, data_src: None, src: None };
    assert!(promote_card(Some("/album/42"), Some(&blank)).is_none());
    let no_pic = CardImage { title: Some("T".to_string()), alt: None, data_original: Some("https://a/blank.jpg".to_string()), data_src: None, src: Some("https://b/c.jpg".to_string()) };
    assert_eq!(promote_card(Some("/album/5"), Some(&no_pic)).unwrap().image, None);

    let block = BlockState::new(strings(&["2", "bad"]));
    let items = vec![
        item("1", "Good", Some("Ann"), None),
        item("2", "Other", None, Some("https://x/y.jpg")),
        item("3", "Bad one", Some("  "), Some("")),
    ];
    let shown = visible_mangas(items, "https://cdn", &block);
    assert_eq!(shown.len(), 1);
    assert_eq!(shown[0].key, "1");
    assert_eq!(shown[0].title, "Good");
    assert_eq!(shown[0].cover, "https://cdn/media/albums/1_3x4.jpg");
    assert_eq!(shown[0].authors, Some(vec!["Ann".to_string()]));
    assert_eq!(shown[0].content_rating, ContentRating::NSFW);
    let open = BlockState::new(vec![]);
    let all = visible_mangas(vec![item("3", "C", Some(" "), Some("https://x/y.jpg"))], "https://cdn", &open);
    assert_eq!(all[0].cover, "https://x/y.jpg");
    assert_eq!(all[0].authors, None);

    assert_eq!(promote_page(vec![], "https://cdn", &open).err(), Some(JmError::PageParse));
    let (page, next) = promote_page(vec![item("1", "A", None, None)], "https://cdn", &open).unwrap();
    assert_eq!(page.len(), 1);
    assert!(!next);
    let full: Vec<ComicItem> = (0..80).map(|i| item(&i.to_string(), "N", None, None)).collect();
    assert!(promote_page(full, "https://cdn", &open).unwrap().1);

    assert_eq!(listing_plan("29", 0), ListingPlan::Web(1));
    assert_eq!(listing_plan("30", 3), ListingPlan::Web(3));
    assert_eq!(listing_plan("12", 2), ListingPlan::Empty);
    assert_eq!(listing_plan("12", 1), ListingPlan::Section);
}

fn album(name: &str, tags: &[&str], description: Option<&str>) -> AlbumResp {
    AlbumResp {
        name: Some(name.to_string()),
        author: Some(strings(&["Ann"])),
        addtime: None,
        description: description.map(|d| d.to_string()),
        tags: Some(strings(tags)),
        works: None,
        series: None,
    }
}

#[test]
fn jm_album_as_manga() {
    let m = album(" Title ", &[" 连载中 ", "", "非H"], Some("  ")).into_manga("5", "https://cdn", false, false);
    assert_eq!(m.key, "5");
    assert_eq!(m.title, " Title ");
    assert_eq!(m.cover, "https://cdn/media/albums/5_3x4.jpg");
    assert_eq!(m.authors, Some(strings(&["Ann"])));
    assert_eq!(m.description, None);
    assert_eq!(m.tags, Some(strings(&["连载中", "非H"])));
    assert_eq!(m.url, "https://18comic.vip/album/5");
    assert_eq!(m.status, MangaStatus::Unknown);
    assert_eq!(m.content_rating, ContentRating::Safe);
    assert_eq!(m.viewer, Viewer::Unknown);
    let m = album("Title", &["连载中"], Some("desc")).into_manga("5", "https://cdn", true, false);
    assert_eq!(m.status, MangaStatus::Ongoing);
    assert_eq!(m.content_rating, ContentRating::NSFW);
    assert_eq!(m.viewer, Viewer::LeftToRight);
    assert_eq!(m.description.as_deref(), Some("desc"));
    let m = album("ひらがな", &["英文"], None).into_manga("5", "https://cdn", true, true);
    assert_eq!(m.viewer, Viewer::Unknown);
    let m = album("漢字", &["英文"], Some("abc")).into_manga("5", "https://cdn", false, true);
    assert_eq!(m.viewer, Viewer::LeftToRight);
    let m = album("漢字", &["韩漫"], None).into_manga("5", "https://cdn", false, false);
    assert_eq!(m.viewer, Viewer::Webtoon);
}

#[test]
fn jm_encoded_paths() {
    assert_eq!(search_path("a b", "mr", "", 1), "/search?search_query=a%20b&o=mr&page=1");
    assert_eq!(search_path("x", "mv", "同人", 3), "/search?search_query=x&o=mv&c=%e5%90%8c%e4%ba%ba&page=3");
    assert_eq!(filter_path("mv", "", 2), "/categories/filter?o=mv&page=2");
    assert_eq!(filter_path("mv", "a/b", 2), "/categories/filter?o=mv&c=a%2fb&page=2");
    assert_eq!(login_body("a@b", "p&q"), "username=a%40b&password=p%26q");
}

use aidoku_sources::happymh::{chapter_number_candidates, decode_hex};

#[test]
fn happymh_chapter_numbers() {
    assert_eq!(chapter_number_candidates("第3话 开始"), vec!["3".to_string()]);
    assert_eq!(chapter_number_candidates("12 第3话"), vec!["3".to_string(), "12".to_string()]);
    assert!(chapter_number_candidates("序").is_empty());
}

#[test]
fn happymh_hex_round_trip() {
    let data: Vec<u8> = vec![0, 1, 15, 16, 127, 128, 200, 255];
    let hex: String = data.iter().map(|b| format!("{:02x}", b)).collect();
    assert_eq!(hex, "00010f107f80c8ff");
    assert_eq!(decode_hex(hex.as_bytes()), Some(data));
    assert_eq!(decode_hex(b"0A"), Some(vec![10]));
    assert_eq!(decode_hex(b"0"), None);
    assert_eq!(decode_hex(b"zz"), None);
}

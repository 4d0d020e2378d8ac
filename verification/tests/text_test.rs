use app_controller::labels::LabelMap;
use app_controller::text::{
    bool_str, joined, decimal_string, parse_bounded, hex8_string, parse_u32, parse_u64, parse_usize, str_equal,
};

#[test]
fn decimal_formatting() {
    assert_eq!(decimal_string(0), "0");
    assert_eq!(decimal_string(7), "7");
    assert_eq!(decimal_string(10), "10");
    assert_eq!(decimal_string(1234567890), "1234567890");
    assert_eq!(decimal_string(u64::MAX), u64::MAX.to_string());
}

#[test]
fn hex_formatting_is_padded() {
    assert_eq!(hex8_string(0), "00000000");
    assert_eq!(hex8_string(0xab), "000000ab");
    assert_eq!(hex8_string(0xdeadbeef), "deadbeef");
    assert_eq!(hex8_string(u32::MAX), format!("{:08x}", u32::MAX));
}

#[test]
fn parsing_matches_std() {
    for s in ["0", "42", "+42", "", "+", "-1", "12a", " 1", "4294967295", "4294967296", "007"] {
        assert_eq!(parse_u32(s), s.parse::<u32>().ok(), "{s}");
        assert_eq!(parse_u64(s), s.parse::<u64>().ok(), "{s}");
        assert_eq!(parse_usize(s), s.parse::<usize>().ok(), "{s}");
    }
    assert_eq!(parse_u64("18446744073709551615"), Some(u64::MAX));
    assert_eq!(parse_u64("18446744073709551616"), None);
}

#[test]
fn string_helpers() {
    assert!(str_equal("abc", "abc"));
    assert!(!str_equal("abc", "abd"));
    assert!(!str_equal("abc", "ab"));
    assert_eq!(joined("ab", "cd"), "abcd");
    assert_eq!(bool_str(true), "true");
    assert_eq!(bool_str(false), "false");
}

#[test]
fn label_map_later_insert_wins() {
    let mut m = LabelMap::new();
    m.insert_str("a", "1");
    m.insert_str("b", "2");
    m.insert_str("a", "3");
    assert_eq!(m.get("a").map(|s| s.as_str()), Some("3"));
    assert_eq!(m.get("b").map(|s| s.as_str()), Some("2"));
    assert_eq!(m.get("c"), None);
    assert!(m.contains_key("b"));
    assert!(!m.contains_key("c"));
    let copy = m.clone();
    assert_eq!(copy.get("a").map(|s| s.as_str()), Some("3"));
}

#[test]
fn label_map_from_pairs() {
    let m = LabelMap::from_pairs(vec![
        ("k".to_string(), "v1".to_string()),
        ("k".to_string(), "v2".to_string()),
    ]);
    assert_eq!(m.get("k").map(|s| s.as_str()), Some("v2"));
    assert_eq!(m.size_exec(), 2);
}

#[test]
fn container_keys() {
    assert_eq!(
        app_controller::labels::make_image_key(3),
        "app-controller-container-3-image"
    );
    assert_eq!(
        app_controller::labels::make_config_key(12),
        "app-controller-container-12-config"
    );
}

#[test]
fn bounded_parse_respects_small_bounds() {
    assert_eq!(parse_bounded("3", 3), Some(3));
    assert_eq!(parse_bounded("5", 3), None);
    assert_eq!(parse_bounded("0", 0), Some(0));
    assert_eq!(parse_bounded("1", 0), None);
    assert_eq!(parse_bounded("12", 12), Some(12));
    assert_eq!(parse_bounded("13", 12), None);
}

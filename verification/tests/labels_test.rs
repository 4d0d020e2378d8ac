use app_controller::labels::{decode_containers, make_config_key, make_image_key, LabelMap};

#[test]
fn later_insert_wins() {
    let mut m = LabelMap::new();
    m.insert_str("k", "one");
    m.insert_str("k", "two");
    m.insert("other".to_string(), "x".to_string());
    assert_eq!(m.get("k"), Some(&"two".to_string()));
    assert_eq!(m.get("other"), Some(&"x".to_string()));
    assert_eq!(m.get("missing"), None);
    assert!(m.contains_key("k"));
    assert!(!m.contains_key("K"));
}

#[test]
fn from_pairs_denotes_last_value() {
    let m = LabelMap::from_pairs(vec![
        ("a".to_string(), "1".to_string()),
        ("b".to_string(), "2".to_string()),
        ("a".to_string(), "3".to_string()),
    ]);
    assert_eq!(m.get("a"), Some(&"3".to_string()));
    assert_eq!(m.get("b"), Some(&"2".to_string()));
    assert_eq!(m.size_exec(), 3);
    assert_eq!(m.entries().len(), 3);
}

#[test]
fn container_keys_are_numbered() {
    assert_eq!(make_image_key(0), "app-controller-container-0-image");
    assert_eq!(make_config_key(12), "app-controller-container-12-config");
}

#[test]
fn containers_are_read_up_to_the_first_gap() {
    let mut m = LabelMap::new();
    m.insert_str("app-controller-container-0-image", "alpine");
    m.insert_str("app-controller-container-0-config", "cfg");
    m.insert_str("app-controller-container-1-image", "nginx");
    m.insert_str("app-controller-container-3-image", "skipped");
    let cs = decode_containers(&m);
    assert_eq!(cs.len(), 2);
    assert_eq!(cs[0].image, "alpine");
    assert_eq!(cs[0].config, Some("cfg".to_string()));
    assert_eq!(cs[1].image, "nginx");
    assert_eq!(cs[1].config, None);
    assert!(cs.iter().all(|c| c.image_pull_policy.is_none() && !c.tty));
    assert!(decode_containers(&LabelMap::new()).is_empty());
}

use twer::config_map::ConfigMap;

#[test]
fn new_map_is_empty() {
    let m = ConfigMap::new();
    assert_eq!(m.len(), 0);
    assert!(m.is_empty());
    assert_eq!(m.get("k"), None);
}

#[test]
fn insert_and_get_distinct_keys() {
    let mut m = ConfigMap::new();
    m.insert("alpha".to_string(), "1".to_string());
    m.insert("beta".to_string(), "2".to_string());
    assert_eq!(m.len(), 2);
    assert!(!m.is_empty());
    assert_eq!(m.get("alpha"), Some(&"1".to_string()));
    assert_eq!(m.get("beta"), Some(&"2".to_string()));
    assert_eq!(m.get("gamma"), None);
}

#[test]
fn inserting_an_existing_key_overwrites() {
    let mut m = ConfigMap::new();
    m.insert("key".to_string(), "old".to_string());
    m.insert("key".to_string(), "new".to_string());
    assert_eq!(m.len(), 1);
    assert_eq!(m.get("key"), Some(&"new".to_string()));
}

use akane::string_map::StringMap;

#[test]
fn a_string_map_holds_one_value_for_each_key() {
    let mut m: StringMap<u32> = StringMap::new();
    assert_eq!(m.len(), 0);
    assert!(!m.contains_key("a"));
    assert_eq!(m.get("a"), None);
    m.insert("a", 1);
    m.insert("b", 2);
    m.insert("a", 3);
    assert_eq!(m.len(), 2);
    assert_eq!(m.get("a"), Some(&3));
    assert_eq!(m.get("b"), Some(&2));
    assert_eq!(m.key_at(0), "a");
    assert_eq!(m.key_at(1), "b");
    assert_eq!(*m.value_at(0), 3);
    assert_eq!(m.remove("a"), Some(3));
    assert_eq!(m.remove("a"), None);
    assert_eq!(m.len(), 1);
    assert_eq!(m.key_at(0), "b");
    assert!(m.contains_key("b"));
    m.insert("", 9);
    assert_eq!(m.get(""), Some(&9));
}

use letraspip::text_map::TextMap;

#[test]
fn map_keeps_keys_in_order_of_first_insertion() {
    let mut m: TextMap<u32> = TextMap::new();
    assert_eq!(m.len(), 0);
    m.insert("b".to_string(), 1);
    m.insert("a".to_string(), 2);
    m.insert("b".to_string(), 3);
    assert_eq!(m.len(), 2);
    assert_eq!(m.key_at(0), "b");
    assert_eq!(*m.value_at(0), 3);
    assert_eq!(m.key_at(1), "a");
    assert_eq!(m.get("a"), Some(&2));
    assert_eq!(m.get("c"), None);
    assert_eq!(m.position("a"), Some(1));
    assert_eq!(m.position("c"), None);
    assert!(m.contains_key("b"));
    assert!(!m.contains_key("B"));
}

#[test]
fn removal_keeps_the_order_of_the_rest() {
    let mut m: TextMap<u32> = TextMap::new();
    for (i, key) in ["x", "y", "z"].iter().enumerate() {
        m.insert(key.to_string(), i as u32);
    }
    assert!(m.remove("y"));
    assert!(!m.remove("y"));
    assert_eq!(m.len(), 2);
    assert_eq!(m.key_at(0), "x");
    assert_eq!(m.key_at(1), "z");
    assert_eq!(m.get("z"), Some(&2));
    m.clear();
    assert_eq!(m.len(), 0);
    assert_eq!(m.get("x"), None);
}

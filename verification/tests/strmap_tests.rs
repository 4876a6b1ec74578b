use aegis_ai_runtime::strmap::StrMap;

#[test]
fn insert_get_and_replace() {
    let mut m: StrMap<u32> = StrMap::new();
    assert_eq!(m.len(), 0);
    assert_eq!(m.get("a"), None);
    m.insert("a".to_string(), 1);
    m.insert("b".to_string(), 2);
    assert_eq!(m.get("a"), Some(&1));
    assert!(m.contains_key("b"));
    assert!(!m.contains_key("c"));
    m.insert("a".to_string(), 3);
    assert_eq!(m.get("a"), Some(&3));
    assert_eq!(m.len(), 2);
    let keys: Vec<&String> = (0..m.len()).map(|i| m.key_at(i)).collect();
    assert_eq!(keys, vec!["a", "b"]);
    assert_eq!(*m.value_at(1), 2);
}

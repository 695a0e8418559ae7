use fleetfs::name_map::NameMap;

#[test]
fn name_map_insert_get_remove() {
    let mut m: NameMap<Vec<u8>> = NameMap::new();
    assert!(m.is_empty());
    m.insert("a", vec![1]);
    m.insert("b", vec![2]);
    m.insert("a", vec![3]);
    assert_eq!(m.len(), 2);
    assert_eq!(m.get("a"), Some(&vec![3]));
    assert_eq!(m.get("c"), None);
    let mut keys = m.keys();
    keys.sort();
    assert_eq!(keys, vec!["a".to_string(), "b".to_string()]);
    assert_eq!(m.remove("a"), Some(vec![3]));
    assert_eq!(m.remove("a"), None);
    assert_eq!(m.find("b"), Some(0));
    assert!(!m.is_empty());
}

use shipcat::strmap::StrMap;

#[test]
fn insert_replaces_and_orders() {
    let mut m: StrMap<u32> = StrMap::new();
    assert!(m.is_empty());
    m.insert("pear".to_string(), 1);
    m.insert("apple".to_string(), 2);
    m.insert("zebra".to_string(), 3);
    m.insert("pear".to_string(), 4);
    assert_eq!(m.len(), 3);
    assert_eq!(m.get("pear"), Some(&4));
    assert_eq!(m.get("apple"), Some(&2));
    assert_eq!(m.get("plum"), None);
    assert!(m.contains_key("zebra"));
    assert!(!m.contains_key("zebr"));
    assert_eq!(m.key(0), "apple");
    assert_eq!(m.key(1), "pear");
    assert_eq!(m.key(2), "zebra");
    assert_eq!(*m.value(1), 4);
    assert_eq!(
        m.into_entries(),
        vec![("apple".to_string(), 2), ("pear".to_string(), 4), ("zebra".to_string(), 3)]
    );
}

#[test]
fn keys_are_ordered_by_character() {
    let mut m: StrMap<u32> = StrMap::new();
    for k in ["b", "a", "", "ab", "B", "é", "aa", "a"] {
        m.insert(k.to_string(), 0);
    }
    let keys: Vec<String> = m.into_entries().into_iter().map(|e| e.0).collect();
    let mut expected: Vec<String> =
        ["", "B", "a", "aa", "ab", "b", "é"].iter().map(|s| s.to_string()).collect();
    assert_eq!(keys, expected);
    expected.sort();
    assert_eq!(keys, expected);
}

#[test]
fn insert_if_absent_keeps_what_is_there() {
    let mut m: StrMap<u32> = StrMap::new();
    m.insert_if_absent("a".to_string(), 1);
    m.insert_if_absent("a".to_string(), 2);
    m.insert_if_absent("b".to_string(), 3);
    assert_eq!(m.get("a"), Some(&1));
    assert_eq!(m.get("b"), Some(&3));
    assert_eq!(m.len(), 2);
}

#[test]
fn extend_prefers_the_other() {
    let mut a: StrMap<u32> = StrMap::new();
    a.insert("x".to_string(), 1);
    a.insert("y".to_string(), 2);
    let mut b: StrMap<u32> = StrMap::new();
    b.insert("y".to_string(), 20);
    b.insert("z".to_string(), 30);
    a.extend(b);
    assert_eq!(
        a.into_entries(),
        vec![("x".to_string(), 1), ("y".to_string(), 20), ("z".to_string(), 30)]
    );
}

#[test]
fn fill_from_prefers_the_map() {
    let mut a: StrMap<String> = StrMap::new();
    a.insert("x".to_string(), "mine".to_string());
    let mut b: StrMap<String> = StrMap::new();
    b.insert("x".to_string(), "theirs".to_string());
    b.insert("w".to_string(), "new".to_string());
    a.fill_from(&b);
    assert_eq!(
        a.into_entries(),
        vec![("w".to_string(), "new".to_string()), ("x".to_string(), "mine".to_string())]
    );
}

#[test]
fn clone_is_equal() {
    let mut a: StrMap<String> = StrMap::new();
    a.insert("k".to_string(), "v".to_string());
    let b = a.clone();
    assert_eq!(a, b);
}

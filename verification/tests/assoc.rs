use scratchbar::assoc::Assoc;

fn s(text: &str) -> String {
    text.to_owned()
}

#[test]
fn entries_are_found_replaced_and_removed() {
    let mut map: Assoc<u32> = Assoc::new();
    assert!(map.get(&s("a")).is_none());
    map.insert(s("a"), 1);
    map.insert(s("b"), 2);
    map.insert(s("a"), 3);
    assert_eq!(map.get(&s("a")), Some(&3));
    assert_eq!(map.get(&s("b")), Some(&2));
    assert_eq!(map.entries.len(), 2);
    assert_eq!(map.position(&s("b")), Some(1));
    assert_eq!(map.remove(&s("a")), Some(3));
    assert_eq!(map.remove(&s("a")), None);
    assert!(!map.contains(&s("a")));
    assert!(map.contains(&s("b")));
}

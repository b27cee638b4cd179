use brd::name_map::NameMap;

#[test]
fn name_map_insert_replaces_the_value_of_a_name() {
    let map = NameMap::new()
        .insert(String::from("one"), 1)
        .insert(String::from("two"), 2)
        .insert(String::from("one"), 3);
    assert_eq!(map.len(), 2);
    assert_eq!(map.get("one"), Some(&3));
    assert_eq!(map.get("two"), Some(&2));
    assert_eq!(map.get("three"), None);
    assert!(map.contains_key("two"));
    assert!(!map.contains_key("tw"));
    assert!(!map.contains_key("twoo"));
    assert_eq!(
        map.keys(),
        vec![&String::from("one"), &String::from("two")]
    );
    assert_eq!(map.name_at(1), "two");
    assert_eq!(*map.value_at(0), 3);
}

#[test]
fn name_map_new_is_empty() {
    let map: NameMap<u8> = NameMap::new();
    assert_eq!(map.len(), 0);
    assert!(map.keys().is_empty());
    assert!(!map.contains_key(""));
}

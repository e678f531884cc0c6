//! Maps by strings.

use ndc_postgres::string_map::{precedes, StringMap};

fn keys(map: &StringMap<u32>) -> Vec<&str> {
    map.as_entries().iter().map(|(key, _)| key.as_str()).collect()
}

#[test]
fn a_new_map_is_empty() {
    let map: StringMap<u32> = StringMap::new();
    assert!(map.as_entries().is_empty());
    assert_eq!(map.get("a"), None);
    assert!(!map.contains_key("a"));
}

#[test]
fn entries_stand_in_ascending_order() {
    let mut map = StringMap::new();
    for (value, key) in ["b", "", "ab", "a", "B", "\u{e9}", "aa"].iter().enumerate() {
        map.insert(key.to_string(), value as u32);
    }
    assert_eq!(keys(&map), vec!["", "B", "a", "aa", "ab", "b", "\u{e9}"]);
    assert_eq!(map.get("ab"), Some(&2));
    assert_eq!(map.get("abc"), None);
}

#[test]
fn entries_stand_in_the_order_of_a_btree_map() {
    let words = ["zoo", "\u{10ffff}", "\u{ffff}", "Zoo", "zo", "1", "10", "2", "_", "%"];
    let mut map = StringMap::new();
    let mut reference = std::collections::BTreeMap::new();
    for (value, word) in words.iter().enumerate() {
        map.insert(word.to_string(), value as u32);
        reference.insert(word.to_string(), value as u32);
    }
    assert_eq!(map.into_entries(), reference.into_iter().collect::<Vec<_>>());
}

#[test]
fn inserting_again_replaces_the_value() {
    let mut map = StringMap::new();
    map.insert("a".to_string(), 1);
    map.insert("b".to_string(), 2);
    map.insert("a".to_string(), 3);
    assert_eq!(keys(&map), vec!["a", "b"]);
    assert_eq!(map.get("a"), Some(&3));
    assert_eq!(map.clone(), map);
}

#[test]
fn strings_are_compared_by_their_bytes() {
    assert!(precedes("a", "b"));
    assert!(precedes("a", "aa"));
    assert!(precedes("Z", "a"));
    assert!(!precedes("a", "a"));
    assert!(!precedes("b", "ab"));
    assert!(precedes("\u{ffff}", "\u{10000}"));
}

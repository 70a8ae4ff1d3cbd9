use cruler::collections::{StringMap, StringSet};
use cruler::text::{
    chars_of, clone_strings, contains_string, decimal_string, replace, split_char, starts_with,
    string_from,
};

#[test]
fn split_keeps_empty_pieces() {
    assert_eq!(split_char("a&b", '&'), vec!["a", "b"]);
    assert_eq!(split_char("", '&'), vec![""]);
    assert_eq!(split_char("a&&b&", '&'), vec!["a", "", "b", ""]);
    assert_eq!(split_char("abc", '/'), vec!["abc"]);
    assert_eq!(split_char("é/ü", '/'), vec!["é", "ü"]);
}

#[test]
fn replace_scans_from_the_left() {
    assert_eq!(replace("a&b&", "&", "&amp;"), "a&amp;b&amp;");
    assert_eq!(replace("aaa", "aa", "b"), "ba");
    assert_eq!(replace("abc", "x", "y"), "abc");
    assert_eq!(replace("", "x", "y"), "");
    assert_eq!(replace("&amp;amp;", "&amp;", "&"), "&amp;");
    assert_eq!(replace("xyz", "xyz", ""), "");
}

#[test]
fn decimal_string_writes_base_ten() {
    assert_eq!(decimal_string(0), "0");
    assert_eq!(decimal_string(7), "7");
    assert_eq!(decimal_string(10), "10");
    assert_eq!(decimal_string(9081726354), "9081726354");
    assert_eq!(decimal_string(usize::MAX), usize::MAX.to_string());
}

#[test]
fn characters_and_prefixes() {
    assert_eq!(chars_of("aé"), vec!['a', 'é']);
    assert_eq!(string_from(&vec!['a', 'b', 'c', 'd'], 1, 3), "bc");
    assert_eq!(string_from(&vec!['a'], 1, 1), "");
    assert!(starts_with("image/png", "image"));
    assert!(starts_with("image", "image"));
    assert!(starts_with("x", ""));
    assert!(!starts_with("imag", "image"));
    assert!(!starts_with("an image", "image"));
    let list = vec!["a".to_string(), "part".to_string()];
    assert!(contains_string(&list, "part"));
    assert!(!contains_string(&list, "Part"));
    assert_eq!(clone_strings(&list), list);
}

#[test]
fn string_map_keeps_first_places_and_last_values() {
    let mut map: StringMap<usize> = StringMap::new();
    assert_eq!(map.len(), 0);
    assert!(!map.contains_key("a"));
    map.insert("a".to_string(), 1);
    map.insert("b".to_string(), 2);
    map.insert("a".to_string(), 3);
    assert_eq!(map.len(), 2);
    assert_eq!(map.get("a"), Some(&3));
    assert_eq!(map.get("b"), Some(&2));
    assert_eq!(map.get("c"), None);
    assert_eq!(map.key_at(0), "a");
    assert_eq!(map.key_at(1), "b");
    assert_eq!(*map.value_at(0), 3);
    assert!(map.contains_key("b"));
}

#[test]
fn string_set_holds_each_item_once() {
    let mut set = StringSet::new();
    assert!(!set.contains("a"));
    set.insert("a".to_string());
    set.insert("a".to_string());
    set.insert("b".to_string());
    assert!(set.contains("a"));
    assert!(set.contains("b"));
    assert!(!set.contains("c"));
    let copy = set.duplicate();
    assert!(copy.contains("a") && copy.contains("b") && !copy.contains("c"));
}

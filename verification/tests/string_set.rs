use windows_registry_search::StringSet;

fn listed(set: &StringSet) -> Vec<String> {
    (0..set.len()).map(|place| set.get(place).to_string()).collect()
}

#[test]
fn strings_are_listed_once_and_in_order() {
    let mut set = StringSet::new();
    assert_eq!(set.len(), 0);
    assert!(set.insert("b".to_string()));
    assert!(set.insert("a".to_string()));
    assert!(!set.insert("b".to_string()));
    assert_eq!(listed(&set), vec!["b", "a"]);
    assert!(set.contains(&"a".to_string()));
    assert!(!set.contains(&"A".to_string()));
}

#[test]
fn removed_strings_leave_the_others_in_order() {
    let mut set = StringSet::new();
    for text in ["one", "two", "three"] {
        assert!(set.insert(text.to_string()));
    }
    assert!(set.remove(&"two".to_string()));
    assert!(!set.remove(&"two".to_string()));
    assert_eq!(listed(&set), vec!["one", "three"]);
    assert!(set.insert("two".to_string()));
    assert_eq!(listed(&set), vec!["one", "three", "two"]);
}

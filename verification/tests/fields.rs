use web_dispatch::fields::StringMap;

fn s(text: &str) -> String {
    text.to_string()
}

#[test]
fn new_map_is_empty() {
    let m = StringMap::new();
    assert_eq!(m.len(), 0);
    assert!(m.is_empty());
    assert!(m.get("a").is_none());
    assert!(!m.contains_key("a"));
}

#[test]
fn insert_then_get_returns_the_value() {
    let mut m = StringMap::new();
    assert_eq!(m.insert(s("Host"), s("example.org")), None);
    assert_eq!(m.get("Host"), Some(&s("example.org")));
    assert!(m.contains_key("Host"));
    assert_eq!(m.len(), 1);
    assert!(!m.is_empty());
}

#[test]
fn insert_again_replaces_and_returns_the_old_value() {
    let mut m = StringMap::new();
    m.insert(s("a"), s("1"));
    m.insert(s("b"), s("2"));
    assert_eq!(m.insert(s("a"), s("3")), Some(s("1")));
    assert_eq!(m.get("a"), Some(&s("3")));
    assert_eq!(m.get("b"), Some(&s("2")));
    assert_eq!(m.len(), 2);
}

#[test]
fn names_are_compared_exactly() {
    let mut m = StringMap::new();
    m.insert(s("Accept"), s("x"));
    assert!(m.get("accept").is_none());
    assert!(m.get("Accept ").is_none());
    assert!(m.get("").is_none());
}

#[test]
fn remove_takes_the_name_out() {
    let mut m = StringMap::new();
    m.insert(s("a"), s("1"));
    m.insert(s("b"), s("2"));
    assert_eq!(m.remove("a"), Some(s("1")));
    assert_eq!(m.remove("a"), None);
    assert!(m.get("a").is_none());
    assert_eq!(m.get("b"), Some(&s("2")));
    assert_eq!(m.len(), 1);
}

#[test]
fn from_pairs_lets_the_last_of_equal_names_win() {
    let pairs = vec![(s("k"), s("1")), (s("j"), s("2")), (s("k"), s("3"))];
    let m = StringMap::from_pairs(&pairs);
    assert_eq!(m.len(), 2);
    assert_eq!(m.get("k"), Some(&s("3")));
    assert_eq!(m.get("j"), Some(&s("2")));
}

#[test]
fn pairs_hold_each_name_once() {
    let mut m = StringMap::new();
    m.insert(s("a"), s("1"));
    m.insert(s("b"), s("2"));
    m.insert(s("a"), s("3"));
    let mut pairs = m.pairs();
    pairs.sort();
    assert_eq!(pairs, vec![(s("a"), s("3")), (s("b"), s("2"))]);
}

#[test]
fn clone_holds_the_same_pairs_and_is_independent() {
    let mut m = StringMap::new();
    m.insert(s("a"), s("1"));
    let mut copy = m.clone();
    copy.insert(s("a"), s("2"));
    assert_eq!(m.get("a"), Some(&s("1")));
    assert_eq!(copy.get("a"), Some(&s("2")));
}

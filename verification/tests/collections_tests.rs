use tailcall::strmap::{StrMap, StrSet};
use tailcall::text::{name_order, NameOrder};
use tailcall::valid::ValidationError;

#[test]
fn names_order_as_strings_do() {
    assert_eq!(name_order("B", "a"), NameOrder::Before);
    assert_eq!(name_order("a", "a"), NameOrder::Same);
    assert_eq!(name_order("é", "z"), NameOrder::After);
    assert_eq!(name_order("ab", "a"), NameOrder::After);
    assert_eq!(name_order("", "a"), NameOrder::Before);
}

#[test]
fn str_map_keeps_names_sorted_and_unique() {
    let mut m: StrMap<u32> = StrMap::new();
    m.insert("b".to_string(), 1);
    m.insert("a".to_string(), 2);
    m.insert("c".to_string(), 3);
    m.insert("b".to_string(), 4);
    let keys: Vec<&str> = m.entries().iter().map(|(k, _)| k.as_str()).collect();
    assert_eq!(keys, vec!["a", "b", "c"]);
    assert_eq!(m.get("b"), Some(&4));
    assert_eq!(m.get("z"), None);
    assert_eq!(m.len(), 3);
    assert!(m.contains_key("c"));
}

#[test]
fn str_map_extend_lets_later_pairs_win() {
    let mut m: StrMap<u32> = StrMap::new();
    m.insert("x".to_string(), 0);
    m.extend(vec![("y".to_string(), 1), ("x".to_string(), 2), ("y".to_string(), 3)]);
    let all: Vec<(String, u32)> = m.into_entries();
    assert_eq!(all, vec![("x".to_string(), 2), ("y".to_string(), 3)]);
}

#[test]
fn str_set_holds_each_name_once() {
    let mut s = StrSet::new();
    s.extend(vec!["b".to_string(), "a".to_string(), "b".to_string()]);
    s.insert("c".to_string());
    assert_eq!(s.len(), 3);
    assert!(s.contains("a") && !s.contains("d"));
    assert_eq!(s.into_names(), vec!["a".to_string(), "b".to_string(), "c".to_string()]);
}

#[test]
fn validation_error_keeps_message_order() {
    let mut e = ValidationError::empty();
    assert!(e.is_empty());
    e.append("one".to_string());
    let mut f = ValidationError::new("two".to_string());
    f.append("three".to_string());
    e.combine(f);
    assert_eq!(e.causes(), &vec!["one".to_string(), "two".to_string(), "three".to_string()]);
    let g = ValidationError::from_messages(vec!["x".to_string()]);
    assert_eq!(g.causes().len(), 1);
}

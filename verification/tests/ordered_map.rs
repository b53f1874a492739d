use akri_discovery::ordered_map::{Key, OrderedMap};
use akri_discovery::registration::HandlerKey;

#[test]
fn insert_keeps_the_place_of_a_key() {
    let mut map: OrderedMap<String, u32> = OrderedMap::new();
    assert_eq!(map.len(), 0);
    map.insert("a".to_string(), 1);
    map.insert("b".to_string(), 2);
    map.insert("c".to_string(), 3);
    map.insert("a".to_string(), 10);
    assert_eq!(map.len(), 3);
    assert_eq!(map.key_at(0), "a");
    assert_eq!(*map.value_at(0), 10);
    assert_eq!(map.key_at(2), "c");
    assert_eq!(map.find(&"b".to_string()), Some(1));
    assert_eq!(map.find(&"d".to_string()), None);
    assert_eq!(map.get(&"c".to_string()), Some(&3));
    assert_eq!(map.get(&"".to_string()), None);
    assert!(map.contains_key(&"a".to_string()));
    assert!(!map.contains_key(&"A".to_string()));
}

#[test]
fn remove_closes_the_gap() {
    let mut map: OrderedMap<String, u32> = OrderedMap::new();
    map.insert("a".to_string(), 1);
    map.insert("b".to_string(), 2);
    map.insert("c".to_string(), 3);
    assert_eq!(map.remove(&"b".to_string()), Some(2));
    assert_eq!(map.remove(&"b".to_string()), None);
    assert_eq!(map.len(), 2);
    assert_eq!(map.key_at(0), "a");
    assert_eq!(map.key_at(1), "c");
    let entries = map.into_entries();
    assert_eq!(entries, vec![("a".to_string(), 1), ("c".to_string(), 3)]);
}

#[test]
fn from_entries_keeps_the_order() {
    let map = OrderedMap::from_entries(vec![("x".to_string(), 1u8), ("y".to_string(), 2u8)]);
    assert_eq!(map.len(), 2);
    assert_eq!(map.key_at(1), "y");
    assert_eq!(map.get(&"x".to_string()), Some(&1));
}

#[test]
fn handler_keys_compare_by_protocol_and_endpoint() {
    let key = HandlerKey::new("onvif", "a.sock");
    assert!(key.same_key(&HandlerKey::new("onvif", "a.sock")));
    assert!(!key.same_key(&HandlerKey::new("onvif", "b.sock")));
    assert!(!key.same_key(&HandlerKey::new("opcua", "a.sock")));
    assert!("a".to_string().same_key(&"a".to_string()));
    assert!(!"a".to_string().same_key(&"ab".to_string()));
}

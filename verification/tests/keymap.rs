use ledger_shell::key::Key;
use ledger_shell::keymap::KeyMap;

fn key(path: &str) -> Key {
    Key::new(path.to_string())
}

#[test]
fn new_map_is_empty() {
    let map: KeyMap<Vec<u8>> = KeyMap::new();
    assert_eq!(map.len(), 0);
    assert!(map.is_empty());
    assert!(map.get(&key("a")).is_none());
    assert!(!map.contains_key(&key("a")));
}

#[test]
fn insert_then_get() {
    let mut map: KeyMap<Vec<u8>> = KeyMap::new();
    map.insert(key("a"), vec![1]);
    map.insert(key("b"), vec![2, 3]);
    assert_eq!(map.len(), 2);
    assert!(!map.is_empty());
    assert_eq!(map.get(&key("a")), Some(&vec![1]));
    assert_eq!(map.get(&key("b")), Some(&vec![2, 3]));
    assert!(map.get(&key("c")).is_none());
    assert!(map.contains_key(&key("b")));
}

#[test]
fn insert_replaces_the_value_of_a_key() {
    let mut map: KeyMap<Vec<u8>> = KeyMap::new();
    map.insert(key("a"), vec![1]);
    map.insert(key("a"), vec![9]);
    assert_eq!(map.len(), 1);
    assert_eq!(map.get(&key("a")), Some(&vec![9]));
}

#[test]
fn insert_all_lets_the_last_write_win() {
    let mut map: KeyMap<Vec<u8>> = KeyMap::new();
    map.insert(key("a"), vec![0]);
    map.insert_all(vec![
        (key("a"), vec![1]),
        (key("b"), vec![2]),
        (key("a"), vec![3]),
    ]);
    assert_eq!(map.len(), 2);
    assert_eq!(map.get(&key("a")), Some(&vec![3]));
    assert_eq!(map.get(&key("b")), Some(&vec![2]));
}

#[test]
fn remove_takes_out_one_key() {
    let mut map: KeyMap<Vec<u8>> = KeyMap::new();
    map.insert(key("a"), vec![1]);
    map.insert(key("b"), vec![2]);
    map.insert(key("c"), vec![3]);
    map.remove(&key("b"));
    assert_eq!(map.len(), 2);
    assert!(map.get(&key("b")).is_none());
    assert_eq!(map.get(&key("a")), Some(&vec![1]));
    assert_eq!(map.get(&key("c")), Some(&vec![3]));
    map.remove(&key("missing"));
    assert_eq!(map.len(), 2);
}

#[test]
fn pop_hands_out_every_entry_once() {
    let mut map: KeyMap<Vec<u8>> = KeyMap::new();
    map.insert(key("a"), vec![1]);
    map.insert(key("b"), vec![2]);
    let mut seen: Vec<(String, Vec<u8>)> = Vec::new();
    while let Some((k, v)) = map.pop() {
        seen.push((k.path().to_string(), v));
    }
    seen.sort();
    assert_eq!(seen, vec![("a".to_string(), vec![1]), ("b".to_string(), vec![2])]);
    assert!(map.is_empty());
    assert!(map.pop().is_none());
}

#[test]
fn clear_empties_the_map() {
    let mut map: KeyMap<Vec<u8>> = KeyMap::new();
    map.insert(key("a"), vec![1]);
    map.clear();
    assert!(map.is_empty());
    assert_eq!(map.len(), 0);
}

#[test]
fn entries_are_walked_by_place() {
    let mut map: KeyMap<Vec<u8>> = KeyMap::new();
    map.insert(key("a"), vec![1]);
    map.insert(key("b"), vec![2]);
    let mut seen: Vec<(String, Vec<u8>)> = Vec::new();
    for i in 0..map.len() {
        seen.push((map.key_at(i).path().to_string(), map.value_at(i).clone()));
    }
    seen.sort();
    assert_eq!(seen, vec![("a".to_string(), vec![1]), ("b".to_string(), vec![2])]);
}

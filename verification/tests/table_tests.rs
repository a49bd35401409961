use clox::table::Table;
use clox::value::{hash, Value};

fn number(value: &Value) -> u64 {
    match value {
        Value::Number(n) => *n,
        _ => panic!("not a number"),
    }
}

#[test]
fn an_empty_table_holds_nothing() {
    let mut table = Table::default();
    assert_eq!(table.capacity(), 0);
    assert!(table.get("a").is_none());
    assert!(!table.has("a"));
    assert!(table.delete("a").is_none());
    assert!(table.get_mut("a").is_none());
}

#[test]
fn set_tells_whether_the_key_was_new() {
    let mut table = Table::default();
    assert!(table.set(String::from("a"), Value::Number(1)));
    assert!(!table.set(String::from("a"), Value::Number(2)));
    assert_eq!(number(table.get("a").unwrap()), 2);
    assert_eq!(table.capacity(), 8);
}

#[test]
fn the_table_grows_before_a_sixth_key_goes_into_eight_slots() {
    let mut table = Table::default();
    for i in 0..5u64 {
        assert!(table.set(format!("k{}", i), Value::Number(i)));
        assert_eq!(table.capacity(), 8);
    }
    assert!(table.set(String::from("k5"), Value::Number(5)));
    assert_eq!(table.capacity(), 16);
    for i in 0..6u64 {
        assert_eq!(number(table.get(&format!("k{}", i)).unwrap()), i);
    }
}

#[test]
fn keys_survive_deletions_of_their_neighbours_and_rehashes() {
    let mut table = Table::default();
    for i in 0..200u64 {
        table.set(format!("key{}", i), Value::Number(i));
    }
    for i in (0..200u64).filter(|i| i % 3 == 0) {
        assert_eq!(number(&table.delete(&format!("key{}", i)).unwrap()), i);
    }
    for i in 200..400u64 {
        table.set(format!("key{}", i), Value::Number(i));
    }
    for i in 0..400u64 {
        let found = table.get(&format!("key{}", i));
        if i < 200 && i % 3 == 0 {
            assert!(found.is_none());
        } else {
            assert_eq!(number(found.unwrap()), i);
        }
    }
}

#[test]
fn a_key_behind_a_tombstone_is_still_found() {
    // Find two keys whose probe sequences start at the same slot of eight.
    let first = String::from("a0");
    let home = hash(first.as_bytes()) % 8;
    let second = (1..1000)
        .map(|i| format!("a{}", i))
        .find(|key| hash(key.as_bytes()) % 8 == home)
        .unwrap();
    let mut table = Table::default();
    table.set(first.clone(), Value::Number(1));
    table.set(second.clone(), Value::Number(2));
    assert_eq!(number(&table.delete(&first).unwrap()), 1);
    assert!(table.get(&first).is_none());
    assert_eq!(number(table.get(&second).unwrap()), 2);
    assert!(!table.set(second.clone(), Value::Number(3)));
    assert_eq!(number(table.get(&second).unwrap()), 3);
    assert!(table.set(first.clone(), Value::Number(4)));
    assert_eq!(number(table.get(&first).unwrap()), 4);
    assert_eq!(number(table.get(&second).unwrap()), 3);
}

#[test]
fn get_mut_writes_through() {
    let mut table = Table::default();
    table.set(String::from("a"), Value::Number(1));
    *table.get_mut("a").unwrap() = Value::Bool(true);
    assert!(matches!(table.get("a"), Some(Value::Bool(true))));
    assert!(table.get_mut("b").is_none());
}

#[test]
fn tombstones_count_towards_the_load() {
    let mut table = Table::default();
    for round in 0..5u64 {
        let key = format!("k{}", round);
        table.set(key.clone(), Value::Nil);
        table.delete(&key);
    }
    assert_eq!(table.capacity(), 8);
    table.set(String::from("last"), Value::Nil);
    assert_eq!(table.capacity(), 16);
    assert!(table.check_room());
}

#[test]
fn iter_gives_each_live_key_once() {
    let mut table = Table::default();
    for i in 0..20u64 {
        table.set(format!("k{}", i), Value::Number(i));
    }
    for i in 0..10u64 {
        table.delete(&format!("k{}", 2 * i));
    }
    let mut found: Vec<(String, u64)> =
        table.iter().into_iter().map(|(key, value)| (String::from(key), number(value))).collect();
    found.sort();
    let mut expected: Vec<(String, u64)> = (0..10u64).map(|i| (format!("k{}", 2 * i + 1), 2 * i + 1)).collect();
    expected.sort();
    assert_eq!(found, expected);
    assert!(Table::default().iter().is_empty());
}

#[test]
fn extend_sets_the_pairs_in_their_order() {
    let mut table = Table::default();
    table.set(String::from("a"), Value::Number(0));
    table.extend(vec![
        (String::from("b"), Value::Number(1)),
        (String::from("a"), Value::Number(2)),
        (String::from("b"), Value::Number(3)),
    ]);
    assert_eq!(number(table.get("a").unwrap()), 2);
    assert_eq!(number(table.get("b").unwrap()), 3);
    assert_eq!(table.iter().len(), 2);
}

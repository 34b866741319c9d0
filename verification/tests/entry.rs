use ext_php_rs::types::array::Entry;
use ext_php_rs::types::zval::{ArrayKey, ZendHashTable, Zval};

#[test]
fn test_entry_with_numeric_key() {
    let mut ht = ZendHashTable::new();
    let result = ht.entry(42i64).or_insert("value");
    assert!(result.is_ok());
    assert_eq!(ht.get_index(42).and_then(|v| v.str()), Some("value"));
}

#[test]
fn test_vacant_entry_into_key() {
    let mut ht = ZendHashTable::new();
    if let Entry::Vacant(entry) = ht.entry("my_key") {
        let key = entry.into_key();
        assert_eq!(key, ArrayKey::Str("my_key"));
    } else {
        panic!("the key is absent");
    }
}

#[test]
fn test_entry_with_binary_key() {
    let mut ht = ZendHashTable::new();
    let key = "\0MyClass\0myProp";
    let result = ht.entry(key).or_insert("value");
    assert!(result.is_ok());
}

#[test]
fn or_insert_keeps_an_existing_value() {
    let mut ht = ZendHashTable::new();
    ht.insert("counter", 1i64).unwrap();
    let v = ht.entry("counter").or_insert(5i64).unwrap();
    assert_eq!(v.long(), Some(1));
    assert_eq!(ht.len(), 1);
}

#[test]
fn and_modify_changes_only_an_occupied_entry() {
    let mut ht = ZendHashTable::new();
    ht.insert("counter", 1i64).unwrap();
    let _ = ht.entry("counter").and_modify(|v| {
        if let Some(n) = v.long() {
            v.set_long(n + 1);
        }
    });
    assert_eq!(ht.get("counter").and_then(|v| v.long()), Some(2));
    let _ = ht.entry("missing").and_modify(|v| v.set_long(9));
    assert!(ht.get("missing").is_none());
}

#[test]
fn or_insert_with_runs_only_for_a_vacant_entry() {
    let mut ht = ZendHashTable::new();
    let v = ht.entry("computed").or_insert_with(|| "computed value").unwrap();
    assert_eq!(v.str(), Some("computed value"));
    let v = ht.entry("computed").or_insert_with(|| -> &str { panic!("must not run") }).unwrap();
    assert_eq!(v.str(), Some("computed value"));
}

#[test]
fn or_insert_with_key_sees_the_key() {
    let mut ht = ZendHashTable::new();
    let v = ht
        .entry(7i64)
        .or_insert_with_key(|k| match k {
            ArrayKey::Long(n) => *n * 2,
            _ => 0,
        })
        .unwrap();
    assert_eq!(v.long(), Some(14));
}

#[test]
fn or_default_inserts_null() {
    let mut ht = ZendHashTable::new();
    let v = ht.entry("x").or_default().unwrap();
    assert!(v.is_null());
}

#[test]
fn occupied_entry_insert_returns_the_old_value() {
    let mut ht = ZendHashTable::new();
    ht.insert("key", "old").unwrap();
    if let Entry::Occupied(mut entry) = ht.entry("key") {
        let old = entry.insert("new").unwrap();
        assert_eq!(old.as_ref().and_then(|z| z.str()), Some("old"));
    } else {
        panic!("the key is present");
    }
    assert_eq!(ht.get("key").and_then(|v| v.str()), Some("new"));
    assert_eq!(ht.len(), 1);
}

#[test]
fn test_occupied_entry_remove() {
    let mut ht = ZendHashTable::new();
    let _ = ht.insert("key", "value");
    if let Entry::Occupied(entry) = ht.entry("key") {
        let value = entry.remove().expect("remove should succeed");
        assert_eq!(value.str(), Some("value"));
    }
    assert!(ht.get("key").is_none());
}

#[test]
fn remove_entry_hands_back_key_and_value() {
    let mut ht = ZendHashTable::new();
    ht.insert(3i64, true).unwrap();
    if let Entry::Occupied(entry) = ht.entry(3i64) {
        let (key, value) = entry.remove_entry();
        assert_eq!(key, ArrayKey::Long(3));
        assert_eq!(value.and_then(|z| z.bool()), Some(true));
    } else {
        panic!("the key is present");
    }
    assert!(ht.is_empty());
}

#[test]
fn entry_key_names_the_key() {
    let mut ht = ZendHashTable::new();
    let entry = ht.entry("k");
    assert_eq!(entry.key(), &ArrayKey::Str("k"));
}

#[test]
fn insert_replaces_in_place_and_appends_new_keys() {
    let mut ht = ZendHashTable::new();
    ht.insert("a", 1i64).unwrap();
    ht.insert("b", 2i64).unwrap();
    ht.insert("a", 3i64).unwrap();
    assert_eq!(ht.len(), 2);
    assert_eq!(ht.get("a").and_then(|v| v.long()), Some(3));
    assert_eq!(ht.get("b").and_then(|v| v.long()), Some(2));
    assert_eq!(ht.remove("a"), Some(()));
    assert_eq!(ht.remove("a"), None);
    assert_eq!(ht.len(), 1);
    let mut z = Zval::new();
    z.set_long(5);
    ht.insert_at_index(9, z).unwrap();
    assert_eq!(ht.get_index(9).and_then(|v| v.long()), Some(5));
}

#[test]
fn test_entry_or_insert() {
    let mut ht = ZendHashTable::new();

    let result = ht.entry("key").or_insert("value");
    assert!(result.is_ok());
    assert_eq!(ht.get("key").and_then(|v| v.str()), Some("value"));

    let result = ht.entry("key").or_insert("other");
    assert!(result.is_ok());
    assert_eq!(ht.get("key").and_then(|v| v.str()), Some("value"));
}

#[test]
fn test_entry_or_insert_with() {
    let mut ht = ZendHashTable::new();
    let result = ht.entry("key").or_insert_with(|| "computed");
    assert!(result.is_ok());
    assert_eq!(ht.get("key").and_then(|v| v.str()), Some("computed"));
}

#[test]
fn test_entry_and_modify() {
    let mut ht = ZendHashTable::new();
    let _ = ht.insert("counter", 5i64);

    let result = ht
        .entry("counter")
        .and_modify(|v| {
            if let Some(n) = v.long() {
                v.set_long(n + 1);
            }
        })
        .or_insert(0i64);

    assert!(result.is_ok());
    assert_eq!(ht.get("counter").and_then(Zval::long), Some(6));
}

#[test]
fn test_entry_and_modify_vacant() {
    let mut ht = ZendHashTable::new();
    let result = ht
        .entry("key")
        .and_modify(|v| {
            v.set_long(100);
        })
        .or_insert(42i64);

    assert!(result.is_ok());
    assert_eq!(ht.get("key").and_then(Zval::long), Some(42));
}

#[test]
fn test_occupied_entry_insert() {
    let mut ht = ZendHashTable::new();
    let _ = ht.insert("key", "old");

    if let Entry::Occupied(mut entry) = ht.entry("key") {
        let old = entry.insert("new").expect("insert should succeed");
        assert_eq!(old.as_ref().and_then(Zval::str), Some("old"));
    }
    assert_eq!(ht.get("key").and_then(|v| v.str()), Some("new"));
}

use ext_php_rs::convert::{FromZval, IntoZval};
use ext_php_rs::types::zval::{ZendHashTable, Zval};
use indexmap::IndexSet;

fn strings(items: &[&str]) -> IndexSet<String> {
    let mut set = IndexSet::new();
    for s in items {
        set.insert((*s).to_string());
    }
    set
}

#[test]
fn test_hash_table_try_from_index_set() {
    let set = strings(&["one", "two", "three"]);
    let zval = set.into_zval(false).unwrap();
    let ht: &ZendHashTable = zval.array().unwrap();
    assert_eq!(ht.len(), 3);
    assert_eq!(ht.get_index(0).unwrap().string().unwrap(), "one");
    assert_eq!(ht.get_index(1).unwrap().string().unwrap(), "two");
    assert_eq!(ht.get_index(2).unwrap().string().unwrap(), "three");
}

#[test]
fn test_index_set_into_zval() {
    let set = strings(&["one", "two", "three"]);
    let zval = set.into_zval(false).unwrap();
    assert!(zval.is_array());
    let ht: &ZendHashTable = zval.array().unwrap();
    assert_eq!(ht.len(), 3);
    assert_eq!(ht.get_index(0).unwrap().string().unwrap(), "one");
    assert_eq!(ht.get_index(1).unwrap().string().unwrap(), "two");
    assert_eq!(ht.get_index(2).unwrap().string().unwrap(), "three");
}

#[test]
fn test_index_set_try_from_hash_table() {
    let mut ht = ZendHashTable::new();
    ht.insert(0i64, "value1").unwrap();
    ht.insert(1i64, "value2").unwrap();
    ht.insert(2i64, "value3").unwrap();
    let mut zval = Zval::new();
    zval.set_hashtable(ht);

    let set = IndexSet::<String>::from_zval(&zval).unwrap();
    assert_eq!(set.len(), 3);
    assert!(set.contains("value1"));
    assert!(set.contains("value2"));
    assert!(set.contains("value3"));
}

#[test]
fn test_index_set_preserves_order() {
    let set = strings(&["z", "a", "m"]);
    let zval = set.into_zval(false).unwrap();
    let ht = zval.array().unwrap();
    let values: Vec<String> = (0..3).map(|i| ht.get_index(i).unwrap().string().unwrap()).collect();
    assert_eq!(values, vec!["z", "a", "m"]);

    let set_back = IndexSet::<String>::from_zval(&zval).unwrap();
    let values_back: Vec<String> = set_back.iter().cloned().collect();
    assert_eq!(values_back, vec!["z", "a", "m"]);
}

#[test]
fn repeated_texts_keep_their_first_place() {
    let mut ht = ZendHashTable::new();
    ht.insert(0i64, "b").unwrap();
    ht.insert(1i64, "a").unwrap();
    ht.insert(2i64, "b").unwrap();
    let mut zval = Zval::new();
    zval.set_hashtable(ht);
    let set = IndexSet::<String>::from_zval(&zval).unwrap();
    let values: Vec<String> = set.iter().cloned().collect();
    assert_eq!(values, vec!["b", "a"]);
}

#[test]
fn arrays_with_non_string_values_do_not_read_as_string_sets() {
    let mut ht = ZendHashTable::new();
    ht.insert(0i64, "a").unwrap();
    ht.insert(1i64, 5i64).unwrap();
    let mut zval = Zval::new();
    zval.set_hashtable(ht);
    assert!(IndexSet::<String>::from_zval(&zval).is_none());
    assert!(IndexSet::<String>::from_zval(&Zval::new()).is_none());
}

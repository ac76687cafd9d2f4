use enm::db::{
    delete, get_all, get_all_from_tree, set_to_tree, DatabaseError, KVPair, YaepmDb,
};
use std::collections::HashMap;

#[test]
fn get_all_from_tree_decodes_keys() {
    let raw = vec![
        Some((b"alpha".to_vec(), vec![1u8, 2])),
        Some(("b\u{e9}ta".as_bytes().to_vec(), vec![])),
    ];
    let pairs = get_all_from_tree(&raw).unwrap();
    assert_eq!(pairs.len(), 2);
    assert_eq!(pairs[0].key, "alpha");
    assert_eq!(pairs[0].value, vec![1u8, 2]);
    assert_eq!(pairs[1].key, "b\u{e9}ta");
    assert!(pairs[1].value.is_empty());
}

#[test]
fn get_all_from_tree_of_nothing_is_empty() {
    assert!(get_all_from_tree(&Vec::new()).unwrap().is_empty());
}

#[test]
fn get_all_from_tree_reports_first_failure() {
    let bad_key = vec![Some((b"ok".to_vec(), vec![])), Some((vec![0xff], vec![])), None];
    assert!(matches!(get_all_from_tree(&bad_key), Err(DatabaseError::Deserialize)));
    let not_yielded = vec![Some((b"ok".to_vec(), vec![])), None, Some((vec![0xff], vec![]))];
    assert!(matches!(get_all_from_tree(&not_yielded), Err(DatabaseError::Get)));
}

#[test]
fn get_all_keeps_order_and_values() {
    let decoded = vec![
        ("a".to_string(), Some(1u32)),
        ("b".to_string(), Some(2u32)),
        ("c".to_string(), Some(3u32)),
    ];
    let all = get_all(decoded).unwrap();
    assert_eq!(all, vec![("a".to_string(), 1u32), ("b".to_string(), 2), ("c".to_string(), 3)]);
    assert!(get_all(Vec::<(String, Option<u8>)>::new()).unwrap().is_empty());
}

#[test]
fn get_all_fails_on_one_undecoded_value() {
    let decoded = vec![("a".to_string(), Some(1u32)), ("b".to_string(), None)];
    assert!(matches!(get_all(decoded), Err(DatabaseError::Deserialize)));
}

#[test]
fn set_to_tree_outcomes() {
    assert!(set_to_tree(true).is_ok());
    assert!(matches!(set_to_tree(false), Err(DatabaseError::SetFailed)));
}

#[test]
fn set_outcomes() {
    assert!(enm::db::set(true, set_to_tree(true)).is_ok());
    assert!(matches!(enm::db::set(false, Ok(())), Err(DatabaseError::Serialize)));
    assert!(matches!(enm::db::set(false, set_to_tree(false)), Err(DatabaseError::Serialize)));
    assert!(matches!(enm::db::set(true, set_to_tree(false)), Err(DatabaseError::Communicate)));
    assert!(matches!(
        enm::db::set(true, Err(DatabaseError::NotFound)),
        Err(DatabaseError::Communicate)
    ));
}

#[test]
fn delete_outcomes() {
    assert!(delete(Ok(true)).is_ok());
    assert!(matches!(delete(Ok(false)), Err(DatabaseError::NotFound)));
    let cause = sled::Error::Unsupported("closed".to_string());
    assert!(matches!(
        delete(Err(cause)),
        Err(DatabaseError::SledError(sled::Error::Unsupported(text))) if text == "closed"
    ));
}

#[test]
fn plain_records_hold_their_fields() {
    let pair = KVPair { key: "k".to_string(), value: vec![9u8] };
    assert_eq!(pair.key, "k");
    assert_eq!(pair.value, vec![9u8]);
    let mut notes = HashMap::new();
    notes.insert("n".to_string(), (7u64, vec![1u8]));
    let db = YaepmDb { notes };
    assert_eq!(db.notes.get("n"), Some(&(7u64, vec![1u8])));
}

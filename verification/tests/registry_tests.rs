use dbbridge::models::DbError;
use dbbridge::registry::{generate_connection_id, Directory};

#[test]
fn fresh_identifiers_are_hyphenated_hex() {
    let a = generate_connection_id();
    let b = generate_connection_id();
    assert_ne!(a, b);
    for id in [a, b] {
        assert_eq!(id.len(), 36);
        for (i, c) in id.chars().enumerate() {
            if i == 8 || i == 13 || i == 18 || i == 23 {
                assert_eq!(c, '-');
            } else {
                assert!(c.is_ascii_hexdigit() && !c.is_ascii_uppercase());
            }
        }
    }
}

#[test]
fn insert_get_remove_one_partition() {
    let mut dir: Directory<u64> = Directory::new();
    assert_eq!(dir.len(), 0);
    assert!(dir.get("missing").is_none());
    dir.insert("one".to_string(), 1);
    dir.insert("two".to_string(), 2);
    assert_eq!(dir.len(), 2);
    assert_eq!(dir.get("one"), Some(&1));
    assert_eq!(dir.get("two"), Some(&2));
    assert!(dir.remove("one"));
    assert!(!dir.remove("one"));
    assert_eq!(dir.len(), 1);
    assert!(dir.get("one").is_none());
}

#[test]
fn insert_replaces_existing_handle() {
    let mut dir: Directory<u64> = Directory::new();
    dir.insert("k".to_string(), 1);
    dir.insert("k".to_string(), 2);
    assert_eq!(dir.len(), 1);
    assert_eq!(dir.get("k"), Some(&2));
}

#[test]
fn register_mints_and_stores() {
    let mut dir: Directory<u64> = Directory::new();
    let id = dir.register(41);
    assert_eq!(id.len(), 36);
    assert_eq!(dir.get(&id), Some(&41));
    assert_eq!(dir.len(), 1);
}

#[test]
fn get_or_not_found_reports_the_identifier() {
    let dir: Directory<u64> = Directory::new();
    match dir.get_or_not_found("abc") {
        Err(DbError::ConnectionNotFound(m)) => {
            assert_eq!(m, "Connection with ID abc not found");
        }
        other => panic!("expected ConnectionNotFound, got {:?}", other),
    }
}

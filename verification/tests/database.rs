use s5_rust::store::Database;
use s5_rust::SledWrappings;

fn temp_db() -> Database {
    Database::new(sled::Config::new().temporary(true).open().unwrap())
}

fn raw(db: &Database, key: &str) -> Option<Vec<u8>> {
    db.get(key.as_bytes()).unwrap()
}

#[test]
fn i32_reads_back_what_was_stored() {
    let mut db = temp_db();
    assert!(SledWrappings::set_i32("delay".to_string(), 42, &mut db));
    assert_eq!(SledWrappings::get_i32("delay".to_string(), &db), 42);
    assert!(SledWrappings::set_i32("delay".to_string(), -5, &mut db));
    assert_eq!(SledWrappings::get_i32("delay".to_string(), &db), -5);
}

#[test]
fn i32_is_stored_in_bincode_form() {
    let mut db = temp_db();
    assert!(SledWrappings::set_i32("k".to_string(), 0x01020304, &mut db));
    assert_eq!(raw(&db, "k"), Some(vec![4, 3, 2, 1]));
    assert!(SledWrappings::set_i32("m".to_string(), -1, &mut db));
    assert_eq!(raw(&db, "m"), Some(vec![0xff, 0xff, 0xff, 0xff]));
}

#[test]
fn string_reads_back_what_was_stored() {
    let mut db = temp_db();
    assert!(SledWrappings::set_string("name".to_string(), "nødé".to_string(), &mut db));
    assert_eq!(SledWrappings::get_string("name".to_string(), &db), "nødé");
    assert_eq!(
        raw(&db, "name"),
        Some(vec![6, 0, 0, 0, 0, 0, 0, 0, b'n', 0xc3, 0xb8, b'd', 0xc3, 0xa9])
    );
}

#[test]
fn setting_one_key_leaves_others() {
    let mut db = temp_db();
    assert!(SledWrappings::set_i32("a".to_string(), 1, &mut db));
    assert!(SledWrappings::set_string("b".to_string(), "x".to_string(), &mut db));
    assert!(SledWrappings::set_i32("c".to_string(), 3, &mut db));
    assert_eq!(SledWrappings::get_i32("a".to_string(), &db), 1);
    assert_eq!(SledWrappings::get_string("b".to_string(), &db), "x");
    assert_eq!(SledWrappings::get_i32("c".to_string(), &db), 3);
}

#[test]
fn i32_ignores_bytes_after_the_first_four() {
    let mut db = temp_db();
    assert!(db.insert(b"k", &[1, 0, 0, 0, 9, 9]).is_ok());
    assert_eq!(SledWrappings::get_i32("k".to_string(), &db), 1);
}

#[test]
fn database_reads_back_raw_writes() {
    let mut db = temp_db();
    assert_eq!(raw(&db, "x"), None);
    assert!(db.insert(b"x", &[7, 8]).is_ok());
    assert_eq!(raw(&db, "x"), Some(vec![7, 8]));
    assert!(db.insert(b"x", &[9]).is_ok());
    assert_eq!(raw(&db, "x"), Some(vec![9]));
}

#[test]
fn i32_of_read_decodes_or_gives_minus_one() {
    assert_eq!(SledWrappings::i32_of_read(Ok(Some(vec![0xfe, 0xff, 0xff, 0xff]))), -2);
    assert_eq!(SledWrappings::i32_of_read(Ok(Some(vec![5, 0, 0, 0, 1]))), 5);
    let err = sled::Error::Unsupported("no disk".to_string());
    assert_eq!(SledWrappings::i32_of_read(Err(err)), -1);
}

#[test]
fn string_of_read_decodes_or_gives_empty() {
    let bytes = vec![2, 0, 0, 0, 0, 0, 0, 0, b'h', b'i'];
    assert_eq!(SledWrappings::string_of_read(Ok(Some(bytes))), "hi");
    let err = sled::Error::Unsupported("no disk".to_string());
    assert_eq!(SledWrappings::string_of_read(Err(err)), "");
}

#[test]
fn try_get_i32_tells_missing_and_short_values() {
    let mut db = temp_db();
    assert_eq!(SledWrappings::try_get_i32("none".to_string(), &db), None);
    assert!(db.insert(b"short", &[1, 2]).is_ok());
    assert_eq!(SledWrappings::try_get_i32("short".to_string(), &db), None);
    assert!(SledWrappings::set_i32("ok".to_string(), 77, &mut db));
    assert_eq!(SledWrappings::try_get_i32("ok".to_string(), &db), Some(77));
}

#[test]
fn try_get_string_tells_missing_and_malformed_values() {
    let mut db = temp_db();
    assert_eq!(SledWrappings::try_get_string("none".to_string(), &db), None);
    assert!(db.insert(b"bad", &[9, 0, 0, 0, 0, 0, 0, 0, b'a']).is_ok());
    assert_eq!(SledWrappings::try_get_string("bad".to_string(), &db), None);
    assert!(SledWrappings::set_string("ok".to_string(), "yes".to_string(), &mut db));
    assert_eq!(SledWrappings::try_get_string("ok".to_string(), &db), Some("yes".to_string()));
}

use rure::encoding::decode;
use rure::NameTable;

#[test]
fn decode_accepts_ascii() {
    assert_eq!(decode(b"abc"), Ok("abc"));
}

#[test]
fn decode_accepts_the_empty_input() {
    assert_eq!(decode(b""), Ok(""));
}

#[test]
fn decode_accepts_multibyte_text() {
    assert_eq!(decode("h\u{e9}llo \u{2603}".as_bytes()), Ok("h\u{e9}llo \u{2603}"));
}

#[test]
fn decode_refuses_a_lone_continuation_byte() {
    assert_eq!(decode(b"\x80"), Err(0));
}

#[test]
fn decode_reports_the_longest_valid_prefix() {
    assert_eq!(decode(b"ab\xff"), Err(2));
    assert_eq!(decode(b"ab\xffcd"), Err(2));
    assert_eq!(decode(b"a\xe2\x82"), Err(1));
    assert_eq!(decode(b"\xe2\x28\xa1"), Err(0));
    assert_eq!(decode(b"\xc3\xa9\xc3"), Err(2));
}

#[test]
fn name_table_starts_empty() {
    let t = NameTable::new();
    assert_eq!(t.get("year"), None);
    assert_eq!(t.get(""), None);
}

#[test]
fn name_table_insert_then_get() {
    let mut t = NameTable::new();
    t.insert("year".to_string(), 1);
    t.insert("month".to_string(), 2);
    assert_eq!(t.get("year"), Some(1));
    assert_eq!(t.get("month"), Some(2));
    assert_eq!(t.get("day"), None);
    assert_eq!(t.get("yea"), None);
}

#[test]
fn name_table_insert_replaces() {
    let mut t = NameTable::new();
    t.insert("a".to_string(), 1);
    t.insert("b".to_string(), 2);
    t.insert("a".to_string(), 7);
    assert_eq!(t.get("a"), Some(7));
    assert_eq!(t.get("b"), Some(2));
}

#[test]
fn name_table_from_names_binds_each_name_to_its_index() {
    let names = vec![None, Some("year".to_string()), None, Some("month".to_string())];
    let t = NameTable::from_names(&names);
    assert_eq!(t.get("year"), Some(1));
    assert_eq!(t.get("month"), Some(3));
    assert_eq!(t.get("day"), None);
}

#[test]
fn name_table_from_names_lets_the_last_group_win() {
    let names = vec![None, Some("x".to_string()), Some("y".to_string()), Some("x".to_string())];
    let t = NameTable::from_names(&names);
    assert_eq!(t.get("x"), Some(3));
    assert_eq!(t.get("y"), Some(2));
}

#[test]
fn name_table_from_no_names_is_empty() {
    let t = NameTable::from_names(&Vec::new());
    assert_eq!(t.get("x"), None);
    let t = NameTable::from_names(&vec![None, None]);
    assert_eq!(t.get("x"), None);
}

#[test]
fn name_table_holds_negative_indices() {
    let mut t = NameTable::new();
    t.insert("n".to_string(), -1);
    assert_eq!(t.get("n"), Some(-1));
}

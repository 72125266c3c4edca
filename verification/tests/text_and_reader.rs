use prime_server::reader::{ByteReader, ReadError};
use prime_server::table::Table;
use prime_server::text::{
    chars_of, join_strings, push_decimal, split_chars, string_of, trim_chars, words_chars,
};

#[test]
fn read_line_keeps_newline_and_consumes_bad_lines() {
    let mut reader = ByteReader::new(b"one\r\ntwo\n\xffbad\nlast");
    assert_eq!(reader.read_line().unwrap(), "one\r\n");
    assert_eq!(reader.read_line().unwrap(), "two\n");
    assert_eq!(reader.read_line(), Err(ReadError::InvalidData));
    assert_eq!(reader.read_line().unwrap(), "last");
    assert!(reader.is_empty());
    assert_eq!(reader.read_line().unwrap(), "");
}

#[test]
fn read_exact_consumes_all_when_short() {
    let mut reader = ByteReader::new(b"abc");
    assert_eq!(reader.read_exact(2).unwrap(), b"ab".to_vec());
    assert_eq!(reader.read_exact(5), Err(ReadError::UnexpectedEof));
    assert!(reader.is_empty());
}

#[test]
fn decimal_rendering() {
    let mut s = String::from("n=");
    push_decimal(&mut s, 0);
    push_decimal(&mut s, 1234567890);
    assert_eq!(s, "n=01234567890");
}

#[test]
fn trimming_and_splitting() {
    let t = trim_chars(&chars_of("\u{3000} a b \t\n"));
    assert_eq!(string_of(&t), "a b");
    let parts: Vec<String> = split_chars(&chars_of("a, b,, c"), &chars_of(", "))
        .iter()
        .map(string_of)
        .collect();
    assert_eq!(parts, vec!["a", "b,", "c"]);
    let words: Vec<String> = words_chars(&chars_of("  x\ty  z ")).iter().map(string_of).collect();
    assert_eq!(words, vec!["x", "y", "z"]);
    assert_eq!(
        join_strings(&vec![String::from("a"), String::from("b")], ", "),
        "a, b"
    );
}

#[test]
fn table_insert_in_place() {
    let mut t: Table<String> = Table::new();
    t.insert(String::from("a"), String::from("1"));
    t.insert(String::from("b"), String::from("2"));
    t.insert(String::from("a"), String::from("3"));
    assert_eq!(t.position("a"), Some(0));
    assert_eq!(t.get("a"), Some(&String::from("3")));
    assert_eq!(t.get("c"), None);
    assert_eq!(t.len(), 2);
    t.set_value(1, String::from("4"));
    assert_eq!(
        t.into_entries(),
        vec![
            (String::from("a"), String::from("3")),
            (String::from("b"), String::from("4"))
        ]
    );
}

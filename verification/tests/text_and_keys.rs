use vectordb::cli::{
    confirmed, data_type_choice, database_choice, indexer_choice, knn_choice, main_choice, path_choice,
    record_choice, trimmed_equals, DatabaseChoice, IndexerChoice, MainChoice, PathChoice, RecordChoice,
};
use vectordb::indexer::protocol::KNNType;
use vectordb::keys::{decode_key, hash, to_hex_lower, HexError};
use vectordb::strings::{is_blank, is_white_space_char, parse_u64, u64_to_string};
use vectordb::types::DataType;

#[test]
fn decimal_round_trip() {
    assert_eq!(u64_to_string(0), "0");
    assert_eq!(u64_to_string(1234), "1234");
    assert_eq!(u64_to_string(u64::MAX), "18446744073709551615");
    assert_eq!(parse_u64(&u64_to_string(987654321)), Some(987654321));
}

#[test]
fn parse_u64_as_std_does() {
    assert_eq!(parse_u64("42"), Some(42));
    assert_eq!(parse_u64("+42"), Some(42));
    assert_eq!(parse_u64(""), None);
    assert_eq!(parse_u64("+"), None);
    assert_eq!(parse_u64("4a"), None);
    assert_eq!(parse_u64(" 4"), None);
    assert_eq!(parse_u64("18446744073709551615"), Some(u64::MAX));
    assert_eq!(parse_u64("18446744073709551616"), None);
    for s in ["7", "007", "+0", "-1", "1_0"] {
        assert_eq!(parse_u64(s), s.parse::<u64>().ok());
    }
}

#[test]
fn blank_strings() {
    assert!(is_blank(""));
    assert!(is_blank(" \t\n\u{3000}"));
    assert!(!is_blank("  x "));
    assert!(is_white_space_char('\u{a0}'));
    assert!(!is_white_space_char('a'));
}

#[test]
fn hash_of_empty_input() {
    assert_eq!(
        hash(Vec::new()),
        "e3b0c44298fc1c149afbf4c8996fb92427ae41e4649b934ca495991b7852b855"
    );
    assert_eq!(
        hash(b"abc".to_vec()),
        "ba7816bf8f01cfea414140de5dae2223b00361a396177a9cb410ff61f20015ad"
    );
}

#[test]
fn hex_lower_notation() {
    assert_eq!(to_hex_lower(&[0x00, 0x0f, 0xa0, 0xff]), "000fa0ff");
    assert_eq!(to_hex_lower(&[]), "");
}

#[test]
fn keys_decode() {
    assert_eq!(decode_key("0aFF"), Ok(vec![0x0a, 0xff]));
    assert_eq!(decode_key(""), Ok(vec![]));
    assert_eq!(decode_key("abc"), Err(HexError::OddLength));
    assert_eq!(decode_key("0g"), Err(HexError::InvalidHexCharacter { c: 'g', index: 1 }));
    let key = hash(b"record".to_vec());
    assert_eq!(decode_key(&key).unwrap().len(), 32);
    assert_eq!(to_hex_lower(&decode_key(&key).unwrap()), key);
}

#[test]
fn menu_lines_trimmed() {
    assert!(trimmed_equals("  1\n", "1"));
    assert!(trimmed_equals("Text", "Text"));
    assert!(!trimmed_equals("1 1", "1"));
    assert!(!trimmed_equals("", "1"));
    assert!(trimmed_equals(" \t ", ""));
}

#[test]
fn menus_select() {
    assert_eq!(main_choice("1\n"), Some(MainChoice::ShowDatabases));
    assert_eq!(main_choice(" 0 "), Some(MainChoice::Exit));
    assert_eq!(main_choice("5"), None);
    assert_eq!(indexer_choice("4\n"), Some(IndexerChoice::Hnsw));
    assert_eq!(database_choice("7\n"), Some(DatabaseChoice::PrintTree));
    assert_eq!(database_choice("9"), None);
    assert_eq!(path_choice("3\n"), Some(PathChoice::RemoveDatabase));
    assert_eq!(record_choice("2\n"), Some(RecordChoice::ByKey));
    assert_eq!(knn_choice("4\n"), Some(KNNType::Cosine));
    assert_eq!(knn_choice("0"), None);
    assert_eq!(data_type_choice("Image\n"), Some(DataType::Image));
    assert_eq!(data_type_choice("image"), None);
    assert!(confirmed("1\n"));
    assert!(!confirmed("0\n"));
    assert_eq!(DataType::default(), DataType::Text);
}

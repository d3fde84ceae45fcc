use arcrelay_transfer::infrastructure::encoding::{
    data_url_text, decode_hex, decode_key, encode_hex, encode_key, preview_data_url,
};
use arcrelay_transfer::infrastructure::identifiers::random_nonzero_u64;
use arcrelay_transfer::order::{comes_before, sort_stably};
use arcrelay_transfer::table::TextTable;
use arcrelay_transfer::text::{
    assemble, begins_with, decimal_text, lower_text, raise_text, same_text, split_text,
};
use arcrelay_transfer::TransferError;

#[test]
fn keys_are_standard_padded_base64() {
    assert_eq!(encode_key(&[1, 2, 3, 4]), "AQIDBA==");
    assert_eq!(decode_key("AQIDBA==").unwrap(), vec![1, 2, 3, 4]);
    assert_eq!(decode_key(&encode_key(&[0xff; 32])).unwrap(), vec![0xff; 32]);
    for text in ["AQIDBA", "AQ ID", "%%%%"] {
        assert_eq!(
            decode_key(text),
            Err(TransferError::Invalid("invalid peer public key".into())),
            "{text}"
        );
    }
}

#[test]
fn previews_are_data_urls_unless_they_are_too_large() {
    assert_eq!(
        preview_data_url("image/jpeg", &[0xff, 0xd8]).as_deref(),
        Some("data:image/jpeg;base64,/9g=")
    );
    assert!(preview_data_url("image/jpeg", &vec![0; 64 * 1024]).is_some());
    assert_eq!(preview_data_url("image/jpeg", &vec![0; 64 * 1024 + 1]), None);
    assert_eq!(data_url_text("image/png", "QQ=="), "data:image/png;base64,QQ==");
}

#[test]
fn digests_are_lower_case_hexadecimal() {
    assert_eq!(encode_hex(&[0x00, 0xab, 0x7f]), "00ab7f");
    assert_eq!(decode_hex("00AB7f").unwrap(), vec![0x00, 0xab, 0x7f]);
    assert_eq!(decode_hex("+f").unwrap(), vec![0x0f]);
    assert_eq!(decode_hex(&encode_hex(&[9; 32])).unwrap(), vec![9; 32]);
    for text in ["0", "0g", "++", "\u{e9}", " 1"] {
        assert_eq!(
            decode_hex(text),
            Err(TransferError::Invalid(
                "invalid device certificate digest".into()
            )),
            "{text}"
        );
    }
}

#[test]
fn drawn_numbers_are_not_zero_and_differ() {
    let first = random_nonzero_u64();
    let second = random_nonzero_u64();
    assert_ne!(first, 0);
    assert_ne!(first, second);
}

#[test]
fn texts_are_split_and_put_together() {
    let pieces = split_text("a//b", '/');
    assert_eq!(pieces, vec!["a", "", "b"]);
    assert_eq!(assemble(&pieces, '/'), "a//b");
    assert_eq!(split_text("", '/'), vec![""]);
    assert_eq!(decimal_text(0), "0");
    assert_eq!(decimal_text(u64::MAX), "18446744073709551615");
    assert_eq!(lower_text("ÄBc"), "Äbc");
    assert_eq!(raise_text("äbC"), "äBC");
    assert!(same_text("a", "a"));
    assert!(!same_text("a", "A"));
    assert!(begins_with("image/png", "image/"));
    assert!(!begins_with("image", "image/"));
    assert!(begins_with("x", ""));
}

#[test]
fn texts_are_ordered_by_their_characters() {
    assert!(comes_before("", "a"));
    assert!(comes_before("Z", "a"));
    assert!(comes_before("a", "ab"));
    assert!(comes_before("ab", "b"));
    assert!(!comes_before("a", "a"));
    assert!(comes_before("z", "\u{e9}"));
    assert!(comes_before("\u{ffff}", "\u{10000}"));
}

#[test]
fn sorting_leaves_equal_items_in_their_order() {
    let mut list = vec![(2, 'a'), (1, 'b'), (2, 'c'), (1, 'd'), (0, 'e')];
    sort_stably(&mut list, |one, other| one.0 < other.0);
    assert_eq!(list, vec![(0, 'e'), (1, 'b'), (1, 'd'), (2, 'a'), (2, 'c')]);
}

#[test]
fn tables_hold_each_text_once() {
    let mut table: TextTable<u8> = TextTable::new();
    table.insert("a".into(), 1);
    table.insert("b".into(), 2);
    table.insert("a".into(), 3);
    assert_eq!(table.len(), 2);
    assert_eq!(table.get("a"), Some(&3));
    assert!(table.contains("b"));
    assert_eq!(table.remove("b"), Some(2));
    assert_eq!(table.remove("b"), None);
    assert_eq!(table.key_at(0), "a");
    table.set_at(0, 9);
    assert_eq!(table.value_at(0), &9);
}

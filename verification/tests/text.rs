use psidb::database::Database;
use psidb::text::{chars_of, find_char, split_on, to_decimal};
use psidb::utils::{is_permutation_small, parse_kv_opt_string};

fn strings(v: &[&str]) -> Vec<String> {
    v.iter().map(|s| s.to_string()).collect()
}

#[test]
fn split_keeps_empty_pieces() {
    assert_eq!(split_on("a;b;;c", ';'), strings(&["a", "b", "", "c"]));
    assert_eq!(split_on("", ';'), strings(&[""]));
    assert_eq!(split_on(";", ';'), strings(&["", ""]));
    assert_eq!(split_on("abc", ';'), strings(&["abc"]));
    assert_eq!(split_on(";a;", ';'), strings(&["", "a", ""]));
}

#[test]
fn split_counts_characters_not_bytes() {
    assert_eq!(split_on("é;ü=ß;日本", ';'), strings(&["é", "ü=ß", "日本"]));
    assert_eq!(chars_of("é;"), vec!['é', ';']);
}

#[test]
fn find_char_gives_first_position_or_length() {
    assert_eq!(find_char("a=b=c", '='), (1, 5));
    assert_eq!(find_char("abc", '='), (3, 3));
    assert_eq!(find_char("", '='), (0, 0));
    assert_eq!(find_char("é=", '='), (1, 2));
}

#[test]
fn decimal_form_of_numbers() {
    assert_eq!(to_decimal(0), "0");
    assert_eq!(to_decimal(7), "7");
    assert_eq!(to_decimal(10), "10");
    assert_eq!(to_decimal(1234567890), "1234567890");
    assert_eq!(to_decimal(u64::MAX), "18446744073709551615");
}

#[test]
fn kv_string_is_cut_at_semicolons() {
    assert_eq!(
        parse_kv_opt_string(Some("a=1;b=2;c=3;;d=4"), None),
        vec![
            Some("a=1".to_string()),
            Some("b=2".to_string()),
            Some("c=3".to_string()),
            None,
            Some("d=4".to_string())
        ]
    );
    assert_eq!(parse_kv_opt_string(Some(""), Some(3)), vec![None]);
    assert_eq!(parse_kv_opt_string(Some(";x"), Some(2)), vec![None, Some("x".to_string())]);
}

#[test]
fn kv_string_that_is_missing_gives_one_empty_entry_for_each_script() {
    assert_eq!(parse_kv_opt_string(None, Some(3)), vec![None, None, None]);
    assert_eq!(parse_kv_opt_string(None, Some(1)), vec![None]);
    assert_eq!(parse_kv_opt_string(None, Some(0)), Vec::<Option<String>>::new());
    assert_eq!(parse_kv_opt_string(None, None), vec![None]);
}

#[test]
fn metadata_text_is_read_as_pairs() {
    let md = Database::parse_md(Some("a=1;b=x=y;c"));
    assert_eq!(md.get("a"), Some(&"1".to_string()));
    assert_eq!(md.get("b"), Some(&"x=y".to_string()));
    assert_eq!(md.get("c"), Some(&"".to_string()));
    assert_eq!(md.get("d"), None);
    assert_eq!(md.entries().len(), 3);
}

#[test]
fn metadata_text_later_pair_wins() {
    let md = Database::parse_md(Some("a=1;a=2"));
    assert_eq!(md.get("a"), Some(&"2".to_string()));
    assert_eq!(md.entries().len(), 1);
}

#[test]
fn metadata_text_that_is_missing_or_empty() {
    let none = Database::parse_md(None);
    assert_eq!(none.entries().len(), 0);
    let empty = Database::parse_md(Some(""));
    assert_eq!(empty.get(""), Some(&"".to_string()));
    assert_eq!(empty.entries().len(), 1);
}

#[test]
fn permutation_of_small_slices() {
    assert!(is_permutation_small(&[1, 2, 3], &[3, 1, 2]));
    assert!(!is_permutation_small(&[1, 2, 3], &[1, 2]));
    assert!(!is_permutation_small(&[1, 2, 3], &[1, 2, 4]));
    assert!(is_permutation_small::<u8>(&[], &[]));
    assert!(!is_permutation_small(&[1, 1], &[1, 2]));
    assert!(!is_permutation_small(&[1, 2], &[1, 1]));
    assert!(is_permutation_small(&[1, 1, 2], &[2, 2, 1]));
    assert!(is_permutation_small(&["x", "y"], &["y", "x"]));
    assert!(!is_permutation_small(&["x", "x"], &["x", "y"]));
    assert!(!is_permutation_small(&["x", "y"], &["x", "x"]));
}

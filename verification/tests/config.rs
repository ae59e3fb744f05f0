use prnouncer::config::{parse_flag, parse_ids, parse_u64, split_csv};
use prnouncer::text::{i64_to_string, str_eq, u64_to_string};

#[test]
fn test_split_csv_plain_list() {
    assert_eq!(
        split_csv("org/alpha,org/beta"),
        vec!["org/alpha".to_string(), "org/beta".to_string()]
    );
}

#[test]
fn test_split_csv_empty_input_yields_one_empty_piece() {
    assert_eq!(split_csv(""), vec!["".to_string()]);
}

#[test]
fn test_split_csv_keeps_empty_pieces() {
    assert_eq!(
        split_csv("a,,b,"),
        vec!["a".to_string(), "".to_string(), "b".to_string(), "".to_string()]
    );
}

#[test]
fn test_parse_u64_plain_number() {
    assert_eq!(parse_u64("123"), Some(123));
    assert_eq!(parse_u64("0"), Some(0));
    assert_eq!(parse_u64("18446744073709551615"), Some(u64::MAX));
}

#[test]
fn test_parse_u64_rejects_bad_input() {
    assert_eq!(parse_u64(""), None);
    assert_eq!(parse_u64("12x"), None);
    assert_eq!(parse_u64("-5"), None);
    assert_eq!(parse_u64("18446744073709551616"), None);
}

#[test]
fn test_parse_ids_all_or_nothing() {
    let good = vec!["1".to_string(), "22".to_string()];
    assert_eq!(parse_ids(&good), Some(vec![1, 22]));
    let bad = vec!["1".to_string(), "x".to_string()];
    assert_eq!(parse_ids(&bad), None);
}

#[test]
fn test_integer_rendering() {
    assert_eq!(u64_to_string(0), "0".to_string());
    assert_eq!(u64_to_string(907), "907".to_string());
    assert_eq!(u64_to_string(u64::MAX), "18446744073709551615".to_string());
    assert_eq!(i64_to_string(-42), "-42".to_string());
    assert_eq!(i64_to_string(i64::MIN), "-9223372036854775808".to_string());
}

#[test]
fn test_str_eq_compares_contents() {
    assert!(str_eq("abc", "abc"));
    assert!(!str_eq("abc", "abd"));
    assert!(!str_eq("abc", "ab"));
}

#[test]
fn test_parse_flag_is_exact() {
    assert!(parse_flag("true"));
    assert!(!parse_flag("false"));
    assert!(!parse_flag("TRUE"));
    assert!(!parse_flag(""));
}

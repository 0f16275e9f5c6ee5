use tree_sitter_cli::filter::NameFilter;
use tree_sitter_cli::settings::{
    edit_count, int_env_var, iteration_count, new_seed, parse_usize, regex_env_var,
    DEFAULT_EDIT_COUNT, DEFAULT_ITERATION_COUNT,
};

#[test]
fn parses_plain_decimal() {
    assert_eq!(parse_usize("42"), Some(42));
    assert_eq!(parse_usize("0"), Some(0));
    assert_eq!(parse_usize("007"), Some(7));
}

#[test]
fn accepts_one_leading_plus() {
    assert_eq!(parse_usize("+7"), Some(7));
    assert_eq!(parse_usize("++7"), None);
    assert_eq!(parse_usize("+"), None);
}

#[test]
fn refuses_everything_else() {
    assert_eq!(parse_usize(""), None);
    assert_eq!(parse_usize("-1"), None);
    assert_eq!(parse_usize("-0"), None);
    assert_eq!(parse_usize(" 1"), None);
    assert_eq!(parse_usize("1 "), None);
    assert_eq!(parse_usize("1a"), None);
    assert_eq!(parse_usize("\u{663}"), None);
    assert_eq!(parse_usize("1_000"), None);
}

#[test]
fn agrees_with_std_parse() {
    for s in ["", "+", "12", "+12", "-12", "0x10", "99999", "4294967296", "\u{663}", "+0", "00"] {
        assert_eq!(parse_usize(s), s.parse::<usize>().ok(), "on {s:?}");
    }
}

#[test]
fn overflow_is_refused() {
    let max = usize::MAX.to_string();
    assert_eq!(parse_usize(&max), Some(usize::MAX));
    let mut over = max.clone();
    over.push('0');
    assert_eq!(parse_usize(&over), None);
    let bigger = format!("{}", (usize::MAX as u128) + 1);
    assert_eq!(parse_usize(&bigger), None);
    let padded = format!("000000000000{max}");
    assert_eq!(parse_usize(&padded), Some(usize::MAX));
}

#[test]
fn unset_variable_has_no_number() {
    assert_eq!(int_env_var(None), None);
    assert_eq!(int_env_var(Some("12")), Some(12));
    assert_eq!(int_env_var(Some("twelve")), None);
}

#[test]
fn counts_fall_back_to_defaults() {
    assert_eq!(DEFAULT_EDIT_COUNT, 3);
    assert_eq!(DEFAULT_ITERATION_COUNT, 10);
    assert_eq!(edit_count(None), 3);
    assert_eq!(edit_count(Some("x")), 3);
    assert_eq!(edit_count(Some("5")), 5);
    assert_eq!(iteration_count(None), 10);
    assert_eq!(iteration_count(Some("")), 10);
    assert_eq!(iteration_count(Some("250")), 250);
}

#[test]
fn configured_seed_is_used() {
    assert_eq!(new_seed(Some("123")), 123);
    assert_eq!(new_seed(Some("+0")), 0);
    let _ = new_seed(None);
    let _ = new_seed(Some("not a number"));
}

#[test]
fn filters_compile_only_valid_patterns() {
    assert!(regex_env_var(None).is_none());
    assert!(regex_env_var(Some("(")).is_none());
    assert!(regex_env_var(Some("\\w{1000}")).is_none());
    let f = regex_env_var(Some("a+b")).unwrap();
    assert_eq!(f.as_str(), "a+b");
}

#[test]
fn filter_constructor_keeps_pattern() {
    assert!(NameFilter::new("(").is_none());
    assert_eq!(NameFilter::new("x|y").unwrap().as_str(), "x|y");
}

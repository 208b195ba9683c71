use userbot::text::{contains_str, join_from, parse_i64, split_spaces, starts_with_str, verb_is};

#[test]
fn parse_small_numbers() {
    assert_eq!(parse_i64("3"), Some(3));
    assert_eq!(parse_i64("-2"), Some(-2));
    assert_eq!(parse_i64("+7"), Some(7));
    assert_eq!(parse_i64("0"), Some(0));
    assert_eq!(parse_i64("007"), Some(7));
}

#[test]
fn parse_rejects_junk() {
    assert_eq!(parse_i64(""), None);
    assert_eq!(parse_i64("+"), None);
    assert_eq!(parse_i64("-"), None);
    assert_eq!(parse_i64("abc"), None);
    assert_eq!(parse_i64("1 2"), None);
    assert_eq!(parse_i64("12x"), None);
    assert_eq!(parse_i64("--3"), None);
}

#[test]
fn parse_at_the_limits() {
    assert_eq!(parse_i64("9223372036854775807"), Some(i64::MAX));
    assert_eq!(parse_i64("9223372036854775808"), None);
    assert_eq!(parse_i64("-9223372036854775808"), Some(i64::MIN));
    assert_eq!(parse_i64("-9223372036854775809"), None);
    assert_eq!(parse_i64("99999999999999999999999999"), None);
}

#[test]
fn substring_containment() {
    assert!(contains_str("look at the cat!", "cat"));
    assert!(contains_str("cat", "cat"));
    assert!(contains_str("anything", ""));
    assert!(!contains_str("ca t", "cat"));
    assert!(!contains_str("ab", "abc"));
    assert!(contains_str("ääbcç", "bc"));
}

#[test]
fn prefix_test() {
    assert!(starts_with_str(".help", "."));
    assert!(!starts_with_str("help.", "."));
    assert!(starts_with_str("anything", ""));
}

#[test]
fn splitting_on_single_spaces() {
    let t = split_spaces("a b  c");
    assert_eq!(t, vec!["a", "b", "", "c"]);
    assert_eq!(split_spaces(""), vec![""]);
    assert_eq!(split_spaces(" x"), vec!["", "x"]);
    assert_eq!(split_spaces("x "), vec!["x", ""]);
}

#[test]
fn joining_from_an_index() {
    let args = split_spaces(".repeat 3 hi there");
    assert_eq!(join_from(&args, 2), "hi there");
    assert_eq!(join_from(&args, 1), "3 hi there");
    assert_eq!(join_from(&args, 4), "");
}

#[test]
fn verb_recognition() {
    assert!(verb_is(".repeat", ".", "repeat"));
    assert!(verb_is(".REPEAT", ".", "repeat"));
    assert!(verb_is("!help", "!", "help"));
    assert!(!verb_is(".repeat", ".", "debug"));
    assert!(verb_is("repeat", ".", "repeat"));
    assert!(verb_is("repeat", "", "repeat"));
}

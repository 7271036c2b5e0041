use krk::config::ItemConfig;
use krk::transform::{apply_transformations, coerce_value, is_float_text, truthy};
use krk::value::ReturnedDataItem::{BoolItem, NumberItem, StringItem};

fn test_config() -> ItemConfig {
    ItemConfig::new("test".to_string())
}

#[test]
fn test_uppercase_transformation() {
    let mut config = test_config();
    config.uppercase = true;
    let result = apply_transformations("hello world".to_string(), &config);
    assert_eq!(result, "HELLO WORLD");
}

#[test]
fn test_lowercase_transformation() {
    let mut config = test_config();
    config.lowercase = true;
    let result = apply_transformations("HELLO WORLD".to_string(), &config);
    assert_eq!(result, "hello world");
}

#[test]
fn test_regex_extraction() {
    let mut config = test_config();
    config.regex = Some(r"\d+\.\d+".to_string());
    let result = apply_transformations("Price: $99.99 USD".to_string(), &config);
    assert_eq!(result, "99.99");
}

#[test]
fn test_text_replacement() {
    let mut config = test_config();
    config.replace = Some(vec!["Breaking: ".to_string(), "".to_string()]);
    let result = apply_transformations("Breaking: News Title".to_string(), &config);
    assert_eq!(result, "News Title");
}

#[test]
fn test_html_stripping() {
    let mut config = test_config();
    config.strip_html = true;
    let result = apply_transformations("<p>Hello <strong>World</strong></p>".to_string(), &config);
    assert_eq!(result, "Hello World");
}

#[test]
fn uppercase_wins_over_lowercase() {
    let mut config = test_config();
    config.uppercase = true;
    config.lowercase = true;
    assert_eq!(apply_transformations("MiXeD".to_string(), &config), "MIXED");
}

#[test]
fn invalid_or_unmatched_regex_leaves_value() {
    let mut config = test_config();
    config.regex = Some("(".to_string());
    assert_eq!(apply_transformations("abc".to_string(), &config), "abc");
    config.regex = Some(r"\d+".to_string());
    assert_eq!(apply_transformations("abc".to_string(), &config), "abc");
}

#[test]
fn replace_needs_exactly_two_elements() {
    let mut config = test_config();
    config.replace = Some(vec!["a".to_string()]);
    assert_eq!(apply_transformations("banana".to_string(), &config), "banana");
    config.replace = Some(vec!["a".to_string(), "o".to_string()]);
    assert_eq!(apply_transformations("banana".to_string(), &config), "bonono");
}

#[test]
fn trim_off_keeps_white_space() {
    let mut config = test_config();
    config.trim = false;
    assert_eq!(apply_transformations("  x  ".to_string(), &config), "  x  ");
}

#[test]
fn transform_twice_is_transform_once() {
    let config = test_config();
    let once = apply_transformations(" \t padded text \n".to_string(), &config);
    let twice = apply_transformations(once.clone(), &config);
    assert_eq!(once, "padded text");
    assert_eq!(twice, once);
}

#[test]
fn price_regex_then_number() {
    let mut config = test_config();
    config.regex = Some(r"\d+\.\d+".to_string());
    config.to_number = true;
    let t = apply_transformations("$99.99".to_string(), &config);
    match coerce_value(t, &config) {
        NumberItem(n) => assert_eq!(n.parse::<f64>().unwrap(), 99.99),
        _ => panic!("Expected NumberItem"),
    }
}

#[test]
fn boolean_words() {
    let mut config = test_config();
    config.to_boolean = true;
    assert_eq!(coerce_value("true".to_string(), &config), BoolItem(true));
    assert_eq!(coerce_value("maybe".to_string(), &config), BoolItem(false));
    assert_eq!(coerce_value(" YES ".to_string(), &config), BoolItem(true));
    assert_eq!(coerce_value("On".to_string(), &config), BoolItem(true));
    assert_eq!(coerce_value("1".to_string(), &config), BoolItem(true));
    assert_eq!(coerce_value("0".to_string(), &config), BoolItem(false));
    assert!(truthy("yes"));
    assert!(!truthy("Yes"));
}

#[test]
fn number_first_then_boolean_then_text() {
    let mut config = test_config();
    config.to_number = true;
    config.to_boolean = true;
    assert_eq!(coerce_value("true".to_string(), &config), StringItem("true".to_string()));
    assert_eq!(coerce_value(" 42 ".to_string(), &config), NumberItem("42".to_string()));
}

#[test]
fn float_grammar() {
    for s in ["99.99", "1e5", "1E-5", "+3", "-0.5", ".5", "1.", "inf", "-Infinity", "NaN", "1.e5"] {
        assert!(is_float_text(s), "{}", s);
        assert!(s.parse::<f64>().is_ok());
    }
    for s in ["", ".", "e5", "1e", "abc", " 1", "1 ", "++1", "1.2.3", "0x10", "infinit"] {
        assert!(!is_float_text(s), "{}", s);
        assert!(s.parse::<f64>().is_err());
    }
}

#[test]
fn trim_removes_unicode_white_space_only() {
    let config = test_config();
    assert_eq!(apply_transformations("\u{3000}\u{a0} x y \u{2009}\n".to_string(), &config), "x y");
    assert_eq!(apply_transformations("\u{200b}x".to_string(), &config), "\u{200b}x");
}

#[test]
fn replace_edge_cases() {
    let mut config = test_config();
    config.replace = Some(vec!["aa".to_string(), "b".to_string()]);
    assert_eq!(apply_transformations("aaa".to_string(), &config), "ba");
    config.replace = Some(vec!["".to_string(), "-".to_string()]);
    assert_eq!(apply_transformations("ab".to_string(), &config), "-a-b-");
}

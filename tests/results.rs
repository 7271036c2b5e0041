use krk::config::ItemConfig;
use krk::extract::extract_page;
use krk::table::{csv_header, csv_row, text_less};
use krk::value::ReturnedDataItem::{BoolItem, DataItems, NumberItem, StringItem};
use krk::value::{is_empty_result, ReturnedData};

#[test]
fn test_is_empty_result_empty() {
    let data = ReturnedData::new();
    assert!(is_empty_result(&data));
}

#[test]
fn test_is_empty_result_with_empty_string() {
    let mut data = ReturnedData::new();
    data.insert("test".to_string(), StringItem(String::new()));
    assert!(is_empty_result(&data));
}

#[test]
fn test_is_empty_result_with_content() {
    let mut data = ReturnedData::new();
    data.insert("test".to_string(), StringItem("content".to_string()));
    assert!(!is_empty_result(&data));
}

#[test]
fn test_is_empty_result_with_number() {
    let mut data = ReturnedData::new();
    data.insert("test".to_string(), NumberItem("42.0".to_string()));
    assert!(!is_empty_result(&data));
}

#[test]
fn test_is_empty_result_with_bool() {
    let mut data = ReturnedData::new();
    data.insert("test".to_string(), BoolItem(false));
    assert!(!is_empty_result(&data));
}

#[test]
fn test_is_empty_result_with_empty_array() {
    let mut data = ReturnedData::new();
    data.insert("test".to_string(), DataItems(vec![]));
    assert!(is_empty_result(&data));
}

#[test]
fn zero_and_nested_content_are_not_empty() {
    let mut zero = ReturnedData::new();
    zero.insert("a".to_string(), NumberItem("0.0".to_string()));
    assert!(!is_empty_result(&zero));

    let mut inner = ReturnedData::new();
    inner.insert("b".to_string(), StringItem("x".to_string()));
    let mut outer = ReturnedData::new();
    outer.insert("a".to_string(), DataItems(vec![inner]));
    assert!(!is_empty_result(&outer));

    let mut mixed = ReturnedData::new();
    mixed.insert("a".to_string(), StringItem(String::new()));
    mixed.insert("b".to_string(), BoolItem(false));
    assert!(!is_empty_result(&mixed));
}

#[test]
fn insert_replaces_and_insert_if_absent_keeps() {
    let mut data = ReturnedData::new();
    data.insert("k".to_string(), StringItem("one".to_string()));
    data.insert("k".to_string(), StringItem("two".to_string()));
    assert_eq!(data.len(), 1);
    assert_eq!(*data.get("k").unwrap(), StringItem("two".to_string()));
    data.insert_if_absent("k".to_string(), StringItem("three".to_string()));
    assert_eq!(*data.get("k").unwrap(), StringItem("two".to_string()));
    data.insert_if_absent("j".to_string(), BoolItem(true));
    assert_eq!(data.len(), 2);
    assert!(!data.is_empty());
}

#[test]
fn extracted_empty_page_is_empty() {
    let config = vec![("a".to_string(), ItemConfig::new("h1".to_string()))];
    let t = extract_page("<p>nothing</p>", &config).unwrap();
    assert!(is_empty_result(&t));
    let t = extract_page("<h1>x</h1>", &config).unwrap();
    assert!(!is_empty_result(&t));
}

#[test]
fn header_is_sorted_union_of_names() {
    let mut a = ReturnedData::new();
    a.insert("price".to_string(), StringItem("1".to_string()));
    a.insert("name".to_string(), StringItem("x".to_string()));
    let mut b = ReturnedData::new();
    b.insert("zeta".to_string(), BoolItem(true));
    b.insert("name".to_string(), StringItem("y".to_string()));
    let results = vec![a, b];
    let header = csv_header(&results);
    assert_eq!(header, vec!["name".to_string(), "price".to_string(), "zeta".to_string()]);
    let row = csv_row(&results[1], &header);
    assert_eq!(row.len(), 3);
    assert_eq!(row[0], Some(&StringItem("y".to_string())));
    assert_eq!(row[1], None);
    assert_eq!(row[2], Some(&BoolItem(true)));
}

#[test]
fn text_order_is_lexicographic() {
    assert!(text_less("a", "b"));
    assert!(text_less("ab", "abc"));
    assert!(!text_less("abc", "ab"));
    assert!(!text_less("a", "a"));
    assert!(text_less("B", "a"));
    assert!(text_less("", "a"));
}

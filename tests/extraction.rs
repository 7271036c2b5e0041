use krk::config::{DataConfig, ItemConfig};
use krk::extract::{extract_page, populate_values};
use krk::config::ConfigError;
use krk::value::ReturnedDataItem::{BoolItem, DataItems, NumberItem, StringItem};

fn field(selector: &str) -> ItemConfig {
    ItemConfig::new(selector.to_string())
}

fn schema(fields: Vec<(&str, ItemConfig)>) -> DataConfig {
    fields.into_iter().map(|(n, c)| (n.to_string(), c)).collect()
}

#[test]
fn populate_values_test() {
    let html = r#"
            <!DOCTYPE html>
            <html>
               <body>
                  <h1>The article element</h1>
                  <article>
                     <h2>Google Chrome</h2>
                     <p>Google Chrome is a web browser developed by Google, released in 2008. Chrome is the world's most popular web browser today!</p>
                  </article>
                  <article>
                     <h2>Mozilla Firefox</h2>
                     <p>Mozilla Firefox is an open-source web browser developed by Mozilla. Firefox has been the second most popular web browser since January, 2018.</p>
                  </article>
                  <article>
                     <h2>Microsoft Edge</h2>
                     <p>Microsoft Edge is a web browser developed by Microsoft, released in 2015. Microsoft Edge replaced Internet Explorer.</p>
                  </article>
               </body>
            </html>
        "#
    .to_string();
    let mut articles = field("article");
    articles.data = Some(schema(vec![("title", field("h2")), ("description", field("p"))]));
    let data_config = schema(vec![("title", field("h1")), ("articles", articles)]);

    let data = populate_values(html, data_config).unwrap();

    assert_eq!(*data.get("title").unwrap(), StringItem(String::from("The article element")));
    let articles = data.get("articles").unwrap();
    assert!(matches!(articles, DataItems { .. }));
}

#[test]
fn test_number_conversion() {
    let html = r#"<div class="price">$99.99</div>"#.to_string();
    let mut price = field(".price");
    price.regex = Some(r"\d+\.\d+".to_string());
    price.to_number = true;
    let data = populate_values(html, schema(vec![("price", price)])).unwrap();
    match data.get("price").unwrap() {
        NumberItem(n) => assert_eq!(n.parse::<f64>().unwrap(), 99.99),
        _ => panic!("Expected NumberItem"),
    }
}

#[test]
fn test_boolean_conversion() {
    let html = r#"<div class="status">true</div>"#.to_string();
    let mut status = field(".status");
    status.to_boolean = true;
    let data = populate_values(html, schema(vec![("status", status)])).unwrap();
    match data.get("status").unwrap() {
        BoolItem(b) => assert!(*b),
        _ => panic!("Expected BoolItem"),
    }
}

#[test]
fn test_default_value() {
    let html = r#"<div class="content">Hello</div>"#.to_string();
    let mut missing = field(".nonexistent");
    missing.default = Some("Default Value".to_string());
    let data = populate_values(html, schema(vec![("missing", missing)])).unwrap();
    assert_eq!(*data.get("missing").unwrap(), StringItem(String::from("Default Value")));
}

#[test]
fn test_combined_transformations() {
    let html = r#"<div class="product"><strong>Price: $99.99</strong></div>"#.to_string();
    let mut price = field(".product");
    price.strip_html = true;
    price.regex = Some(r"\d+\.\d+".to_string());
    price.to_number = true;
    let data = populate_values(html, schema(vec![("price", price)])).unwrap();
    match data.get("price").unwrap() {
        NumberItem(n) => assert_eq!(n.parse::<f64>().unwrap(), 99.99),
        _ => panic!("Expected NumberItem"),
    }
}

#[test]
fn test_trim_whitespace() {
    let html = r#"<div class="content">   Hello World   </div>"#.to_string();
    let mut content = field(".content");
    content.trim = true;
    let data = populate_values(html, schema(vec![("content", content)])).unwrap();
    assert_eq!(*data.get("content").unwrap(), StringItem(String::from("Hello World")));
}

#[test]
fn articles_scenario_yields_nested_trees() {
    let html = "<h1>T</h1><article><h2>A</h2><p>B</p></article><article><h2>C</h2><p>D</p></article>";
    let mut articles = field("article");
    articles.data = Some(schema(vec![("title", field("h2")), ("description", field("p"))]));
    let data = populate_values(html.to_string(), schema(vec![("title", field("h1")), ("articles", articles)]))
        .unwrap();
    assert_eq!(data.len(), 2);
    assert_eq!(*data.get("title").unwrap(), StringItem("T".to_string()));
    match data.get("articles").unwrap() {
        DataItems(trees) => {
            assert_eq!(trees.len(), 2);
            assert_eq!(trees[0].len(), 2);
            assert_eq!(*trees[0].get("title").unwrap(), StringItem("A".to_string()));
            assert_eq!(*trees[0].get("description").unwrap(), StringItem("B".to_string()));
            assert_eq!(*trees[1].get("title").unwrap(), StringItem("C".to_string()));
            assert_eq!(*trees[1].get("description").unwrap(), StringItem("D".to_string()));
        }
        _ => panic!("Expected DataItems"),
    }
}

#[test]
fn group_without_matches_yields_empty_list() {
    let mut items = field("li");
    items.data = Some(schema(vec![("name", field("span"))]));
    let data = extract_page("<p>none</p>", &schema(vec![("items", items)])).unwrap();
    match data.get("items").unwrap() {
        DataItems(trees) => assert!(trees.is_empty()),
        _ => panic!("Expected DataItems"),
    }
}

#[test]
fn tree_has_exactly_the_schema_names() {
    let data = extract_page(
        "<b>x</b>",
        &schema(vec![("a", field("b")), ("b", field("i")), ("c", field("u"))]),
    )
    .unwrap();
    assert_eq!(data.len(), 3);
    assert_eq!(*data.get("b").unwrap(), StringItem(String::new()));
    assert!(data.get("d").is_none());
}

#[test]
fn first_field_of_a_name_wins() {
    let data = extract_page("<b>x</b><i>y</i>", &schema(vec![("a", field("b")), ("a", field("i"))])).unwrap();
    assert_eq!(data.len(), 1);
    assert_eq!(*data.get("a").unwrap(), StringItem("x".to_string()));
}

#[test]
fn nth_match_and_attribute() {
    let html = r#"<a href="/one">1</a><a href="/two">2</a><a>3</a>"#;
    let mut second = field("a");
    second.nth = 1;
    second.attr = Some("href".to_string());
    let mut third = field("a");
    third.nth = 2;
    third.attr = Some("href".to_string());
    let mut fourth = field("a");
    fourth.nth = 3;
    let data = extract_page(html, &schema(vec![("second", second), ("third", third), ("fourth", fourth)]))
        .unwrap();
    assert_eq!(*data.get("second").unwrap(), StringItem("/two".to_string()));
    assert_eq!(*data.get("third").unwrap(), StringItem(String::new()));
    assert_eq!(*data.get("fourth").unwrap(), StringItem(String::new()));
}

#[test]
fn invalid_selector_is_a_configuration_error() {
    let r = extract_page("<p>x</p>", &schema(vec![("a", field("p")), ("b", field("[[["))]));
    assert_eq!(r, Err(ConfigError::InvalidSelector("[[[".to_string())));
    let mut group = field("div");
    group.data = Some(schema(vec![("inner", field(":::"))]));
    let r = extract_page("<p>x</p>", &schema(vec![("g", group)]));
    assert_eq!(r, Err(ConfigError::InvalidSelector(":::".to_string())));
}

#[test]
fn unparseable_number_stays_text() {
    let mut price = field("p");
    price.to_number = true;
    let data = extract_page("<p> n/a </p>", &schema(vec![("price", price)])).unwrap();
    assert_eq!(*data.get("price").unwrap(), StringItem("n/a".to_string()));
}

#[test]
fn item_selector_compiles_or_is_refused() {
    assert!(field("div.price > span").get_item_selector().is_ok());
    match field("[[[").get_item_selector() {
        Err(e) => assert_eq!(e, ConfigError::InvalidSelector("[[[".to_string())),
        Ok(_) => panic!("Expected InvalidSelector"),
    }
}

#[test]
fn serialized_markup_keeps_attribute_order() {
    let mut inner = field("div");
    inner.trim = false;
    let html = r#"<div><a href="x" class="y" id="z" title="w">t</a></div>"#;
    for _ in 0..20 {
        let data = extract_page(html, &schema(vec![("inner", field("div"))])).unwrap();
        assert_eq!(
            *data.get("inner").unwrap(),
            StringItem(r#"<a href="x" class="y" id="z" title="w">t</a>"#.to_string())
        );
    }
    let mut group = field("div");
    group.data = Some(schema(vec![("link", inner)]));
    let data = extract_page(html, &schema(vec![("g", group)])).unwrap();
    match data.get("g").unwrap() {
        DataItems(trees) => assert_eq!(
            *trees[0].get("link").unwrap(),
            StringItem(r#"<a href="x" class="y" id="z" title="w">t</a>"#.to_string())
        ),
        _ => panic!("Expected DataItems"),
    }
}

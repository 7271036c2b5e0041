use krk::config::{ConfigError, ItemConfig, PaginationConfig};
use krk::paginate::{
    keep_pattern_page, next_link_page_limit, next_page_url, pattern_page_urls, resolve_link, LinkWalk, PatternWalk,
};

fn pagination(pattern: Option<&str>) -> PaginationConfig {
    PaginationConfig {
        next_selector: None,
        page_pattern: pattern.map(|p| p.to_string()),
        start_page: 1,
        max_pages: 0,
        end_page: None,
        stop_on_empty: false,
    }
}

#[test]
fn pattern_with_end_page() {
    let mut p = pagination(Some("?page={page}"));
    p.end_page = Some(3);
    let urls = pattern_page_urls("https://x.test/", "?page={page}", &p);
    assert_eq!(
        urls,
        vec![
            "https://x.test/?page=1".to_string(),
            "https://x.test/?page=2".to_string(),
            "https://x.test/?page=3".to_string(),
        ]
    );
}

#[test]
fn pattern_defaults_to_ten_pages() {
    let mut p = pagination(Some("?p={page}"));
    p.start_page = 5;
    let urls = pattern_page_urls("https://x.test/", "?p={page}", &p);
    assert_eq!(urls.len(), 10);
    assert_eq!(urls[0], "https://x.test/?p=5");
    assert_eq!(urls[9], "https://x.test/?p=14");
}

#[test]
fn pattern_with_max_pages_and_absolute_pattern() {
    let mut p = pagination(Some("https://y.test/list/{page}"));
    p.max_pages = 2;
    let urls = pattern_page_urls("https://x.test/", "https://y.test/list/{page}", &p);
    assert_eq!(urls, vec!["https://y.test/list/1".to_string(), "https://y.test/list/2".to_string()]);
}

#[test]
fn pattern_without_placeholder_is_a_suffix() {
    let mut p = pagination(Some("/all"));
    p.end_page = Some(2);
    let urls = pattern_page_urls("https://x.test", "/all", &p);
    assert_eq!(urls, vec!["https://x.test/all".to_string(), "https://x.test/all".to_string()]);
}

#[test]
fn pattern_end_before_start_gives_nothing() {
    let mut p = pagination(Some("?page={page}"));
    p.start_page = 4;
    p.end_page = Some(2);
    assert!(pattern_page_urls("https://x.test/", "?page={page}", &p).is_empty());
}

#[test]
fn stop_on_empty_decisions() {
    let data = vec![("t".to_string(), ItemConfig::new("h1".to_string()))];
    assert_eq!(keep_pattern_page(true, 0, Some("<p></p>"), &data), Ok(true));
    assert_eq!(keep_pattern_page(true, 1, Some("<p></p>"), &data), Ok(false));
    assert_eq!(keep_pattern_page(true, 1, Some("<h1>x</h1>"), &data), Ok(true));
    assert_eq!(keep_pattern_page(true, 1, None, &data), Ok(true));
    assert_eq!(keep_pattern_page(false, 1, Some("<p></p>"), &data), Ok(true));
}

#[test]
fn links_resolve_against_the_current_page() {
    assert_eq!(resolve_link("https://a.test/x/y.html", "http://b.test/z"), "http://b.test/z");
    assert_eq!(resolve_link("https://a.test/x/y.html", "/z?p=2"), "https://a.test/z?p=2");
    assert_eq!(resolve_link("https://a.test/x/y.html", "z.html"), "https://a.test/x/z.html");
    assert_eq!(resolve_link("https://a.test", "/z"), "https://a.test/z");
    assert_eq!(resolve_link("page", "next"), "page/next");
}

#[test]
fn next_link_steps() {
    let data = vec![("t".to_string(), ItemConfig::new("h1".to_string()))];
    let page = r#"<html><body><h1>T</h1><a class="next" href="/p/2">next</a></body></html>"#;
    assert_eq!(
        next_page_url("https://a.test/p/1", page, "a.next", false, &data),
        Ok(Some("https://a.test/p/2".to_string()))
    );
    assert_eq!(next_page_url("https://a.test/p/1", "<p>end</p>", "a.next", false, &data), Ok(None));
    assert_eq!(
        next_page_url("https://a.test/p/1", r#"<a class="next">x</a>"#, "a.next", false, &data),
        Ok(None)
    );
    let empty_page = r#"<a class="next" href="/p/2">next</a>"#;
    assert_eq!(next_page_url("https://a.test/p/1", empty_page, "a.next", true, &data), Ok(None));
    assert_eq!(
        next_page_url("https://a.test/p/1", page, "[[", false, &data),
        Err(ConfigError::InvalidSelector("[[".to_string()))
    );
}

#[test]
fn next_link_limit() {
    let mut p = pagination(None);
    p.next_selector = Some("a.next".to_string());
    assert_eq!(next_link_page_limit(&p), 1000);
    p.max_pages = 10;
    assert_eq!(next_link_page_limit(&p), 10);
}

#[test]
fn pattern_walk_stops_at_first_empty_page() {
    let data = vec![("t".to_string(), ItemConfig::new("h1".to_string()))];
    let mut p = pagination(Some("?page={page}"));
    p.end_page = Some(4);
    p.stop_on_empty = true;
    let pages = ["<h1>1</h1>", "<h1>2</h1>", "<p>none</p>", "<h1>4</h1>"];
    let mut walk = PatternWalk::new("https://x.test/", "?page={page}", &p);
    let mut checked = vec![];
    while let Some((url, check)) = walk.next() {
        let position = checked.len();
        checked.push((url, check));
        let page = if check { Some(pages[position]) } else { None };
        walk.record(page, &data).unwrap();
    }
    assert_eq!(checked.len(), 3);
    assert!(!checked[0].1 && checked[1].1 && checked[2].1);
    assert_eq!(walk.urls(), vec!["https://x.test/?page=1".to_string(), "https://x.test/?page=2".to_string()]);
}

#[test]
fn pattern_walk_without_check_keeps_all() {
    let data = vec![];
    let mut p = pagination(Some("?page={page}"));
    p.end_page = Some(3);
    let mut walk = PatternWalk::new("https://x.test/", "?page={page}", &p);
    while let Some((_, check)) = walk.next() {
        assert!(!check);
        walk.record(None, &data).unwrap();
    }
    assert_eq!(walk.urls().len(), 3);
}

#[test]
fn link_walk_follows_until_no_link_or_limit() {
    let data = vec![];
    let mut p = pagination(None);
    p.next_selector = Some("a.next".to_string());
    let site = |url: &str| -> String {
        match url {
            "https://a.test/1" => r#"<a class="next" href="/2">n</a>"#.to_string(),
            "https://a.test/2" => r#"<a class="next" href="3">n</a>"#.to_string(),
            _ => "<p>last</p>".to_string(),
        }
    };
    let mut walk = LinkWalk::new("https://a.test/1", &p);
    while let Some(url) = walk.next_fetch() {
        walk.record(&site(&url), "a.next", false, &data).unwrap();
    }
    assert_eq!(
        walk.urls(),
        vec!["https://a.test/1".to_string(), "https://a.test/2".to_string(), "https://a.test/3".to_string()]
    );

    p.max_pages = 2;
    let mut walk = LinkWalk::new("https://a.test/1", &p);
    let mut fetched = 0;
    while let Some(url) = walk.next_fetch() {
        fetched += 1;
        walk.record(&site(&url), "a.next", false, &data).unwrap();
    }
    assert_eq!(fetched, 1);
    assert_eq!(walk.urls(), vec!["https://a.test/1".to_string(), "https://a.test/2".to_string()]);
}

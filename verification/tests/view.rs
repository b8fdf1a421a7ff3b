use std::collections::HashMap;
use carbon::text::decimal_string;
use carbon::view::{NotFound, Page, View};

#[test]
fn not_found_view_leaves_cache() {
    let mut cache = HashMap::new();
    cache.insert("k".to_string(), "v".to_string());
    let text = NotFound.render(&mut cache).to_string();
    assert!(text.starts_with("HTTP/1.1 200 OK\n"));
    assert!(text.ends_with("\n\n<html><body> PAGE NOT FOUND </body></html>"));
    assert_eq!(cache.len(), 1);
}

#[test]
fn page_paths() {
    assert_eq!(Page::new("/srv".to_string(), "index.html").url(), "/srv/index.html");
    assert_eq!(Page::new("/srv/".to_string(), "index.html").url(), "/srv/index.html");
    assert_eq!(Page::new("/srv".to_string(), "/etc/x").url(), "/etc/x");
    assert_eq!(Page::new(String::new(), "a").url(), "a");
}

#[test]
fn page_render_contents() {
    let p = Page::new("/srv".to_string(), "a.html");
    let missing = p.render_contents(None).to_string();
    assert!(missing.starts_with("HTTP/1.1 404 NOT FOUND\n"));
    assert!(missing.contains("\nContent-Length: 0\n"));
    let found = p.render_contents(Some("<b>hi</b>".to_string())).to_string();
    assert!(found.starts_with("HTTP/1.1 200 OK\n"));
    assert!(found.contains("\nContent-Length: 9\n"));
    assert!(found.ends_with("\n\n<b>hi</b>"));
}

#[test]
fn decimal_text() {
    assert_eq!(decimal_string(0), "0");
    assert_eq!(decimal_string(7), "7");
    assert_eq!(decimal_string(10), "10");
    assert_eq!(decimal_string(4096), "4096");
    assert_eq!(decimal_string(usize::MAX), usize::MAX.to_string());
    for n in [0usize, 9, 10, 99, 100, 12345, 1 << 40] {
        assert_eq!(decimal_string(n).parse::<usize>().unwrap(), n);
    }
}

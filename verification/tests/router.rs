use carbon::http::Method;
use carbon::router::{Action, NotFound, Router, RouterBuilder};

#[test]
fn it_works() {
    let router_builder = RouterBuilder::new();
    let router = router_builder.get().build();
    println!("{:?}", router.views[0].render());
}

#[test]
fn builder_collects_get_rules() {
    let router = RouterBuilder::new().get().get().build();
    assert_eq!(router.methods, vec![Method::GET, Method::GET]);
    assert_eq!(router.views.len(), 2);
    assert_eq!(router.regexs.len(), 2);
    assert_eq!(router.regexs.patterns(), ["a".to_string(), "a".to_string()]);
    assert!(router.regexs.is_match("a"));
}

#[test]
fn builder_try_build_succeeds_on_valid_patterns() {
    let router = RouterBuilder::new().get().try_build();
    assert!(router.is_some());
}

#[test]
fn default_router_has_two_rules() {
    let router = Router::new();
    assert_eq!(router.methods, vec![Method::GET, Method::GET]);
    assert_eq!(router.views.len(), 2);
    assert_eq!(router.regexs.patterns(), ["a".to_string(), "b".to_string()]);
    assert!(router.regexs.is_match("b"));
    assert!(Router::try_new().is_some());
}

#[test]
fn not_found_action_renders_page() {
    let text = NotFound.render().to_string();
    assert!(text.starts_with("HTTP/1.1 200 OK\n"));
    assert!(text.ends_with("\n\n<html><body> PAGE NOT FOUND </body></html>"));
    assert!(text.contains("\nContent-Length: 42\n"));
}

use conduit::{Method, MockRequest, Scheme};

#[test]
fn request_query_test() {
    let mut req = MockRequest::new(Method::Post, "/articles");
    req.with_query("foo=bar");

    assert_eq!(req.query_string().expect("No query string"), "foo=bar");
}

#[test]
fn request_headers() {
    let mut req = MockRequest::new(Method::Post, "/articles");
    req.header("User-Agent", "lulz");
    req.header("DNT", "1");

    assert_eq!(req.headers().iter().len(), 2);
    assert_eq!(req.headers().find("User-Agent").unwrap(), vec!["lulz"]);
    assert_eq!(req.headers().find("DNT").unwrap(), vec!["1"]);
}

#[test]
fn request_body_test() {
    let mut req = MockRequest::new(Method::Post, "/articles");
    req.with_body("Hello world");

    assert_eq!(req.method(), Method::Post);
    assert_eq!(req.path(), "/articles");
    assert_eq!(req.body(), "Hello world");
    assert_eq!(req.content_length(), Some(11));
}

#[test]
fn fresh_request_has_nothing_set() {
    let req = MockRequest::new(Method::Get, "/");
    assert_eq!(req.method(), Method::Get);
    assert_eq!(req.scheme(), Scheme::Http);
    assert_eq!(req.path(), "/");
    assert_eq!(req.query_string(), None);
    assert_eq!(req.content_length(), None);
    assert_eq!(req.virtual_root(), None);
    assert_eq!(req.headers().iter().len(), 0);
    assert_eq!(req.body(), "");
}

#[test]
fn setting_a_header_again_replaces_its_value() {
    let mut req = MockRequest::new(Method::Get, "/");
    req.header("DNT", "0");
    req.header("DNT", "1");

    assert_eq!(req.headers().iter().len(), 1);
    assert_eq!(req.headers().find("DNT").unwrap(), vec!["1"]);
    assert!(req.headers().has("DNT"));
    assert!(!req.headers().has("dnt"));
    assert!(req.headers().find("User-Agent").is_none());
}

#[test]
fn start_instant_measures_elapsed_time() {
    let start = conduit::StartInstant::now();
    let elapsed = start.elapsed();
    assert!(elapsed >= std::time::Duration::from_secs(0));
}

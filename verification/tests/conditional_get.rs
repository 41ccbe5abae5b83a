use conduit::conditional::{is_fresh, is_ok};
use conduit::header;
use conduit::{ConditionalGet, HeaderMap, Method, Response};
use time::{Duration, OffsetDateTime};

fn httpdate(t: OffsetDateTime) -> String {
    t.format("%a, %d-%m-%y %T GMT")
}

fn now() -> String {
    httpdate(OffsetDateTime::now_utc())
}

fn before_now() -> String {
    httpdate(OffsetDateTime::now_utc() - Duration::weeks(52))
}

fn returning(status: u16, headers: Vec<(Vec<u8>, &str)>) -> Response {
    let mut map = HeaderMap::new();
    for (name, value) in headers {
        map.append(name, value.as_bytes().to_vec());
    }
    Response::new(status, map, b"hello".to_vec())
}

fn request(headers: Vec<(Vec<u8>, &str)>) -> HeaderMap {
    let mut map = HeaderMap::new();
    for (name, value) in headers {
        map.append(name, value.as_bytes().to_vec());
    }
    map
}

fn call(req: &HeaderMap, res: Response) -> Response {
    ConditionalGet.after(Method::Get, req, res)
}

fn expect_304(res: Response) {
    assert_eq!(res.status, 304);
    assert_eq!(res.body.as_slice(), b"");
}

fn expect_200(res: Response) {
    expect(200, res);
}

fn expect(status: u16, res: Response) {
    assert_eq!(res.status, status);
    assert_eq!(res.body.as_slice(), b"hello");
}

#[test]
fn test_sends_304() {
    let res = returning(200, vec![(header::last_modified(), &now())]);
    let req = request(vec![(header::if_modified_since(), &now())]);
    expect_304(call(&req, res));
}

#[test]
fn test_sends_304_if_older_than_now() {
    let res = returning(200, vec![(header::last_modified(), &before_now())]);
    let req = request(vec![(header::if_modified_since(), &now())]);
    expect_304(call(&req, res));
}

#[test]
fn test_sends_304_with_etag() {
    let res = returning(200, vec![(header::etag(), "1234")]);
    let req = request(vec![(header::if_none_match(), "1234")]);
    expect_304(call(&req, res));
}

#[test]
fn test_sends_200_with_fresh_time_but_not_etag() {
    let res = returning(
        200,
        vec![(header::last_modified(), &before_now()), (header::etag(), "1234")],
    );
    let req = request(vec![
        (header::if_modified_since(), &now()),
        (header::if_none_match(), "4321"),
    ]);
    expect_200(call(&req, res));
}

#[test]
fn test_sends_200_with_fresh_etag_but_not_time() {
    let res = returning(
        200,
        vec![(header::last_modified(), &now()), (header::etag(), "1234")],
    );
    let req = request(vec![
        (header::if_modified_since(), &before_now()),
        (header::if_none_match(), "1234"),
    ]);
    expect_200(call(&req, res));
}

#[test]
fn test_sends_200_with_fresh_etag() {
    let res = returning(200, vec![(header::etag(), "1234")]);
    let req = request(vec![(header::if_none_match(), "4321")]);
    expect_200(call(&req, res));
}

#[test]
fn test_sends_200_with_fresh_time() {
    let res = returning(200, vec![(header::last_modified(), &now())]);
    let req = request(vec![(header::if_modified_since(), &before_now())]);
    expect_200(call(&req, res));
}

#[test]
fn test_sends_304_with_fresh_time_and_etag() {
    let res = returning(
        200,
        vec![(header::last_modified(), &before_now()), (header::etag(), "1234")],
    );
    let req = request(vec![
        (header::if_modified_since(), &now()),
        (header::if_none_match(), "1234"),
    ]);
    expect_304(call(&req, res));
}

#[test]
fn test_does_not_affect_non_200() {
    let res = returning(
        302,
        vec![(header::last_modified(), &before_now()), (header::etag(), "1234")],
    );
    let req = request(vec![
        (header::if_modified_since(), &now()),
        (header::if_none_match(), "1234"),
    ]);
    expect(302, call(&req, res));
}

#[test]
fn test_does_not_affect_malformed_timestamp() {
    let bad_stamp = OffsetDateTime::now_utc().format("%Y-%m-%d %H:%M:%S %z");
    let res = returning(200, vec![(header::last_modified(), &before_now())]);
    let req = request(vec![(header::if_modified_since(), &bad_stamp)]);
    expect_200(call(&req, res));
}

#[test]
fn matching_etag_strips_entity_headers() {
    let res = returning(
        200,
        vec![
            (header::etag(), "1234"),
            (header::content_type(), "text/plain"),
            (header::content_length(), "5"),
        ],
    );
    let req = request(vec![(header::if_none_match(), "1234")]);
    let out = call(&req, res);
    assert_eq!(out.status, 304);
    assert_eq!(out.body.as_slice(), b"");
    assert!(!out.headers.contains(&header::content_type()));
    assert!(!out.headers.contains(&header::content_length()));
    assert!(out.headers.contains(&header::etag()));
}

#[test]
fn no_validators_is_never_fresh() {
    let res = returning(200, vec![(header::last_modified(), &before_now())]);
    let req = HeaderMap::new();
    assert!(!is_fresh(&req, &res));
    expect_200(call(&req, res));
}

#[test]
fn head_request_is_rewritten_too() {
    let res = returning(200, vec![(header::etag(), "e1")]);
    let req = request(vec![(header::if_none_match(), "e1")]);
    let out = ConditionalGet.after(Method::Head, &req, res);
    assert_eq!(out.status, 304);
}

#[test]
fn post_request_passes_through() {
    let res = returning(200, vec![(header::etag(), "e1")]);
    let req = request(vec![(header::if_none_match(), "e1")]);
    let out = ConditionalGet.after(Method::Post, &req, res);
    expect(200, out);
}

#[test]
fn equal_instant_is_fresh_inclusive() {
    let stamp = "Tue, 05 Mar 2024 01:02:03 GMT";
    let res = returning(200, vec![(header::last_modified(), stamp)]);
    let req = request(vec![(header::if_modified_since(), stamp)]);
    expect_304(call(&req, res));
}

#[test]
fn later_modification_is_stale() {
    let res = returning(
        200,
        vec![(header::last_modified(), "Wed, 05 Mar 2025 01:02:03 GMT")],
    );
    let req = request(vec![
        (header::if_modified_since(), "Tue, 05 Mar 2024 01:02:03 GMT"),
    ]);
    expect_200(call(&req, res));
}

#[test]
fn unparsable_date_beats_matching_etag() {
    let res = returning(
        200,
        vec![(header::last_modified(), &before_now()), (header::etag(), "1234")],
    );
    let req = request(vec![
        (header::if_modified_since(), "2015-03-05 12:00:00 +0000"),
        (header::if_none_match(), "1234"),
    ]);
    expect_200(call(&req, res));
}

#[test]
fn non_text_date_leaves_decision_to_etag() {
    let mut req = HeaderMap::new();
    req.append(header::if_modified_since(), vec![0xff]);
    req.append(header::if_none_match(), b"x".to_vec());
    let res = returning(200, vec![(header::etag(), "x")]);
    expect_304(call(&req, res));
}

#[test]
fn repeated_header_values_are_joined_without_separator() {
    let mut req = HeaderMap::new();
    req.append(header::if_none_match(), b"12".to_vec());
    req.append(header::if_none_match(), b"34".to_vec());
    let res = returning(200, vec![(header::etag(), "1234")]);
    expect_304(call(&req, res));
}

#[test]
fn header_names_are_case_insensitive() {
    let mut req = HeaderMap::new();
    req.append(b"If-None-Match".to_vec(), b"1234".to_vec());
    let mut rh = HeaderMap::new();
    rh.append(b"ETag".to_vec(), b"1234".to_vec());
    let res = Response::new(200, rh, b"hello".to_vec());
    expect_304(call(&req, res));
}

#[test]
fn is_ok_checks_the_status() {
    let ok = returning(200, vec![(header::etag(), "1")]);
    let found = returning(302, vec![(header::etag(), "1")]);
    assert!(is_ok(&ok));
    assert!(!is_ok(&found));
}

use conduit::HttpDate;
use conduit::header;
use conduit::headers::get_and_concat_header;
use conduit::serve::{forbidden_request_path, not_found, file_response_head, u64_decimal};

#[test]
fn traversal_paths_are_refused() {
    assert!(forbidden_request_path(&b"/../etc/passwd".to_vec()));
    assert!(forbidden_request_path(&b"/a/../b".to_vec()));
    assert!(forbidden_request_path(&b"/a..b".to_vec()));
    assert!(!forbidden_request_path(&b"/a/b.c".to_vec()));
    assert!(!forbidden_request_path(&b"/".to_vec()));
    assert!(!forbidden_request_path(&b"".to_vec()));
}

#[test]
fn not_found_has_plain_empty_shape() {
    let res = not_found();
    assert_eq!(res.status, 404);
    assert_eq!(res.body.as_slice(), b"");
    assert_eq!(
        get_and_concat_header(&res.headers, &header::content_type()).as_slice(),
        b"text/plain"
    );
    assert_eq!(
        get_and_concat_header(&res.headers, &header::content_length()).as_slice(),
        b"0"
    );
}

#[test]
fn file_response_head_carries_type_length_and_date() {
    let mtime = HttpDate { year: 1970, month: 1, day: 1, hour: 0, minute: 0, second: 0 };
    let res = file_response_head(b"text/css".to_vec(), 9, &mtime);
    assert_eq!(res.status, 200);
    assert_eq!(res.body.as_slice(), b"");
    assert_eq!(
        get_and_concat_header(&res.headers, &header::content_type()).as_slice(),
        b"text/css"
    );
    assert_eq!(
        get_and_concat_header(&res.headers, &header::content_length()).as_slice(),
        b"9"
    );
    assert_eq!(
        get_and_concat_header(&res.headers, &header::last_modified()).as_slice(),
        b"Thu, 01 Jan 1970 0:00:00 GMT"
    );
}

#[test]
fn decimal_rendering_is_exact() {
    assert_eq!(u64_decimal(0).as_slice(), b"0");
    assert_eq!(u64_decimal(9).as_slice(), b"9");
    assert_eq!(u64_decimal(10).as_slice(), b"10");
    assert_eq!(u64_decimal(1234567890123).as_slice(), b"1234567890123");
    assert_eq!(u64_decimal(u64::MAX).as_slice(), b"18446744073709551615");
}

//! The decisions and responses of the static file handler.
//!
//! File I/O stays with the caller; here live the parts that can be
//! stated exactly: the path test that refuses traversal, the `404`
//! response, and the headers of a successful file response.

use vstd::prelude::*;
use crate::dates::{HttpDate, date_valid};
use crate::formatting::{dec_digits, format_http_date, format_http_date_spec};
use crate::header;
use crate::headers::HeaderMap;
use crate::message::Response;

verus! {

/// `..` occurs somewhere after the path's leading byte.
pub open spec fn path_has_dotdot(path: Seq<u8>) -> bool {
    exists|k: int| 1 <= k && k + 2 <= path.len() && #[trigger] path[k] == 46 && path[k + 1] == 46
}

/// Whether the request path, with its leading slash dropped, contains
/// `..` and must be refused.
pub fn forbidden_request_path(path: &Vec<u8>) -> (r: bool)
    ensures
        r == path_has_dotdot(path@),
{
    let n = path.len();
    if n < 3 {
        return false;
    }
    let mut k: usize = 1;
    while k <= n - 2
        invariant
            n == path.len(),
            1 <= k,
            k <= n - 1,
            forall|t: int| 1 <= t && t + 2 <= k + 1 ==> !(#[trigger] path@[t] == 46
                && path@[t + 1] == 46),
        decreases n - k,
    {
        if path[k] == 46 && path[k + 1] == 46 {
            proof {
                assert(1 <= k as int && k as int + 2 <= path@.len()
                    && path@[k as int] == 46 && path@[k as int + 1] == 46);
            }
            return true;
        }
        k = k + 1;
    }
    false
}

fn push_decimal_u64(v: &mut Vec<u8>, n: u64)
    ensures
        final(v)@ == old(v)@ + dec_digits(n as int),
    decreases n,
{
    if n < 10 {
        v.push(48 + n as u8);
        proof {
            assert(v@ =~= old(v)@ + dec_digits(n as int));
        }
    } else {
        push_decimal_u64(v, n / 10);
        v.push(48 + (n % 10) as u8);
        proof {
            assert(v@ =~= old(v)@ + dec_digits(n as int));
        }
    }
}

/// The decimal digits of `n`, for a `Content-Length` value.
pub fn u64_decimal(n: u64) -> (v: Vec<u8>)
    ensures
        v@ == dec_digits(n as int),
{
    let mut v: Vec<u8> = Vec::new();
    push_decimal_u64(&mut v, n);
    proof {
        assert(Seq::<u8>::empty() + dec_digits(n as int) =~= dec_digits(n as int));
    }
    v
}

/// `text/plain`
pub open spec fn text_plain_spec() -> Seq<u8> {
    seq![116u8, 101u8, 120u8, 116u8, 47u8, 112u8, 108u8, 97u8, 105u8, 110u8]
}

/// The not-found response: `404`, an empty body, a zero length and a
/// plain-text type.
pub fn not_found() -> (r: Response)
    ensures
        r.status == 404,
        r.headers@ == seq![
            (header::content_length_spec(), seq![48u8]),
            (header::content_type_spec(), text_plain_spec()),
        ],
        r.body@ == Seq::<u8>::empty(),
{
    let mut headers = HeaderMap::new();
    let mut zero: Vec<u8> = Vec::new();
    zero.push(48);
    headers.append(header::content_length(), zero);
    let mut tp: Vec<u8> = Vec::new();
    tp.push(116); tp.push(101); tp.push(120); tp.push(116); tp.push(47);
    tp.push(112); tp.push(108); tp.push(97); tp.push(105); tp.push(110);
    proof {
        assert(tp@ =~= text_plain_spec());
    }
    headers.append(header::content_type(), tp);
    let body: Vec<u8> = Vec::new();
    proof {
        assert(headers@ =~= seq![
            (header::content_length_spec(), seq![48u8]),
            (header::content_type_spec(), text_plain_spec()),
        ]);
        assert(body@ =~= Seq::<u8>::empty());
    }
    Response { status: 404, headers, body }
}

/// The headers of a successful file response: the given media type, the
/// byte length, and the modification instant in the RFC 1123 style
/// shape. The body stays with the caller, who streams the file.
pub fn file_response_head(mime: Vec<u8>, length: u64, mtime: &HttpDate) -> (r: Response)
    requires
        date_valid(*mtime),
    ensures
        r.status == 200,
        r.headers@ == seq![
            (header::content_type_spec(), mime@),
            (header::content_length_spec(), dec_digits(length as int)),
            (header::last_modified_spec(), format_http_date_spec(*mtime)),
        ],
        r.body@ == Seq::<u8>::empty(),
{
    let ghost mime_bytes = mime@;
    let mut headers = HeaderMap::new();
    headers.append(header::content_type(), mime);
    headers.append(header::content_length(), u64_decimal(length));
    headers.append(header::last_modified(), format_http_date(mtime));
    let body: Vec<u8> = Vec::new();
    proof {
        assert(headers@ =~= seq![
            (header::content_type_spec(), mime_bytes),
            (header::content_length_spec(), dec_digits(length as int)),
            (header::last_modified_spec(), format_http_date_spec(*mtime)),
        ]);
        assert(body@ =~= Seq::<u8>::empty());
    }
    Response { status: 200, headers, body }
}

} // verus!

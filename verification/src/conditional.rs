//! The conditional GET middleware: decide whether a fresh `200` response
//! may be replaced by an empty `304 Not Modified`.
//!
//! Freshness combines two validator families. The time check compares the
//! request's `If-Modified-Since` with the response's `Last-Modified` at
//! second resolution, inclusively. The entity check compares the
//! concatenated `If-None-Match` bytes with the concatenated `ETag` bytes,
//! byte for byte. One asymmetry is deliberate and preserved exactly: an
//! `If-Modified-Since` value that is text but fails all three date
//! grammars disqualifies freshness outright, bypassing the ETag check.

use vstd::prelude::*;
use crate::dates::{HttpDate, date_valid, epoch_seconds_of};
use crate::header;
use crate::headers::{
    HeaderMap, concat_header_values, remove_header, is_utf8, utf8_check, get_and_concat_header,
};
use crate::message::{Method, Response};
use crate::parsing::{parse_http_date, parse_http_date_spec};

verus! {

/// The time check: `If-Modified-Since` (already parsed) is no older than
/// the response's `Last-Modified`. A missing, non-text or unparsable
/// `Last-Modified` fails the check.
pub open spec fn time_check_spec(d: HttpDate, res_headers: Seq<(Seq<u8>, Seq<u8>)>) -> bool {
    let lm = concat_header_values(res_headers, header::last_modified_spec());
    if !is_utf8(lm) {
        false
    } else {
        match parse_http_date_spec(lm) {
            None => false,
            Some(g) => epoch_seconds_of(d) >= epoch_seconds_of(g),
        }
    }
}

/// The entity check: concatenated `If-None-Match` byte-equals the
/// concatenated `ETag`; both empty counts as a match.
pub open spec fn etag_match_spec(none_match: Seq<u8>, res_headers: Seq<(Seq<u8>, Seq<u8>)>) -> bool {
    concat_header_values(res_headers, header::etag_spec()) == none_match
}

/// Freshness of a response against a request's validators.
///
/// With no validators at all the response is never fresh. A non-text or
/// empty `If-Modified-Since` leaves the decision to the ETag check alone;
/// a present but unparsable one makes the whole response stale, whatever
/// the ETags say.
pub open spec fn fresh_spec(
    req_headers: Seq<(Seq<u8>, Seq<u8>)>,
    res_headers: Seq<(Seq<u8>, Seq<u8>)>,
) -> bool {
    let ms = concat_header_values(req_headers, header::if_modified_since_spec());
    let nm = concat_header_values(req_headers, header::if_none_match_spec());
    if ms.len() == 0 && nm.len() == 0 {
        false
    } else if !is_utf8(ms) || ms.len() == 0 {
        etag_match_spec(nm, res_headers)
    } else {
        match parse_http_date_spec(ms) {
            None => false,
            Some(d) => time_check_spec(d, res_headers) && etag_match_spec(nm, res_headers),
        }
    }
}

/// Every date the grammars accept is a real calendar date.
pub proof fn lemma_parsed_date_valid(s: Seq<u8>)
    ensures
        parse_http_date_spec(s) matches Some(d) ==> date_valid(d),
{
}

fn bytes_equal(a: &Vec<u8>, b: &Vec<u8>) -> (r: bool)
    ensures
        r == (a@ == b@),
{
    if a.len() != b.len() {
        return false;
    }
    let n = a.len();
    let mut i: usize = 0;
    while i < n
        invariant
            n == a.len() == b.len(),
            i <= n,
            forall|j: int| 0 <= j < i ==> a@[j] == b@[j],
        decreases n - i,
    {
        if a[i] != b[i] {
            return false;
        }
        i = i + 1;
    }
    proof {
        assert(a@ =~= b@);
    }
    true
}

/// The response is a plain success.
pub fn is_ok(response: &Response) -> (r: bool)
    ensures
        r == (response.status == 200),
{
    response.status() == 200
}

/// The entity check on a response.
pub fn etag_matches(none_match: &Vec<u8>, res: &Response) -> (r: bool)
    ensures
        r == etag_match_spec(none_match@, res.headers@),
{
    let name = header::etag();
    let value = get_and_concat_header(res.headers(), &name);
    bytes_equal(&value, none_match)
}

/// The time check on a response.
pub fn is_modified_since(modified_since: HttpDate, res: &Response) -> (r: bool)
    requires
        date_valid(modified_since),
    ensures
        r == time_check_spec(modified_since, res.headers@),
{
    let name = header::last_modified();
    let last_modified = get_and_concat_header(res.headers(), &name);
    if !utf8_check(&last_modified) {
        return false;
    }
    match parse_http_date(&last_modified) {
        None => false,
        Some(parsed) => {
            proof {
                lemma_parsed_date_valid(last_modified@);
            }
            modified_since.unix_timestamp() >= parsed.unix_timestamp()
        }
    }
}

/// Freshness of a response against the request's validator headers.
pub fn is_fresh(req_headers: &HeaderMap, res: &Response) -> (r: bool)
    ensures
        r == fresh_spec(req_headers@, res.headers@),
{
    let ims_name = header::if_modified_since();
    let inm_name = header::if_none_match();
    let modified_since = get_and_concat_header(req_headers, &ims_name);
    let none_match = get_and_concat_header(req_headers, &inm_name);

    if modified_since.len() == 0 && none_match.len() == 0 {
        return false;
    }

    let time_ok: bool;
    if !utf8_check(&modified_since) {
        time_ok = true;
    } else if modified_since.len() == 0 {
        time_ok = true;
    } else {
        match parse_http_date(&modified_since) {
            None => {
                // An unparsable date disqualifies freshness outright.
                return false;
            }
            Some(parsed) => {
                proof {
                    lemma_parsed_date_valid(modified_since@);
                }
                time_ok = is_modified_since(parsed, res);
            }
        }
    }

    time_ok && etag_matches(&none_match, res)
}

/// What `after` returns: either the untouched response, or its `304`
/// rewriting with the entity headers gone and the body dropped.
pub open spec fn after_spec(method: Method, req_headers: Seq<(Seq<u8>, Seq<u8>)>, res: Response)
    -> (u16, Seq<(Seq<u8>, Seq<u8>)>, Seq<u8>) {
    if (method == Method::Get || method == Method::Head) && res.status == 200
        && fresh_spec(req_headers, res.headers@) {
        (
            304u16,
            remove_header(
                remove_header(res.headers@, header::content_type_spec()),
                header::content_length_spec(),
            ),
            Seq::<u8>::empty(),
        )
    } else {
        (res.status, res.headers@, res.body@)
    }
}

/// The conditional GET stage.
pub struct ConditionalGet;

impl ConditionalGet {
    /// Rewrite a fresh `200` response to a `GET` or `HEAD` request into an
    /// empty `304` without `Content-Type` or `Content-Length`; pass every
    /// other response through unchanged.
    pub fn after(&self, method: Method, req_headers: &HeaderMap, res: Response) -> (out: Response)
        ensures
            (out.status, out.headers@, out.body@) == after_spec(method, req_headers@, res),
    {
        match method {
            Method::Get | Method::Head => {
                if is_ok(&res) && is_fresh(req_headers, &res) {
                    let mut headers = res.headers;
                    let ct = header::content_type();
                    let cl = header::content_length();
                    headers.remove(&ct);
                    headers.remove(&cl);
                    let empty_body: Vec<u8> = Vec::new();
                    proof {
                        assert(empty_body@ =~= Seq::<u8>::empty());
                    }
                    return Response { status: 304, headers, body: empty_body };
                }
                res
            }
            _ => res,
        }
    }
}

} // verus!

//! The library's stated laws, proved against the same spec functions its
//! executable contracts use.

use vstd::prelude::*;
use crate::conditional::{fresh_spec, time_check_spec, after_spec};
use crate::dates::{HttpDate, date_valid, epoch_days_of, epoch_seconds_of};
use crate::header;
use crate::headers::{concat_header_values, remove_header, is_utf8};
use crate::message::{Method, Response};
use crate::formatting::{
    dec_digits, zeros_seq, padded_decimal, year_bytes, two_digit_bytes, weekday_index_of,
    format_http_date_spec,
};
use crate::parsing::{
    is_digit, digit_run, zero_run, digits_val, take_number, take_two_digits, take_year, take_hms,
    make_date, gmt_at, weekday_abbr, month_abbr, match_weekday, match_month,
    parse_rfc1123_spec, parse_http_date_spec,
};

verus! {

proof fn lemma_dec_digits_are_digits(n: int)
    requires
        0 <= n,
    ensures
        dec_digits(n).len() >= 1,
        forall|j: int| 0 <= j < dec_digits(n).len() ==> is_digit(#[trigger] dec_digits(n)[j]),
        n >= 1 ==> dec_digits(n)[0] != 48,
    decreases n,
{
    if n >= 10 {
        lemma_dec_digits_are_digits(n / 10);
    }
}

proof fn lemma_dec_len_ranges(n: int)
    requires
        0 <= n,
    ensures
        n < 10 ==> dec_digits(n).len() == 1,
        10 <= n < 100 ==> dec_digits(n).len() == 2,
        100 <= n < 1000 ==> dec_digits(n).len() == 3,
        1000 <= n < 10000 ==> dec_digits(n).len() == 4,
        10000 <= n < 100000 ==> dec_digits(n).len() == 5,
        100000 <= n < 1000000 ==> dec_digits(n).len() == 6,
        1000000 <= n ==> dec_digits(n).len() >= 7,
    decreases n,
{
    if n >= 10 {
        lemma_dec_len_ranges(n / 10);
    }
}

/// A block of digits bounded on the right stops the greedy run exactly.
proof fn lemma_digit_run_of_block(s: Seq<u8>, i: int, d: Seq<u8>, max: int)
    requires
        0 <= i,
        i + d.len() <= s.len(),
        d.len() <= max,
        s.subrange(i, i + d.len()) == d,
        forall|j: int| 0 <= j < d.len() ==> is_digit(#[trigger] d[j]),
        i + d.len() == s.len() || !is_digit(s[i + d.len()]),
    ensures
        digit_run(s, i, max) == d.len(),
    decreases d.len(),
{
    if d.len() == 0 {
    } else {
        assert(s[i] == s.subrange(i, i + d.len())[0]);
        let dd = d.skip(1);
        assert(s.subrange(i + 1, i + 1 + dd.len()) =~= dd) by {
            assert(forall|j: int| 0 <= j < dd.len()
                ==> #[trigger] s.subrange(i + 1, i + 1 + dd.len())[j] == s[i + 1 + j]
                    && d[j + 1] == s.subrange(i, i + d.len())[j + 1]);
        }
        assert(forall|j: int| 0 <= j < dd.len() ==> is_digit(#[trigger] dd[j]));
        lemma_digit_run_of_block(s, i + 1, dd, max - 1);
    }
}

/// The numeric value read back from a printed block of digits is the
/// number printed.
proof fn lemma_digits_val_of_block(s: Seq<u8>, i: int, n: int)
    requires
        0 <= i,
        0 <= n,
        i + dec_digits(n).len() <= s.len(),
        s.subrange(i, i + dec_digits(n).len()) == dec_digits(n),
    ensures
        digits_val(s, i, dec_digits(n).len() as int) == n,
    decreases n,
{
    let d = dec_digits(n);
    let ln = d.len() as int;
    if n < 10 {
        assert(s[i] == s.subrange(i, i + 1)[0]);
        assert(s[i] == (48 + n) as u8);
        assert(digits_val(s, i, 1) == digits_val(s, i, 0) * 10 + (s[i] - 48));
        assert(digits_val(s, i, 0) == 0);
    } else {
        let dh = dec_digits(n / 10);
        assert(d == dh + seq![(48 + n % 10) as u8]);
        assert(s.subrange(i, i + dh.len()) =~= dh) by {
            assert(forall|j: int| 0 <= j < dh.len()
                ==> #[trigger] s.subrange(i, i + dh.len())[j]
                    == s.subrange(i, i + d.len())[j]);
        }
        lemma_digits_val_of_block(s, i, n / 10);
        assert(s[i + ln - 1] == s.subrange(i, i + ln)[ln - 1]);
        assert(s[i + ln - 1] == (48 + n % 10) as u8);
        assert(digits_val(s, i, ln) == digits_val(s, i, ln - 1) * 10 + (s[i + ln - 1] - 48));
        vstd::arithmetic::div_mod::lemma_fundamental_div_mod(n, 10);
    }
}

/// A block of zeros bounded on the right stops the padding run exactly.
proof fn lemma_zero_run_of_block(s: Seq<u8>, i: int, z: int, max: int)
    requires
        0 <= i,
        0 <= z <= max,
        i + z <= s.len(),
        forall|j: int| 0 <= j < z ==> #[trigger] s.subrange(i, i + z)[j] == 48,
        z == max || i + z == s.len() || s[i + z] != 48,
    ensures
        zero_run(s, i, max) == z,
    decreases z,
{
    if z == 0 {
        if max > 0 && i < s.len() {
            assert(s[i] != 48);
        }
    } else {
        assert(s[i] == s.subrange(i, i + z)[0]);
        assert(forall|j: int| 0 <= j < z - 1
            ==> #[trigger] s.subrange(i + 1, i + z)[j] == s.subrange(i, i + z)[j + 1]);
        lemma_zero_run_of_block(s, i + 1, z - 1, max - 1);
    }
}

/// Two printed digits read back as the number printed.
proof fn lemma_two_digits_round(s: Seq<u8>, i: int, n: int)
    requires
        0 <= n < 100,
        0 <= i,
        i + 2 <= s.len(),
        s[i] == two_digit_bytes(n)[0],
        s[i + 1] == two_digit_bytes(n)[1],
    ensures
        take_two_digits(s, i) == Some(n),
{
    vstd::arithmetic::div_mod::lemma_fundamental_div_mod(n, 10);
}

/// A printed unpadded number bounded on the right reads back exactly.
proof fn lemma_take_number_of_dec(s: Seq<u8>, i: int, n: int, max: int)
    requires
        0 <= i,
        0 <= n,
        dec_digits(n).len() <= max,
        i + dec_digits(n).len() <= s.len(),
        s.subrange(i, i + dec_digits(n).len()) == dec_digits(n),
        i + dec_digits(n).len() == s.len() || !is_digit(s[i + dec_digits(n).len()]),
    ensures
        take_number(s, i, 1, max) == Some((n, i + dec_digits(n).len())),
{
    lemma_dec_digits_are_digits(n);
    lemma_digit_run_of_block(s, i, dec_digits(n), max);
    lemma_digits_val_of_block(s, i, n);
}

/// A printed year, bounded on the right by a non-digit, reads back
/// exactly: the sign is honoured, the zero padding is skipped, and the
/// greedy digit run stops where the printed digits stop.
proof fn lemma_take_year_round(s: Seq<u8>, i: int, y: int)
    requires
        -100000 <= y <= 100000,
        0 <= i,
        i + year_bytes(y).len() <= s.len(),
        s.subrange(i, i + year_bytes(y).len()) == year_bytes(y),
        i + year_bytes(y).len() == s.len() || !is_digit(s[i + year_bytes(y).len()]),
    ensures
        take_year(s, i) == Some((y, i + year_bytes(y).len())),
{
    let yb = year_bytes(y);
    let lb = yb.len() as int;
    if y >= 10000 {
        let d = dec_digits(y);
        let ln = d.len() as int;
        lemma_dec_len_ranges(y);
        lemma_dec_digits_are_digits(y);
        assert(padded_decimal(y, 4) =~= d);
        assert(yb =~= seq![43u8] + d);
        assert(s[i] == s.subrange(i, i + lb)[0]);
        assert(s[i] == 43);
        assert(s[i + 1] == s.subrange(i, i + lb)[1]);
        assert(s[i + 1] == d[0]);
        lemma_zero_run_of_block(s, i + 1, 0, 3);
        assert(s.subrange(i + 1, i + 1 + ln) =~= d) by {
            assert(forall|j: int| 0 <= j < ln
                ==> #[trigger] s.subrange(i + 1, i + 1 + ln)[j] == s[i + 1 + j]
                    && s.subrange(i, i + lb)[j + 1] == s[i + 1 + j]
                    && yb[j + 1] == d[j]);
        }
        lemma_take_number_of_dec(s, i + 1, y, 6);
    } else if y >= 0 {
        let d = dec_digits(y);
        let ln = d.len() as int;
        lemma_dec_len_ranges(y);
        lemma_dec_digits_are_digits(y);
        let z = 4 - ln;
        assert(yb == zeros_seq(z) + d);
        assert(lb == 4);
        assert(s[i] == s.subrange(i, i + lb)[0]);
        assert(yb[0] == 48 || yb[0] == d[0]);
        assert(is_digit(yb[0]));
        assert(s[i] != 43 && s[i] != 45);
        assert(forall|j: int| 0 <= j < z ==> #[trigger] s.subrange(i, i + z)[j] == 48) by {
            assert(forall|j: int| 0 <= j < z
                ==> #[trigger] s.subrange(i, i + z)[j] == s[i + j]
                    && s.subrange(i, i + lb)[j] == s[i + j]
                    && yb[j] == zeros_seq(z)[j]);
        }
        assert(z == 3 || s[i + z] != 48) by {
            if z < 3 {
                assert(s[i + z] == s.subrange(i, i + lb)[z]);
                assert(yb[z] == d[0]);
                assert(y >= 1);
            }
        }
        lemma_zero_run_of_block(s, i, z, 3);
        assert(s.subrange(i + z, i + z + ln) =~= d) by {
            assert(forall|j: int| 0 <= j < ln
                ==> #[trigger] s.subrange(i + z, i + z + ln)[j] == s[i + z + j]
                    && s.subrange(i, i + lb)[z + j] == s[i + z + j]
                    && yb[z + j] == d[j]);
        }
        lemma_take_number_of_dec(s, i + z, y, 4);
    } else {
        let m = -y;
        let d = dec_digits(m);
        let ln = d.len() as int;
        lemma_dec_len_ranges(m);
        lemma_dec_digits_are_digits(m);
        let z = if 3 - ln > 0 { 3 - ln } else { 0 };
        assert(yb == seq![45u8] + (zeros_seq(3 - ln) + d));
        assert(lb == 1 + z + ln);
        assert(s[i] == s.subrange(i, i + lb)[0]);
        assert(s[i] == 45);
        assert(forall|j: int| 0 <= j < z ==> #[trigger] s.subrange(i + 1, i + 1 + z)[j] == 48) by {
            assert(forall|j: int| 0 <= j < z
                ==> #[trigger] s.subrange(i + 1, i + 1 + z)[j] == s[i + 1 + j]
                    && s.subrange(i, i + lb)[1 + j] == s[i + 1 + j]
                    && yb[1 + j] == zeros_seq(z)[j]);
        }
        assert(z == 3 || i + 1 + z == s.len() || s[i + 1 + z] != 48) by {
            assert(s[i + 1 + z] == s.subrange(i, i + lb)[1 + z]);
            assert(yb[1 + z] == d[0]);
            assert(m >= 1);
        }
        lemma_zero_run_of_block(s, i + 1, z, 3);
        assert(s.subrange(i + 1 + z, i + 1 + z + ln) =~= d) by {
            assert(forall|j: int| 0 <= j < ln
                ==> #[trigger] s.subrange(i + 1 + z, i + 1 + z + ln)[j] == s[i + 1 + z + j]
                    && s.subrange(i, i + lb)[1 + z + j] == s[i + 1 + z + j]
                    && yb[1 + z + j] == d[j]);
        }
        lemma_take_number_of_dec(s, i + 1 + z, m, 6);
    }
}

/// A printed `H:MM:SS` block reads back exactly.
proof fn lemma_take_hms_round(s: Seq<u8>, i: int, h: int, mi: int, sec: int)
    requires
        0 <= h < 24,
        0 <= mi < 60,
        0 <= sec < 60,
        0 <= i,
        i + dec_digits(h).len() + 6 <= s.len(),
        s.subrange(i, i + dec_digits(h).len() + 6)
            == dec_digits(h) + seq![58u8] + two_digit_bytes(mi) + seq![58u8]
                + two_digit_bytes(sec),
    ensures
        take_hms(s, i) == Some((h, mi, sec, i + dec_digits(h).len() + 6)),
{
    let d = dec_digits(h);
    let hl = d.len() as int;
    lemma_dec_len_ranges(h);
    lemma_dec_digits_are_digits(h);
    let block = d + seq![58u8] + two_digit_bytes(mi) + seq![58u8] + two_digit_bytes(sec);
    assert(s.subrange(i, i + hl) =~= d) by {
        assert(forall|j: int| 0 <= j < hl
            ==> #[trigger] s.subrange(i, i + hl)[j] == s[i + j]
                && s.subrange(i, i + hl + 6)[j] == s[i + j]
                && block[j] == d[j]);
    }
    assert(s[i + hl] == s.subrange(i, i + hl + 6)[hl]);
    assert(block[hl] == 58);
    lemma_take_number_of_dec(s, i, h, 2);
    assert(s[i + hl + 1] == s.subrange(i, i + hl + 6)[hl + 1]);
    assert(block[hl + 1] == two_digit_bytes(mi)[0]);
    assert(s[i + hl + 2] == s.subrange(i, i + hl + 6)[hl + 2]);
    assert(block[hl + 2] == two_digit_bytes(mi)[1]);
    lemma_two_digits_round(s, i + hl + 1, mi);
    assert(s[i + hl + 3] == s.subrange(i, i + hl + 6)[hl + 3]);
    assert(block[hl + 3] == 58);
    assert(s[i + hl + 4] == s.subrange(i, i + hl + 6)[hl + 4]);
    assert(block[hl + 4] == two_digit_bytes(sec)[0]);
    assert(s[i + hl + 5] == s.subrange(i, i + hl + 6)[hl + 5]);
    assert(block[hl + 5] == two_digit_bytes(sec)[1]);
    lemma_two_digits_round(s, i + hl + 4, sec);
}

/// The bytes the formatter lays down, piece by piece and position by
/// position.
#[verifier::rlimit(100)]
#[verifier::spinoff_prover]
proof fn lemma_format_layout(d: HttpDate)
    requires
        date_valid(d),
    ensures
        0 <= weekday_index_of(d) < 7,
        ({
            let s = format_http_date_spec(d);
            let lyb = year_bytes(d.year as int).len() as int;
            let lhb = dec_digits(d.hour as int).len() as int;
            &&& s.len() == 13 + lyb + lhb + 10
            &&& s.subrange(0, 3) == weekday_abbr(weekday_index_of(d))
            &&& s[3] == 44 && s[4] == 32
            &&& s[5] == two_digit_bytes(d.day as int)[0]
            &&& s[6] == two_digit_bytes(d.day as int)[1]
            &&& s[7] == 32
            &&& s.subrange(8, 11) == month_abbr(d.month as int)
            &&& s[11] == 32
            &&& s.subrange(12, 12 + lyb) == year_bytes(d.year as int)
            &&& s[12 + lyb] == 32
            &&& s.subrange(13 + lyb, 13 + lyb + lhb + 6)
                == dec_digits(d.hour as int) + seq![58u8] + two_digit_bytes(d.minute as int)
                    + seq![58u8] + two_digit_bytes(d.second as int)
            &&& gmt_at(s, 13 + lyb + lhb + 6)
        }),
{
    assert(0 <= weekday_index_of(d) < 7) by {
        vstd::arithmetic::div_mod::lemma_mod_bound(epoch_days_of(d) % 7 + 3, 7);
    }
    let s = format_http_date_spec(d);
    let lyb = year_bytes(d.year as int).len() as int;
    let lhb = dec_digits(d.hour as int).len() as int;
    assert(s.subrange(0, 3) =~= weekday_abbr(weekday_index_of(d)));
    assert(s.subrange(8, 11) =~= month_abbr(d.month as int));
    assert(s.subrange(12, 12 + lyb) =~= year_bytes(d.year as int));
    assert(s.subrange(13 + lyb, 13 + lyb + lhb + 6)
        =~= dec_digits(d.hour as int) + seq![58u8] + two_digit_bytes(d.minute as int)
            + seq![58u8] + two_digit_bytes(d.second as int));
}

/// A weekday name in place is recognised as itself.
proof fn lemma_weekday_match(s: Seq<u8>, w: int)
    requires
        0 <= w < 7,
        s.len() >= 3,
        s.subrange(0, 3) == weekday_abbr(w),
    ensures
        match_weekday(s, 0) == Some(w),
{
    assert(s[0] == s.subrange(0, 3)[0]);
    assert(s[1] == s.subrange(0, 3)[1]);
    assert(s[2] == s.subrange(0, 3)[2]);
    if w == 0 {
        assert(match_weekday(s, 0) == Some(0int));
    } else if w == 1 {
        assert(match_weekday(s, 0) == Some(1int));
    } else if w == 2 {
        assert(match_weekday(s, 0) == Some(2int));
    } else if w == 3 {
        assert(match_weekday(s, 0) == Some(3int));
    } else if w == 4 {
        assert(match_weekday(s, 0) == Some(4int));
    } else if w == 5 {
        assert(match_weekday(s, 0) == Some(5int));
    } else {
        assert(match_weekday(s, 0) == Some(6int));
    }
}

/// A month name in place is recognised as itself.
proof fn lemma_month_match(s: Seq<u8>, i: int, m: int)
    requires
        1 <= m <= 12,
        0 <= i,
        i + 3 <= s.len(),
        s.subrange(i, i + 3) == month_abbr(m),
    ensures
        match_month(s, i) == Some(m),
{
    assert(s[i] == s.subrange(i, i + 3)[0]);
    assert(s[i + 1] == s.subrange(i, i + 3)[1]);
    assert(s[i + 2] == s.subrange(i, i + 3)[2]);
    if m == 1 {
        assert(match_month(s, i) == Some(1int));
    } else if m == 2 {
        assert(match_month(s, i) == Some(2int));
    } else if m == 3 {
        assert(match_month(s, i) == Some(3int));
    } else if m == 4 {
        assert(match_month(s, i) == Some(4int));
    } else if m == 5 {
        assert(match_month(s, i) == Some(5int));
    } else if m == 6 {
        assert(match_month(s, i) == Some(6int));
    } else if m == 7 {
        assert(match_month(s, i) == Some(7int));
    } else if m == 8 {
        assert(match_month(s, i) == Some(8int));
    } else if m == 9 {
        assert(match_month(s, i) == Some(9int));
    } else if m == 10 {
        assert(match_month(s, i) == Some(10int));
    } else if m == 11 {
        assert(match_month(s, i) == Some(11int));
    } else {
        assert(match_month(s, i) == Some(12int));
    }
}

/// Round trip: a valid instant rendered in the RFC 1123 style shape and
/// parsed back yields the same second-granularity instant, through the
/// grammar that is tried first.
#[verifier::rlimit(100)]
#[verifier::spinoff_prover]
pub proof fn lemma_format_parse_roundtrip(d: HttpDate)
    requires
        date_valid(d),
    ensures
        parse_rfc1123_spec(format_http_date_spec(d)) == Some(d),
        parse_http_date_spec(format_http_date_spec(d)) == Some(d),
{
    lemma_format_layout(d);
    let s = format_http_date_spec(d);
    let w = weekday_index_of(d);
    let day = d.day as int;
    let mon = d.month as int;
    let y = d.year as int;
    let h = d.hour as int;
    let mi = d.minute as int;
    let sec = d.second as int;
    let lyb = year_bytes(y).len() as int;
    let lhb = dec_digits(h).len() as int;

    lemma_weekday_match(s, w);
    lemma_two_digits_round(s, 5, day);
    lemma_month_match(s, 8, mon);
    lemma_take_year_round(s, 12, y);
    lemma_take_hms_round(s, 13 + lyb, h, mi, sec);
    assert(take_hms(s, 13 + lyb) == Some((h, mi, sec, 13 + lyb + lhb + 6)));
    assert(gmt_at(s, 13 + lyb + lhb + 6));
    assert(make_date(y, mon, day, h, mi, sec) == Some(d));
    assert(parse_rfc1123_spec(s) == Some(d));
}

/// A response whose status is not 200 passes through byte-identical,
/// whatever the request carries.
pub proof fn lemma_non_200_unchanged(
    method: Method,
    req_headers: Seq<(Seq<u8>, Seq<u8>)>,
    res: Response,
)
    requires
        res.status != 200,
    ensures
        after_spec(method, req_headers, res) == (res.status, res.headers@, res.body@),
{
}

/// A response to a request that is not `GET` or `HEAD` passes through
/// byte-identical.
pub proof fn lemma_other_method_unchanged(
    method: Method,
    req_headers: Seq<(Seq<u8>, Seq<u8>)>,
    res: Response,
)
    requires
        method != Method::Get,
        method != Method::Head,
    ensures
        after_spec(method, req_headers, res) == (res.status, res.headers@, res.body@),
{
}

/// A request that carries neither `If-Modified-Since` nor `If-None-Match`
/// is never fresh.
pub proof fn lemma_no_validators_not_fresh(
    req_headers: Seq<(Seq<u8>, Seq<u8>)>,
    res_headers: Seq<(Seq<u8>, Seq<u8>)>,
)
    requires
        concat_header_values(req_headers, header::if_modified_since_spec()).len() == 0,
        concat_header_values(req_headers, header::if_none_match_spec()).len() == 0,
    ensures
        !fresh_spec(req_headers, res_headers),
{
}

/// When a nonempty `If-None-Match` byte-equals the response's `ETag` and
/// no `If-Modified-Since` is present, a 200 response to `GET` or `HEAD`
/// becomes an empty `304` with the entity headers gone. (With both
/// validators empty the no-validator rule wins instead.)
pub proof fn lemma_matching_etag_rewrites(
    method: Method,
    req_headers: Seq<(Seq<u8>, Seq<u8>)>,
    res: Response,
)
    requires
        method == Method::Get || method == Method::Head,
        res.status == 200,
        concat_header_values(req_headers, header::if_modified_since_spec()).len() == 0,
        concat_header_values(req_headers, header::if_none_match_spec()).len() != 0,
        concat_header_values(req_headers, header::if_none_match_spec())
            == concat_header_values(res.headers@, header::etag_spec()),
    ensures
        fresh_spec(req_headers, res.headers@),
        after_spec(method, req_headers, res) == (
            304u16,
            remove_header(
                remove_header(res.headers@, header::content_type_spec()),
                header::content_length_spec(),
            ),
            Seq::<u8>::empty(),
        ),
{
}

/// When `If-None-Match` byte-equals the response's `ETag` and
/// `If-Modified-Since` parses as the `Last-Modified` instant or a later
/// one, a 200 response to `GET` or `HEAD` becomes an empty `304` with the
/// entity headers gone.
pub proof fn lemma_fresh_validators_rewrite(
    method: Method,
    req_headers: Seq<(Seq<u8>, Seq<u8>)>,
    res: Response,
    f: HttpDate,
)
    requires
        method == Method::Get || method == Method::Head,
        res.status == 200,
        ({
            let ms = concat_header_values(req_headers, header::if_modified_since_spec());
            &&& ms.len() != 0
            &&& is_utf8(ms)
            &&& parse_http_date_spec(ms) == Some(f)
        }),
        time_check_spec(f, res.headers@),
        concat_header_values(req_headers, header::if_none_match_spec())
            == concat_header_values(res.headers@, header::etag_spec()),
    ensures
        fresh_spec(req_headers, res.headers@),
        after_spec(method, req_headers, res) == (
            304u16,
            remove_header(
                remove_header(res.headers@, header::content_type_spec()),
                header::content_length_spec(),
            ),
            Seq::<u8>::empty(),
        ),
{
}

/// An `If-Modified-Since` that is present and textual but fails all three
/// grammars makes the response stale outright, even when the ETags match.
pub proof fn lemma_unparsable_date_not_fresh(
    req_headers: Seq<(Seq<u8>, Seq<u8>)>,
    res_headers: Seq<(Seq<u8>, Seq<u8>)>,
)
    requires
        ({
            let ms = concat_header_values(req_headers, header::if_modified_since_spec());
            &&& ms.len() != 0
            &&& is_utf8(ms)
            &&& parse_http_date_spec(ms) is None
        }),
    ensures
        !fresh_spec(req_headers, res_headers),
{
}

/// The time comparison is inclusive: an `If-Modified-Since` equal to the
/// response's `Last-Modified` instant passes the time check.
pub proof fn lemma_time_check_inclusive(d: HttpDate, res_headers: Seq<(Seq<u8>, Seq<u8>)>)
    requires
        ({
            let lm = concat_header_values(res_headers, header::last_modified_spec());
            &&& is_utf8(lm)
            &&& parse_http_date_spec(lm) == Some(d)
        }),
    ensures
        time_check_spec(d, res_headers),
{
}

/// A `Last-Modified` strictly later than the request's
/// `If-Modified-Since` — a year later, say — makes the response stale,
/// and it passes through unchanged, whatever the ETags hold.
pub proof fn lemma_later_modification_unchanged(
    method: Method,
    req_headers: Seq<(Seq<u8>, Seq<u8>)>,
    res: Response,
    f: HttpDate,
    g: HttpDate,
)
    requires
        ({
            let ms = concat_header_values(req_headers, header::if_modified_since_spec());
            let lm = concat_header_values(res.headers@, header::last_modified_spec());
            &&& ms.len() != 0
            &&& is_utf8(ms)
            &&& parse_http_date_spec(ms) == Some(f)
            &&& is_utf8(lm)
            &&& parse_http_date_spec(lm) == Some(g)
            &&& epoch_seconds_of(f) < epoch_seconds_of(g)
        }),
    ensures
        !fresh_spec(req_headers, res.headers@),
        after_spec(method, req_headers, res) == (res.status, res.headers@, res.body@),
{
}

} // verus!

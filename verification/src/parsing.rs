//! The three legacy HTTP date grammars.
//!
//! `parse_http_date` tries, in order:
//! 1. RFC 1123 style: `Www, DD Mmm YYYY H:MM:SS GMT` (month by name);
//! 2. RFC 850 style as this pipeline has always read it: `Www, DD-MM-YY
//!    H:MM:SS GMT`, with a numeric month and the two-digit year taken
//!    literally (no century is added);
//! 3. an asctime-like form, again with a numeric month and a literal tab:
//!    `Www MM<TAB>DD H:MM:SS YYYY`.
//!
//! The quirks are deliberate and load-bearing: the hour may be one or two
//! digits, a four-digit year may carry a sign and up to three leading
//! zeros, weekday names are consumed but never checked against the date,
//! and input after the grammar is ignored. All three failures collapse to
//! one undifferentiated `None`.

use vstd::prelude::*;
use crate::dates::{HttpDate, days_in_month_of, days_in_month};

verus! {

pub open spec fn is_digit(b: u8) -> bool {
    48 <= b <= 57
}

/// Length of the run of ASCII digits starting at `i`, capped at `max`.
pub open spec fn digit_run(s: Seq<u8>, i: int, max: int) -> int
    decreases max
{
    if max <= 0 || i < 0 || i >= s.len() || !is_digit(s[i]) {
        0
    } else {
        1 + digit_run(s, i + 1, max - 1)
    }
}

/// Length of the run of ASCII zeros starting at `i`, capped at `max`.
pub open spec fn zero_run(s: Seq<u8>, i: int, max: int) -> int
    decreases max
{
    if max <= 0 || i < 0 || i >= s.len() || s[i] != 48 {
        0
    } else {
        1 + zero_run(s, i + 1, max - 1)
    }
}

/// Numeric value of the `k` digits starting at `i`.
pub open spec fn digits_val(s: Seq<u8>, i: int, k: int) -> int
    decreases k
{
    if k <= 0 { 0 } else { digits_val(s, i, k - 1) * 10 + (s[i + k - 1] - 48) }
}

/// Greedy run of between `min` and `max` digits, as a value and the
/// position that follows it.
pub open spec fn take_number(s: Seq<u8>, i: int, min: int, max: int) -> Option<(int, int)> {
    let k = digit_run(s, i, max);
    if k >= min { Some((digits_val(s, i, k), i + k)) } else { None }
}

/// Exactly two digits.
pub open spec fn take_two_digits(s: Seq<u8>, i: int) -> Option<int> {
    if i + 2 <= s.len() && is_digit(s[i]) && is_digit(s[i + 1]) {
        Some((s[i] - 48) * 10 + (s[i + 1] - 48))
    } else {
        None
    }
}

/// Abbreviated weekday names, Monday first.
pub open spec fn weekday_abbr(w: int) -> Seq<u8> {
    if w == 0 { seq![77u8, 111u8, 110u8] }        // Mon
    else if w == 1 { seq![84u8, 117u8, 101u8] }   // Tue
    else if w == 2 { seq![87u8, 101u8, 100u8] }   // Wed
    else if w == 3 { seq![84u8, 104u8, 117u8] }   // Thu
    else if w == 4 { seq![70u8, 114u8, 105u8] }   // Fri
    else if w == 5 { seq![83u8, 97u8, 116u8] }    // Sat
    else { seq![83u8, 117u8, 110u8] }             // Sun
}

/// Abbreviated month names, one-indexed.
pub open spec fn month_abbr(m: int) -> Seq<u8> {
    if m == 1 { seq![74u8, 97u8, 110u8] }         // Jan
    else if m == 2 { seq![70u8, 101u8, 98u8] }    // Feb
    else if m == 3 { seq![77u8, 97u8, 114u8] }    // Mar
    else if m == 4 { seq![65u8, 112u8, 114u8] }   // Apr
    else if m == 5 { seq![77u8, 97u8, 121u8] }    // May
    else if m == 6 { seq![74u8, 117u8, 110u8] }   // Jun
    else if m == 7 { seq![74u8, 117u8, 108u8] }   // Jul
    else if m == 8 { seq![65u8, 117u8, 103u8] }   // Aug
    else if m == 9 { seq![83u8, 101u8, 112u8] }   // Sep
    else if m == 10 { seq![79u8, 99u8, 116u8] }   // Oct
    else if m == 11 { seq![78u8, 111u8, 118u8] }  // Nov
    else { seq![68u8, 101u8, 99u8] }              // Dec
}

pub open spec fn name_at(s: Seq<u8>, i: int, pat: Seq<u8>) -> bool {
    &&& pat.len() == 3
    &&& i + 3 <= s.len()
    &&& s[i] == pat[0]
    &&& s[i + 1] == pat[1]
    &&& s[i + 2] == pat[2]
}

/// A weekday name at `i`; its index, Monday = 0.
pub open spec fn match_weekday(s: Seq<u8>, i: int) -> Option<int> {
    if name_at(s, i, weekday_abbr(0)) { Some(0int) }
    else if name_at(s, i, weekday_abbr(1)) { Some(1int) }
    else if name_at(s, i, weekday_abbr(2)) { Some(2int) }
    else if name_at(s, i, weekday_abbr(3)) { Some(3int) }
    else if name_at(s, i, weekday_abbr(4)) { Some(4int) }
    else if name_at(s, i, weekday_abbr(5)) { Some(5int) }
    else if name_at(s, i, weekday_abbr(6)) { Some(6int) }
    else { None }
}

/// A month name at `i`; its one-indexed number.
pub open spec fn match_month(s: Seq<u8>, i: int) -> Option<int> {
    if name_at(s, i, month_abbr(1)) { Some(1int) }
    else if name_at(s, i, month_abbr(2)) { Some(2int) }
    else if name_at(s, i, month_abbr(3)) { Some(3int) }
    else if name_at(s, i, month_abbr(4)) { Some(4int) }
    else if name_at(s, i, month_abbr(5)) { Some(5int) }
    else if name_at(s, i, month_abbr(6)) { Some(6int) }
    else if name_at(s, i, month_abbr(7)) { Some(7int) }
    else if name_at(s, i, month_abbr(8)) { Some(8int) }
    else if name_at(s, i, month_abbr(9)) { Some(9int) }
    else if name_at(s, i, month_abbr(10)) { Some(10int) }
    else if name_at(s, i, month_abbr(11)) { Some(11int) }
    else if name_at(s, i, month_abbr(12)) { Some(12int) }
    else { None }
}

/// A four-digit-style year: an optional sign, up to three leading zeros
/// of padding, then a greedy run of digits — at most four of them, or six
/// after an explicit sign.
pub open spec fn take_year(s: Seq<u8>, i: int) -> Option<(int, int)> {
    let has_plus = i < s.len() && s[i] == 43;
    let has_minus = i < s.len() && s[i] == 45;
    let j = if has_plus || has_minus { i + 1 } else { i };
    let maxd = if has_plus || has_minus { 6int } else { 4int };
    let z = zero_run(s, j, 3);
    match take_number(s, j + z, 1, maxd) {
        None => None,
        Some((v, n)) => Some((if has_minus { -v } else { v }, n)),
    }
}

/// `H:MM:SS` with a one- or two-digit hour; the fields and the position
/// that follows them.
pub open spec fn take_hms(s: Seq<u8>, i: int) -> Option<(int, int, int, int)> {
    match take_number(s, i, 1, 2) {
        None => None,
        Some((h, j)) => {
            if !(j < s.len() && s[j] == 58) { None }
            else {
                match take_two_digits(s, j + 1) {
                    None => None,
                    Some(mi) => {
                        if !(j + 3 < s.len() && s[j + 3] == 58) { None }
                        else {
                            match take_two_digits(s, j + 4) {
                                None => None,
                                Some(sec) => Some((h, mi, sec, j + 6)),
                            }
                        }
                    }
                }
            }
        }
    }
}

/// Range-check the fields and build the date, or fail as the grammar does.
pub open spec fn make_date(y: int, m: int, d: int, h: int, mi: int, sec: int) -> Option<HttpDate> {
    if -100000 <= y <= 100000 && 1 <= m <= 12 && 1 <= d <= days_in_month_of(y, m)
        && 0 <= h <= 23 && 0 <= mi <= 59 && 0 <= sec <= 59 {
        Some(HttpDate {
            year: y as i32,
            month: m as u8,
            day: d as u8,
            hour: h as u8,
            minute: mi as u8,
            second: sec as u8,
        })
    } else {
        None
    }
}

/// ` GMT` at `i`.
pub open spec fn gmt_at(s: Seq<u8>, i: int) -> bool {
    i + 4 <= s.len() && s[i] == 32 && s[i + 1] == 71 && s[i + 2] == 77 && s[i + 3] == 84
}

/// `Www, DD Mmm YYYY H:MM:SS GMT`.
pub open spec fn parse_rfc1123_spec(s: Seq<u8>) -> Option<HttpDate> {
    match match_weekday(s, 0) {
        None => None,
        Some(_w) => {
            if !(5 <= s.len() && s[3] == 44 && s[4] == 32) { None }
            else {
                match take_two_digits(s, 5) {
                    None => None,
                    Some(d) => {
                        if d == 0 { None }
                        else if !(7 < s.len() && s[7] == 32) { None }
                        else {
                            match match_month(s, 8) {
                                None => None,
                                Some(m) => {
                                    if !(11 < s.len() && s[11] == 32) { None }
                                    else {
                                        match take_year(s, 12) {
                                            None => None,
                                            Some((y, i)) => {
                                                if !(i < s.len() && s[i] == 32) { None }
                                                else {
                                                    match take_hms(s, i + 1) {
                                                        None => None,
                                                        Some((h, mi, sec, j)) => {
                                                            if !gmt_at(s, j) { None }
                                                            else { make_date(y, m, d, h, mi, sec) }
                                                        }
                                                    }
                                                }
                                            }
                                        }
                                    }
                                }
                            }
                        }
                    }
                }
            }
        }
    }
}

/// `Www, DD-MM-YY H:MM:SS GMT`; the two-digit year is the year.
pub open spec fn parse_rfc850_spec(s: Seq<u8>) -> Option<HttpDate> {
    match match_weekday(s, 0) {
        None => None,
        Some(_w) => {
            if !(5 <= s.len() && s[3] == 44 && s[4] == 32) { None }
            else {
                match take_two_digits(s, 5) {
                    None => None,
                    Some(d) => {
                        if d == 0 { None }
                        else if !(7 < s.len() && s[7] == 45) { None }
                        else {
                            match take_two_digits(s, 8) {
                                None => None,
                                Some(m) => {
                                    if m == 0 { None }
                                    else if !(10 < s.len() && s[10] == 45) { None }
                                    else {
                                        match take_two_digits(s, 11) {
                                            None => None,
                                            Some(y) => {
                                                if !(13 < s.len() && s[13] == 32) { None }
                                                else {
                                                    match take_hms(s, 14) {
                                                        None => None,
                                                        Some((h, mi, sec, j)) => {
                                                            if !gmt_at(s, j) { None }
                                                            else { make_date(y, m, d, h, mi, sec) }
                                                        }
                                                    }
                                                }
                                            }
                                        }
                                    }
                                }
                            }
                        }
                    }
                }
            }
        }
    }
}

/// `Www MM<TAB>DD H:MM:SS YYYY`.
pub open spec fn parse_asctime_spec(s: Seq<u8>) -> Option<HttpDate> {
    match match_weekday(s, 0) {
        None => None,
        Some(_w) => {
            if !(4 <= s.len() && s[3] == 32) { None }
            else {
                match take_two_digits(s, 4) {
                    None => None,
                    Some(m) => {
                        if m == 0 { None }
                        else if !(6 < s.len() && s[6] == 9) { None }
                        else {
                            match take_two_digits(s, 7) {
                                None => None,
                                Some(d) => {
                                    if d == 0 { None }
                                    else if !(9 < s.len() && s[9] == 32) { None }
                                    else {
                                        match take_hms(s, 10) {
                                            None => None,
                                            Some((h, mi, sec, j)) => {
                                                if !(j < s.len() && s[j] == 32) { None }
                                                else {
                                                    match take_year(s, j + 1) {
                                                        None => None,
                                                        Some((y, _n)) => make_date(y, m, d, h, mi, sec),
                                                    }
                                                }
                                            }
                                        }
                                    }
                                }
                            }
                        }
                    }
                }
            }
        }
    }
}

/// First grammar to accept wins; all three failing is one failure.
pub open spec fn parse_http_date_spec(s: Seq<u8>) -> Option<HttpDate> {
    if parse_rfc1123_spec(s) is Some { parse_rfc1123_spec(s) }
    else if parse_rfc850_spec(s) is Some { parse_rfc850_spec(s) }
    else { parse_asctime_spec(s) }
}

pub open spec fn pow10(k: int) -> int
    decreases k
{
    if k <= 0 { 1 } else { 10 * pow10(k - 1) }
}

proof fn lemma_digit_run_le(s: Seq<u8>, i: int, max: int)
    ensures
        0 <= digit_run(s, i, max) <= max || max < 0,
        i + digit_run(s, i, max) <= s.len() || i > s.len(),
    decreases max,
{
    if !(max <= 0 || i < 0 || i >= s.len() || !is_digit(s[i])) {
        lemma_digit_run_le(s, i + 1, max - 1);
    }
}

/// Every position below the digit run holds a digit.
proof fn lemma_digit_run_digit_at(s: Seq<u8>, i: int, max: int, t: int)
    requires
        0 <= t < digit_run(s, i, max),
    ensures
        is_digit(s[i + t]),
    decreases t,
{
    lemma_digit_run_le(s, i, max);
    if t > 0 {
        lemma_digit_run_digit_at(s, i + 1, max - 1, t - 1);
    }
}

fn scan_digits(v: &Vec<u8>, i: usize, max: usize) -> (k: usize)
    requires
        i <= v.len(),
        max <= 6,
    ensures
        k as int == digit_run(v@, i as int, max as int),
        i + k <= v.len(),
        k <= max,
{
    let mut k: usize = 0;
    while k < max && i + k < v.len() && 48 <= v[i + k] && v[i + k] <= 57
        invariant
            i <= v.len(),
            max <= 6,
            k <= max,
            i + k <= v.len(),
            digit_run(v@, i as int, max as int)
                == k + digit_run(v@, i as int + k, max as int - k),
        decreases max - k,
    {
        k = k + 1;
    }
    proof {
        lemma_digit_run_le(v@, i as int + k, max as int - k);
    }
    k
}

/// Greedy run of `min ..= max` digits as a number; `None` when fewer than
/// `min` digits are present.
fn parse_number(v: &Vec<u8>, i: usize, min: usize, max: usize) -> (r: Option<(u32, usize)>)
    requires
        i <= v.len(),
        1 <= min,
        max <= 6,
    ensures
        ({
            let sp = take_number(v@, i as int, min as int, max as int);
            match r {
                Some(p) => sp == Some((p.0 as int, p.1 as int)) && p.1 <= v.len()
                    && p.0 < 1000000 && (p.0 as int) < pow10(max as int),
                None => sp is None,
            }
        }),
{
    let k = scan_digits(v, i, max);
    if k < min {
        return None;
    }
    proof {
        reveal_with_fuel(pow10, 8);
        lemma_pow10_mono(k as int, 6);
        lemma_pow10_mono(k as int, max as int);
    }
    let ghost krun = digit_run(v@, i as int, max as int);
    let mut acc: u32 = 0;
    let mut j: usize = 0;
    while j < k
        invariant
            i + k <= v.len(),
            k <= 6,
            j <= k,
            k == krun,
            krun == digit_run(v@, i as int, max as int),
            acc as int == digits_val(v@, i as int, j as int),
            acc < pow10(j as int),
            pow10(k as int) <= 1000000,
        decreases k - j,
    {
        proof {
            assert(pow10(j as int + 1) <= pow10(k as int)) by {
                lemma_pow10_mono(j as int + 1, k as int);
            }
            lemma_digit_run_digit_at(v@, i as int, max as int, j as int);
        }
        acc = acc * 10 + (v[i + j] - 48) as u32;
        j = j + 1;
    }
    proof {
        lemma_pow10_mono(k as int, max as int);
    }
    Some((acc, i + k))
}

pub proof fn lemma_pow10_mono(a: int, b: int)
    requires
        0 <= a <= b,
    ensures
        pow10(a) <= pow10(b),
        1 <= pow10(a),
    decreases b,
{
    if a < b {
        lemma_pow10_mono(a, b - 1);
    } else if a > 0 {
        lemma_pow10_mono(a - 1, a - 1);
    }
}

/// Exactly two digits.
fn parse_two_digits(v: &Vec<u8>, i: usize) -> (r: Option<u8>)
    ensures
        ({
            let sp = take_two_digits(v@, i as int);
            match r {
                Some(n) => sp == Some(n as int),
                None => sp is None,
            }
        }),
{
    if i <= v.len() && v.len() - i >= 2 && 48 <= v[i] && v[i] <= 57 && 48 <= v[i + 1]
        && v[i + 1] <= 57 {
        Some((v[i] - 48) * 10 + (v[i + 1] - 48))
    } else {
        None
    }
}

fn name_matches(v: &Vec<u8>, i: usize, a: u8, b: u8, c: u8) -> (r: bool)
    ensures
        r == name_at(v@, i as int, seq![a, b, c]),
{
    i <= v.len() && v.len() - i >= 3 && v[i] == a && v[i + 1] == b && v[i + 2] == c
}

fn scan_weekday(v: &Vec<u8>, i: usize) -> (r: Option<u8>)
    ensures
        ({
            let sp = match_weekday(v@, i as int);
            match r {
                Some(w) => sp == Some(w as int),
                None => sp is None,
            }
        }),
{
    if name_matches(v, i, 77, 111, 110) { Some(0) }
    else if name_matches(v, i, 84, 117, 101) { Some(1) }
    else if name_matches(v, i, 87, 101, 100) { Some(2) }
    else if name_matches(v, i, 84, 104, 117) { Some(3) }
    else if name_matches(v, i, 70, 114, 105) { Some(4) }
    else if name_matches(v, i, 83, 97, 116) { Some(5) }
    else if name_matches(v, i, 83, 117, 110) { Some(6) }
    else { None }
}

fn scan_month(v: &Vec<u8>, i: usize) -> (r: Option<u8>)
    ensures
        ({
            let sp = match_month(v@, i as int);
            match r {
                Some(m) => sp == Some(m as int),
                None => sp is None,
            }
        }),
{
    if name_matches(v, i, 74, 97, 110) { Some(1) }
    else if name_matches(v, i, 70, 101, 98) { Some(2) }
    else if name_matches(v, i, 77, 97, 114) { Some(3) }
    else if name_matches(v, i, 65, 112, 114) { Some(4) }
    else if name_matches(v, i, 77, 97, 121) { Some(5) }
    else if name_matches(v, i, 74, 117, 110) { Some(6) }
    else if name_matches(v, i, 74, 117, 108) { Some(7) }
    else if name_matches(v, i, 65, 117, 103) { Some(8) }
    else if name_matches(v, i, 83, 101, 112) { Some(9) }
    else if name_matches(v, i, 79, 99, 116) { Some(10) }
    else if name_matches(v, i, 78, 111, 118) { Some(11) }
    else if name_matches(v, i, 68, 101, 99) { Some(12) }
    else { None }
}

proof fn lemma_zero_run_le(s: Seq<u8>, i: int, max: int)
    ensures
        0 <= zero_run(s, i, max) <= max || max < 0,
        i + zero_run(s, i, max) <= s.len() || i > s.len(),
    decreases max,
{
    if !(max <= 0 || i < 0 || i >= s.len() || s[i] != 48) {
        lemma_zero_run_le(s, i + 1, max - 1);
    }
}

fn scan_zeros(v: &Vec<u8>, i: usize, max: usize) -> (k: usize)
    requires
        i <= v.len(),
        max <= 3,
    ensures
        k as int == zero_run(v@, i as int, max as int),
        i + k <= v.len(),
        k <= max,
{
    let mut k: usize = 0;
    while k < max && i + k < v.len() && v[i + k] == 48
        invariant
            i <= v.len(),
            max <= 3,
            k <= max,
            i + k <= v.len(),
            zero_run(v@, i as int, max as int)
                == k + zero_run(v@, i as int + k, max as int - k),
        decreases max - k,
    {
        k = k + 1;
    }
    proof {
        lemma_zero_run_le(v@, i as int + k, max as int - k);
    }
    k
}

/// A year: optional sign, up to three zeros of padding, then one to four
/// digits (six after a sign).
fn parse_year(v: &Vec<u8>, i: usize) -> (r: Option<(i32, usize)>)
    requires
        i <= v.len(),
    ensures
        ({
            let sp = take_year(v@, i as int);
            match r {
                Some(p) => sp == Some((p.0 as int, p.1 as int)) && p.1 <= v.len(),
                None => sp is None,
            }
        }),
{
    let has_plus = i < v.len() && v[i] == 43;
    let has_minus = i < v.len() && v[i] == 45;
    let j = if has_plus || has_minus { i + 1 } else { i };
    let maxd: usize = if has_plus || has_minus { 6 } else { 4 };
    let z = scan_zeros(v, j, 3);
    match parse_number(v, j + z, 1, maxd) {
        None => None,
        Some((val, n)) => {
            let signed: i32 = val as i32;
            let y: i32 = if has_minus { -signed } else { signed };
            Some((y, n))
        }
    }
}

/// `H:MM:SS`.
fn parse_hms(v: &Vec<u8>, i: usize) -> (r: Option<(u8, u8, u8, usize)>)
    requires
        i <= v.len(),
    ensures
        ({
            let sp = take_hms(v@, i as int);
            match r {
                Some(p) => sp == Some((p.0 as int, p.1 as int, p.2 as int, p.3 as int))
                    && p.3 <= v.len(),
                None => sp is None,
            }
        }),
{
    match parse_number(v, i, 1, 2) {
        None => None,
        Some((h, j)) => {
            proof {
                reveal_with_fuel(pow10, 3);
            }
            if !(j < v.len() && v[j] == 58) { None }
            else {
                match parse_two_digits(v, j + 1) {
                    None => None,
                    Some(mi) => {
                        if !(j + 3 < v.len() && v[j + 3] == 58) { None }
                        else {
                            match parse_two_digits(v, j + 4) {
                                None => None,
                                Some(sec) => Some((h as u8, mi, sec, j + 6)),
                            }
                        }
                    }
                }
            }
        }
    }
}

/// Range-check the fields and build the date.
fn check_date(y: i32, m: u8, d: u8, h: u8, mi: u8, sec: u8) -> (r: Option<HttpDate>)
    ensures
        r == make_date(y as int, m as int, d as int, h as int, mi as int, sec as int),
{
    if -100000 <= y && y <= 100000 && 1 <= m && m <= 12 && 1 <= d
        && d <= days_in_month(y, m) && h <= 23 && mi <= 59 && sec <= 59 {
        Some(HttpDate { year: y, month: m, day: d, hour: h, minute: mi, second: sec })
    } else {
        None
    }
}

fn gmt_follows(v: &Vec<u8>, i: usize) -> (r: bool)
    ensures
        r == gmt_at(v@, i as int),
{
    i <= v.len() && v.len() - i >= 4 && v[i] == 32 && v[i + 1] == 71 && v[i + 2] == 77
        && v[i + 3] == 84
}

/// `Www, DD Mmm YYYY H:MM:SS GMT`.
pub fn parse_rfc1123(v: &Vec<u8>) -> (r: Option<HttpDate>)
    ensures
        r == parse_rfc1123_spec(v@),
{
    match scan_weekday(v, 0) {
        None => None,
        Some(_w) => {
            if !(5 <= v.len() && v[3] == 44 && v[4] == 32) { None }
            else {
                match parse_two_digits(v, 5) {
                    None => None,
                    Some(d) => {
                        if d == 0 { None }
                        else if !(7 < v.len() && v[7] == 32) { None }
                        else {
                            match scan_month(v, 8) {
                                None => None,
                                Some(m) => {
                                    if !(11 < v.len() && v[11] == 32) { None }
                                    else {
                                        match parse_year(v, 12) {
                                            None => None,
                                            Some((y, i)) => {
                                                if !(i < v.len() && v[i] == 32) { None }
                                                else {
                                                    match parse_hms(v, i + 1) {
                                                        None => None,
                                                        Some((h, mi, sec, j)) => {
                                                            if !gmt_follows(v, j) { None }
                                                            else { check_date(y, m, d, h, mi, sec) }
                                                        }
                                                    }
                                                }
                                            }
                                        }
                                    }
                                }
                            }
                        }
                    }
                }
            }
        }
    }
}

/// `Www, DD-MM-YY H:MM:SS GMT`; the two-digit year is taken literally.
pub fn parse_rfc850(v: &Vec<u8>) -> (r: Option<HttpDate>)
    ensures
        r == parse_rfc850_spec(v@),
{
    match scan_weekday(v, 0) {
        None => None,
        Some(_w) => {
            if !(5 <= v.len() && v[3] == 44 && v[4] == 32) { None }
            else {
                match parse_two_digits(v, 5) {
                    None => None,
                    Some(d) => {
                        if d == 0 { None }
                        else if !(7 < v.len() && v[7] == 45) { None }
                        else {
                            match parse_two_digits(v, 8) {
                                None => None,
                                Some(m) => {
                                    if m == 0 { None }
                                    else if !(10 < v.len() && v[10] == 45) { None }
                                    else {
                                        match parse_two_digits(v, 11) {
                                            None => None,
                                            Some(y) => {
                                                if !(13 < v.len() && v[13] == 32) { None }
                                                else {
                                                    match parse_hms(v, 14) {
                                                        None => None,
                                                        Some((h, mi, sec, j)) => {
                                                            if !gmt_follows(v, j) { None }
                                                            else {
                                                                check_date(y as i32, m, d, h, mi, sec)
                                                            }
                                                        }
                                                    }
                                                }
                                            }
                                        }
                                    }
                                }
                            }
                        }
                    }
                }
            }
        }
    }
}

/// `Www MM<TAB>DD H:MM:SS YYYY`.
pub fn parse_asctime(v: &Vec<u8>) -> (r: Option<HttpDate>)
    ensures
        r == parse_asctime_spec(v@),
{
    match scan_weekday(v, 0) {
        None => None,
        Some(_w) => {
            if !(4 <= v.len() && v[3] == 32) { None }
            else {
                match parse_two_digits(v, 4) {
                    None => None,
                    Some(m) => {
                        if m == 0 { None }
                        else if !(6 < v.len() && v[6] == 9) { None }
                        else {
                            match parse_two_digits(v, 7) {
                                None => None,
                                Some(d) => {
                                    if d == 0 { None }
                                    else if !(9 < v.len() && v[9] == 32) { None }
                                    else {
                                        match parse_hms(v, 10) {
                                            None => None,
                                            Some((h, mi, sec, j)) => {
                                                if !(j < v.len() && v[j] == 32) { None }
                                                else {
                                                    match parse_year(v, j + 1) {
                                                        None => None,
                                                        Some((y, _n)) => {
                                                            check_date(y, m, d, h, mi, sec)
                                                        }
                                                    }
                                                }
                                            }
                                        }
                                    }
                                }
                            }
                        }
                    }
                }
            }
        }
    }
}

/// Try the three grammars in order; all failures collapse to `None`.
pub fn parse_http_date(v: &Vec<u8>) -> (r: Option<HttpDate>)
    ensures
        r == parse_http_date_spec(v@),
{
    match parse_rfc1123(v) {
        Some(d) => Some(d),
        None => match parse_rfc850(v) {
            Some(d) => Some(d),
            None => parse_asctime(v),
        },
    }
}

} // verus!

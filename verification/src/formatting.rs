//! Rendering an `HttpDate` in the RFC 1123 style shape, `Www, DD Mmm YYYY
//! H:MM:SS GMT`.
//!
//! The shape mirrors what this pipeline has always emitted: the day,
//! minute and second are zero-padded to two digits, the hour is written
//! without padding, the year is zero-padded to four digits and carries a
//! `+` from 10000 on, and the weekday is derived from the date.

use vstd::prelude::*;
use crate::dates::{HttpDate, date_valid, epoch_days_of};
use crate::parsing::{weekday_abbr, month_abbr, pow10, lemma_pow10_mono};

verus! {

/// Decimal digits of `n`, most significant first, without padding.
pub open spec fn dec_digits(n: int) -> Seq<u8>
    decreases n
{
    if n < 10 { seq![(48 + n) as u8] } else { dec_digits(n / 10) + seq![(48 + n % 10) as u8] }
}

pub open spec fn zeros_seq(k: int) -> Seq<u8> {
    Seq::new((if k <= 0 { 0 } else { k }) as nat, |i: int| 48u8)
}

/// `n` zero-padded on the left to at least `w` bytes.
pub open spec fn padded_decimal(n: int, w: int) -> Seq<u8> {
    zeros_seq(w - dec_digits(n).len()) + dec_digits(n)
}

/// A year as written: four digits with zero padding; a leading `+` from
/// 10000 on; a minus sign ahead of three-digit padding for negatives.
pub open spec fn year_bytes(y: int) -> Seq<u8> {
    if y >= 10000 { seq![43u8] + padded_decimal(y, 4) }
    else if y >= 0 { padded_decimal(y, 4) }
    else { seq![45u8] + padded_decimal(-y, 3) }
}

pub open spec fn two_digit_bytes(n: int) -> Seq<u8> {
    seq![(48 + n / 10) as u8, (48 + n % 10) as u8]
}

/// Days from Monday of the date's weekday; day zero of the epoch was a
/// Thursday.
pub open spec fn weekday_index_of(d: HttpDate) -> int {
    (epoch_days_of(d) % 7 + 3) % 7
}

pub open spec fn format_http_date_spec(d: HttpDate) -> Seq<u8> {
    weekday_abbr(weekday_index_of(d)) + seq![44u8, 32u8]
        + two_digit_bytes(d.day as int) + seq![32u8]
        + month_abbr(d.month as int) + seq![32u8]
        + year_bytes(d.year as int) + seq![32u8]
        + dec_digits(d.hour as int) + seq![58u8]
        + two_digit_bytes(d.minute as int) + seq![58u8]
        + two_digit_bytes(d.second as int)
        + seq![32u8, 71u8, 77u8, 84u8]
}

fn push_decimal(v: &mut Vec<u8>, n: u32)
    ensures
        final(v)@ == old(v)@ + dec_digits(n as int),
    decreases n,
{
    if n < 10 {
        v.push(48 + n as u8);
        proof {
            assert(v@ =~= old(v)@ + dec_digits(n as int));
        }
    } else {
        push_decimal(v, n / 10);
        v.push(48 + (n % 10) as u8);
        proof {
            assert(v@ =~= old(v)@ + dec_digits(n as int));
        }
    }
}

fn decimal_len(n: u32) -> (r: usize)
    ensures
        r == dec_digits(n as int).len(),
        1 <= r,
        (n as int) < pow10(r as int),
        n >= 1 ==> pow10(r as int - 1) <= n as int,
    decreases n,
{
    if n < 10 {
        proof {
            reveal_with_fuel(pow10, 2);
        }
        1
    } else {
        let rr = decimal_len(n / 10);
        proof {
            reveal_with_fuel(pow10, 11);
            if rr as int - 1 >= 10 {
                lemma_pow10_mono(10, rr as int - 1);
            }
        }
        1 + rr
    }
}

fn push_padded(v: &mut Vec<u8>, n: u32, w: usize)
    requires
        w <= 4,
        n <= 100000,
    ensures
        final(v)@ == old(v)@ + padded_decimal(n as int, w as int),
{
    let len = decimal_len(n);
    proof {
        reveal_with_fuel(pow10, 8);
        if len as int - 1 >= 6 {
            lemma_pow10_mono(6, len as int - 1);
        }
    }
    let total: usize = if w > len { w - len } else { 0 };
    let mut k: usize = 0;
    while k < total
        invariant
            total <= 4,
            k <= total,
            v@ == old(v)@ + zeros_seq(k as int),
        decreases total - k,
    {
        v.push(48);
        k = k + 1;
        proof {
            assert(v@ =~= old(v)@ + zeros_seq(k as int));
        }
    }
    push_decimal(v, n);
    proof {
        assert(v@ =~= old(v)@ + padded_decimal(n as int, w as int));
    }
}

fn push_year(v: &mut Vec<u8>, y: i32)
    requires
        -100000 <= y <= 100000,
    ensures
        final(v)@ == old(v)@ + year_bytes(y as int),
{
    if y >= 10000 {
        v.push(43);
        push_padded(v, y as u32, 4);
    } else if y >= 0 {
        push_padded(v, y as u32, 4);
    } else {
        v.push(45);
        push_padded(v, (-y) as u32, 3);
    }
    proof {
        assert(v@ =~= old(v)@ + year_bytes(y as int));
    }
}

fn push_two_digits(v: &mut Vec<u8>, n: u8)
    requires
        n < 100,
    ensures
        final(v)@ == old(v)@ + two_digit_bytes(n as int),
{
    v.push(48 + n / 10);
    v.push(48 + n % 10);
    proof {
        assert(v@ =~= old(v)@ + two_digit_bytes(n as int));
    }
}

/// Days from Monday, computed through the epoch-day count.
pub fn weekday_index(d: &HttpDate) -> (r: u8)
    requires
        date_valid(*d),
    ensures
        r as int == weekday_index_of(*d),
        r < 7,
{
    let ed = d.epoch_days();
    let shifted = ed + 70000000;
    proof {
        vstd::arithmetic::div_mod::lemma_mod_multiples_vanish(10000000, ed as int, 7);
    }
    (((shifted % 7) + 3) % 7) as u8
}

fn push_weekday(v: &mut Vec<u8>, w: u8)
    requires
        w < 7,
    ensures
        final(v)@ == old(v)@ + weekday_abbr(w as int),
{
    if w == 0 { v.push(77); v.push(111); v.push(110); }
    else if w == 1 { v.push(84); v.push(117); v.push(101); }
    else if w == 2 { v.push(87); v.push(101); v.push(100); }
    else if w == 3 { v.push(84); v.push(104); v.push(117); }
    else if w == 4 { v.push(70); v.push(114); v.push(105); }
    else if w == 5 { v.push(83); v.push(97); v.push(116); }
    else { v.push(83); v.push(117); v.push(110); }
    proof {
        assert(v@ =~= old(v)@ + weekday_abbr(w as int));
    }
}

fn push_month(v: &mut Vec<u8>, m: u8)
    requires
        1 <= m <= 12,
    ensures
        final(v)@ == old(v)@ + month_abbr(m as int),
{
    if m == 1 { v.push(74); v.push(97); v.push(110); }
    else if m == 2 { v.push(70); v.push(101); v.push(98); }
    else if m == 3 { v.push(77); v.push(97); v.push(114); }
    else if m == 4 { v.push(65); v.push(112); v.push(114); }
    else if m == 5 { v.push(77); v.push(97); v.push(121); }
    else if m == 6 { v.push(74); v.push(117); v.push(110); }
    else if m == 7 { v.push(74); v.push(117); v.push(108); }
    else if m == 8 { v.push(65); v.push(117); v.push(103); }
    else if m == 9 { v.push(83); v.push(101); v.push(112); }
    else if m == 10 { v.push(79); v.push(99); v.push(116); }
    else if m == 11 { v.push(78); v.push(111); v.push(118); }
    else { v.push(68); v.push(101); v.push(99); }
    proof {
        assert(v@ =~= old(v)@ + month_abbr(m as int));
    }
}

/// Render the date in the RFC 1123 style shape.
pub fn format_http_date(d: &HttpDate) -> (v: Vec<u8>)
    requires
        date_valid(*d),
    ensures
        v@ == format_http_date_spec(*d),
{
    let mut v: Vec<u8> = Vec::new();
    let w = weekday_index(d);
    push_weekday(&mut v, w);
    v.push(44);
    v.push(32);
    push_two_digits(&mut v, d.day);
    v.push(32);
    push_month(&mut v, d.month);
    v.push(32);
    push_year(&mut v, d.year);
    v.push(32);
    push_decimal(&mut v, d.hour as u32);
    v.push(58);
    push_two_digits(&mut v, d.minute);
    v.push(58);
    push_two_digits(&mut v, d.second);
    v.push(32);
    v.push(71);
    v.push(77);
    v.push(84);
    proof {
        assert(v@ =~= format_http_date_spec(*d));
    }
    v
}

} // verus!

//! Human-readable rendering of byte counts and elapsed seconds.

use vstd::arithmetic::div_mod::lemma_mod_mod;
use vstd::prelude::*;
use vstd::string::*;

verus! {

/// The character that stands for one decimal digit.
pub open spec fn digit_char(d: nat) -> char {
    if d == 0 {
        '0'
    } else if d == 1 {
        '1'
    } else if d == 2 {
        '2'
    } else if d == 3 {
        '3'
    } else if d == 4 {
        '4'
    } else if d == 5 {
        '5'
    } else if d == 6 {
        '6'
    } else if d == 7 {
        '7'
    } else if d == 8 {
        '8'
    } else {
        '9'
    }
}

/// The decimal numeral of `n`, without sign or leading zeros.
pub open spec fn decimal(n: nat) -> Seq<char>
    decreases n,
{
    if n < 10 {
        seq![digit_char(n)]
    } else {
        decimal(n / 10).push(digit_char(n % 10))
    }
}

/// The decimal numeral of `n`, padded with a zero to at least two digits.
pub open spec fn two_digits(n: nat) -> Seq<char> {
    if n < 10 {
        seq!['0'] + decimal(n)
    } else {
        decimal(n)
    }
}

/// The number that a sequence of decimal digits denotes.
pub open spec fn decimal_value(s: Seq<char>) -> nat
    decreases s.len(),
{
    if s.len() == 0 {
        0
    } else {
        10 * decimal_value(s.drop_last()) + digit_value(s.last())
    }
}

/// The value of one digit character (0 for any other character).
pub open spec fn digit_value(c: char) -> nat {
    if c == '1' {
        1
    } else if c == '2' {
        2
    } else if c == '3' {
        3
    } else if c == '4' {
        4
    } else if c == '5' {
        5
    } else if c == '6' {
        6
    } else if c == '7' {
        7
    } else if c == '8' {
        8
    } else if c == '9' {
        9
    } else {
        0
    }
}

/// Whether `c` is one of the ten decimal digits.
pub open spec fn is_digit(c: char) -> bool {
    c == '0' || c == '1' || c == '2' || c == '3' || c == '4' || c == '5' || c == '6' || c == '7'
        || c == '8' || c == '9'
}

/// A decimal numeral is never empty, holds digits only, and denotes the
/// number it was made from.
pub proof fn lemma_decimal_round_trip(n: nat)
    ensures
        decimal(n).len() >= 1,
        forall|i: int| 0 <= i < decimal(n).len() ==> is_digit(#[trigger] decimal(n)[i]),
        decimal_value(decimal(n)) == n,
    decreases n,
{
    if n < 10 {
        let s = decimal(n);
        assert(s.drop_last().len() == 0);
        assert(decimal_value(s.drop_last()) == 0);
        assert(s.last() == digit_char(n));
    } else {
        lemma_decimal_round_trip(n / 10);
        let s = decimal(n);
        assert(s.drop_last() =~= decimal(n / 10));
        assert(s.last() == digit_char(n % 10));
        assert forall|i: int| 0 <= i < s.len() implies is_digit(#[trigger] s[i]) by {
            if i < s.len() - 1 {
                assert(s[i] == decimal(n / 10)[i]);
            }
        }
    }
}

/// The text of an elapsed time: days, hours, minutes and seconds of the
/// standard breakdown, each padded to two digits.
pub open spec fn run_time_text(secs: nat) -> Seq<char> {
    two_digits(secs / 86400) + " day(s) "@ + two_digits((secs % 86400) / 3600) + " hr(s) "@
        + two_digits((secs % 3600) / 60) + " min(s) "@ + two_digits(secs % 60) + " sec(s)"@
}

/// How many times a byte count is divided by 1024 before it is rendered:
/// until it is below 1024, and six times at most.
pub open spec fn unit_index(bytes: nat) -> nat {
    if bytes < 1024 {
        0
    } else if bytes < 1048576 {
        1
    } else if bytes < 1073741824 {
        2
    } else if bytes < 1099511627776 {
        3
    } else if bytes < 1125899906842624 {
        4
    } else if bytes < 1152921504606846976 {
        5
    } else {
        6
    }
}

/// 1024 to the power `k`.
pub open spec fn unit_divisor(k: nat) -> nat
    decreases k,
{
    if k == 0 {
        1
    } else {
        1024 * unit_divisor((k - 1) as nat)
    }
}

/// The name of the unit with index `k`.
pub open spec fn unit_name(k: nat) -> Seq<char> {
    if k == 0 {
        "B"@
    } else if k == 1 {
        "KB"@
    } else if k == 2 {
        "MB"@
    } else if k == 3 {
        "GB"@
    } else if k == 4 {
        "TB"@
    } else if k == 5 {
        "PB"@
    } else {
        "EB"@
    }
}

/// `bytes / divisor` in tenths, rounded to the nearest tenth; a value that
/// lies exactly between two tenths goes to the even one.
pub open spec fn rounded_tenths(bytes: nat, divisor: nat) -> nat
    recommends
        divisor > 0,
{
    let q = (10 * bytes) / divisor;
    let r = (10 * bytes) % divisor;
    if 2 * r > divisor || (2 * r == divisor && q % 2 == 1) {
        q + 1
    } else {
        q
    }
}

/// The text of a byte count: the count in its unit, without decimals where
/// the division is exact and with one decimal otherwise, a space, the unit.
pub open spec fn byte_size_text(bytes: nat) -> Seq<char> {
    let k = unit_index(bytes);
    let d = unit_divisor(k);
    if bytes % d == 0 {
        decimal(bytes / d) + " "@ + unit_name(k)
    } else {
        let t = rounded_tenths(bytes, d);
        decimal(t / 10) + "."@ + decimal(t % 10) + " "@ + unit_name(k)
    }
}

fn digit_text(d: u8) -> (r: &'static str)
    requires
        d < 10,
    ensures
        r@ == seq![digit_char(d as nat)],
{
    proof {
        reveal_strlit("0");
        reveal_strlit("1");
        reveal_strlit("2");
        reveal_strlit("3");
        reveal_strlit("4");
        reveal_strlit("5");
        reveal_strlit("6");
        reveal_strlit("7");
        reveal_strlit("8");
        reveal_strlit("9");
    }
    let r = if d == 0 {
        "0"
    } else if d == 1 {
        "1"
    } else if d == 2 {
        "2"
    } else if d == 3 {
        "3"
    } else if d == 4 {
        "4"
    } else if d == 5 {
        "5"
    } else if d == 6 {
        "6"
    } else if d == 7 {
        "7"
    } else if d == 8 {
        "8"
    } else {
        "9"
    };
    assert(r@ =~= seq![digit_char(d as nat)]);
    r
}

/// Appends the decimal numeral of `n` to `out`.
pub fn push_decimal(out: &mut String, n: u128)
    ensures
        final(out)@ == old(out)@ + decimal(n as nat),
    decreases n,
{
    if n >= 10 {
        push_decimal(out, n / 10);
    }
    let d: u8 = (n % 10) as u8;
    out.append(digit_text(d));
    proof {
        if n >= 10 {
            assert(final(out)@ =~= old(out)@ + decimal(n as nat));
        }
    }
}

/// Appends the numeral of `n`, padded to two digits, to `out`.
pub fn push_two_digits(out: &mut String, n: u64)
    ensures
        final(out)@ == old(out)@ + two_digits(n as nat),
{
    if n < 10 {
        out.append("0");
        proof {
            reveal_strlit("0");
        }
    }
    push_decimal(out, n as u128);
    proof {
        assert(final(out)@ =~= old(out)@ + two_digits(n as nat));
    }
}

/// The decimal numeral of `n` as a string.
pub fn decimal_string(n: u64) -> (r: String)
    ensures
        r@ == decimal(n as nat),
{
    let mut out = String::new();
    push_decimal(&mut out, n as u128);
    assert(out@ =~= decimal(n as nat));
    out
}

/// Renders a run time given in seconds.
pub fn format_run_time(secs: u64) -> (r: String)
    ensures
        r@ == run_time_text(secs as nat),
{
    let days: u64 = secs / 86400;
    let hours: u64 = (secs % 86400) / 3600;
    let minutes: u64 = (secs % 3600) / 60;
    let seconds: u64 = secs % 60;
    let mut out = String::new();
    push_two_digits(&mut out, days);
    out.append(" day(s) ");
    push_two_digits(&mut out, hours);
    out.append(" hr(s) ");
    push_two_digits(&mut out, minutes);
    out.append(" min(s) ");
    push_two_digits(&mut out, seconds);
    out.append(" sec(s)");
    assert(out@ =~= run_time_text(secs as nat));
    out
}

fn unit_text(k: u8) -> (r: &'static str)
    requires
        k <= 6,
    ensures
        r@ == unit_name(k as nat),
{
    if k == 0 {
        "B"
    } else if k == 1 {
        "KB"
    } else if k == 2 {
        "MB"
    } else if k == 3 {
        "GB"
    } else if k == 4 {
        "TB"
    } else if k == 5 {
        "PB"
    } else {
        "EB"
    }
}

/// The unit in which a byte count is rendered, with its divisor.
pub fn select_unit(bytes: u64) -> (r: (u8, u64))
    ensures
        r.0 as nat == unit_index(bytes as nat),
        r.1 as nat == unit_divisor(r.0 as nat),
        r.0 <= 6,
        r.1 >= 1,
        r.0 >= 1 ==> r.1 >= 1024,
{
    reveal_with_fuel(unit_divisor, 8);
    if bytes < 1024 {
        (0, 1)
    } else if bytes < 1048576 {
        (1, 1024)
    } else if bytes < 1073741824 {
        (2, 1048576)
    } else if bytes < 1099511627776 {
        (3, 1073741824)
    } else if bytes < 1125899906842624 {
        (4, 1099511627776)
    } else if bytes < 1152921504606846976 {
        (5, 1125899906842624)
    } else {
        (6, 1152921504606846976)
    }
}

/// Renders a byte count in the largest unit, up to EB, in which it is at
/// least one.
pub fn format_bytes(bytes: u64) -> (r: String)
    ensures
        r@ == byte_size_text(bytes as nat),
{
    let (k, d) = select_unit(bytes);
    let mut out = String::new();
    if bytes % d == 0 {
        push_decimal(&mut out, (bytes / d) as u128);
        out.append(" ");
        out.append(unit_text(k));
        assert(out@ =~= byte_size_text(bytes as nat));
    } else {
        let scaled: u128 = 10 * (bytes as u128);
        let q: u128 = scaled / (d as u128);
        let r: u128 = scaled % (d as u128);
        let t: u128 = if 2 * r > d as u128 || (2 * r == d as u128 && q % 2 == 1) {
            q + 1
        } else {
            q
        };
        assert(t as nat == rounded_tenths(bytes as nat, d as nat));
        push_decimal(&mut out, t / 10);
        out.append(".");
        push_decimal(&mut out, t % 10);
        out.append(" ");
        out.append(unit_text(k));
        assert(out@ =~= byte_size_text(bytes as nat));
    }
    out
}

/// Renders the resident memory of a process; the same text as
/// [`format_bytes`].
pub fn format_memory(bytes: u64) -> (r: String)
    ensures
        r@ == byte_size_text(bytes as nat),
{
    format_bytes(bytes)
}

/// A count below 1024 is rendered as itself, in bytes.
pub proof fn lemma_small_counts_in_bytes(n: nat)
    requires
        n < 1024,
    ensures
        byte_size_text(n) == decimal(n) + " B"@,
{
    reveal_strlit(" ");
    reveal_strlit("B");
    reveal_strlit(" B");
    assert(unit_divisor(0) == 1);
    assert(byte_size_text(n) =~= decimal(n) + " B"@);
}

/// The unit never goes down as the count grows.
pub proof fn lemma_unit_monotonic(a: nat, b: nat)
    requires
        a <= b,
    ensures
        unit_index(a) <= unit_index(b),
{
}

/// The divisor of a unit is what `unit_index` divisions by 1024 amount to:
/// outside the last unit, the count divided by it is below 1024, and outside
/// the first it is at least one.
pub proof fn lemma_unit_bounds(bytes: nat)
    ensures
        unit_index(bytes) <= 6,
        unit_index(bytes) < 6 ==> bytes < 1024 * unit_divisor(unit_index(bytes)),
        unit_index(bytes) > 0 ==> bytes >= unit_divisor(unit_index(bytes)),
{
    reveal_with_fuel(unit_divisor, 8);
}

/// The minutes of a run time are those that are left of the hour: the
/// remainder by hours of the whole and of the day's remainder agree, and
/// the four fields add up to the whole.
pub proof fn lemma_minutes_of_the_hour(secs: nat)
    ensures
        (secs % 3600) / 60 == ((secs % 86400) % 3600) / 60,
        (secs % 3600) / 60 < 60,
        (secs % 86400) / 3600 < 24,
        secs % 60 == (secs % 3600) % 60,
        secs == 86400 * (secs / 86400) + 3600 * ((secs % 86400) / 3600) + 60 * ((secs % 3600)
            / 60) + secs % 60,
{
    let x = secs as int;
    assert((x % 86400) % 3600 == x % 3600) by {
        lemma_mod_mod(x, 3600, 24);
        assert(3600 * 24 == 86400);
    }
    assert((x % 3600) % 60 == x % 60) by {
        lemma_mod_mod(x, 60, 60);
        assert(60 * 60 == 3600);
    }
    let day_rest = x % 86400;
    let hour_rest = x % 3600;
    assert(x == 86400 * (x / 86400) + day_rest);
    assert(day_rest == 3600 * (day_rest / 3600) + day_rest % 3600);
    assert(hour_rest == 60 * (hour_rest / 60) + hour_rest % 60);
}

} // verus!

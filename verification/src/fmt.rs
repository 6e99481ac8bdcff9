//! Deterministic string formatting for durations and distances.
//!
//! Strings are built character by character from verified decimal printers,
//! so that each formatting function can promise the exact character sequence
//! it returns.  Distances switch from meters to kilometers at 1000 m, and
//! durations switch from M:SS to H:MM:SS at one hour.

use vstd::prelude::*;
use vstd::string::StringExecFns;

verus! {

/// The decimal digit character for `d` in `0 ..= 9`.
pub open spec fn spec_digit(d: int) -> char {
    if d == 0 {
        '0'
    } else if d == 1 {
        '1'
    } else if d == 2 {
        '2'
    } else if d == 3 {
        '3'
    } else if d == 4 {
        '4'
    } else if d == 5 {
        '5'
    } else if d == 6 {
        '6'
    } else if d == 7 {
        '7'
    } else if d == 8 {
        '8'
    } else {
        '9'
    }
}

/// The decimal representation of a nonnegative number, without leading
/// zeros (a single zero for 0).
pub open spec fn spec_dec(n: int) -> Seq<char>
    decreases n,
{
    if n < 10 {
        seq![spec_digit(n)]
    } else {
        spec_dec(n / 10).push(spec_digit(n % 10))
    }
}

/// The decimal representation padded to at least two digits.
pub open spec fn spec_dec2(n: int) -> Seq<char> {
    if n < 10 {
        seq!['0'].add(spec_dec(n))
    } else {
        spec_dec(n)
    }
}

/// Appends one decimal digit character.
fn push_digit(s: &mut String, d: u64)
    requires
        d <= 9,
    ensures
        final(s)@ == old(s)@ + seq![spec_digit(d as int)],
{
    proof {
        reveal_strlit("0");
        reveal_strlit("1");
        reveal_strlit("2");
        reveal_strlit("3");
        reveal_strlit("4");
        reveal_strlit("5");
        reveal_strlit("6");
        reveal_strlit("7");
        reveal_strlit("8");
        reveal_strlit("9");
    }
    let lit: &str = if d == 0 {
        "0"
    } else if d == 1 {
        "1"
    } else if d == 2 {
        "2"
    } else if d == 3 {
        "3"
    } else if d == 4 {
        "4"
    } else if d == 5 {
        "5"
    } else if d == 6 {
        "6"
    } else if d == 7 {
        "7"
    } else if d == 8 {
        "8"
    } else {
        "9"
    };
    assert(lit@ =~= seq![spec_digit(d as int)]);
    s.append(lit);
}

/// Appends the decimal representation of `n`.
pub fn push_u64(s: &mut String, n: u64)
    ensures
        final(s)@ == old(s)@ + spec_dec(n as int),
    decreases n,
{
    if n >= 10 {
        push_u64(s, n / 10);
        push_digit(s, n % 10);
        assert(final(s)@ =~= old(s)@ + spec_dec(n as int));
    } else {
        push_digit(s, n);
        assert(final(s)@ =~= old(s)@ + spec_dec(n as int));
    }
}

/// Appends the decimal representation of `n`, zero-padded to two digits.
pub fn push_u64_pad2(s: &mut String, n: u64)
    ensures
        final(s)@ == old(s)@ + spec_dec2(n as int),
{
    if n < 10 {
        push_digit(s, 0);
        push_u64(s, n);
        assert(final(s)@ =~= old(s)@ + spec_dec2(n as int)) by {
            reveal_strlit("0");
        }
    } else {
        push_u64(s, n);
    }
}

/// `format_duration(ms)`: `H:MM:SS` from one hour upward, `M:SS` below.
pub open spec fn spec_format_duration(ms: int) -> Seq<char> {
    let total = ms / 1000;
    let hours = total / 3600;
    let minutes = (total % 3600) / 60;
    let seconds = total % 60;
    if hours > 0 {
        spec_dec(hours) + seq![':'] + spec_dec2(minutes) + seq![':'] + spec_dec2(seconds)
    } else {
        spec_dec(minutes) + seq![':'] + spec_dec2(seconds)
    }
}

/// Renders a duration in milliseconds as `H:MM:SS` once it reaches an hour,
/// and as `M:SS` below that.
pub fn format_duration(duration_ms: u64) -> (r: String)
    ensures
        r@ == spec_format_duration(duration_ms as int),
{
    proof {
        reveal_strlit(":");
    }
    let total: u64 = duration_ms / 1000;
    let hours: u64 = total / 3600;
    let minutes: u64 = (total % 3600) / 60;
    let seconds: u64 = total % 60;
    let mut s = String::new();
    if hours > 0 {
        push_u64(&mut s, hours);
        s.append(":");
        push_u64_pad2(&mut s, minutes);
        s.append(":");
        push_u64_pad2(&mut s, seconds);
    } else {
        push_u64(&mut s, minutes);
        s.append(":");
        push_u64_pad2(&mut s, seconds);
    }
    assert(s@ =~= spec_format_duration(duration_ms as int));
    s
}

/// `format_distance_km(m)`: whole meters below 1000 m, kilometers with two
/// decimals (rounded to the nearest hundredth) from there on.
pub open spec fn spec_format_distance_km(m: int) -> Seq<char> {
    if m < 1000 {
        spec_dec(m) + seq![' ', 'm']
    } else {
        let centi = (m + 5) / 10;
        spec_dec(centi / 100) + seq!['.'] + spec_dec2(centi % 100) + seq![' ', 'k', 'm']
    }
}

/// Renders a distance in meters as `N m` below one kilometer and as
/// `K.HH km` above.
pub fn format_distance_km(distance_m: u64) -> (r: String)
    requires
        distance_m < 100_000_000_000,
    ensures
        r@ == spec_format_distance_km(distance_m as int),
{
    proof {
        reveal_strlit(" m");
        reveal_strlit(" km");
        reveal_strlit(".");
    }
    let mut s = String::new();
    if distance_m < 1000 {
        push_u64(&mut s, distance_m);
        s.append(" m");
    } else {
        let centi: u64 = (distance_m + 5) / 10;
        push_u64(&mut s, centi / 100);
        s.append(".");
        push_u64_pad2(&mut s, centi % 100);
        s.append(" km");
    }
    assert(s@ =~= spec_format_distance_km(distance_m as int));
    s
}

/// `format_distance_miles(m)`: whole feet below a tenth of a mile, miles
/// with two decimals from there on.  One mile is 1609.344 m, one meter
/// 3.28084 ft; both conversions round to the printed unit.
pub open spec fn spec_format_distance_miles(m: int) -> Seq<char> {
    if m * 10_000 < 1_609_344 {
        spec_dec((m * 328_084 + 50_000) / 100_000) + seq![' ', 'f', 't']
    } else {
        let centi = (m * 100_000 + 804_672) / 1_609_344;
        spec_dec(centi / 100) + seq!['.'] + spec_dec2(centi % 100) + seq![' ', 'm', 'i']
    }
}

/// Renders a distance in meters as `N ft` below a tenth of a mile and as
/// `M.HH mi` above.
pub fn format_distance_miles(distance_m: u64) -> (r: String)
    requires
        distance_m < 100_000_000_000,
    ensures
        r@ == spec_format_distance_miles(distance_m as int),
{
    proof {
        reveal_strlit(" ft");
        reveal_strlit(" mi");
        reveal_strlit(".");
    }
    let mut s = String::new();
    if distance_m * 10_000 < 1_609_344 {
        push_u64(&mut s, (distance_m * 328_084 + 50_000) / 100_000);
        s.append(" ft");
    } else {
        let centi: u64 = (distance_m * 100_000 + 804_672) / 1_609_344;
        push_u64(&mut s, centi / 100);
        s.append(".");
        push_u64_pad2(&mut s, centi % 100);
        s.append(" mi");
    }
    assert(s@ =~= spec_format_distance_miles(distance_m as int));
    s
}

} // verus!

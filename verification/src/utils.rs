pub mod charsets;

use vstd::prelude::*;
use vstd::string::StrSliceExecFns;
use vstd::string::StringExecFns;

verus! {

/// Append one character to a string.
///
/// Relies on `String::push`: it appends exactly the given character.
#[verifier::external_body]
pub(crate) fn push_char(s: &mut String, c: char)
    ensures
        final(s)@ == old(s)@.push(c),
{
    s.push(c)
}

/// The decimal digit character for a value below ten.
pub open spec fn spec_digit_char(d: int) -> char {
    if d == 0 {
        '0'
    } else if d == 1 {
        '1'
    } else if d == 2 {
        '2'
    } else if d == 3 {
        '3'
    } else if d == 4 {
        '4'
    } else if d == 5 {
        '5'
    } else if d == 6 {
        '6'
    } else if d == 7 {
        '7'
    } else if d == 8 {
        '8'
    } else {
        '9'
    }
}

/// The decimal rendering of a number, most significant digit first, with no
/// leading zeros (zero itself renders as one digit).
pub open spec fn spec_decimal(n: nat) -> Seq<char>
    decreases n,
{
    if n < 10 {
        seq![spec_digit_char(n as int)]
    } else {
        spec_decimal(n / 10) + seq![spec_digit_char((n % 10) as int)]
    }
}

/// Digits regrouped with a comma before every block of three, from the right.
pub open spec fn spec_grouped(s: Seq<char>) -> Seq<char>
    decreases s.len(),
{
    if s.len() <= 3 {
        s
    } else {
        spec_grouped(s.take(s.len() - 3)) + seq![','] + s.skip(s.len() - 3)
    }
}

/// The rendering `format_duration` produces: hours, minutes and seconds,
/// dropping the leading parts that are zero.
pub open spec fn spec_duration(total_seconds: u64) -> Seq<char> {
    let hours = total_seconds / 3600;
    let minutes = (total_seconds % 3600) / 60;
    let seconds = total_seconds % 60;
    if hours > 0 {
        spec_decimal(hours as nat) + "h "@ + spec_decimal(minutes as nat) + "m "@ + spec_decimal(
            seconds as nat,
        ) + "s"@
    } else if minutes > 0 {
        spec_decimal(minutes as nat) + "m "@ + spec_decimal(seconds as nat) + "s"@
    } else {
        spec_decimal(seconds as nat) + "s"@
    }
}

/// The decimal digit character of a value below ten.
fn digit_char(d: u64) -> (r: char)
    requires
        d < 10,
    ensures
        r == spec_digit_char(d as int),
{
    match d {
        0 => '0',
        1 => '1',
        2 => '2',
        3 => '3',
        4 => '4',
        5 => '5',
        6 => '6',
        7 => '7',
        8 => '8',
        _ => '9',
    }
}

/// Render a number in decimal.
fn decimal_string(n: u64) -> (r: String)
    ensures
        r@ == spec_decimal(n as nat),
    decreases n,
{
    if n < 10 {
        let mut s = String::new();
        push_char(&mut s, digit_char(n));
        proof {
            assert(s@ =~= spec_decimal(n as nat));
        }
        s
    } else {
        let mut s = decimal_string(n / 10);
        push_char(&mut s, digit_char(n % 10));
        proof {
            assert(s@ =~= spec_decimal(n as nat));
        }
        s
    }
}

/// Regroup a digit string with a comma before every block of three digits,
/// counted from the right.
fn group_digits(s: &str) -> (r: String)
    ensures
        r@ == spec_grouped(s@),
    decreases s@.len(),
{
    let len = s.unicode_len();
    if len <= 3 {
        return s.to_owned();
    }
    let head = s.substring_char(0, len - 3);
    let tail = s.substring_char(len - 3, len);
    let mut g = group_digits(head);
    push_char(&mut g, ',');
    g.append(tail);
    proof {
        assert(head@ =~= s@.take(s@.len() - 3));
        assert(tail@ =~= s@.skip(s@.len() - 3));
        assert(g@ =~= spec_grouped(s@));
    }
    g
}

/// Format a number with thousands separators.
pub fn format_number(n: u64) -> (r: String)
    ensures
        r@ == spec_grouped(spec_decimal(n as nat)),
{
    let digits = decimal_string(n);
    group_digits(digits.as_str())
}

/// Format a second count as hours, minutes and seconds, dropping the leading
/// parts that are zero.
pub fn format_duration(total_seconds: u64) -> (r: String)
    ensures
        r@ == spec_duration(total_seconds),
{
    let hours = total_seconds / 3600;
    let minutes = (total_seconds % 3600) / 60;
    let seconds = total_seconds % 60;
    if hours > 0 {
        let mut s = decimal_string(hours);
        s.append("h ");
        let m = decimal_string(minutes);
        s.append(m.as_str());
        s.append("m ");
        let sec = decimal_string(seconds);
        s.append(sec.as_str());
        s.append("s");
        s
    } else if minutes > 0 {
        let mut s = decimal_string(minutes);
        s.append("m ");
        let sec = decimal_string(seconds);
        s.append(sec.as_str());
        s.append("s");
        s
    } else {
        let mut s = decimal_string(seconds);
        s.append("s");
        s
    }
}

} // verus!

use vstd::prelude::*;
use vstd::string::StringExecFns;

verus! {

/// The decimal digits.
pub const DIGITS: &'static str = "0123456789";

/// The lowercase ASCII letters.
pub const LOWERCASE: &'static str = "abcdefghijklmnopqrstuvwxyz";

/// The uppercase ASCII letters.
pub const UPPERCASE: &'static str = "ABCDEFGHIJKLMNOPQRSTUVWXYZ";

/// Common punctuation and symbol characters.
pub const SPECIAL: &'static str = "!@#$%^&*()-_=+[]{}|;:'\",.<>/?`~";

/// Digits, lowercase and uppercase letters, in that order.
pub fn alphanumeric() -> (r: String)
    ensures
        r@ == DIGITS@ + LOWERCASE@ + UPPERCASE@,
{
    let mut s = String::from_str(DIGITS);
    s.append(LOWERCASE);
    s.append(UPPERCASE);
    s
}

/// Digits, letters of both cases, and the special characters, in that order.
pub fn all() -> (r: String)
    ensures
        r@ == DIGITS@ + LOWERCASE@ + UPPERCASE@ + SPECIAL@,
{
    let mut s = String::from_str(DIGITS);
    s.append(LOWERCASE);
    s.append(UPPERCASE);
    s.append(SPECIAL);
    s
}

} // verus!

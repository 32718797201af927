//! Decimal parsing of command-line values.

use vstd::prelude::*;

verus! {

/// `c` is an ASCII decimal digit.
pub open spec fn is_digit(c: char) -> bool {
    '0' <= c <= '9'
}

/// The number that a string of decimal digits spells, most significant first.
pub open spec fn digits_value(s: Seq<char>) -> nat
    decreases s.len(),
{
    if s.len() == 0 {
        0
    } else {
        digits_value(s.drop_last()) * 10 + ((s.last() as int - '0' as int) as nat)
    }
}

/// The digits of `s` once an optional leading `+` is set aside.
pub open spec fn unsigned_digits(s: Seq<char>) -> Seq<char> {
    if s.len() > 0 && s[0] == '+' {
        s.drop_first()
    } else {
        s
    }
}

/// The value of `s` read as an unsigned decimal number: an optional `+`
/// followed by one or more ASCII digits, and nothing else.
pub open spec fn spec_decimal(s: Seq<char>) -> Option<nat> {
    let d = unsigned_digits(s);
    if d.len() > 0 && forall|i: int| 0 <= i < d.len() ==> is_digit(#[trigger] d[i]) {
        Some(digits_value(d))
    } else {
        None
    }
}

/// The message that reports an unreadable value for the option `name`.
pub open spec fn invalid_value_message(name: Seq<char>, value: Seq<char>) -> Seq<char> {
    "invalid value for "@ + name + ": "@ + value
}

/// Calls `str::parse::<usize>`. std documents that the text must be an
/// optional `+` followed by ASCII digits only, and that a value above
/// `usize::MAX` is an error; the contract claims exactly that.
#[verifier::external_body]
fn std_parse_usize(value: &str) -> (r: Option<usize>)
    ensures
        match spec_decimal(value@) {
            Some(v) => if v <= usize::MAX { r == Some(v as usize) } else { r is None },
            None => r is None,
        },
{
    value.parse::<usize>().ok()
}

/// Calls `str::parse::<u64>`. std documents that the text must be an
/// optional `+` followed by ASCII digits only, and that a value above
/// `u64::MAX` is an error; the contract claims exactly that.
#[verifier::external_body]
fn std_parse_u64(value: &str) -> (r: Option<u64>)
    ensures
        match spec_decimal(value@) {
            Some(v) => if v <= u64::MAX { r == Some(v as u64) } else { r is None },
            None => r is None,
        },
{
    value.parse::<u64>().ok()
}

/// Builds the message for an unreadable value of the option `name`.
pub fn invalid_value(name: &str, value: &str) -> (r: String)
    ensures
        r@ == invalid_value_message(name@, value@),
{
    let mut msg = String::from_str("invalid value for ");
    msg.append(name);
    msg.append(": ");
    msg.append(value);
    msg
}

/// Reads the value of option `name` as a `usize`.
pub fn parse_usize(name: &str, value: &str) -> (r: Result<usize, String>)
    ensures
        match r {
            Ok(n) => spec_decimal(value@) == Some(n as nat),
            Err(msg) => {
                &&& (spec_decimal(value@) is None || spec_decimal(value@).unwrap() > usize::MAX)
                &&& msg@ == invalid_value_message(name@, value@)
            },
        },
{
    match std_parse_usize(value) {
        Some(n) => Ok(n),
        None => Err(invalid_value(name, value)),
    }
}

/// Reads the value of option `name` as a `u64`.
pub fn parse_u64(name: &str, value: &str) -> (r: Result<u64, String>)
    ensures
        match r {
            Ok(n) => spec_decimal(value@) == Some(n as nat),
            Err(msg) => {
                &&& (spec_decimal(value@) is None || spec_decimal(value@).unwrap() > u64::MAX)
                &&& msg@ == invalid_value_message(name@, value@)
            },
        },
{
    match std_parse_u64(value) {
        Some(n) => Ok(n),
        None => Err(invalid_value(name, value)),
    }
}

} // verus!

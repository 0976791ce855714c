//! Where the daemon is reached.
//!
//! The endpoint is a value that the caller hands in. Where the caller has
//! overrides for host and port, as text, they are resolved here; nothing is
//! read from the process environment.

use vstd::prelude::*;
use crate::error::ConfigError;
use crate::text::chars_of;

verus! {

/// The port on which the daemon listens unless told otherwise.
pub const DEFAULT_PORT: u16 = 6742;

/// The host and port of the daemon.
#[derive(Clone, Debug, PartialEq, Eq)]
pub struct Endpoint {
    pub host: String,
    pub port: u16,
}

/// Whether `c` is one of `0`-`9`.
pub open spec fn is_digit(c: char) -> bool {
    '0' <= c && c <= '9'
}

/// The number that a sequence of decimal digits writes.
pub open spec fn digits_value(digits: Seq<char>) -> nat
    decreases digits.len(),
{
    if digits.len() == 0 {
        0
    } else {
        digits_value(digits.drop_last()) * 10 + (digits.last() as nat - '0' as nat) as nat
    }
}

/// The digits of a port number as written: the text without a `+` at its
/// start.
pub open spec fn unsigned_part(text: Seq<char>) -> Seq<char> {
    if text.len() > 0 && text[0] == '+' {
        text.skip(1)
    } else {
        text
    }
}

/// The port that `text` writes: one or more decimal digits, with or without
/// a `+` before them, that make a number up to 65535.
pub open spec fn port_of(text: Seq<char>) -> Option<u16> {
    let digits = unsigned_part(text);
    if digits.len() > 0 && (forall|i: int| 0 <= i < digits.len() ==> is_digit(#[trigger] digits[i]))
        && digits_value(digits) <= u16::MAX {
        Some(digits_value(digits) as u16)
    } else {
        None
    }
}

/// More digits never write a smaller number.
proof fn lemma_digits_value_grows(digits: Seq<char>, n: int)
    requires
        0 <= n <= digits.len(),
        forall|i: int| 0 <= i < digits.len() ==> is_digit(#[trigger] digits[i]),
    ensures
        digits_value(digits.take(n)) <= digits_value(digits),
    decreases digits.len() - n,
{
    if n < digits.len() {
        let upto = digits.take(n + 1);
        assert(upto.drop_last() =~= digits.take(n));
        assert(upto.last() == digits[n]);
        assert forall|i: int| 0 <= i < digits.len() implies is_digit(#[trigger] digits[i]) by {}
        lemma_digits_value_grows(digits, n + 1);
    } else {
        assert(digits.take(n) =~= digits);
    }
}

/// Reads a port number.
#[verifier::loop_isolation(false)]
pub fn parse_port(text: &str) -> (port: Option<u16>)
    ensures
        port == port_of(text@),
{
    let chars = chars_of(text);
    let n: usize = chars.len();
    let start: usize = if n > 0 && chars[0] == '+' {
        1
    } else {
        0
    };
    if start == n {
        return None;
    }
    let ghost digits = unsigned_part(text@);
    assert(digits =~= chars@.skip(start as int));
    let mut value: u32 = 0;
    let mut i: usize = start;
    while i < n
        invariant
            start <= i <= n,
            n == chars@.len(),
            digits == chars@.skip(start as int),
            forall|k: int| 0 <= k < i - start ==> is_digit(#[trigger] digits[k]),
            value == digits_value(digits.take(i - start)),
            value <= u16::MAX,
        decreases n - i,
    {
        let c = chars[i];
        assert(digits[i - start] == c);
        if !('0' <= c && c <= '9') {
            assert(!is_digit(digits[i - start]));
            return None;
        }
        let digit: u32 = (c as u32) - ('0' as u32);
        let ghost upto = digits.take(i - start + 1);
        assert(upto.drop_last() =~= digits.take(i - start));
        assert(upto.last() == c);
        value = value * 10 + digit;
        assert(value == digits_value(upto));
        if value > 0xFFFF {
            proof {
                if forall|k: int| 0 <= k < digits.len() ==> is_digit(#[trigger] digits[k]) {
                    lemma_digits_value_grows(digits, i - start + 1);
                }
            }
            return None;
        }
        i += 1;
    }
    assert(digits.take(n - start) =~= digits);
    Some(value as u16)
}

/// The host that stands for this machine.
pub open spec fn default_host() -> Seq<char> {
    "127.0.0.1"@
}

/// The endpoint that the overrides give: the host or, without one, this
/// machine, and the port or, without one, the daemon's usual port. A port
/// that is no port number is an error.
pub open spec fn endpoint_of(host: Option<Seq<char>>, port: Option<Seq<char>>) -> Result<
    (Seq<char>, u16),
    ConfigError,
> {
    let host = match host {
        Some(h) => h,
        None => default_host(),
    };
    match port {
        None => Ok((host, DEFAULT_PORT)),
        Some(text) => match port_of(text) {
            Some(p) => Ok((host, p)),
            None => Err(ConfigError::InvalidPort),
        },
    }
}

/// Resolves the daemon's endpoint from the overrides for host and port.
pub fn resolve_endpoint(host: Option<&str>, port: Option<&str>) -> (r: Result<
    Endpoint,
    ConfigError,
>)
    ensures
        match r {
            Ok(endpoint) => endpoint_of(
                match host {
                    Some(h) => Some(h@),
                    None => None,
                },
                match port {
                    Some(p) => Some(p@),
                    None => None,
                },
            ) == Ok::<(Seq<char>, u16), ConfigError>((endpoint.host@, endpoint.port)),
            Err(e) => endpoint_of(
                match host {
                    Some(h) => Some(h@),
                    None => None,
                },
                match port {
                    Some(p) => Some(p@),
                    None => None,
                },
            ) == Err::<(Seq<char>, u16), ConfigError>(e),
        },
{
    let port: u16 = match port {
        None => DEFAULT_PORT,
        Some(text) => match parse_port(text) {
            Some(p) => p,
            None => { return Err(ConfigError::InvalidPort); },
        },
    };
    let host: String = match host {
        Some(h) => h.to_owned(),
        None => "127.0.0.1".to_owned(),
    };
    Ok(Endpoint { host, port })
}

} // verus!

//! IPv4 addresses as plain values, and parsing of dotted-quad text.

use vstd::prelude::*;
use crate::digits::{digits_val, is_digit_char};
use crate::text::{split_on, split_str, views_of};

verus! {

/// An IPv4 address held as its four octets.
#[derive(Clone, Copy, Debug, PartialEq, Eq, Structural)]
pub struct IpAddress {
    pub a: u8,
    pub b: u8,
    pub c: u8,
    pub d: u8,
}

/// The text of one octet of a dotted quad: one to three decimal digits,
/// no leading zero, value at most 255.
pub open spec fn is_octet_text(s: Seq<char>) -> bool {
    &&& 1 <= s.len() <= 3
    &&& forall|i: int| 0 <= i < s.len() ==> is_digit_char(s[i])
    &&& (s.len() == 1 || s[0] != '0')
    &&& digits_val(s) <= 255
}

/// A syntactically valid dotted-quad IPv4 address: four octet texts
/// separated by dots.
pub open spec fn is_valid_ipv4(s: Seq<char>) -> bool {
    let parts = split_on(s, '.');
    &&& parts.len() == 4
    &&& is_octet_text(parts[0])
    &&& is_octet_text(parts[1])
    &&& is_octet_text(parts[2])
    &&& is_octet_text(parts[3])
}

/// The value of the `i`-th octet of a dotted quad.
pub open spec fn spec_ipv4_octet(s: Seq<char>, i: int) -> int {
    digits_val(split_on(s, '.')[i])
}

/// Parses the text of one octet.
fn parse_octet(part: &str) -> (r: Option<u8>)
    ensures
        r is Some <==> is_octet_text(part@),
        r matches Some(v) ==> v == digits_val(part@),
{
    let n: usize = part.unicode_len();
    if n == 0 || n > 3 {
        return None;
    }
    let mut value: u32 = 0;
    let mut i: usize = 0;
    while i < n
        invariant
            n == part@.len(),
            1 <= n <= 3,
            i <= n,
            forall|k: int| 0 <= k < i ==> is_digit_char(part@[k]),
            value == digits_val(part@.take(i as int)),
            i <= 1 ==> value < 10,
            i <= 2 ==> value < 100,
            value < 1000,
        decreases n - i,
    {
        let c = part.get_char(i);
        let u = c as u32;
        if u < 48 || u > 57 {
            return None;
        }
        proof {
            assert(part@.take(i + 1).drop_last() =~= part@.take(i as int));
            assert(part@.take(i + 1).last() == part@[i as int]);
        }
        value = value * 10 + (u - 48);
        i = i + 1;
    }
    proof {
        assert(part@.take(n as int) =~= part@);
    }
    if n > 1 && part.get_char(0) == '0' {
        return None;
    }
    if value > 255 {
        return None;
    }
    Some(value as u8)
}

/// Parses a dotted-quad IPv4 address. Returns the address exactly when the
/// text is syntactically valid; every other text yields nothing.
pub fn parse_ipv4(s: &str) -> (r: Option<IpAddress>)
    ensures
        r is Some <==> is_valid_ipv4(s@),
        r matches Some(ip) ==> {
            &&& ip.a == spec_ipv4_octet(s@, 0)
            &&& ip.b == spec_ipv4_octet(s@, 1)
            &&& ip.c == spec_ipv4_octet(s@, 2)
            &&& ip.d == spec_ipv4_octet(s@, 3)
        },
{
    let parts = split_str(s, '.');
    if parts.len() != 4 {
        return None;
    }
    proof {
        assert(views_of(parts@).len() == 4);
        assert(parts@[0]@ == split_on(s@, '.')[0]);
        assert(parts@[1]@ == split_on(s@, '.')[1]);
        assert(parts@[2]@ == split_on(s@, '.')[2]);
        assert(parts@[3]@ == split_on(s@, '.')[3]);
    }
    let a = match parse_octet(parts[0].as_str()) {
        Some(v) => v,
        None => {
            return None;
        },
    };
    let b = match parse_octet(parts[1].as_str()) {
        Some(v) => v,
        None => {
            return None;
        },
    };
    let c = match parse_octet(parts[2].as_str()) {
        Some(v) => v,
        None => {
            return None;
        },
    };
    let d = match parse_octet(parts[3].as_str()) {
        Some(v) => v,
        None => {
            return None;
        },
    };
    Some(IpAddress { a, b, c, d })
}

} // verus!

//! UDP endpoints and their text form `a.b.c.d:port`.

use vstd::prelude::*;
use crate::wire::{decimal, push_decimal};

verus! {

/// A UDP endpoint: an IPv4 address, most significant octet first, and a port.
#[derive(Clone, Copy, Debug, PartialEq, Eq, Structural)]
pub struct Endpoint {
    pub ip: u32,
    pub port: u16,
}

/// The `k`-th octet of an address, counted from the most significant.
pub open spec fn octet(ip: u32, k: int) -> nat {
    if k == 0 {
        (ip / 0x100_0000) as nat
    } else if k == 1 {
        (ip / 0x1_0000 % 0x100) as nat
    } else if k == 2 {
        (ip / 0x100 % 0x100) as nat
    } else {
        (ip % 0x100) as nat
    }
}

/// The text of an endpoint: four decimal octets separated by dots, a colon,
/// and the decimal port.
pub open spec fn endpoint_text(e: Endpoint) -> Seq<u8> {
    decimal(octet(e.ip, 0)) + seq![46u8] + decimal(octet(e.ip, 1)) + seq![46u8] + decimal(
        octet(e.ip, 2),
    ) + seq![46u8] + decimal(octet(e.ip, 3)) + seq![58u8] + decimal(e.port as nat)
}

impl Endpoint {
    /// The endpoint `0.0.0.0:0`, which stands for "address unknown".
    pub fn unspecified() -> (e: Endpoint)
        ensures
            e == (Endpoint { ip: 0, port: 0 }),
    {
        Endpoint { ip: 0, port: 0 }
    }

    /// Appends the text of this endpoint to `out`.
    pub fn push_text(&self, out: &mut Vec<u8>)
        ensures
            final(out)@ == old(out)@ + endpoint_text(*self),
    {
        push_decimal(out, self.ip / 0x100_0000);
        out.push(46u8);
        push_decimal(out, self.ip / 0x1_0000 % 0x100);
        out.push(46u8);
        push_decimal(out, self.ip / 0x100 % 0x100);
        out.push(46u8);
        push_decimal(out, self.ip % 0x100);
        out.push(58u8);
        push_decimal(out, self.port as u32);
    }
}

/// Whether a byte is a decimal digit.
pub open spec fn is_digit(b: u8) -> bool {
    48 <= b && b <= 57
}

/// Where the run of digits that begins at `i` ends.
pub open spec fn digits_end(s: Seq<u8>, i: int) -> int
    decreases s.len() - i,
{
    if i < 0 || i >= s.len() || !is_digit(s[i]) {
        i
    } else {
        digits_end(s, i + 1)
    }
}

/// The number that a string of digits writes.
pub open spec fn digits_value(s: Seq<u8>) -> nat
    decreases s.len(),
{
    if s.len() == 0 {
        0
    } else {
        digits_value(s.drop_last()) * 10 + (s.last() - 48) as nat
    }
}

/// A number read from a text, and the position at which it ends.
pub struct NumberAt {
    pub value: nat,
    pub end: int,
}

/// The number written in digits from position `i` of `s` on. A number has at
/// least one digit and no leading zero, and is at most `max`.
pub open spec fn number_at(s: Seq<u8>, i: int, max: nat) -> Option<NumberAt> {
    let e = digits_end(s, i);
    let d = s.subrange(i, e);
    if 0 <= i < e && (e - i >= 2 ==> s[i] != 48) && digits_value(d) <= max {
        Some(NumberAt { value: digits_value(d), end: e })
    } else {
        None
    }
}

/// Whether `s` holds the byte `b` at position `i`.
pub open spec fn byte_at(s: Seq<u8>, i: int, b: u8) -> bool {
    0 <= i < s.len() && s[i] == b
}

/// The endpoint that a text writes: four numbers up to 255 separated by dots,
/// a colon, and a number up to 65535, with nothing before, between or after.
pub open spec fn text_endpoint(s: Seq<u8>) -> Option<Endpoint> {
    let a = number_at(s, 0, 255);
    let b = number_at(s, a.unwrap().end + 1, 255);
    let c = number_at(s, b.unwrap().end + 1, 255);
    let d = number_at(s, c.unwrap().end + 1, 255);
    let p = number_at(s, d.unwrap().end + 1, 65535);
    if a is Some && byte_at(s, a.unwrap().end, 46) && b is Some && byte_at(s, b.unwrap().end, 46)
        && c is Some && byte_at(s, c.unwrap().end, 46) && d is Some && byte_at(
        s,
        d.unwrap().end,
        58,
    ) && p is Some && p.unwrap().end == s.len() {
        Some(
            Endpoint {
                ip: (((a.unwrap().value * 256 + b.unwrap().value) * 256 + c.unwrap().value) * 256
                    + d.unwrap().value) as u32,
                port: p.unwrap().value as u16,
            },
        )
    } else {
        None
    }
}

/// Reads the number that begins at position `i` of `s`.
pub fn parse_number(s: &[u8], i: usize, max: u32) -> (r: Option<(u32, usize)>)
    requires
        i <= s.len(),
        max <= 65535,
    ensures
        match r {
            Some((v, e)) => number_at(s@, i as int, max as nat) == Some(
                NumberAt { value: v as nat, end: e as int },
            ) && i < e <= s.len(),
            None => number_at(s@, i as int, max as nat) is None,
        },
{
    let mut value: u32 = 0;
    let mut over = false;
    let mut j: usize = i;
    while j < s.len() && 48 <= s[j] && s[j] <= 57
        invariant
            i <= j <= s.len(),
            max <= 65535,
            digits_end(s@, i as int) == digits_end(s@, j as int),
            !over ==> value == digits_value(s@.subrange(i as int, j as int)) && value <= max,
            over ==> digits_value(s@.subrange(i as int, j as int)) > max,
        decreases s.len() - j,
    {
        assert(s@.subrange(i as int, j + 1).drop_last() =~= s@.subrange(i as int, j as int));
        if !over {
            value = value * 10 + (s[j] - 48) as u32;
            if value > max {
                over = true;
            }
        }
        j += 1;
    }
    if j == i || over || (j - i >= 2 && s[i] == 48) {
        None
    } else {
        Some((value, j))
    }
}

/// Reads an endpoint from its text.
pub fn parse_endpoint(s: &[u8]) -> (r: Option<Endpoint>)
    ensures
        r == text_endpoint(s@),
{
    let (a, e0) = match parse_number(s, 0, 255) {
        Some(x) => x,
        None => { return None; },
    };
    if e0 >= s.len() || s[e0] != 46 {
        return None;
    }
    let (b, e1) = match parse_number(s, e0 + 1, 255) {
        Some(x) => x,
        None => { return None; },
    };
    if e1 >= s.len() || s[e1] != 46 {
        return None;
    }
    let (c, e2) = match parse_number(s, e1 + 1, 255) {
        Some(x) => x,
        None => { return None; },
    };
    if e2 >= s.len() || s[e2] != 46 {
        return None;
    }
    let (d, e3) = match parse_number(s, e2 + 1, 255) {
        Some(x) => x,
        None => { return None; },
    };
    if e3 >= s.len() || s[e3] != 58 {
        return None;
    }
    let (p, e4) = match parse_number(s, e3 + 1, 65535) {
        Some(x) => x,
        None => { return None; },
    };
    if e4 != s.len() {
        return None;
    }
    Some(Endpoint { ip: ((a * 256 + b) * 256 + c) * 256 + d, port: p as u16 })
}

/// The decimal digits of a number are a number's text that writes it: digits
/// only, more than one only without a leading zero.
pub proof fn lemma_decimal(n: nat)
    ensures
        decimal(n).len() >= 1,
        decimal(n).len() == 1 <==> n < 10,
        forall|k: int| 0 <= k < decimal(n).len() ==> is_digit(#[trigger] decimal(n)[k]),
        decimal(n).len() >= 2 ==> decimal(n)[0] != 48,
        digits_value(decimal(n)) == n,
    decreases n,
{
    if n >= 10 {
        lemma_decimal(n / 10);
        let d = decimal(n / 10);
        let s = decimal(n);
        assert(s.drop_last() =~= d);
    } else {
        let s = decimal(n);
        assert(s.drop_last() =~= Seq::<u8>::empty());
        assert(digits_value(Seq::<u8>::empty()) == 0);
    }
}

/// A run of digits that begins at `i` ends at `e` if a byte that is no digit,
/// or the end of the text, follows it there.
pub proof fn lemma_digits_end_is(s: Seq<u8>, i: int, e: int)
    requires
        0 <= i <= e <= s.len(),
        forall|k: int| i <= k < e ==> is_digit(#[trigger] s[k]),
        e == s.len() || !is_digit(s[e]),
    ensures
        digits_end(s, i) == e,
    decreases e - i,
{
    if i < e {
        lemma_digits_end_is(s, i + 1, e);
    }
}

/// Where the decimal digits of `n` stand at position `i` of a text, followed
/// by its end or by a byte that is no digit, the number `n` is read there.
pub proof fn lemma_number_at(s: Seq<u8>, i: int, n: nat, max: nat)
    requires
        0 <= i,
        i + decimal(n).len() <= s.len(),
        s.subrange(i, i + decimal(n).len()) == decimal(n),
        i + decimal(n).len() == s.len() || !is_digit(s[i + decimal(n).len()]),
        n <= max,
    ensures
        number_at(s, i, max) == Some(NumberAt { value: n, end: i + decimal(n).len() }),
{
    lemma_decimal(n);
    let d = decimal(n);
    let e = i + d.len();
    assert forall|k: int| i <= k < e implies is_digit(#[trigger] s[k]) by {
        assert(s[k] == s.subrange(i, e)[k - i]);
    }
    lemma_digits_end_is(s, i, e);
}

/// Where five texts stand in a text of the form `a.b.c.d:p`.
proof fn lemma_dotted_text(a: Seq<u8>, b: Seq<u8>, c: Seq<u8>, d: Seq<u8>, p: Seq<u8>)
    ensures
        ({
            let s = a + seq![46u8] + b + seq![46u8] + c + seq![46u8] + d + seq![58u8] + p;
            let ea = a.len() as int;
            let eb = ea + 1 + b.len();
            let ec = eb + 1 + c.len();
            let ed = ec + 1 + d.len();
            &&& s.len() == ed + 1 + p.len()
            &&& s.subrange(0, ea) == a
            &&& s[ea] == 46
            &&& s.subrange(ea + 1, eb) == b
            &&& s[eb] == 46
            &&& s.subrange(eb + 1, ec) == c
            &&& s[ec] == 46
            &&& s.subrange(ec + 1, ed) == d
            &&& s[ed] == 58
            &&& s.subrange(ed + 1, s.len() as int) == p
        }),
{
}

/// Reading the text of an endpoint gives the endpoint back.
pub proof fn lemma_endpoint_text_is_read_back(e: Endpoint)
    ensures
        text_endpoint(endpoint_text(e)) == Some(e),
{
    let s = endpoint_text(e);
    let a = octet(e.ip, 0);
    let b = octet(e.ip, 1);
    let c = octet(e.ip, 2);
    let d = octet(e.ip, 3);
    let p = e.port as nat;
    lemma_dotted_text(decimal(a), decimal(b), decimal(c), decimal(d), decimal(p));
    let ea = decimal(a).len() as int;
    let eb = ea + 1 + decimal(b).len();
    let ec = eb + 1 + decimal(c).len();
    let ed = ec + 1 + decimal(d).len();
    lemma_number_at(s, 0, a, 255);
    lemma_number_at(s, ea + 1, b, 255);
    lemma_number_at(s, eb + 1, c, 255);
    lemma_number_at(s, ec + 1, d, 255);
    lemma_number_at(s, ed + 1, p, 65535);
}

} // verus!

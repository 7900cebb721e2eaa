//! Addresses as values and as the text in which the protocol carries them:
//! `172.22.44.3` for a private address, `203.0.113.7:40000` for a public
//! socket address. Only the canonical decimal form is accepted: what
//! `to_text` writes is exactly what `from_text` reads.

use vstd::prelude::*;
use vstd::seq_lib::lemma_concat_associative;

verus! {

/// An IPv4 address, octet by octet.
#[derive(Clone, Copy, Debug, PartialEq, Eq, Hash, Structural)]
pub struct Ipv4 {
    pub a: u8,
    pub b: u8,
    pub c: u8,
    pub d: u8,
}

/// An IPv4 socket address: where a datagram comes from or goes to.
#[derive(Clone, Copy, Debug, PartialEq, Eq, Hash, Structural)]
pub struct SockAddr {
    pub ip: Ipv4,
    pub port: u16,
}

/// The ASCII digit for a value below ten.
pub open spec fn digit(v: int) -> u8 {
    (48 + v) as u8
}

/// A number in decimal, without leading zeros.
pub open spec fn decimal_text(n: nat) -> Seq<u8>
    decreases n,
{
    if n < 10 {
        seq![digit(n as int)]
    } else {
        decimal_text(n / 10).push(digit(n as int % 10))
    }
}

/// The byte at `i` is an ASCII digit.
pub open spec fn is_digit_at(text: Seq<u8>, i: int) -> bool {
    0 <= i < text.len() && 48 <= text[i] <= 57
}

/// How many digits stand in a row from `pos` on, counting at most `cap`.
pub open spec fn run_length(text: Seq<u8>, pos: int, cap: nat) -> nat
    decreases cap,
{
    if cap == 0 || !is_digit_at(text, pos) {
        0
    } else {
        1 + run_length(text, pos + 1, (cap - 1) as nat)
    }
}

/// The value of the `count` digits from `pos` on, read as a decimal number.
pub open spec fn number_value(text: Seq<u8>, pos: int, count: nat) -> nat
    decreases count,
{
    if count == 0 {
        0
    } else {
        (number_value(text, pos, (count - 1) as nat) * 10 + (text[pos + count - 1] - 48)) as nat
    }
}

/// The number that starts at `pos`: up to five digits.
pub open spec fn field_value(text: Seq<u8>, pos: int) -> nat {
    number_value(text, pos, run_length(text, pos, 5))
}

/// Where the number that starts at `pos` ends.
pub open spec fn field_end(text: Seq<u8>, pos: int) -> int {
    pos + run_length(text, pos, 5)
}

impl Ipv4 {
    /// The address that stands for "not known yet".
    pub open spec fn spec_unspecified() -> Ipv4 {
        Ipv4 { a: 0, b: 0, c: 0, d: 0 }
    }

    #[verifier::when_used_as_spec(spec_unspecified)]
    pub fn unspecified() -> (ip: Ipv4)
        ensures
            ip == Ipv4::spec_unspecified(),
    {
        Ipv4 { a: 0, b: 0, c: 0, d: 0 }
    }

    pub open spec fn spec_is_unspecified(&self) -> bool {
        *self == Ipv4::spec_unspecified()
    }

    #[verifier::when_used_as_spec(spec_is_unspecified)]
    pub fn is_unspecified(&self) -> (b: bool)
        ensures
            b == self.spec_is_unspecified(),
    {
        self.a == 0 && self.b == 0 && self.c == 0 && self.d == 0
    }

    pub fn new(a: u8, b: u8, c: u8, d: u8) -> (ip: Ipv4)
        ensures
            ip == (Ipv4 { a, b, c, d }),
    {
        Ipv4 { a, b, c, d }
    }

    /// The dotted decimal text of the address.
    pub open spec fn spec_text(self) -> Seq<u8> {
        decimal_text(self.a as nat) + seq![46u8] + decimal_text(self.b as nat) + seq![46u8]
            + decimal_text(self.c as nat) + seq![46u8] + decimal_text(self.d as nat)
    }

    /// The address that the numbers in `text` give, if each fits an octet.
    /// Nothing but the digits is looked at.
    pub open spec fn spec_candidate(text: Seq<u8>) -> Option<Ipv4> {
        let a = field_value(text, 0);
        let b_at = field_end(text, 0) + 1;
        let b = field_value(text, b_at);
        let c_at = field_end(text, b_at) + 1;
        let c = field_value(text, c_at);
        let d_at = field_end(text, c_at) + 1;
        let d = field_value(text, d_at);
        if a <= 255 && b <= 255 && c <= 255 && d <= 255 {
            Some(Ipv4 { a: a as u8, b: b as u8, c: c as u8, d: d as u8 })
        } else {
            None
        }
    }

    /// The address that `text` denotes: the one whose text it is.
    pub open spec fn spec_from_text(text: Seq<u8>) -> Option<Ipv4> {
        match Ipv4::spec_candidate(text) {
            Some(ip) => if ip.spec_text() == text {
                Some(ip)
            } else {
                None
            },
            None => None,
        }
    }

    /// Writes the address as dotted decimal text.
    pub fn to_text(&self) -> (text: Vec<u8>)
        ensures
            text@ == self.spec_text(),
            7 <= text@.len() <= 15,
    {
        let mut out: Vec<u8> = Vec::new();
        push_decimal(&mut out, self.a as u16);
        out.push(46u8);
        push_decimal(&mut out, self.b as u16);
        out.push(46u8);
        push_decimal(&mut out, self.c as u16);
        out.push(46u8);
        push_decimal(&mut out, self.d as u16);
        assert(out@ =~= self.spec_text());
        out
    }

    /// Reads dotted decimal text.
    pub fn from_text(text: &[u8]) -> (r: Option<Ipv4>)
        ensures
            r == Ipv4::spec_from_text(text@),
    {
        if text.len() > 15 {
            proof {
                lemma_text_lengths();
            }
            return None;
        }
        let (a, a_end) = read_field(text, 0);
        let (b, b_end) = read_field(text, a_end + 1);
        let (c, c_end) = read_field(text, b_end + 1);
        let (d, _d_end) = read_field(text, c_end + 1);
        if a <= 255 && b <= 255 && c <= 255 && d <= 255 {
            let ip = Ipv4 { a: a as u8, b: b as u8, c: c as u8, d: d as u8 };
            let written = ip.to_text();
            if bytes_equal(written.as_slice(), text) {
                Some(ip)
            } else {
                None
            }
        } else {
            None
        }
    }
}

impl SockAddr {
    pub fn new(ip: Ipv4, port: u16) -> (addr: SockAddr)
        ensures
            addr == (SockAddr { ip, port }),
    {
        SockAddr { ip, port }
    }

    /// The text of the socket address: the address, a colon, the port.
    pub open spec fn spec_text(self) -> Seq<u8> {
        self.ip.spec_text() + seq![58u8] + decimal_text(self.port as nat)
    }

    /// The socket address that the numbers in `text` give, if each fits.
    pub open spec fn spec_candidate(text: Seq<u8>) -> Option<SockAddr> {
        let a = field_value(text, 0);
        let b_at = field_end(text, 0) + 1;
        let b = field_value(text, b_at);
        let c_at = field_end(text, b_at) + 1;
        let c = field_value(text, c_at);
        let d_at = field_end(text, c_at) + 1;
        let d = field_value(text, d_at);
        let p_at = field_end(text, d_at) + 1;
        let p = field_value(text, p_at);
        if a <= 255 && b <= 255 && c <= 255 && d <= 255 && p <= 65535 {
            Some(
                SockAddr {
                    ip: Ipv4 { a: a as u8, b: b as u8, c: c as u8, d: d as u8 },
                    port: p as u16,
                },
            )
        } else {
            None
        }
    }

    /// The socket address that `text` denotes: the one whose text it is.
    pub open spec fn spec_from_text(text: Seq<u8>) -> Option<SockAddr> {
        match SockAddr::spec_candidate(text) {
            Some(addr) => if addr.spec_text() == text {
                Some(addr)
            } else {
                None
            },
            None => None,
        }
    }

    /// Writes the socket address as text.
    pub fn to_text(&self) -> (text: Vec<u8>)
        ensures
            text@ == self.spec_text(),
            9 <= text@.len() <= 21,
    {
        let mut out = self.ip.to_text();
        out.push(58u8);
        push_decimal(&mut out, self.port);
        assert(out@ =~= self.spec_text());
        out
    }

    /// Reads the text of a socket address.
    pub fn from_text(text: &[u8]) -> (r: Option<SockAddr>)
        ensures
            r == SockAddr::spec_from_text(text@),
    {
        if text.len() > 21 {
            proof {
                lemma_text_lengths();
            }
            return None;
        }
        let (a, a_end) = read_field(text, 0);
        let (b, b_end) = read_field(text, a_end + 1);
        let (c, c_end) = read_field(text, b_end + 1);
        let (d, d_end) = read_field(text, c_end + 1);
        let (p, _p_end) = read_field(text, d_end + 1);
        if a <= 255 && b <= 255 && c <= 255 && d <= 255 && p <= 65535 {
            let addr = SockAddr {
                ip: Ipv4 { a: a as u8, b: b as u8, c: c as u8, d: d as u8 },
                port: p as u16,
            };
            let written = addr.to_text();
            if bytes_equal(written.as_slice(), text) {
                Some(addr)
            } else {
                None
            }
        } else {
            None
        }
    }
}

/// Whether two byte strings are the same.
pub fn bytes_equal(x: &[u8], y: &[u8]) -> (same: bool)
    ensures
        same == (x@ == y@),
{
    if x.len() != y.len() {
        return false;
    }
    let mut i: usize = 0;
    while i < x.len()
        invariant
            i <= x.len(),
            x.len() == y.len(),
            forall|j: int| 0 <= j < i ==> x[j] == y[j],
        decreases x.len() - i,
    {
        if x[i] != y[i] {
            return false;
        }
        i += 1;
    }
    assert(x@ =~= y@);
    true
}

/// Appends the decimal text of `n`.
fn push_decimal(out: &mut Vec<u8>, n: u16)
    ensures
        final(out)@ == old(out)@ + decimal_text(n as nat),
        old(out)@.len() + 1 <= final(out)@.len() <= old(out)@.len() + 5,
        n <= 255 ==> final(out)@.len() <= old(out)@.len() + 3,
    decreases n,
{
    let ghost before = out@;
    proof {
        lemma_decimal_length(n as nat);
    }
    if n >= 10 {
        push_decimal(out, n / 10);
    }
    out.push(48 + (n % 10) as u8);
    assert(out@ =~= before + decimal_text(n as nat));
}

/// Reads the number that starts at `pos`; returns it with the place where it
/// ends. A place beyond the text gives zero and stays beyond.
fn read_field(text: &[u8], pos: usize) -> (r: (u32, usize))
    ensures
        r.0 == field_value(text@, pos as int),
        pos <= text@.len() ==> r.1 == field_end(text@, pos as int),
        pos <= text@.len() ==> r.1 <= text@.len(),
        pos > text@.len() ==> r.1 == text@.len(),
{
    if pos >= text.len() {
        return (0, text.len());
    }
    let mut count: usize = 0;
    let mut value: u32 = 0;
    while count < 5 && pos + count < text.len() && 48 <= text[pos + count] && text[pos + count]
        <= 57
        invariant
            count <= 5,
            pos + count <= text.len(),
            value == number_value(text@, pos as int, count as nat),
            value < 100000,
            count < 5 ==> value < 10000,
            forall|k: int| 0 <= k < count ==> #[trigger] is_digit_at(text@, pos + k),
            run_length(text@, pos as int, 5) == count + run_length(
                text@,
                pos + count,
                (5 - count) as nat,
            ),
        decreases 5 - count,
    {
        proof {
            lemma_value_bound(text@, pos as int, count as nat);
        }
        value = value * 10 + (text[pos + count] - 48) as u32;
        count += 1;
        proof {
            lemma_value_bound(text@, pos as int, count as nat);
        }
    }
    (value, pos + count)
}

/// Where `k` digits stand from `pos` on and no digit follows them within
/// the cap, the run is `k` long.
proof fn lemma_run(text: Seq<u8>, pos: int, cap: nat, k: nat)
    requires
        k <= cap,
        forall|j: int| 0 <= j < k ==> #[trigger] is_digit_at(text, pos + j),
        k == cap || !is_digit_at(text, pos + k),
    ensures
        run_length(text, pos, cap) == k,
    decreases k,
{
    if k > 0 {
        assert(is_digit_at(text, pos + 0));
        assert forall|j: int| 0 <= j < k - 1 implies #[trigger] is_digit_at(text, pos + 1 + j) by {
            assert(is_digit_at(text, pos + (j + 1)));
        }
        lemma_run(text, pos + 1, (cap - 1) as nat, (k - 1) as nat);
    }
}

/// The value of a run depends on its digits alone.
proof fn lemma_value_of_slice(text: Seq<u8>, pos: int, count: nat)
    requires
        0 <= pos,
        pos + count <= text.len(),
    ensures
        number_value(text, pos, count) == number_value(
            text.subrange(pos, pos + count),
            0,
            count,
        ),
    decreases count,
{
    if count > 0 {
        let whole = text.subrange(pos, pos + count);
        let shorter = text.subrange(pos, pos + count - 1);
        lemma_value_of_slice(text, pos, (count - 1) as nat);
        assert(whole.subrange(0, count - 1) =~= shorter);
        lemma_value_of_slice(whole, 0, (count - 1) as nat);
    }
}

/// The digits of a number have the number as their value.
proof fn lemma_decimal_value(n: nat)
    ensures
        number_value(decimal_text(n), 0, decimal_text(n).len()) == n,
        forall|k: int| 0 <= k < decimal_text(n).len() ==> 48 <= #[trigger] decimal_text(n)[k] <= 57,
    decreases n,
{
    let d = decimal_text(n);
    if n < 10 {
        assert(d.len() == 1);
        assert(d[0] == 48 + n);
        assert(number_value(d, 0, 0) == 0);
        assert(number_value(d, 0, 1) == number_value(d, 0, 0) * 10 + (d[0] - 48));
    } else {
        let t = decimal_text(n / 10);
        let last = digit(n as int % 10);
        lemma_decimal_value(n / 10);
        assert(d == t.push(last));
        assert(last == 48 + n % 10);
        assert(d[t.len() as int] == last);
        assert(number_value(d, 0, d.len()) == number_value(d, 0, t.len()) * 10 + (d[t.len() as int]
            - 48));
        lemma_value_of_slice(d, 0, t.len());
        assert(d.subrange(0, t.len() as int) =~= t);
        assert forall|k: int| 0 <= k < d.len() implies 48 <= #[trigger] d[k] <= 57 by {
            if k < t.len() {
                assert(d[k] == t[k]);
            }
        }
    }
}

/// A number written after `prefix` and followed by something that is no
/// digit is read back as it was written.
proof fn lemma_field_reads(prefix: Seq<u8>, n: nat, rest: Seq<u8>)
    requires
        n <= 65535,
        rest.len() == 0 || !(48 <= rest[0] <= 57),
    ensures
        field_value(prefix + decimal_text(n) + rest, prefix.len() as int) == n,
        field_end(prefix + decimal_text(n) + rest, prefix.len() as int) == prefix.len()
            + decimal_text(n).len(),
{
    let digits = decimal_text(n);
    let text = prefix + digits + rest;
    let pos = prefix.len() as int;
    let k = digits.len();
    lemma_decimal_value(n);
    lemma_decimal_length(n);
    assert forall|j: int| 0 <= j < k implies #[trigger] is_digit_at(text, pos + j) by {
        assert(text[pos + j] == digits[j]);
    }
    if rest.len() > 0 {
        assert(text[pos + k] == rest[0]);
    }
    lemma_run(text, pos, 5, k);
    lemma_value_of_slice(text, pos, k);
    assert(text.subrange(pos, pos + k) =~= digits);
}

/// The four numbers of an address text are read back as they were written,
/// whatever follows the text, as long as no digit follows it directly.
proof fn lemma_address_fields(ip: Ipv4, rest: Seq<u8>)
    requires
        rest.len() == 0 || !(48 <= rest[0] <= 57),
    ensures
        ({
            let text = ip.spec_text() + rest;
            let b_at = field_end(text, 0) + 1;
            let c_at = field_end(text, b_at) + 1;
            let d_at = field_end(text, c_at) + 1;
            &&& field_value(text, 0) == ip.a
            &&& field_value(text, b_at) == ip.b
            &&& field_value(text, c_at) == ip.c
            &&& field_value(text, d_at) == ip.d
            &&& field_end(text, d_at) == ip.spec_text().len()
        }),
{
    let dot = seq![46u8];
    let ta = decimal_text(ip.a as nat);
    let tb = decimal_text(ip.b as nat);
    let tc = decimal_text(ip.c as nat);
    let td = decimal_text(ip.d as nat);
    let text = ip.spec_text() + rest;
    let empty = Seq::<u8>::empty();
    let p_b = ta + dot;
    let p_c = p_b + tb + dot;
    let p_d = p_c + tc + dot;
    let r_c = dot + td + rest;
    let r_b = dot + tc + dot + td + rest;
    let r_a = dot + tb + dot + tc + dot + td + rest;
    assert(text == p_d + td + rest);
    assert(text == p_c + tc + r_c) by {
        let x = p_c + tc;
        lemma_concat_associative(x, dot, td);
        lemma_concat_associative(x, dot + td, rest);
    }
    assert(text == p_b + tb + r_b) by {
        let x = p_b + tb;
        lemma_concat_associative(x, dot, tc);
        lemma_concat_associative(x, dot + tc, dot);
        lemma_concat_associative(x, dot + tc + dot, td);
        lemma_concat_associative(x, dot + tc + dot + td, rest);
    }
    assert(text == empty + ta + r_a) by {
        assert(empty + ta =~= ta);
        lemma_concat_associative(ta, dot, tb);
        lemma_concat_associative(ta, dot + tb, dot);
        lemma_concat_associative(ta, dot + tb + dot, tc);
        lemma_concat_associative(ta, dot + tb + dot + tc, dot);
        lemma_concat_associative(ta, dot + tb + dot + tc + dot, td);
        lemma_concat_associative(ta, dot + tb + dot + tc + dot + td, rest);
    }
    assert(r_a[0] == 46u8);
    assert(r_b[0] == 46u8);
    assert(r_c[0] == 46u8);
    assert(p_b.len() == ta.len() + 1);
    assert(p_c.len() == p_b.len() + tb.len() + 1);
    assert(p_d.len() == p_c.len() + tc.len() + 1);
    assert(ip.spec_text().len() == p_d.len() + td.len());
    lemma_field_reads(empty, ip.a as nat, r_a);
    lemma_field_reads(p_b, ip.b as nat, r_b);
    lemma_field_reads(p_c, ip.c as nat, r_c);
    lemma_field_reads(p_d, ip.d as nat, rest);
}

/// Reading the text of an address gives the address back.
pub proof fn ipv4_text_round_trip(ip: Ipv4)
    ensures
        Ipv4::spec_from_text(ip.spec_text()) == Some(ip),
{
    lemma_address_fields(ip, Seq::<u8>::empty());
    assert(ip.spec_text() + Seq::<u8>::empty() =~= ip.spec_text());
}

/// Reading the text of a socket address gives the socket address back.
pub proof fn sock_addr_text_round_trip(addr: SockAddr)
    ensures
        SockAddr::spec_from_text(addr.spec_text()) == Some(addr),
{
    let colon = seq![58u8];
    let tp = decimal_text(addr.port as nat);
    let text = addr.spec_text();
    let empty = Seq::<u8>::empty();
    let front = addr.ip.spec_text();
    assert((colon + tp)[0] == 58u8);
    assert(text == front + (colon + tp)) by {
        lemma_concat_associative(front, colon, tp);
    }
    lemma_address_fields(addr.ip, colon + tp);
    assert(text == front + colon + tp + empty) by {
        assert(text + empty =~= text);
    }
    assert((front + colon).len() == front.len() + 1);
    lemma_field_reads(front + colon, addr.port as nat, empty);
}

/// A text denotes at most one address, and only the address written that way.
pub proof fn ipv4_text_is_canonical(text: Seq<u8>, ip: Ipv4)
    ensures
        Ipv4::spec_from_text(text) == Some(ip) <==> text == ip.spec_text(),
{
    if text == ip.spec_text() {
        ipv4_text_round_trip(ip);
    }
}

/// A text denotes at most one socket address, and only the one written that
/// way.
pub proof fn sock_addr_text_is_canonical(text: Seq<u8>, addr: SockAddr)
    ensures
        SockAddr::spec_from_text(text) == Some(addr) <==> text == addr.spec_text(),
{
    if text == addr.spec_text() {
        sock_addr_text_round_trip(addr);
    }
}

/// The text of a socket address consists of digits, dots and a colon.
pub proof fn sock_addr_text_is_ascii(addr: SockAddr)
    ensures
        forall|i: int|
            0 <= i < addr.spec_text().len() ==> 46 <= #[trigger] addr.spec_text()[i] <= 58,
{
    lemma_decimal_value(addr.ip.a as nat);
    lemma_decimal_value(addr.ip.b as nat);
    lemma_decimal_value(addr.ip.c as nat);
    lemma_decimal_value(addr.ip.d as nat);
    lemma_decimal_value(addr.port as nat);
}

/// No address text is longer than fifteen bytes, no socket address text
/// longer than twenty-one.
pub proof fn lemma_text_lengths()
    ensures
        forall|ip: Ipv4| 7 <= #[trigger] ip.spec_text().len() <= 15,
        forall|addr: SockAddr| 9 <= #[trigger] addr.spec_text().len() <= 21,
{
    assert forall|ip: Ipv4| 7 <= #[trigger] ip.spec_text().len() <= 15 by {
        lemma_decimal_length(ip.a as nat);
        lemma_decimal_length(ip.b as nat);
        lemma_decimal_length(ip.c as nat);
        lemma_decimal_length(ip.d as nat);
    }
    assert forall|addr: SockAddr| 9 <= #[trigger] addr.spec_text().len() <= 21 by {
        lemma_decimal_length(addr.port as nat);
        assert(7 <= addr.ip.spec_text().len() <= 15);
    }
}

/// Decimal text has one to five digits for a port, and at most three for an
/// octet.
proof fn lemma_decimal_length(n: nat)
    ensures
        1 <= decimal_text(n).len(),
        n <= 65535 ==> decimal_text(n).len() <= 5,
        n <= 255 ==> decimal_text(n).len() <= 3,
{
    reveal_with_fuel(decimal_text, 6);
}

/// A number of `count` digits is below ten to the power `count`.
proof fn lemma_value_bound(text: Seq<u8>, pos: int, count: nat)
    requires
        count <= 5,
        forall|k: int| 0 <= k < count ==> #[trigger] is_digit_at(text, pos + k),
    ensures
        count == 0 ==> number_value(text, pos, count) == 0,
        count <= 1 ==> number_value(text, pos, count) < 10,
        count <= 2 ==> number_value(text, pos, count) < 100,
        count <= 3 ==> number_value(text, pos, count) < 1000,
        count <= 4 ==> number_value(text, pos, count) < 10000,
        number_value(text, pos, count) < 100000,
    decreases count,
{
    if count > 0 {
        lemma_value_bound(text, pos, (count - 1) as nat);
        assert(is_digit_at(text, pos + (count - 1)));
    }
}

} // verus!

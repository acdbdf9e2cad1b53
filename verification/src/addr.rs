//! IPv4 addresses and their dotted-decimal text.

use vstd::prelude::*;

verus! {

/// An IPv4 address, as its four octets in network order.
#[derive(Clone, Copy, Debug, PartialEq, Eq, Structural, Hash)]
pub struct Ipv4 {
    pub a: u8,
    pub b: u8,
    pub c: u8,
    pub d: u8,
}

/// Longest text that an address can have, as in `255.255.255.255`.
pub const IPV4_TEXT_MAX: usize = 15;

/// The character of a decimal digit.
pub open spec fn digit_char(d: int) -> char {
    if d == 0 {
        '0'
    } else if d == 1 {
        '1'
    } else if d == 2 {
        '2'
    } else if d == 3 {
        '3'
    } else if d == 4 {
        '4'
    } else if d == 5 {
        '5'
    } else if d == 6 {
        '6'
    } else if d == 7 {
        '7'
    } else if d == 8 {
        '8'
    } else {
        '9'
    }
}

/// Whether a character is a decimal digit.
pub open spec fn is_digit(c: char) -> bool {
    '0' <= c && c <= '9'
}

/// The number that a decimal digit stands for.
pub open spec fn digit_value(c: char) -> int {
    c as int - '0' as int
}

/// A number in decimal, without leading zeros.
pub open spec fn decimal(n: nat) -> Seq<char>
    decreases n,
{
    if n < 10 {
        seq![digit_char(n as int)]
    } else {
        decimal(n / 10).push(digit_char((n % 10) as int))
    }
}

/// An address in dotted-decimal text.
pub open spec fn ipv4_text(ip: Ipv4) -> Seq<char> {
    decimal(ip.a as nat) + seq!['.'] + decimal(ip.b as nat) + seq!['.'] + decimal(ip.c as nat)
        + seq!['.'] + decimal(ip.d as nat)
}

/// An address and a port as the text of a socket address.
pub open spec fn socket_text(ip: Ipv4, port: u16) -> Seq<char> {
    ipv4_text(ip) + seq![':'] + decimal(port as nat)
}

/// The value of the digit at `pos`, if there is a digit.
pub open spec fn digit_at(s: Seq<char>, pos: int) -> Option<int> {
    if 0 <= pos < s.len() && is_digit(s[pos]) {
        Some(digit_value(s[pos]))
    } else {
        None
    }
}

/// Whether there is a dot at `pos`.
pub open spec fn dot_at(s: Seq<char>, pos: int) -> bool {
    0 <= pos < s.len() && s[pos] == '.'
}

/// The octet written at `pos` and the position behind it: one to three
/// digits, as many as there are, without a leading zero and worth at most 255.
#[verifier::opaque]
pub open spec fn spec_octet(s: Seq<char>, pos: int) -> Option<(u8, int)> {
    match digit_at(s, pos) {
        None => None,
        Some(v0) => match digit_at(s, pos + 1) {
            None => Some((v0 as u8, pos + 1)),
            Some(v1) => if v0 == 0 {
                None
            } else {
                match digit_at(s, pos + 2) {
                    None => Some(((v0 * 10 + v1) as u8, pos + 2)),
                    Some(v2) => if digit_at(s, pos + 3) is Some || v0 * 100 + v1 * 10 + v2 > 255 {
                        None
                    } else {
                        Some(((v0 * 100 + v1 * 10 + v2) as u8, pos + 3))
                    },
                }
            },
        },
    }
}

/// The address that a text stands for: four octets with a dot between each
/// two, and nothing else.
pub open spec fn spec_parse_ipv4(s: Seq<char>) -> Option<Ipv4> {
    if s.len() > IPV4_TEXT_MAX {
        None
    } else {
        match spec_octet(s, 0) {
            Some((a, at1)) if dot_at(s, at1) => match spec_octet(s, at1 + 1) {
                Some((b, at2)) if dot_at(s, at2) => match spec_octet(s, at2 + 1) {
                    Some((c, at3)) if dot_at(s, at3) => match spec_octet(s, at3 + 1) {
                        Some((d, at4)) if at4 == s.len() => Some(Ipv4 { a, b, c, d }),
                        _ => None,
                    },
                    _ => None,
                },
                _ => None,
            },
            _ => None,
        }
    }
}

/// The text of a decimal digit.
fn digit_str(d: u8) -> (r: &'static str)
    requires
        d < 10,
    ensures
        r@ == seq![digit_char(d as int)],
{
    proof {
        reveal_strlit("0");
        reveal_strlit("1");
        reveal_strlit("2");
        reveal_strlit("3");
        reveal_strlit("4");
        reveal_strlit("5");
        reveal_strlit("6");
        reveal_strlit("7");
        reveal_strlit("8");
        reveal_strlit("9");
    }
    let r = if d == 0 {
        "0"
    } else if d == 1 {
        "1"
    } else if d == 2 {
        "2"
    } else if d == 3 {
        "3"
    } else if d == 4 {
        "4"
    } else if d == 5 {
        "5"
    } else if d == 6 {
        "6"
    } else if d == 7 {
        "7"
    } else if d == 8 {
        "8"
    } else {
        "9"
    };
    assert(r@ =~= seq![digit_char(d as int)]);
    r
}

/// Appends a number in decimal.
pub fn push_decimal(s: &mut String, n: u16)
    ensures
        final(s)@ == old(s)@ + decimal(n as nat),
    decreases n,
{
    if n >= 10 {
        push_decimal(s, n / 10);
    }
    let ghost before = s@;
    s.append(digit_str((n % 10) as u8));
    proof {
        if n >= 10 {
            assert(s@ =~= old(s)@ + decimal((n / 10) as nat).push(digit_char((n % 10) as int)));
        } else {
            assert(s@ =~= old(s)@ + seq![digit_char(n as int)]);
        }
    }
}

/// Appends one character of punctuation.
fn push_mark(s: &mut String, mark: &'static str)
    ensures
        final(s)@ == old(s)@ + mark@,
{
    s.append(mark);
}

/// Reads the digit at `pos`, if there is one.
fn read_digit(s: &str, len: usize, pos: usize) -> (r: Option<u8>)
    requires
        len == s@.len(),
    ensures
        r matches Some(v) ==> digit_at(s@, pos as int) == Some(v as int) && v < 10,
        r is None ==> digit_at(s@, pos as int) is None,
{
    if pos >= len {
        return None;
    }
    let c = s.get_char(pos);
    if c >= '0' && c <= '9' {
        Some((c as u32 - '0' as u32) as u8)
    } else {
        None
    }
}

/// Reads the octet at `pos`.
fn read_octet(s: &str, len: usize, pos: usize) -> (r: Option<(u8, usize)>)
    requires
        len == s@.len(),
        len <= IPV4_TEXT_MAX,
        pos <= len + 1,
    ensures
        r matches Some(o) ==> spec_octet(s@, pos as int) == Some((o.0, o.1 as int)) && pos < o.1
            <= len,
        r is None ==> spec_octet(s@, pos as int) is None,
{
    reveal(spec_octet);
    let v0 = match read_digit(s, len, pos) {
        Some(v) => v,
        None => { return None; },
    };
    let v1 = match read_digit(s, len, pos + 1) {
        Some(v) => v,
        None => { return Some((v0, pos + 1)); },
    };
    if v0 == 0 {
        return None;
    }
    let v2 = match read_digit(s, len, pos + 2) {
        Some(v) => v,
        None => { return Some((v0 * 10 + v1, pos + 2)); },
    };
    if read_digit(s, len, pos + 3).is_some() {
        return None;
    }
    let v: u16 = v0 as u16 * 100 + v1 as u16 * 10 + v2 as u16;
    if v > 255 {
        return None;
    }
    Some((v as u8, pos + 3))
}

/// Says whether there is a dot at `pos`.
fn read_dot(s: &str, len: usize, pos: usize) -> (r: bool)
    requires
        len == s@.len(),
    ensures
        r == dot_at(s@, pos as int),
{
    pos < len && s.get_char(pos) == '.'
}

impl Ipv4 {
    /// Builds an address from its four octets.
    pub fn from_octets(o: [u8; 4]) -> (r: Ipv4)
        ensures
            r == (Ipv4 { a: o[0], b: o[1], c: o[2], d: o[3] }),
    {
        Ipv4 { a: o[0], b: o[1], c: o[2], d: o[3] }
    }

    /// The four octets of the address.
    pub fn octets(&self) -> (r: [u8; 4])
        ensures
            r@ == seq![self.a, self.b, self.c, self.d],
    {
        [self.a, self.b, self.c, self.d]
    }

    /// Reads an address from dotted-decimal text.
    pub fn parse(s: &str) -> (r: Option<Ipv4>)
        ensures
            r == spec_parse_ipv4(s@),
    {
        let len = s.unicode_len();
        if len > IPV4_TEXT_MAX {
            return None;
        }
        let (a, at1) = match read_octet(s, len, 0) {
            Some(o) => o,
            None => { return None; },
        };
        if !read_dot(s, len, at1) {
            return None;
        }
        let (b, at2) = match read_octet(s, len, at1 + 1) {
            Some(o) => o,
            None => { return None; },
        };
        if !read_dot(s, len, at2) {
            return None;
        }
        let (c, at3) = match read_octet(s, len, at2 + 1) {
            Some(o) => o,
            None => { return None; },
        };
        if !read_dot(s, len, at3) {
            return None;
        }
        let (d, at4) = match read_octet(s, len, at3 + 1) {
            Some(o) => o,
            None => { return None; },
        };
        if at4 != len {
            return None;
        }
        Some(Ipv4 { a, b, c, d })
    }

    /// Writes the address in dotted-decimal text.
    pub fn text(&self) -> (r: String)
        ensures
            r@ == ipv4_text(*self),
    {
        proof {
            reveal_strlit(".");
        }
        let mut s = String::new();
        push_decimal(&mut s, self.a as u16);
        push_mark(&mut s, ".");
        push_decimal(&mut s, self.b as u16);
        push_mark(&mut s, ".");
        push_decimal(&mut s, self.c as u16);
        push_mark(&mut s, ".");
        push_decimal(&mut s, self.d as u16);
        assert(s@ =~= ipv4_text(*self)) by {
            assert("."@ =~= seq!['.']);
        }
        s
    }

    /// Writes the address and a port as the text of a socket address.
    pub fn socket(&self, port: u16) -> (r: String)
        ensures
            r@ == socket_text(*self, port),
    {
        proof {
            reveal_strlit(":");
        }
        let mut s = self.text();
        push_mark(&mut s, ":");
        push_decimal(&mut s, port);
        assert(s@ =~= socket_text(*self, port)) by {
            assert(":"@ =~= seq![':']);
        }
        s
    }
}

/// Digits and their characters stand for each other, and a dot is no digit.
pub proof fn lemma_digits(d: int, c: char)
    ensures
        0 <= d < 10 ==> is_digit(digit_char(d)) && digit_value(digit_char(d)) == d,
        is_digit(c) ==> 0 <= digit_value(c) < 10 && digit_char(digit_value(c)) == c,
        !is_digit('.'),
        !is_digit(':'),
{
}

/// The decimal text of an octet, digit by digit.
pub proof fn lemma_decimal_octet(v: u8)
    ensures
        v < 10 ==> decimal(v as nat) == seq![digit_char(v as int)],
        10 <= v < 100 ==> decimal(v as nat) == seq![
            digit_char(v as int / 10),
            digit_char(v as int % 10),
        ],
        100 <= v ==> decimal(v as nat) == seq![
            digit_char(v as int / 100),
            digit_char(v as int / 10 % 10),
            digit_char(v as int % 10),
        ],
        1 <= decimal(v as nat).len() <= 3,
{
    reveal_with_fuel(decimal, 3);
    if v < 10 {
    } else if v < 100 {
        assert(decimal(v as nat) =~= seq![digit_char(v as int / 10), digit_char(v as int % 10)]);
    } else {
        assert((v as nat / 10) / 10 == v as nat / 100);
        assert(decimal(v as nat) =~= seq![
            digit_char(v as int / 100),
            digit_char(v as int / 10 % 10),
            digit_char(v as int % 10),
        ]);
    }
}

/// An octet that is read was written in decimal, at the place where it was
/// read.
pub proof fn lemma_octet_sound(s: Seq<char>, pos: int)
    requires
        spec_octet(s, pos) is Some,
    ensures
        ({
            let (v, next) = spec_octet(s, pos)->0;
            &&& pos < next <= s.len()
            &&& s.subrange(pos, next) == decimal(v as nat)
        }),
{
    reveal(spec_octet);
    let (v, next) = spec_octet(s, pos)->0;
    lemma_decimal_octet(v);
    lemma_digits(0, s[pos]);
    if next == pos + 1 {
        assert(s.subrange(pos, next) =~= decimal(v as nat));
    } else if next == pos + 2 {
        lemma_digits(0, s[pos + 1]);
        let v0 = digit_value(s[pos]);
        let v1 = digit_value(s[pos + 1]);
        assert(v as int == v0 * 10 + v1);
        assert(v as int / 10 == v0 && v as int % 10 == v1);
        assert(s.subrange(pos, next) =~= decimal(v as nat));
    } else {
        lemma_digits(0, s[pos + 1]);
        lemma_digits(0, s[pos + 2]);
        let v0 = digit_value(s[pos]);
        let v1 = digit_value(s[pos + 1]);
        let v2 = digit_value(s[pos + 2]);
        assert(v as int == v0 * 100 + v1 * 10 + v2);
        assert(v as int / 100 == v0 && v as int / 10 % 10 == v1 && v as int % 10 == v2);
        assert(s.subrange(pos, next) =~= decimal(v as nat));
    }
}

/// An octet written in decimal, with no digit behind it, is read as itself.
pub proof fn lemma_octet_complete(s: Seq<char>, pos: int, v: u8)
    requires
        0 <= pos,
        pos + decimal(v as nat).len() <= s.len(),
        s.subrange(pos, pos + decimal(v as nat).len()) == decimal(v as nat),
        digit_at(s, pos + decimal(v as nat).len()) is None,
    ensures
        spec_octet(s, pos) == Some((v, pos + decimal(v as nat).len())),
{
    reveal(spec_octet);
    let text = decimal(v as nat);
    let part = s.subrange(pos, pos + text.len());
    lemma_decimal_octet(v);
    assert(forall|i: int| 0 <= i < text.len() ==> s[pos + i] == #[trigger] part[i]);
    assert(s[pos] == part[0]);
    if v < 10 {
        lemma_digits(v as int, 'x');
    } else if v < 100 {
        assert(s[pos + 1] == part[1]);
        lemma_digits(v as int / 10, 'x');
        lemma_digits(v as int % 10, 'x');
    } else {
        assert(s[pos + 1] == part[1]);
        assert(s[pos + 2] == part[2]);
        lemma_digits(v as int / 100, 'x');
        lemma_digits(v as int / 10 % 10, 'x');
        lemma_digits(v as int % 10, 'x');
    }
}

/// A text that is read as an address is the dotted-decimal text of that
/// address.
pub proof fn lemma_parse_sound(s: Seq<char>)
    requires
        spec_parse_ipv4(s) is Some,
    ensures
        s == ipv4_text(spec_parse_ipv4(s)->0),
{
    let (a, at1) = spec_octet(s, 0)->0;
    let (b, at2) = spec_octet(s, at1 + 1)->0;
    let (c, at3) = spec_octet(s, at2 + 1)->0;
    let (d, at4) = spec_octet(s, at3 + 1)->0;
    lemma_octet_sound(s, 0);
    lemma_octet_sound(s, at1 + 1);
    lemma_octet_sound(s, at2 + 1);
    lemma_octet_sound(s, at3 + 1);
    lemma_dotted(s, at1, at2, at3);
}

/// A text with dots at three places is its four parts with dots between.
proof fn lemma_dotted(s: Seq<char>, at1: int, at2: int, at3: int)
    requires
        0 <= at1 < at2 < at3 < s.len(),
        s[at1] == '.',
        s[at2] == '.',
        s[at3] == '.',
    ensures
        s == s.subrange(0, at1) + seq!['.'] + s.subrange(at1 + 1, at2) + seq!['.'] + s.subrange(
            at2 + 1,
            at3,
        ) + seq!['.'] + s.subrange(at3 + 1, s.len() as int),
{
    assert(s =~= s.subrange(0, at1) + seq!['.'] + s.subrange(at1 + 1, at2) + seq!['.'] + s.subrange(
        at2 + 1,
        at3,
    ) + seq!['.'] + s.subrange(at3 + 1, s.len() as int));
}

/// The dotted-decimal text of an address is read as that address.
pub proof fn lemma_parse_complete(ip: Ipv4)
    ensures
        spec_parse_ipv4(ipv4_text(ip)) == Some(ip),
{
    let s = ipv4_text(ip);
    let ta = decimal(ip.a as nat);
    let tb = decimal(ip.b as nat);
    let tc = decimal(ip.c as nat);
    let td = decimal(ip.d as nat);
    lemma_decimal_octet(ip.a);
    lemma_decimal_octet(ip.b);
    lemma_decimal_octet(ip.c);
    lemma_decimal_octet(ip.d);
    lemma_digits(0, '.');
    let at1 = ta.len() as int;
    let at2 = at1 + 1 + tb.len();
    let at3 = at2 + 1 + tc.len();
    let at4 = at3 + 1 + td.len();
    assert(s.len() == at4);
    assert(s[at1] == '.');
    assert(s[at2] == '.');
    assert(s[at3] == '.');
    assert(s.subrange(0, at1) =~= ta);
    assert(s.subrange(at1 + 1, at2) =~= tb);
    assert(s.subrange(at2 + 1, at3) =~= tc);
    assert(s.subrange(at3 + 1, at4) =~= td);
    lemma_octet_complete(s, 0, ip.a);
    lemma_octet_complete(s, at1 + 1, ip.b);
    lemma_octet_complete(s, at2 + 1, ip.c);
    lemma_octet_complete(s, at3 + 1, ip.d);
}

/// A text is read as an address exactly when it is the dotted-decimal text
/// of that address.
pub proof fn lemma_parse_exact(s: Seq<char>, ip: Ipv4)
    ensures
        spec_parse_ipv4(s) == Some(ip) <==> s == ipv4_text(ip),
{
    if spec_parse_ipv4(s) == Some(ip) {
        lemma_parse_sound(s);
    }
    if s == ipv4_text(ip) {
        lemma_parse_complete(ip);
    }
}

} // verus!

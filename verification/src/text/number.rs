//! Numbers as text.

use vstd::prelude::*;

use crate::text::chars::{self, chars_of};

verus! {

/// The decimal digit of value `d`.
pub open spec fn digit(d: nat) -> char {
    ((48 + d) as u8) as char
}

/// The value of a decimal digit.
pub open spec fn digit_value(c: char) -> nat {
    (c as u32 - 48) as nat
}

/// `n` in decimal, without leading zeros.
pub open spec fn decimal(n: nat) -> Seq<char>
    decreases n,
{
    if n < 10 {
        seq![digit(n)]
    } else {
        decimal(n / 10).push(digit(n % 10))
    }
}

/// `n` in decimal, with a minus sign where it is negative.
pub open spec fn signed_decimal(n: int) -> Seq<char> {
    if n < 0 {
        seq!['-'] + decimal((-n) as nat)
    } else {
        decimal(n as nat)
    }
}

/// `n` in decimal, filled up with zeros on the left to at least `width` digits.
pub open spec fn padded(n: nat, width: nat) -> Seq<char> {
    let d = decimal(n);
    if d.len() < width {
        Seq::new((width - d.len()) as nat, |i: int| '0') + d
    } else {
        d
    }
}

/// How an optional exit code is shown in a message.
pub open spec fn option_debug(n: Option<i32>) -> Seq<char> {
    match n {
        Some(c) => "Some("@ + signed_decimal(c as int) + ")"@,
        None => "None"@,
    }
}

/// Whether `s` consists of decimal digits.
pub open spec fn all_digits(s: Seq<char>) -> bool {
    forall|i: int| 0 <= i < s.len() ==> chars::is_digit(#[trigger] s[i])
}

/// The value of a sequence of decimal digits.
pub open spec fn decimal_value(s: Seq<char>) -> nat
    decreases s.len(),
{
    if s.len() == 0 {
        0
    } else {
        decimal_value(s.drop_last()) * 10 + digit_value(s.last())
    }
}

/// The number that `s` denotes: digits, with an optional plus sign in front,
/// whose value is at most `max`.
pub open spec fn parse_unsigned(s: Seq<char>, max: nat) -> Option<nat> {
    let d = if s.len() > 0 && s[0] == '+' {
        s.drop_first()
    } else {
        s
    };
    if d.len() > 0 && all_digits(d) && decimal_value(d) <= max {
        Some(decimal_value(d))
    } else {
        None
    }
}

/// Each digit character stands for its value.
pub proof fn lemma_digit(d: nat)
    requires
        d < 10,
    ensures
        chars::is_digit(digit(d)),
        digit_value(digit(d)) == d,
{
}

/// A number in decimal consists of digits, at least one, and has its value.
pub proof fn lemma_decimal(n: nat)
    ensures
        decimal(n).len() > 0,
        all_digits(decimal(n)),
        decimal_value(decimal(n)) == n,
    decreases n,
{
    if n < 10 {
        lemma_digit(n);
        assert(decimal(n).drop_last() =~= Seq::<char>::empty());
        reveal_with_fuel(decimal_value, 2);
    } else {
        lemma_decimal(n / 10);
        lemma_digit(n % 10);
        assert(decimal(n).drop_last() =~= decimal(n / 10));
    }
}

/// Reading back a number that was written in decimal gives that number.
pub proof fn lemma_parse_decimal(n: nat, max: nat)
    requires
        n <= max,
    ensures
        parse_unsigned(decimal(n), max) == Some(n),
{
    lemma_decimal(n);
    assert(chars::is_digit(decimal(n)[0]));
}

/// The value of a longer sequence of digits is no smaller.
proof fn lemma_value_monotone(s: Seq<char>, k: int)
    requires
        0 <= k <= s.len(),
    ensures
        decimal_value(s.take(k)) <= decimal_value(s),
    decreases s.len(),
{
    if k < s.len() {
        lemma_value_monotone(s.drop_last(), k);
        assert(s.drop_last().take(k) =~= s.take(k));
    } else {
        assert(s.take(k) =~= s);
    }
}

/// The decimal digit of value `d`.
fn digit_char(d: u8) -> (c: char)
    requires
        d < 10,
    ensures
        c == digit(d as nat),
{
    (48 + d) as char
}

/// `n` in decimal.
pub fn number_text(n: u64) -> (r: String)
    ensures
        r@ == decimal(n as nat),
    decreases n,
{
    if n < 10 {
        let mut s = String::new();
        s.push(digit_char(n as u8));
        assert(s@ =~= seq![digit(n as nat)]);
        s
    } else {
        let mut s = number_text(n / 10);
        s.push(digit_char((n % 10) as u8));
        s
    }
}

/// `n` in decimal.
pub fn wide_number_text(n: u128) -> (r: String)
    ensures
        r@ == decimal(n as nat),
    decreases n,
{
    if n < 10 {
        let mut s = String::new();
        s.push(digit_char(n as u8));
        assert(s@ =~= seq![digit(n as nat)]);
        s
    } else {
        let mut s = wide_number_text(n / 10);
        s.push(digit_char((n % 10) as u8));
        s
    }
}

/// `n` in decimal.
pub fn signed_text(n: i64) -> (r: String)
    ensures
        r@ == signed_decimal(n as int),
{
    if n < 0 {
        let mut s = String::new();
        s.push('-');
        let m: u64 = (-(n as i128)) as u64;
        let d = number_text(m);
        s.append(d.as_str());
        assert(s@ =~= seq!['-'] + decimal(m as nat));
        s
    } else {
        number_text(n as u64)
    }
}

/// `n` in decimal, with at least `width` digits.
pub fn padded_text(n: u64, width: usize) -> (r: String)
    ensures
        r@ == padded(n as nat, width as nat),
{
    let d = number_text(n);
    let k = chars_of(d.as_str()).len();
    let mut s = String::new();
    let mut i: usize = k;
    while i < width
        invariant
            k <= i,
            k <= width ==> i <= width,
            width <= k ==> i == k,
            s@ == Seq::new((i - k) as nat, |j: int| '0'),
        decreases width - i,
    {
        s.push('0');
        i = i + 1;
        assert(s@ =~= Seq::new((i - k) as nat, |j: int| '0'));
    }
    let ghost zeros = s@;
    s.append(d.as_str());
    if k >= width {
        assert(s@ =~= d@);
    }
    s
}

/// How an optional exit code is shown in a message.
pub fn exit_code_text(n: Option<i32>) -> (r: String)
    ensures
        r@ == option_debug(n),
{
    match n {
        Some(c) => {
            let mut s = "Some(".to_string();
            s.append(signed_text(c as i64).as_str());
            s.append(")");
            s
        },
        None => "None".to_string(),
    }
}

/// The number that `s` denotes, if it is at most `max`.
pub fn read_unsigned(s: &str, max: u64) -> (r: Option<u64>)
    ensures
        match r {
            Some(n) => parse_unsigned(s@, max as nat) == Some(n as nat),
            None => parse_unsigned(s@, max as nat) is None,
        },
{
    let cs = chars_of(s);
    let n = cs.len();
    let mut lo: usize = 0;
    if n > 0 && cs[0] == '+' {
        lo = 1;
    }
    let ghost d = cs@.skip(lo as int);
    assert(d =~= if s@.len() > 0 && s@[0] == '+' {
        s@.drop_first()
    } else {
        s@
    });
    if lo == n {
        return None;
    }
    let mut value: u64 = 0;
    let mut i: usize = lo;
    assert(d.take(0) =~= Seq::<char>::empty());
    while i < n
        invariant
            n == cs@.len(),
            lo <= i <= n,
            d == cs@.skip(lo as int),
            d.len() == n - lo,
            d == if s@.len() > 0 && s@[0] == '+' {
                s@.drop_first()
            } else {
                s@
            },
            value <= max,
            all_digits(d.take(i - lo)),
            decimal_value(d.take(i - lo)) == value,
        decreases n - i,
    {
        let c = cs[i];
        assert(d[i - lo] == c);
        if c < '0' || c > '9' {
            return None;
        }
        let v: u64 = (c as u32 - 48) as u64;
        let next: u128 = (value as u128) * 10 + (v as u128);
        proof {
            let t = d.take(i - lo + 1);
            assert(t.drop_last() =~= d.take(i - lo));
            assert(t.last() == c);
            assert(decimal_value(t) == next);
            lemma_value_monotone(d, i - lo + 1);
        }
        if next > (max as u128) {
            return None;
        }
        value = next as u64;
        i = i + 1;
    }
    assert(d.take(n - lo) =~= d);
    Some(value)
}

/// The port number that `s` denotes.
pub fn read_port(s: &str) -> (r: Option<u16>)
    ensures
        match r {
            Some(n) => parse_unsigned(s@, u16::MAX as nat) == Some(n as nat),
            None => parse_unsigned(s@, u16::MAX as nat) is None,
        },
{
    match read_unsigned(s, 65535) {
        Some(n) => Some(n as u16),
        None => None,
    }
}

/// The hexadecimal digit of value `d`, in lower case.
pub open spec fn hex_digit(d: nat) -> char {
    if d < 10 {
        ((48 + d) as u8) as char
    } else {
        ((87 + d) as u8) as char
    }
}

/// Bytes in lower-case hexadecimal, two digits each.
pub open spec fn hex(b: Seq<u8>) -> Seq<char> {
    Seq::new(
        b.len() * 2,
        |i: int|
            if i % 2 == 0 {
                hex_digit((b[i / 2] / 16) as nat)
            } else {
                hex_digit((b[i / 2] % 16) as nat)
            },
    )
}

/// The hexadecimal digit of value `d`.
fn hex_char(d: u8) -> (c: char)
    requires
        d < 16,
    ensures
        c == hex_digit(d as nat),
{
    if d < 10 {
        (48 + d) as char
    } else {
        (87 + d) as char
    }
}

/// Bytes in lower-case hexadecimal.
pub fn hex_text(b: &Vec<u8>) -> (r: String)
    ensures
        r@ == hex(b@),
{
    let mut s = String::new();
    let mut i: usize = 0;
    while i < b.len()
        invariant
            i <= b@.len(),
            s@ == hex(b@.take(i as int)),
        decreases b@.len() - i,
    {
        let ghost before = s@;
        s.push(hex_char(b[i] / 16));
        s.push(hex_char(b[i] % 16));
        i = i + 1;
        proof {
            let t = hex(b@.take(i as int));
            assert(t.len() == 2 * i);
            assert forall|j: int| 0 <= j < t.len() implies s@[j] == t[j] by {
                if j < 2 * (i - 1) {
                    assert(before[j] == hex(b@.take(i - 1))[j]);
                    assert(b@.take(i - 1)[j / 2] == b@.take(i as int)[j / 2]);
                } else {
                    assert(j / 2 == i - 1);
                    assert(b@.take(i as int)[i - 1] == b@[i - 1]);
                }
            }
            assert(s@ =~= t);
        }
    }
    assert(b@.take(i as int) =~= b@);
    s
}

/// A negative number has a minus sign in front of its digits; zeros that fill a number up
/// do not change its value, and fill it up to the width.
pub proof fn lemma_number_forms(n: nat, width: nat)
    ensures
        n > 0 ==> signed_decimal(-n) == seq!['-'] + decimal(n),
        signed_decimal(n as int) == decimal(n),
        padded(n, width).len() >= width,
        decimal(n).len() <= width ==> padded(n, width).len() == width,
        all_digits(padded(n, width)),
        decimal_value(padded(n, width)) == n,
        option_debug(None) == "None"@,
    decreases width,
{
    lemma_decimal(n);
    let d = decimal(n);
    let p = padded(n, width);
    if d.len() < width {
        let zeros = Seq::new((width - d.len()) as nat, |i: int| '0');
        assert forall|i: int| 0 <= i < p.len() implies chars::is_digit(#[trigger] p[i]) by {
            if i >= zeros.len() {
                assert(p[i] == d[i - zeros.len()]);
            }
        }
        lemma_leading_zeros(zeros.len(), d);
    }
}

/// Zeros in front do not change a value.
proof fn lemma_leading_zeros(n: nat, d: Seq<char>)
    ensures
        decimal_value(Seq::new(n, |i: int| '0') + d) == decimal_value(d),
    decreases n + d.len(),
{
    let zeros = Seq::new(n, |i: int| '0');
    let s = zeros + d;
    if d.len() > 0 {
        lemma_leading_zeros(n, d.drop_last());
        assert(s.drop_last() =~= zeros + d.drop_last());
        assert(s.last() == d.last());
    } else if n > 0 {
        let m = (n - 1) as nat;
        lemma_leading_zeros(m, d);
        assert(s.drop_last() =~= Seq::new(m, |i: int| '0') + d);
        assert(s.last() == '0');
    }
}

/// Each byte is written as two digits, the high one first: 0 to 9, then a to f.
pub proof fn lemma_hex(b: Seq<u8>, i: int)
    requires
        0 <= i < b.len(),
    ensures
        hex(b).len() == 2 * b.len(),
        hex(b)[2 * i] == hex_digit((b[i] / 16) as nat),
        hex(b)[2 * i + 1] == hex_digit((b[i] % 16) as nat),
        hex_digit(0) == '0' && hex_digit(9) == '9' && hex_digit(10) == 'a' && hex_digit(15) == 'f',
{
    assert((2 * i) % 2 == 0 && (2 * i) / 2 == i);
    assert((2 * i + 1) % 2 == 1 && (2 * i + 1) / 2 == i);
}

} // verus!

//! Decimal numerals: rendering and reading.
use vstd::prelude::*;
use crate::text::{chars_of, text_of};

verus! {

/// The digit character of a value below ten.
pub open spec fn digit_char(d: nat) -> char {
    ((48 + d % 10) as u32) as char
}

/// The decimal numeral of a natural number, without leading zeros.
pub open spec fn dec(n: nat) -> Seq<char>
    decreases n,
{
    if n < 10 {
        seq![digit_char(n)]
    } else {
        dec(n / 10).push(digit_char(n % 10))
    }
}

/// The decimal numeral of an integer, with a minus sign where it is negative.
pub open spec fn dec_int(n: int) -> Seq<char> {
    if n < 0 {
        seq!['-'] + dec((-n) as nat)
    } else {
        dec(n as nat)
    }
}

/// The decimal numeral with at least `width` digits, padded with zeros.
pub open spec fn dec_pad(n: nat, width: nat) -> Seq<char>
    decreases width,
{
    if dec(n).len() >= width || width == 0 {
        dec(n)
    } else {
        pad_zeros((width - dec(n).len()) as nat) + dec(n)
    }
}

pub open spec fn pad_zeros(k: nat) -> Seq<char> {
    Seq::new(k, |i: int| '0')
}

pub open spec fn is_digit(c: char) -> bool {
    '0' <= c <= '9'
}

pub open spec fn digit_value(c: char) -> nat {
    (c as u32 - 48) as nat
}

/// Every character is a decimal digit and there is at least one.
pub open spec fn is_numeral(s: Seq<char>) -> bool {
    s.len() > 0 && forall|i: int| 0 <= i < s.len() ==> is_digit(#[trigger] s[i])
}

/// The value of a string of decimal digits.
pub open spec fn numeral_value(s: Seq<char>) -> nat
    decreases s.len(),
{
    if s.len() == 0 {
        0
    } else {
        numeral_value(s.drop_last()) * 10 + digit_value(s.last())
    }
}

/// What reading `s` as an unsigned integer of at most `max` gives: digits after
/// an optional plus sign.
pub open spec fn read_uint(s: Seq<char>, max: nat) -> Option<nat> {
    let digits = if s.len() > 0 && s[0] == '+' {
        s.drop_first()
    } else {
        s
    };
    if is_numeral(digits) && numeral_value(digits) <= max {
        Some(numeral_value(digits))
    } else {
        None
    }
}

pub proof fn lemma_dec_digits(n: nat)
    ensures
        is_numeral(dec(n)),
        numeral_value(dec(n)) == n,
    decreases n,
{
    if n < 10 {
        assert(dec(n).drop_last() =~= Seq::<char>::empty());
        assert(numeral_value(dec(n).drop_last()) == 0);
    } else {
        lemma_dec_digits(n / 10);
        assert(dec(n).drop_last() =~= dec(n / 10));
    }
}

/// Reading back the numeral of a number gives the number.
pub proof fn reading_inverts_rendering(n: nat, max: nat)
    requires
        n <= max,
    ensures
        read_uint(dec(n), max) == Some(n),
{
    lemma_dec_digits(n);
    assert(is_digit(dec(n)[0]));
}

/// The decimal numeral of `n`.
pub fn decimal(n: u64) -> (r: String)
    ensures
        r@ == dec(n as nat),
{
    let v = decimal_chars(n);
    text_of(v.as_slice())
}

fn decimal_chars(n: u64) -> (r: Vec<char>)
    ensures
        r@ == dec(n as nat),
    decreases n,
{
    let d: u8 = (n % 10) as u8;
    let c: char = (48 + d) as char;
    assert(c == digit_char((n % 10) as nat));
    if n < 10 {
        let mut v: Vec<char> = Vec::new();
        v.push(c);
        assert(v@ =~= dec(n as nat));
        v
    } else {
        let mut v = decimal_chars(n / 10);
        v.push(c);
        v
    }
}

/// The decimal numeral of a signed number.
pub fn decimal_signed(n: i64) -> (r: String)
    ensures
        r@ == dec_int(n as int),
{
    if n < 0 {
        let m: u64 = if n == i64::MIN {
            9223372036854775808u64
        } else {
            (-n) as u64
        };
        let d = decimal(m);
        let r = crate::text::cat2("-", d.as_str());
        proof {
            reveal_strlit("-");
            assert("-"@ =~= seq!['-']);
        }
        r
    } else {
        decimal(n as u64)
    }
}

/// The decimal numeral padded with zeros to at least `width` digits.
pub fn decimal_padded(n: u64, width: usize) -> (r: String)
    ensures
        r@ == dec_pad(n as nat, width as nat),
{
    let v = decimal_chars(n);
    if v.len() >= width {
        return text_of(v.as_slice());
    }
    let mut out = String::new();
    let k: usize = width - v.len();
    let mut i: usize = 0;
    while i < k
        invariant
            i <= k,
            out@ == pad_zeros(i as nat),
        decreases k - i,
    {
        out.push('0');
        assert(out@ =~= pad_zeros((i + 1) as nat));
        i += 1;
    }
    crate::text::cat2(out.as_str(), text_of(v.as_slice()).as_str())
}

/// The number that a text of decimal digits denotes, up to `max`.
pub fn parse_uint(s: &str, max: u64) -> (r: Option<u64>)
    ensures
        match r {
            Some(n) => read_uint(s@, max as nat) == Some(n as nat),
            None => read_uint(s@, max as nat) is None,
        },
{
    let v = chars_of(s);
    let start: usize = if v.len() > 0 && v[0] == '+' {
        1
    } else {
        0
    };
    let ghost digits = s@.skip(start as int);
    proof {
        assert(s@.skip(0) =~= s@);
        assert(start == 1 ==> s@.drop_first() =~= digits);
    }
    if v.len() == start {
        return None;
    }
    let mut acc: u64 = 0;
    let mut i: usize = start;
    assert(digits.take(0) =~= Seq::<char>::empty());
    while i < v.len()
        invariant
            start <= i <= v@.len(),
            v@ == s@,
            digits == s@.skip(start as int),
            acc == numeral_value(digits.take(i - start)),
            acc <= max,
            forall|j: int| 0 <= j < i - start ==> is_digit(#[trigger] digits[j]),
            read_uint(s@, max as nat) == (if is_numeral(digits) && numeral_value(digits) <= max {
                Some(numeral_value(digits))
            } else {
                None
            }),
        decreases v@.len() - i,
    {
        let c: char = v[i];
        assert(digits[i - start] == c);
        if !('0' <= c && c <= '9') {
            return None;
        }
        let d: u64 = (c as u8 - 48) as u64;
        proof {
            assert(digits.take(i - start + 1).drop_last() =~= digits.take(i - start));
            lemma_numeral_prefix(digits, i - start + 1);
        }
        if d > max || acc > max / 10 || acc * 10 > max - d {
            return None;
        }
        acc = acc * 10 + d;
        i += 1;
    }
    assert(digits.take(i - start) =~= digits);
    Some(acc)
}

/// A numeral is worth at least as much as any of its prefixes.
proof fn lemma_numeral_prefix(s: Seq<char>, k: int)
    requires
        0 <= k <= s.len(),
    ensures
        is_numeral(s) ==> numeral_value(s.take(k)) <= numeral_value(s),
    decreases s.len(),
{
    if is_numeral(s) {
        if k == s.len() {
            assert(s.take(k) =~= s);
        } else {
            let p = s.drop_last();
            assert(p.take(k) =~= s.take(k));
            if p.len() > 0 {
                assert forall|i: int| 0 <= i < p.len() implies is_digit(#[trigger] p[i]) by {
                    assert(is_digit(s[i]));
                }
                lemma_numeral_prefix(p, k);
            }
            assert(numeral_value(s) >= numeral_value(p));
        }
    }
}

/// What reading `s` as a signed 64-bit integer gives: digits after an optional
/// sign.
pub open spec fn read_int(s: Seq<char>) -> Option<int> {
    if s.len() > 0 && s[0] == '-' {
        let digits = s.drop_first();
        if is_numeral(digits) && numeral_value(digits) <= 9223372036854775808 {
            Some(-(numeral_value(digits) as int))
        } else {
            None
        }
    } else {
        match read_uint(s, 9223372036854775807) {
            Some(n) => Some(n as int),
            None => None,
        }
    }
}

/// The signed number that a text denotes.
pub fn parse_int(s: &str) -> (r: Option<i64>)
    ensures
        match r {
            Some(n) => read_int(s@) == Some(n as int),
            None => read_int(s@) is None,
        },
{
    let v = chars_of(s);
    if v.len() > 0 && v[0] == '-' {
        let rest = crate::text::text_range(&v, 1, v.len());
        assert(rest@ =~= s@.drop_first());
        if v.len() > 1 && v[1] == '+' {
            assert(!is_digit(rest@[0]));
            return None;
        }
        match parse_uint(rest.as_str(), 9223372036854775808) {
            Some(n) => {
                if n == 9223372036854775808 {
                    Some(i64::MIN)
                } else {
                    Some(-(n as i64))
                }
            },
            None => None,
        }
    } else {
        match parse_uint(s, 9223372036854775807) {
            Some(n) => Some(n as i64),
            None => None,
        }
    }
}

} // verus!

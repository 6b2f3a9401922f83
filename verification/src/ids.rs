//! Universally unique identifiers as numbers and as text.
use vstd::prelude::*;

verus! {

/// A hexadecimal digit in lower case.
pub open spec fn hex_char(d: nat) -> char {
    if d % 16 < 10 {
        ((48 + d % 16) as u32) as char
    } else {
        ((87 + d % 16) as u32) as char
    }
}

/// The last `w` hexadecimal digits of a number.
pub open spec fn hex_digits(n: nat, w: nat) -> Seq<char>
    decreases w,
{
    if w == 0 {
        Seq::empty()
    } else {
        hex_digits(n / 16, (w - 1) as nat).push(hex_char(n % 16))
    }
}

/// The thirty-two digits in groups of eight, four, four, four and twelve.
pub open spec fn hyphenated(n: u128) -> Seq<char> {
    let h = hex_digits(n as nat, 32);
    h.subrange(0, 8) + seq!['-'] + h.subrange(8, 12) + seq!['-'] + h.subrange(12, 16) + seq!['-']
        + h.subrange(16, 20) + seq!['-'] + h.subrange(20, 32)
}

pub proof fn lemma_hex_len(n: nat, w: nat)
    ensures
        hex_digits(n, w).len() == w,
    decreases w,
{
    if w > 0 {
        lemma_hex_len(n / 16, (w - 1) as nat);
    }
}

/// A hyphenated identifier has thirty-six characters.
pub proof fn hyphenated_has_36_characters(n: u128)
    ensures
        hyphenated(n).len() == 36,
{
    lemma_hex_len(n as nat, 32);
}

/// The outcome of reading an identifier: its number, or the error's text.
pub uninterp spec fn uuid_read(text: Seq<char>) -> Result<u128, Seq<char>>;

/// The number is that of a random identifier: its version is 4, and its variant the
/// usual one.
pub open spec fn is_random(n: u128) -> bool {
    (n >> 76) & 0xf == 4 && (n >> 62) & 3 == 2
}

/// The text of an identifier that was drawn at random.
pub open spec fn is_fresh_id(s: Seq<char>) -> bool {
    exists|n: u128| #[trigger] is_random(n) && s == hyphenated(n)
}

/// `uuid::Uuid::new_v4`: some identifier, chosen at random but for the bits of its
/// version and its variant.
#[verifier::external_body]
pub(crate) fn random_uuid() -> (r: u128)
    ensures
        is_random(r),
{
    uuid::Uuid::new_v4().as_u128()
}

/// The display form of `uuid::Uuid`: lower-case hexadecimal digits with hyphens.
/// `uuid::Uuid::parse_str` reads it back.
#[verifier::external_body]
pub(crate) fn uuid_text(n: u128) -> (r: String)
    ensures
        r@ == hyphenated(n),
        uuid_read(r@) is Ok && uuid_read(r@)->Ok_0 == n,
{
    uuid::Uuid::from_u128(n).to_string()
}

/// The simple form of `uuid::Uuid`: lower-case hexadecimal digits and nothing else.
#[verifier::external_body]
pub(crate) fn uuid_simple(n: u128) -> (r: String)
    ensures
        r@ == hex_digits(n as nat, 32),
{
    uuid::Uuid::from_u128(n).simple().to_string()
}

/// `uuid::Uuid::parse_str`: reads an identifier in any of its forms. The result
/// is named [`uuid_read`]; an error is given by its text.
#[verifier::external_body]
pub(crate) fn parse_uuid(text: &str) -> (r: Result<u128, String>)
    ensures
        match r {
            Ok(n) => uuid_read(text@) == Ok::<u128, Seq<char>>(n),
            Err(e) => uuid_read(text@) == Err::<u128, Seq<char>>(e@),
        },
{
    uuid::Uuid::parse_str(text).map(|u| u.as_u128()).map_err(|e| e.to_string())
}

/// The value of a hexadecimal digit.
pub open spec fn hex_worth(c: char) -> nat {
    if '0' <= c <= '9' {
        (c as u32 - 48) as nat
    } else {
        (c as u32 - 87) as nat
    }
}

/// The value of hexadecimal digits.
pub open spec fn hex_value_of(s: Seq<char>) -> nat
    decreases s.len(),
{
    if s.len() == 0 {
        0
    } else {
        hex_value_of(s.drop_last()) * 16 + hex_worth(s.last())
    }
}

/// Hexadecimal digits are small, as many as asked for, and give the number back, less
/// what they have no room for.
pub proof fn digits_give_the_number_back(n: nat, w: nat)
    ensures
        hex_digits(n, w).len() == w,
        hex_value_of(hex_digits(n, w)) == n % sixteen_to(w),
        sixteen_to(w) > 0,
        forall|i: int|
            0 <= i < w ==> {
                let c = #[trigger] hex_digits(n, w)[i];
                ('0' <= c <= '9') || ('a' <= c <= 'f')
            },
    decreases w,
{
    if w > 0 {
        let v = (w - 1) as nat;
        digits_give_the_number_back(n / 16, v);
        let s = hex_digits(n, w);
        let p = hex_digits(n / 16, v);
        assert(s.drop_last() =~= p);
        let k = sixteen_to(v);
        assert(hex_worth(hex_char(n % 16)) == n % 16);
        assert(n % (16 * k) == (n / 16) % k * 16 + n % 16) by {
            vstd::arithmetic::div_mod::lemma_breakdown(n as int, 16, k as int);
        }
        assert forall|i: int| 0 <= i < w implies {
            let c = #[trigger] s[i];
            ('0' <= c <= '9') || ('a' <= c <= 'f')
        } by {
            if i < v {
                assert(s[i] == p[i]);
            }
        }
    }
}

/// A power of sixteen.
pub open spec fn sixteen_to(w: nat) -> nat
    decreases w,
{
    if w == 0 {
        1
    } else {
        16 * sixteen_to((w - 1) as nat)
    }
}

} // verus!

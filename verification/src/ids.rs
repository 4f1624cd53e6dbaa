//! Identities: UUIDs as the number that their 128 bits make.

use crate::text::hex_digit;
use uuid::Uuid;
use vstd::arithmetic::div_mod::lemma_mod_breakdown;
use vstd::prelude::*;

verus! {

/// The last digits of a number to the base 16, in lower case.
pub open spec fn hex_digits(n: int, digits: nat) -> Seq<char>
    decreases digits,
{
    if digits == 0 {
        Seq::empty()
    } else {
        hex_digits(n / 16, (digits - 1) as nat).push(hex_digit(n % 16))
    }
}

/// The text of a UUID: its 32 digits to the base 16 in lower case, in groups with hyphens
/// between them.
pub open spec fn id_text(id: u128) -> Seq<char> {
    let n = id as int;
    hex_digits(n / 0x1_0000_0000_0000_0000_0000_0000, 8) + seq!['-'] + hex_digits(
        n / 0x1_0000_0000_0000_0000_0000,
        4,
    ) + seq!['-'] + hex_digits(n / 0x1_0000_0000_0000_0000, 4) + seq!['-'] + hex_digits(
        n / 0x1_0000_0000_0000,
        4,
    ) + seq!['-'] + hex_digits(n, 12)
}

/// The UUID that a text spells, in any of the forms that the `uuid` crate reads.
pub uninterp spec fn parsed_id(text: Seq<char>) -> Option<u128>;

/// Calls `Uuid::to_string`: the hyphenated text, which reads back as the same UUID.
#[verifier::external_body]
pub(crate) fn id_to_text(id: u128) -> (text: String)
    ensures
        text@ == id_text(id),
        parsed_id(text@) == Some(id),
{
    Uuid::from_u128(id).to_string()
}

/// Calls `Uuid::parse_str`.
#[verifier::external_body]
pub(crate) fn parse_id(text: &str) -> (id: Option<u128>)
    ensures
        id == parsed_id(text@),
{
    Uuid::parse_str(text).ok().map(|id| id.as_u128())
}

/// Calls `Uuid::now_v7`: a new identity, made of the time and of chance. Nothing is
/// known of it.
#[verifier::external_body]
pub(crate) fn new_id() -> (id: u128)
{
    Uuid::now_v7().as_u128()
}

/// The number of numbers with so many digits to the base 16.
spec fn power(digits: nat) -> int
    decreases digits,
{
    if digits == 0 {
        1
    } else {
        16 * power((digits - 1) as nat)
    }
}

proof fn power_is_positive(digits: nat)
    ensures
        power(digits) > 0,
    decreases digits,
{
    if digits > 0 {
        power_is_positive((digits - 1) as nat);
    }
}

proof fn digits_have_length(n: int, digits: nat)
    ensures
        hex_digits(n, digits).len() == digits,
    decreases digits,
{
    if digits > 0 {
        digits_have_length(n / 16, (digits - 1) as nat);
    }
}

proof fn digits_can_be_told(a: int, b: int, digits: nat)
    requires
        0 <= a,
        0 <= b,
        hex_digits(a, digits) == hex_digits(b, digits),
    ensures
        a % power(digits) == b % power(digits),
    decreases digits,
{
    if digits > 0 {
        let fewer = (digits - 1) as nat;
        let left = hex_digits(a, digits);
        let right = hex_digits(b, digits);
        assert(left.last() == hex_digit(a % 16));
        assert(right.last() == hex_digit(b % 16));
        assert(a % 16 == b % 16);
        assert(hex_digits(a / 16, fewer) =~= left.drop_last());
        assert(hex_digits(b / 16, fewer) =~= right.drop_last());
        digits_can_be_told(a / 16, b / 16, fewer);
        power_is_positive(fewer);
        lemma_mod_breakdown(a, 16, power(fewer));
        lemma_mod_breakdown(b, 16, power(fewer));
    }
}

/// Five texts with hyphens between them.
spec fn hyphenated(
    a: Seq<char>,
    b: Seq<char>,
    c: Seq<char>,
    d: Seq<char>,
    e: Seq<char>,
) -> Seq<char> {
    a + seq!['-'] + b + seq!['-'] + c + seq!['-'] + d + seq!['-'] + e
}

/// The places of the groups in a text of five groups.
proof fn groups_have_places(
    a: Seq<char>,
    b: Seq<char>,
    c: Seq<char>,
    d: Seq<char>,
    e: Seq<char>,
)
    requires
        a.len() == 8,
        b.len() == 4,
        c.len() == 4,
        d.len() == 4,
        e.len() == 12,
    ensures
        hyphenated(a, b, c, d, e).subrange(0, 8) == a,
        hyphenated(a, b, c, d, e).subrange(9, 13) == b,
        hyphenated(a, b, c, d, e).subrange(14, 18) == c,
        hyphenated(a, b, c, d, e).subrange(19, 23) == d,
        hyphenated(a, b, c, d, e).subrange(24, 36) == e,
{
}

proof fn group_texts(n: int)
    requires
        0 <= n < 0x1_0000_0000_0000_0000_0000_0000_0000_0000,
    ensures
        id_text(n as u128).subrange(0, 8) == hex_digits(
            n / 0x1_0000_0000_0000_0000_0000_0000,
            8,
        ),
        id_text(n as u128).subrange(9, 13) == hex_digits(n / 0x1_0000_0000_0000_0000_0000, 4),
        id_text(n as u128).subrange(14, 18) == hex_digits(n / 0x1_0000_0000_0000_0000, 4),
        id_text(n as u128).subrange(19, 23) == hex_digits(n / 0x1_0000_0000_0000, 4),
        id_text(n as u128).subrange(24, 36) == hex_digits(n, 12),
{
    let a = hex_digits(n / 0x1_0000_0000_0000_0000_0000_0000, 8);
    let b = hex_digits(n / 0x1_0000_0000_0000_0000_0000, 4);
    let c = hex_digits(n / 0x1_0000_0000_0000_0000, 4);
    let d = hex_digits(n / 0x1_0000_0000_0000, 4);
    let e = hex_digits(n, 12);
    digits_have_length(n / 0x1_0000_0000_0000_0000_0000_0000, 8);
    digits_have_length(n / 0x1_0000_0000_0000_0000_0000, 4);
    digits_have_length(n / 0x1_0000_0000_0000_0000, 4);
    digits_have_length(n / 0x1_0000_0000_0000, 4);
    digits_have_length(n, 12);
    groups_have_places(a, b, c, d, e);
}

proof fn powers_of_groups()
    ensures
        power(4) == 0x1_0000,
        power(8) == 0x1_0000_0000,
        power(12) == 0x1_0000_0000_0000,
{
    reveal_with_fuel(power, 13);
}

/// A number below 2^128 is known by its five groups of digits.
proof fn groups_make_the_number(m: int, n: int)
    requires
        0 <= m < 0x1_0000_0000_0000_0000_0000_0000_0000_0000,
        0 <= n < 0x1_0000_0000_0000_0000_0000_0000_0000_0000,
        (m / 0x1_0000_0000_0000_0000_0000_0000) % 0x1_0000_0000 == (n
            / 0x1_0000_0000_0000_0000_0000_0000) % 0x1_0000_0000,
        (m / 0x1_0000_0000_0000_0000_0000) % 0x1_0000 == (n / 0x1_0000_0000_0000_0000_0000)
            % 0x1_0000,
        (m / 0x1_0000_0000_0000_0000) % 0x1_0000 == (n / 0x1_0000_0000_0000_0000) % 0x1_0000,
        (m / 0x1_0000_0000_0000) % 0x1_0000 == (n / 0x1_0000_0000_0000) % 0x1_0000,
        m % 0x1_0000_0000_0000 == n % 0x1_0000_0000_0000,
    ensures
        m == n,
{
    assert(m / 0x1_0000_0000_0000_0000_0000_0000 == n / 0x1_0000_0000_0000_0000_0000_0000);
    assert(m / 0x1_0000_0000_0000_0000_0000 == n / 0x1_0000_0000_0000_0000_0000);
    assert(m / 0x1_0000_0000_0000_0000 == n / 0x1_0000_0000_0000_0000);
    assert(m / 0x1_0000_0000_0000 == n / 0x1_0000_0000_0000);
}

/// Different identities have different texts.
pub proof fn ids_can_be_told(a: u128, b: u128)
    requires
        id_text(a) == id_text(b),
    ensures
        a == b,
{
    let m = a as int;
    let n = b as int;
    group_texts(m);
    group_texts(n);
    digits_can_be_told(
        m / 0x1_0000_0000_0000_0000_0000_0000,
        n / 0x1_0000_0000_0000_0000_0000_0000,
        8,
    );
    digits_can_be_told(m / 0x1_0000_0000_0000_0000_0000, n / 0x1_0000_0000_0000_0000_0000, 4);
    digits_can_be_told(m / 0x1_0000_0000_0000_0000, n / 0x1_0000_0000_0000_0000, 4);
    digits_can_be_told(m / 0x1_0000_0000_0000, n / 0x1_0000_0000_0000, 4);
    digits_can_be_told(m, n, 12);
    powers_of_groups();
    groups_make_the_number(m, n);
}

} // verus!

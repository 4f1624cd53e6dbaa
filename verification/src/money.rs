//! Money in cents, and percentages in hundredths.

use crate::text::chars_of;
use crate::text::decimal;
use crate::text::decimal_reads_back;
use crate::text::decimal_text;
use crate::text::index_from;
use crate::text::index_from_at;
use crate::text::is_digit;
use crate::text::is_number;
use crate::text::number;
use crate::text::number_within;
use crate::text::two_digit_text;
use crate::text::two_digits;
use crate::text::two_digits_read_back;
use vstd::prelude::*;

verus! {

/// An amount without its sign: units, a point and two digits.
pub open spec fn unsigned_cents_text(cents: nat) -> Seq<char> {
    decimal(cents / 100) + "."@ + two_digits((cents % 100) as int)
}

/// An amount of cents: `-1.50`.
pub open spec fn cents_text(cents: int) -> Seq<char> {
    if cents < 0 {
        "-"@ + unsigned_cents_text((-cents) as nat)
    } else {
        unsigned_cents_text(cents as nat)
    }
}

/// An amount of cents as units with two decimals.
pub fn format_cents_plain(cents: i64) -> (text: String)
    ensures
        text@ == cents_text(cents as int),
{
    let mut text = String::new();
    let size: u128 = if cents < 0 {
        text.append("-");
        (-(cents as i128)) as u128
    } else {
        cents as u128
    };
    text.append(decimal_text(size / 100).as_str());
    text.append(".");
    text.append(two_digit_text((size % 100) as u32).as_str());
    proof {
        assert(text@ =~= cents_text(cents as int));
    }
    text
}

/// An amount of cents after its currency.
pub fn format_cents(cents: i64, currency: &str) -> (text: String)
    ensures
        text@ == currency@ + " "@ + cents_text(cents as int),
{
    let mut text = currency.to_owned();
    text.append(" ");
    text.append(format_cents_plain(cents).as_str());
    text
}

/// The hundredths that a number with at most two decimals stands for.
pub open spec fn hundredths(s: Seq<char>) -> Option<nat> {
    let point = index_from(s, '.', 0);
    let whole = s.subrange(0, point);
    if !is_number(whole) {
        None
    } else if point == s.len() {
        Some(number(whole) * 100)
    } else {
        let decimals = s.subrange(point + 1, s.len() as int);
        if !is_number(decimals) || decimals.len() > 2 {
            None
        } else if decimals.len() == 1 {
            Some(number(whole) * 100 + number(decimals) * 10)
        } else {
            Some(number(whole) * 100 + number(decimals))
        }
    }
}

/// The hundredths of a number with at most two decimals, where they are at most `limit`.
fn hundredths_within(chars: &Vec<char>, from: usize, limit: u64) -> (n: Option<u64>)
    requires
        from <= chars.len(),
    ensures
        ({
            let found = hundredths(chars@.subrange(from as int, chars.len() as int));
            n == (if found is Some && found->0 <= limit {
                Some(found->0 as u64)
            } else {
                None
            })
        }),
{
    let end: usize = chars.len();
    let ghost s = chars@.subrange(from as int, end as int);
    let mut point: usize = from;
    while point < end && chars[point] != '.'
        invariant
            from <= point <= end,
            end == chars.len(),
            s == chars@.subrange(from as int, end as int),
            forall|k: int| 0 <= k < point - from ==> s[k] != '.',
        decreases end - point,
    {
        point += 1;
    }
    proof {
        index_from_at(s, '.', 0, point - from);
        assert(s.subrange(0, point - from) =~= chars@.subrange(from as int, point as int));
    }
    let whole: u64 = match number_within(chars, from, point, limit / 100) {
        Some(whole) => whole,
        None => {
            return None;
        },
    };
    if point == end {
        return Some(whole * 100);
    }
    proof {
        assert(s.subrange(point - from + 1, s.len() as int) =~= chars@.subrange(
            point + 1,
            end as int,
        ));
    }
    let places: usize = end - point - 1;
    if places > 2 {
        return None;
    }
    let ghost decimals = chars@.subrange(point + 1, end as int);
    proof {
        if is_number(decimals) {
            small_number(decimals);
        }
    }
    match number_within(chars, point + 1, end, 99) {
        Some(rest) => {
            let hundreds: u128 = whole as u128 * 100 + if places == 1 {
                rest as u128 * 10
            } else {
                rest as u128
            };
            if hundreds <= limit as u128 {
                Some(hundreds as u64)
            } else {
                None
            }
        },
        None => None,
    }
}

/// One or two digits make a number below a hundred.
proof fn small_number(s: Seq<char>)
    requires
        is_number(s),
        s.len() <= 2,
    ensures
        s.len() == 1 ==> number(s) < 10,
        number(s) < 100,
{
    assert(is_digit(s[0]));
    if s.len() == 1 {
        assert(s.drop_last() =~= Seq::<char>::empty());
        assert(number(s.drop_last()) == 0);
    } else {
        assert(is_digit(s[1]));
        let t = s.drop_last();
        assert(t[0] == s[0]);
        assert(t.drop_last() =~= Seq::<char>::empty());
        assert(number(t.drop_last()) == 0);
        assert(number(t) < 10);
    }
}

/// The amount of cents that a text stands for: an optional minus, units and at most two
/// decimals, within what an `i64` can hold.
pub open spec fn parsed_cents(s: Seq<char>) -> Option<i64> {
    if s.len() > 0 && s[0] == '-' {
        match hundredths(s.subrange(1, s.len() as int)) {
            Some(n) => if n <= i64::MAX + 1 {
                Some((-n) as i64)
            } else {
                None
            },
            None => None,
        }
    } else {
        match hundredths(s) {
            Some(n) => if n <= i64::MAX {
                Some(n as i64)
            } else {
                None
            },
            None => None,
        }
    }
}

/// Reads an exact amount of cents.
pub fn parse_cents(text: &str) -> (cents: Option<i64>)
    ensures
        cents == parsed_cents(text@),
{
    let chars = chars_of(text);
    proof {
        assert(chars@.subrange(0, chars.len() as int) =~= chars@);
    }
    if chars.len() > 0 && chars[0] == '-' {
        match hundredths_within(&chars, 1, 0x8000_0000_0000_0000) {
            Some(n) => Some((-(n as i128)) as i64),
            None => None,
        }
    } else {
        match hundredths_within(&chars, 0, 0x7fff_ffff_ffff_ffff) {
            Some(n) => Some(n as i64),
            None => None,
        }
    }
}

/// An amount without its sign reads back as itself.
pub proof fn unsigned_cents_read_back(cents: nat)
    ensures
        hundredths(unsigned_cents_text(cents)) == Some(cents),
        unsigned_cents_text(cents).len() > 0,
        unsigned_cents_text(cents)[0] != '-',
{
    let whole = decimal(cents / 100);
    let decimals = two_digits((cents % 100) as int);
    let s = unsigned_cents_text(cents);
    reveal_strlit(".");
    decimal_reads_back(cents / 100);
    two_digits_read_back((cents % 100) as int);
    assert(s[whole.len() as int] == '.');
    assert forall|k: int| 0 <= k < whole.len() implies s[k] != '.' by {
        assert(is_digit(whole[k]));
    }
    index_from_at(s, '.', 0, whole.len() as int);
    assert(s.subrange(0, whole.len() as int) =~= whole);
    assert(s.subrange(whole.len() as int + 1, s.len() as int) =~= decimals);
    assert(is_digit(whole[0]));
    assert(s[0] == whole[0]);
}

/// An amount that was written reads back as itself.
pub proof fn cents_read_back(cents: i64)
    ensures
        parsed_cents(cents_text(cents as int)) == Some(cents),
{
    if cents < 0 {
        let size = (-cents) as nat;
        unsigned_cents_read_back(size);
        reveal_strlit("-");
        let s = cents_text(cents as int);
        assert(s.subrange(1, s.len() as int) =~= unsigned_cents_text(size));
    } else {
        unsigned_cents_read_back(cents as nat);
    }
}

/// A share of 0 to 100 percent, in hundredths of a percent.
#[derive(Clone, Copy, PartialEq, Eq, Structural, Debug)]
pub struct Percentage {
    pub basis_points: u16,
}

impl Percentage {
    /// The hundredths of a percent that a text stands for.
    pub open spec fn named(text: Seq<char>) -> Option<u16> {
        match hundredths(text) {
            Some(n) => if n <= 10000 {
                Some(n as u16)
            } else {
                None
            },
            None => None,
        }
    }

    /// Reads a percentage: 0 to 100 with at most two decimals.
    pub fn parse(text: &str) -> (percentage: Option<Percentage>)
        ensures
            match Percentage::named(text@) {
                Some(n) => percentage == Some(Percentage { basis_points: n }),
                None => percentage is None,
            },
    {
        let chars = chars_of(text);
        proof {
            assert(chars@.subrange(0, chars.len() as int) =~= chars@);
        }
        match hundredths_within(&chars, 0, 10000) {
            Some(n) => Some(Percentage { basis_points: n as u16 }),
            None => None,
        }
    }
}

/// A percentage that was written as an amount of hundredths reads back as itself.
pub proof fn percentage_reads_back(basis_points: u16)
    requires
        basis_points <= 10000,
    ensures
        Percentage::named(cents_text(basis_points as int)) == Some(basis_points),
{
    unsigned_cents_read_back(basis_points as nat);
}

/// The share of a budget that is used, in percent: from 0 to 100, rounded down; a budget
/// of nothing has none.
pub open spec fn share_used(spent: int, budget: int) -> Option<u8> {
    if budget <= 0 {
        None
    } else if spent <= 0 {
        Some(0)
    } else if spent >= budget {
        Some(100)
    } else {
        Some((spent * 100 / budget) as u8)
    }
}

/// The share of a budget that is used, in percent.
pub fn used_percent(spent: i64, budget: i64) -> (percent: Option<u8>)
    ensures
        percent == share_used(spent as int, budget as int),
        percent is Some ==> percent->0 <= 100,
{
    if budget <= 0 {
        None
    } else if spent <= 0 {
        Some(0)
    } else if spent >= budget {
        Some(100)
    } else {
        let percent: i128 = (spent as i128 * 100) / (budget as i128);
        proof {
            assert(0 <= (spent as int * 100) / (budget as int) < 100) by (nonlinear_arith)
                requires
                    0 < spent < budget,
            ;
        }
        Some(percent as u8)
    }
}

} // verus!

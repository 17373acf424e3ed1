//! Decimal numbers as feeds write them, read into millionths.
//!
//! Quantities that carry a fraction (dollar figures, percentages, ratios, scores)
//! are held throughout as whole numbers of millionths.

use crate::amount::pow10;
use vstd::prelude::*;

verus! {

/// Millionths in a whole.
pub const MICROS: u64 = 1_000_000;

/// The largest whole part whose millionths may still fit 64 bits.
pub const WHOLE_LIMIT: u64 = 18_446_744_073_709;

/// The value of a decimal digit.
pub open spec fn digit_value(c: char) -> Option<nat> {
    let code = c as u32;
    if 0x30 <= code <= 0x39 {
        Some((code - 0x30) as nat)
    } else {
        None
    }
}

/// Whether every character is a decimal digit.
pub open spec fn all_digits(s: Seq<char>) -> bool {
    forall|i: int| 0 <= i < s.len() ==> (#[trigger] digit_value(s[i])).is_some()
}

/// The number that a run of decimal digits spells, most significant first.
pub open spec fn digits_number(s: Seq<char>) -> nat
    decreases s.len(),
{
    if s.len() == 0 {
        0
    } else {
        digits_number(s.drop_last()) * 10 + match digit_value(s.last()) {
            Some(d) => d,
            None => 0,
        }
    }
}

/// The first six digits after a decimal point; where there are fewer, zeros fill
/// the places that are left.
pub open spec fn six_digits(fraction: Seq<char>) -> Seq<char> {
    if fraction.len() >= 6 {
        fraction.subrange(0, 6)
    } else {
        fraction + Seq::new((6 - fraction.len()) as nat, |i: int| '0')
    }
}

/// The millionths that the digits after a decimal point stand for; digits past the
/// sixth are dropped.
pub open spec fn fraction_micros(fraction: Seq<char>) -> nat {
    digits_number(six_digits(fraction))
}

/// The digits before the first decimal point of a text, or all of it where it has none.
pub open spec fn whole_part(text: Seq<char>) -> Seq<char> {
    match text.index_of_first('.') {
        Some(k) => text.subrange(0, k),
        None => text,
    }
}

/// What follows the first decimal point of a text.
pub open spec fn fraction_part(text: Seq<char>) -> Seq<char> {
    match text.index_of_first('.') {
        Some(k) => text.subrange(k + 1, text.len() as int),
        None => Seq::empty(),
    }
}

/// The millionths that a text in plain decimal notation stands for: digits, with at
/// most one decimal point among them and at least one digit. A sign, an exponent or
/// any other character makes the text stand for nothing.
pub open spec fn decimal_micros(text: Seq<char>) -> Option<nat> {
    let whole = whole_part(text);
    let fraction = fraction_part(text);
    if all_digits(whole) && all_digits(fraction) && whole.len() + fraction.len() > 0 {
        Some(digits_number(whole) * (MICROS as nat) + fraction_micros(fraction))
    } else {
        None
    }
}

/// Whether the digits after a decimal point hold, past the sixth, one that is not
/// zero: whether dropping the digits past the sixth makes the number smaller.
pub open spec fn dropped_digits(fraction: Seq<char>) -> bool {
    exists|j: int|
        6 <= j < fraction.len() && #[trigger] digit_value(fraction[j]) != Some(0nat)
}

/// The millionths that a text in plain decimal notation stands for, rounded up: one
/// more than [`decimal_micros`] where digits that count were dropped.
pub open spec fn decimal_micros_up(text: Seq<char>) -> Option<nat> {
    match decimal_micros(text) {
        Some(v) => if dropped_digits(fraction_part(text)) {
            Some(v + 1)
        } else {
            Some(v)
        },
        None => None,
    }
}

/// The millionths that a text stands for, rounded up, where they fit 64 bits.
pub open spec fn decimal_micros_up_u64(text: Seq<char>) -> Option<u64> {
    match decimal_micros_up(text) {
        Some(v) => if v <= u64::MAX {
            Some(v as u64)
        } else {
            None
        },
        None => None,
    }
}

/// A number rounded up is the number itself or one millionth more, and never less.
pub proof fn lemma_rounding_up(text: Seq<char>)
    requires
        decimal_micros(text).is_some(),
    ensures
        decimal_micros_up(text).is_some(),
        decimal_micros(text).unwrap() <= decimal_micros_up(text).unwrap() <= decimal_micros(
            text,
        ).unwrap() + 1,
        !dropped_digits(fraction_part(text)) ==> decimal_micros_up(text) == decimal_micros(text),
{
}

/// One digit more after the decimal point counts as dropped where it stands past
/// the sixth place and is not zero.
pub proof fn lemma_dropped_digits_grow(fraction: Seq<char>, n: int)
    requires
        0 <= n < fraction.len(),
    ensures
        dropped_digits(fraction.subrange(0, n + 1)) == (dropped_digits(fraction.subrange(0, n))
            || (n >= 6 && digit_value(fraction[n]) != Some(0nat))),
{
    let before = fraction.subrange(0, n);
    let after = fraction.subrange(0, n + 1);
    if dropped_digits(before) {
        let j = choose|j: int|
            6 <= j < before.len() && #[trigger] digit_value(before[j]) != Some(0nat);
        assert(after[j] == before[j]);
        assert(digit_value(after[j]) != Some(0nat));
    }
    if n >= 6 && digit_value(fraction[n]) != Some(0nat) {
        assert(after[n] == fraction[n]);
        assert(digit_value(after[n]) != Some(0nat));
    }
    if dropped_digits(after) {
        let j = choose|j: int|
            6 <= j < after.len() && #[trigger] digit_value(after[j]) != Some(0nat);
        if j < n {
            assert(before[j] == after[j]);
            assert(digit_value(before[j]) != Some(0nat));
        } else {
            assert(after[j] == fraction[n]);
        }
    }
}

/// The millionths that a text stands for, where they fit 64 bits.
pub open spec fn decimal_micros_u64(text: Seq<char>) -> Option<u64> {
    match decimal_micros(text) {
        Some(v) => if v <= u64::MAX {
            Some(v as u64)
        } else {
            None
        },
        None => None,
    }
}

/// The first seven powers of ten.
pub proof fn lemma_pow10_small()
    ensures
        pow10(0) == 1,
        pow10(1) == 10,
        pow10(2) == 100,
        pow10(3) == 1_000,
        pow10(4) == 10_000,
        pow10(5) == 100_000,
        pow10(6) == 1_000_000,
{
    reveal_with_fuel(pow10, 8);
}

fn digit_of(c: char) -> (r: Option<u64>)
    ensures
        r.is_some() == digit_value(c).is_some(),
        r.is_some() ==> r.unwrap() == digit_value(c).unwrap() && r.unwrap() <= 9,
{
    let code: u32 = c as u32;
    if 0x30 <= code && code <= 0x39 {
        Some((code - 0x30) as u64)
    } else {
        None
    }
}

fn scan_decimal(text: &str) -> (r: Option<(u64, bool)>)
    ensures
        r.is_some() == decimal_micros_u64(text@).is_some(),
        r.is_some() ==> r.unwrap().0 == decimal_micros_u64(text@).unwrap() && r.unwrap().1
            == dropped_digits(fraction_part(text@)),
{
    let n = text.unicode_len();
    let ghost s = text@;
    proof {
        s.index_of_first_ensures('.');
    }
    let mut i: usize = 0;
    let mut whole: u64 = 0;
    let mut too_large = false;
    while i < n && text.get_char(i) != '.'
        invariant
            s == text@,
            n == s.len(),
            i <= n,
            forall|j: int| 0 <= j < i ==> s[j] != '.',
            all_digits(s.subrange(0, i as int)),
            !too_large ==> whole == digits_number(s.subrange(0, i as int)) && whole
                <= WHOLE_LIMIT,
            too_large ==> digits_number(s.subrange(0, i as int)) > WHOLE_LIMIT,
        decreases n - i,
    {
        let c = text.get_char(i);
        let ghost before = s.subrange(0, i as int);
        let ghost after = s.subrange(0, i as int + 1);
        proof {
            assert(after.drop_last() =~= before);
            assert(after.last() == s[i as int]);
        }
        match digit_of(c) {
            None => {
                proof {
                    s.index_of_first_ensures('.');
                    assert(whole_part(s).len() > i);
                    assert(whole_part(s)[i as int] == s[i as int]);
                    assert(!all_digits(whole_part(s)));
                }
                return None;
            },
            Some(d) => {
                if !too_large {
                    if whole > (WHOLE_LIMIT - d) / 10 {
                        too_large = true;
                    } else {
                        whole = whole * 10 + d;
                    }
                }
                proof {
                    assert forall|j: int| 0 <= j < after.len() implies (#[trigger] digit_value(
                        after[j],
                    )).is_some() by {
                        if j < i {
                            assert(before[j] == after[j]);
                        }
                    }
                }
            },
        }
        i = i + 1;
    }
    let dot: usize = i;
    proof {
        if dot < n {
            assert(s[dot as int] == '.');
            assert(s.contains('.'));
            assert(s.index_of_first('.') == Some(dot as int));
        } else {
            assert(!s.contains('.'));
            assert(s.subrange(0, dot as int) =~= s);
        }
        assert(whole_part(s) =~= s.subrange(0, dot as int));
    }
    let start: usize = if dot < n {
        dot + 1
    } else {
        n
    };
    proof {
        assert(fraction_part(s) =~= s.subrange(start as int, n as int));
    }
    let ghost fraction = s.subrange(start as int, n as int);
    let mut k: usize = start;
    let mut part: u64 = 0;
    let mut taken: usize = 0;
    let mut inexact = false;
    while k < n
        invariant
            s == text@,
            inexact == dropped_digits(fraction.subrange(0, k - start)),
            n == s.len(),
            start <= k <= n,
            fraction == s.subrange(start as int, n as int),
            fraction_part(s) == fraction,
            all_digits(fraction.subrange(0, k - start)),
            taken <= 6,
            taken == if k - start < 6 {
                k - start
            } else {
                6
            },
            part == digits_number(fraction.subrange(0, taken as int)),
            part < pow10(taken as nat),
        decreases n - k,
    {
        let c = text.get_char(k);
        let ghost before = fraction.subrange(0, k - start);
        let ghost after = fraction.subrange(0, k - start + 1);
        match digit_of(c) {
            None => {
                proof {
                    assert(fraction[k - start] == s[k as int]);
                    assert(!all_digits(fraction));
                }
                return None;
            },
            Some(d) => {
                proof {
                    assert forall|j: int| 0 <= j < after.len() implies (#[trigger] digit_value(
                        after[j],
                    )).is_some() by {
                        if j < k - start {
                            assert(before[j] == after[j]);
                        } else {
                            assert(after[j] == s[k as int]);
                        }
                    }
                    assert(fraction[k - start] == s[k as int]);
                    lemma_dropped_digits_grow(fraction, k - start);
                }
                if taken == 6 && d != 0 {
                    inexact = true;
                }
                if taken < 6 {
                    proof {
                        assert(after.drop_last() =~= before);
                        assert(after.last() == s[k as int]);
                        lemma_pow10_small();
                    }
                    part = part * 10 + d;
                    taken = taken + 1;
                }
            },
        }
        k = k + 1;
    }
    proof {
        assert(fraction.subrange(0, n - start) =~= fraction);
    }
    if dot == 0 && start == n {
        return None;
    }
    let ghost mut padded: Seq<char> = fraction.subrange(0, taken as int);
    let mut places: usize = taken;
    while places < 6
        invariant
            taken <= places <= 6,
            taken <= fraction.len(),
            taken < 6 ==> taken == fraction.len(),
            padded == fraction.subrange(0, taken as int) + Seq::new(
                (places - taken) as nat,
                |i: int| '0',
            ),
            part == digits_number(padded),
            part < pow10(places as nat),
        decreases 6 - places,
    {
        proof {
            lemma_pow10_small();
            let longer = padded.push('0');
            assert(longer.drop_last() =~= padded);
            assert(longer.last() == '0');
            assert(longer =~= fraction.subrange(0, taken as int) + Seq::new(
                (places + 1 - taken) as nat,
                |i: int| '0',
            ));
            padded = longer;
        }
        part = part * 10;
        places = places + 1;
    }
    let scaled: u64 = part;
    proof {
        lemma_pow10_small();
        assert(padded =~= six_digits(fraction));
        assert(scaled == fraction_micros(fraction));
        assert(scaled < 1_000_000);
    }
    if too_large {
        proof {
            assert(digits_number(whole_part(s)) * (MICROS as nat) > u64::MAX) by (nonlinear_arith)
                requires
                    digits_number(whole_part(s)) > WHOLE_LIMIT,
                    MICROS == 1_000_000,
                    WHOLE_LIMIT == 18_446_744_073_709,
            ;
        }
        return None;
    }
    let total: u128 = (whole as u128) * (MICROS as u128) + (scaled as u128);
    if total > u64::MAX as u128 {
        None
    } else {
        Some((total as u64, inexact))
    }
}

/// Reads a number in plain decimal notation into millionths, rounding towards zero.
///
/// Gives nothing for a text that is no such number, and for one whose millionths
/// do not fit 64 bits.
pub fn parse_decimal(text: &str) -> (r: Option<u64>)
    ensures
        r == decimal_micros_u64(text@),
{
    match scan_decimal(text) {
        Some((value, _)) => Some(value),
        None => None,
    }
}

/// Reads a number in plain decimal notation into millionths, rounding up, so that a
/// number above a bound in millionths never reads as the bound.
///
/// Gives nothing for a text that is no such number, and for one whose millionths
/// do not fit 64 bits.
pub fn parse_decimal_up(text: &str) -> (r: Option<u64>)
    ensures
        r == decimal_micros_up_u64(text@),
{
    match scan_decimal(text) {
        Some((value, inexact)) => {
            if !inexact {
                Some(value)
            } else if value < u64::MAX {
                Some(value + 1)
            } else {
                None
            }
        },
        None => None,
    }
}

/// The ten decimal digits, in order of value.
pub open spec fn digit_chars() -> Seq<char> {
    seq!['0', '1', '2', '3', '4', '5', '6', '7', '8', '9']
}

/// A number in decimal notation, without leading zeros.
pub open spec fn decimal_text(n: nat) -> Seq<char>
    decreases n,
{
    if n < 10 {
        seq![digit_chars()[n as int]]
    } else {
        decimal_text(n / 10).push(digit_chars()[(n % 10) as int])
    }
}

/// Writes a number, by the `Display` of the standard library's `u64`: in decimal
/// notation, without sign or leading zeros.
#[verifier::external_body]
pub(crate) fn write_number(n: u64) -> (r: String)
    ensures
        r@ == decimal_text(n as nat),
{
    format!("{}", n)
}

} // verus!

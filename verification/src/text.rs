//! Settings in text: named values, numbers, and lists with separators, as a process
//! environment carries them.

use crate::decimal::{all_digits, digit_value, digits_number};
use vstd::prelude::*;

verus! {

/// The value that is set under a name: that of the first pair with the name.
pub open spec fn setting(vars: Seq<(String, String)>, name: Seq<char>) -> Option<String>
    decreases vars.len(),
{
    if vars.len() == 0 {
        None
    } else if vars[0].0@ == name {
        Some(vars[0].1)
    } else {
        setting(vars.drop_first(), name)
    }
}

/// The text that is set under a name.
pub open spec fn setting_text(vars: Seq<(String, String)>, name: Seq<char>) -> Option<
    Seq<char>,
> {
    match setting(vars, name) {
        Some(value) => Some(value@),
        None => None,
    }
}

/// The number that a text spells: decimal digits, with at most a plus sign before
/// them.
pub open spec fn unsigned_number(text: Seq<char>) -> Option<nat> {
    let digits = if text.len() > 0 && text[0] == '+' {
        text.drop_first()
    } else {
        text
    };
    if digits.len() > 0 && all_digits(digits) {
        Some(digits_number(digits))
    } else {
        None
    }
}

/// The number that a text spells, where it is no more than `limit`.
pub open spec fn unsigned_within(text: Seq<char>, limit: u64) -> Option<u64> {
    match unsigned_number(text) {
        Some(n) => if n <= limit {
            Some(n as u64)
        } else {
            None
        },
        None => None,
    }
}

/// Whether a character is white space.
pub open spec fn is_blank(c: char) -> bool {
    let code = c as u32;
    ||| 0x09 <= code <= 0x0d
    ||| code == 0x20
    ||| code == 0x85
    ||| code == 0xa0
    ||| code == 0x1680
    ||| 0x2000 <= code <= 0x200a
    ||| code == 0x2028
    ||| code == 0x2029
    ||| code == 0x202f
    ||| code == 0x205f
    ||| code == 0x3000
}

/// How many characters of white space a text begins with.
pub open spec fn leading_blanks(text: Seq<char>) -> nat
    decreases text.len(),
{
    if text.len() > 0 && is_blank(text[0]) {
        1 + leading_blanks(text.drop_first())
    } else {
        0
    }
}

/// How many characters of white space a text ends with.
pub open spec fn trailing_blanks(text: Seq<char>) -> nat
    decreases text.len(),
{
    if text.len() > 0 && is_blank(text.last()) {
        1 + trailing_blanks(text.drop_last())
    } else {
        0
    }
}

/// A text without the white space around it.
pub open spec fn trimmed(text: Seq<char>) -> Seq<char> {
    if leading_blanks(text) >= text.len() {
        Seq::empty()
    } else {
        text.subrange(leading_blanks(text) as int, text.len() - trailing_blanks(text))
    }
}

/// The pieces into which a separator cuts a text; a text without the separator is
/// one piece.
pub open spec fn fields(text: Seq<char>, separator: char) -> Seq<Seq<char>>
    decreases text.len(),
{
    if text.len() == 0 {
        seq![Seq::empty()]
    } else {
        let before = fields(text.drop_last(), separator);
        if text.last() == separator {
            before.push(Seq::empty())
        } else {
            before.drop_last().push(before.last().push(text.last()))
        }
    }
}

/// The texts of some strings.
pub open spec fn texts(strings: Seq<String>) -> Seq<Seq<char>> {
    Seq::new(strings.len(), |i: int| strings[i]@)
}

/// The white space that a text begins with ends at the first character that is none.
pub proof fn lemma_leading_blanks(text: Seq<char>, k: int)
    requires
        0 <= k <= text.len(),
        forall|j: int| 0 <= j < k ==> is_blank(#[trigger] text[j]),
        k == text.len() || !is_blank(text[k]),
    ensures
        leading_blanks(text) == k,
    decreases k,
{
    if k > 0 {
        let rest = text.drop_first();
        assert forall|j: int| 0 <= j < k - 1 implies is_blank(#[trigger] rest[j]) by {
            assert(rest[j] == text[j + 1]);
        }
        lemma_leading_blanks(rest, k - 1);
    }
}

/// The white space that a text ends with begins behind the last character that is
/// none.
pub proof fn lemma_trailing_blanks(text: Seq<char>, k: int)
    requires
        0 <= k <= text.len(),
        forall|j: int| text.len() - k <= j < text.len() ==> is_blank(#[trigger] text[j]),
        k == text.len() || !is_blank(text[text.len() - k - 1]),
    ensures
        trailing_blanks(text) == k,
    decreases k,
{
    if k > 0 {
        let rest = text.drop_last();
        assert forall|j: int| rest.len() - (k - 1) <= j < rest.len() implies is_blank(
            #[trigger] rest[j],
        ) by {
            assert(rest[j] == text[j]);
        }
        lemma_trailing_blanks(rest, k - 1);
    }
}

fn is_blank_char(c: char) -> (r: bool)
    ensures
        r == is_blank(c),
{
    let code: u32 = c as u32;
    (0x09 <= code && code <= 0x0d) || code == 0x20 || code == 0x85 || code == 0xa0 || code
        == 0x1680 || (0x2000 <= code && code <= 0x200a) || code == 0x2028 || code == 0x2029
        || code == 0x202f || code == 0x205f || code == 0x3000
}

/// The value that is set under a name, if any is.
pub fn lookup<'a>(vars: &'a Vec<(String, String)>, name: &str) -> (r: Option<&'a String>)
    ensures
        match r {
            Some(value) => setting(vars@, name@) == Some(*value),
            None => setting(vars@, name@).is_none(),
        },
{
    let key = name.to_owned();
    let mut i: usize = 0;
    proof {
        assert(vars@.subrange(0, vars.len() as int) =~= vars@);
    }
    while i < vars.len()
        invariant
            i <= vars.len(),
            key@ == name@,
            setting(vars@, name@) == setting(vars@.subrange(i as int, vars.len() as int), name@),
        decreases vars.len() - i,
    {
        let ghost rest = vars@.subrange(i as int, vars.len() as int);
        proof {
            assert(rest[0] == vars@[i as int]);
            assert(rest.drop_first() =~= vars@.subrange(i + 1, vars.len() as int));
        }
        if vars[i].0 == key {
            return Some(&vars[i].1);
        }
        i = i + 1;
    }
    None
}

/// Reads a number of decimal digits that is no more than `limit`.
pub fn parse_unsigned(text: &str, limit: u64) -> (r: Option<u64>)
    ensures
        r == unsigned_within(text@, limit),
{
    let n = text.unicode_len();
    let ghost s = text@;
    let start: usize = if n > 0 && text.get_char(0) == '+' {
        1
    } else {
        0
    };
    let ghost digits = s.subrange(start as int, n as int);
    proof {
        if start == 1 {
            assert(digits =~= s.drop_first());
        } else {
            assert(digits =~= s);
        }
    }
    if start == n {
        return None;
    }
    let mut i: usize = start;
    let mut value: u64 = 0;
    let mut too_large = false;
    while i < n
        invariant
            s == text@,
            n == s.len(),
            start <= i <= n,
            digits == s.subrange(start as int, n as int),
            digits.len() > 0,
            unsigned_number(s) == (if all_digits(digits) {
                Some(digits_number(digits))
            } else {
                None
            }),
            all_digits(digits.subrange(0, i - start)),
            !too_large ==> value == digits_number(digits.subrange(0, i - start)),
            too_large ==> digits_number(digits.subrange(0, i - start)) > u64::MAX,
        decreases n - i,
    {
        let c = text.get_char(i);
        let ghost before = digits.subrange(0, i - start);
        let ghost after = digits.subrange(0, i - start + 1);
        proof {
            assert(after.drop_last() =~= before);
            assert(after.last() == s[i as int]);
        }
        let code: u32 = c as u32;
        if !(0x30 <= code && code <= 0x39) {
            proof {
                assert(digits[i - start] == c);
                assert(digit_value(digits[i - start]).is_none());
            }
            return None;
        }
        let d: u64 = (code - 0x30) as u64;
        if !too_large {
            if value > (u64::MAX - d) / 10 {
                too_large = true;
            } else {
                value = value * 10 + d;
            }
        }
        proof {
            assert forall|j: int| 0 <= j < after.len() implies (#[trigger] digit_value(
                after[j],
            )).is_some() by {
                if j < i - start {
                    assert(before[j] == after[j]);
                }
            }
        }
        i = i + 1;
    }
    proof {
        assert(digits.subrange(0, n - start) =~= digits);
    }
    if too_large || value > limit {
        None
    } else {
        Some(value)
    }
}

/// A text without the white space around it.
pub fn trim(text: &str) -> (r: &str)
    ensures
        r@ == trimmed(text@),
{
    let n = text.unicode_len();
    let ghost s = text@;
    let mut from: usize = 0;
    while from < n && is_blank_char(text.get_char(from))
        invariant
            s == text@,
            n == s.len(),
            from <= n,
            forall|j: int| 0 <= j < from ==> is_blank(#[trigger] s[j]),
        decreases n - from,
    {
        from = from + 1;
    }
    proof {
        lemma_leading_blanks(s, from as int);
    }
    if from == n {
        return text.substring_char(0, 0);
    }
    let mut to: usize = n;
    while to > from + 1 && is_blank_char(text.get_char(to - 1))
        invariant
            s == text@,
            n == s.len(),
            from < to <= n,
            !is_blank(s[from as int]),
            forall|j: int| to <= j < n ==> is_blank(#[trigger] s[j]),
        decreases to,
    {
        to = to - 1;
    }
    proof {
        lemma_trailing_blanks(s, n - to);
    }
    text.substring_char(from, to)
}

/// The pieces into which a separator cuts a text.
pub fn split(text: &str, separator: char) -> (r: Vec<String>)
    ensures
        texts(r@) == fields(text@, separator),
{
    let n = text.unicode_len();
    let ghost s = text@;
    let mut done: Vec<String> = Vec::new();
    let mut start: usize = 0;
    let mut i: usize = 0;
    proof {
        assert(s.subrange(0, 0) =~= Seq::<char>::empty());
        assert(texts(done@).push(s.subrange(0, 0)) =~= seq![Seq::<char>::empty()]);
    }
    while i < n
        invariant
            s == text@,
            n == s.len(),
            start <= i <= n,
            fields(s.subrange(0, i as int), separator) == texts(done@).push(
                s.subrange(start as int, i as int),
            ),
        decreases n - i,
    {
        let c = text.get_char(i);
        let ghost prefix = s.subrange(0, i as int);
        let ghost longer = s.subrange(0, i + 1);
        let ghost before = fields(prefix, separator);
        proof {
            assert(longer.drop_last() =~= prefix);
            assert(longer.last() == c);
            assert(before.last() == s.subrange(start as int, i as int));
            assert(before.drop_last() =~= texts(done@));
        }
        if c == separator {
            let piece = text.substring_char(start, i).to_owned();
            let ghost old_done = done@;
            done.push(piece);
            start = i + 1;
            proof {
                assert(texts(done@) =~= texts(old_done).push(piece@));
                assert(s.subrange(start as int, i + 1) =~= Seq::<char>::empty());
                assert(fields(longer, separator) =~= texts(done@).push(
                    s.subrange(start as int, i + 1),
                ));
            }
        } else {
            proof {
                assert(s.subrange(start as int, i + 1) =~= s.subrange(
                    start as int,
                    i as int,
                ).push(c));
                assert(fields(longer, separator) =~= texts(done@).push(
                    s.subrange(start as int, i + 1),
                ));
            }
        }
        i = i + 1;
    }
    let piece = text.substring_char(start, n).to_owned();
    let ghost old_done = done@;
    done.push(piece);
    proof {
        assert(s.subrange(0, n as int) =~= s);
        assert(texts(done@) =~= texts(old_done).push(piece@));
    }
    done
}

/// Where a character first stands in a text, if it stands in it.
pub fn find_char(text: &str, c: char) -> (r: Option<usize>)
    ensures
        match r {
            Some(k) => text@.index_of_first(c) == Some(k as int) && k < text@.len(),
            None => text@.index_of_first(c).is_none(),
        },
{
    let n = text.unicode_len();
    let ghost s = text@;
    proof {
        s.index_of_first_ensures(c);
    }
    let mut i: usize = 0;
    while i < n
        invariant
            s == text@,
            n == s.len(),
            i <= n,
            forall|j: int| 0 <= j < i ==> s[j] != c,
        decreases n - i,
    {
        if text.get_char(i) == c {
            proof {
                s.index_of_first_ensures(c);
                assert(s.contains(c));
            }
            return Some(i);
        }
        i = i + 1;
    }
    proof {
        s.index_of_first_ensures(c);
        assert(!s.contains(c));
    }
    None
}

} // verus!

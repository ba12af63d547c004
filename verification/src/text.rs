//! Texts: comparing them, splitting them, reading whole numbers from them.

use vstd::prelude::*;
use vstd::string::StrSliceExecFns;

verus! {

/// Whether two texts hold the same characters.
pub fn str_eq(a: &str, b: &str) -> (same: bool)
    ensures
        same == (a@ == b@),
{
    let n = a.unicode_len();
    if n != b.unicode_len() {
        return false;
    }
    let mut i: usize = 0;
    while i < n
        invariant
            i <= n,
            n == a@.len(),
            n == b@.len(),
            forall|k: int| 0 <= k < i ==> a@[k] == b@[k],
        decreases n - i,
    {
        if a.get_char(i) != b.get_char(i) {
            return false;
        }
        i += 1;
    }
    assert(a@ =~= b@);
    true
}

/// Whether `text` holds the character `c`.
pub fn str_contains(text: &str, c: char) -> (found: bool)
    ensures
        found == text@.contains(c),
{
    let n = text.unicode_len();
    let mut i: usize = 0;
    while i < n
        invariant
            i <= n,
            n == text@.len(),
            forall|k: int| 0 <= k < i ==> text@[k] != c,
        decreases n - i,
    {
        if text.get_char(i) == c {
            return true;
        }
        i += 1;
    }
    false
}

/// The pieces of `text` between the occurrences of `separator`: one more
/// than there are occurrences, each without a separator, some perhaps empty.
pub open spec fn spec_split(text: Seq<char>, separator: char) -> Seq<Seq<char>>
    decreases text.len(),
{
    if text.len() == 0 {
        seq![Seq::empty()]
    } else {
        let pieces = spec_split(text.drop_last(), separator);
        if text.last() == separator {
            pieces.push(Seq::empty())
        } else {
            pieces.update(pieces.len() - 1, pieces.last().push(text.last()))
        }
    }
}

/// The views of `pieces`.
pub open spec fn string_views(pieces: Seq<String>) -> Seq<Seq<char>> {
    pieces.map_values(|s: String| s@)
}

/// The pieces of `text` between the occurrences of `separator`.
pub fn split(text: &str, separator: char) -> (pieces: Vec<String>)
    ensures
        string_views(pieces@) == spec_split(text@, separator),
{
    let n = text.unicode_len();
    let mut pieces: Vec<String> = Vec::new();
    let mut start: usize = 0;
    let mut i: usize = 0;
    let ghost done: Seq<Seq<char>> = Seq::empty();
    assert(text@.take(0) =~= Seq::<char>::empty());
    assert(string_views(pieces@) =~= Seq::<Seq<char>>::empty());
    assert(spec_split(text@.take(0), separator) =~= string_views(pieces@).push(
        text@.subrange(0, 0),
    ));
    while i < n
        invariant
            start <= i <= n,
            n == text@.len(),
            spec_split(text@.take(i as int), separator) == string_views(pieces@).push(
                text@.subrange(start as int, i as int),
            ),
        decreases n - i,
    {
        let ghost before = text@.take(i as int);
        let ghost after = text@.take(i + 1);
        proof {
            assert(after.drop_last() =~= before);
            assert(after.last() == text@[i as int]);
        }
        if text.get_char(i) == separator {
            let piece = text.substring_char(start, i).to_owned();
            let ghost views = string_views(pieces@);
            pieces.push(piece);
            start = i + 1;
            proof {
                assert(string_views(pieces@) =~= views.push(piece@));
                assert(text@.subrange(start as int, i + 1) =~= Seq::<char>::empty());
            }
        } else {
            proof {
                let views = string_views(pieces@);
                let last = text@.subrange(start as int, i as int);
                assert(last.push(text@[i as int]) =~= text@.subrange(start as int, i + 1));
                assert(views.push(last).update(views.len() as int, last.push(text@[i as int]))
                    =~= views.push(text@.subrange(start as int, i + 1)));
            }
        }
        i += 1;
    }
    let piece = text.substring_char(start, n).to_owned();
    let ghost views = string_views(pieces@);
    pieces.push(piece);
    proof {
        assert(text@.take(n as int) =~= text@);
        assert(string_views(pieces@) =~= views.push(piece@));
    }
    pieces
}

/// The number that a decimal digit stands for.
pub open spec fn digit_value(c: char) -> Option<nat> {
    if '0' <= c <= '9' {
        Some((c as u32 - '0' as u32) as nat)
    } else {
        None
    }
}

/// The number that decimal digits spell; none where a character is no digit.
pub open spec fn digits_value(digits: Seq<char>) -> Option<nat>
    decreases digits.len(),
{
    if digits.len() == 0 {
        Some(0)
    } else {
        match (digits_value(digits.drop_last()), digit_value(digits.last())) {
            (Some(high), Some(low)) => Some(10 * high + low),
            _ => None,
        }
    }
}

/// The whole number that `text` spells, if it is at most `max`: decimal
/// digits, at least one, with at most one `+` in front of them and nothing
/// else around them.
pub open spec fn spec_parse_unsigned(text: Seq<char>, max: nat) -> Option<nat> {
    let digits = if text.len() > 0 && text[0] == '+' {
        text.drop_first()
    } else {
        text
    };
    if digits.len() == 0 {
        None
    } else {
        match digits_value(digits) {
            Some(value) => if value <= max {
                Some(value)
            } else {
                None
            },
            None => None,
        }
    }
}

/// More digits never spell a smaller number.
pub proof fn lemma_digits_value_grows(digits: Seq<char>, n: int)
    requires
        0 <= n <= digits.len(),
        digits_value(digits) is Some,
    ensures
        digits_value(digits.take(n)) is Some,
        digits_value(digits.take(n))->Some_0 <= digits_value(digits)->Some_0,
    decreases digits.len() - n,
{
    if n == digits.len() {
        assert(digits.take(n) =~= digits);
    } else {
        lemma_digits_value_grows(digits, n + 1);
        assert(digits.take(n + 1).drop_last() =~= digits.take(n));
    }
}

/// Where some of the digits are no number, all of them are none.
pub proof fn lemma_digits_value_none(digits: Seq<char>, n: int)
    requires
        0 <= n <= digits.len(),
        digits_value(digits.take(n)) is None,
    ensures
        digits_value(digits) is None,
    decreases digits.len() - n,
{
    if n == digits.len() {
        assert(digits.take(n) =~= digits);
    } else {
        assert(digits.take(n + 1).drop_last() =~= digits.take(n));
        lemma_digits_value_none(digits, n + 1);
    }
}

/// Reads a whole number of at most `max` from `text`.
pub fn parse_unsigned(text: &str, max: u64) -> (r: Option<u64>)
    ensures
        r == (match spec_parse_unsigned(text@, max as nat) {
            Some(value) => Some(value as u64),
            None => None,
        }),
        r is Some ==> r->Some_0 <= max,
{
    let n = text.unicode_len();
    let first: usize = if n > 0 && text.get_char(0) == '+' {
        1
    } else {
        0
    };
    if first == n {
        return None;
    }
    let ghost digits = text@.skip(first as int);
    proof {
        if first == 1 {
            assert(text@.drop_first() =~= digits);
        } else {
            assert(text@ =~= digits);
        }
    }
    let mut value: u64 = 0;
    let mut i: usize = first;
    assert(digits.take(0) =~= Seq::<char>::empty());
    while i < n
        invariant
            first <= i <= n,
            first < n,
            n == text@.len(),
            digits == text@.skip(first as int),
            digits == (if text@.len() > 0 && text@[0] == '+' {
                text@.drop_first()
            } else {
                text@
            }),
            digits_value(digits.take(i - first)) == Some(value as nat),
            value <= max,
        decreases n - i,
    {
        let c = text.get_char(i);
        proof {
            assert(digits.take(i + 1 - first).drop_last() =~= digits.take(i - first));
            assert(digits.take(i + 1 - first).last() == c);
        }
        if c < '0' || c > '9' {
            proof {
                assert(digit_value(c) is None);
                assert(digits_value(digits.take(i + 1 - first)) is None);
                lemma_digits_value_none(digits, i + 1 - first);
            }
            return None;
        }
        let digit: u64 = (c as u32 - '0' as u32) as u64;
        if digit > max || value > (max - digit) / 10 {
            proof {
                assert(10 * value + digit > max);
                if digits_value(digits) is Some {
                    lemma_digits_value_grows(digits, i + 1 - first);
                }
            }
            return None;
        }
        value = 10 * value + digit;
        i += 1;
    }
    assert(digits.take(n - first) =~= digits);
    Some(value)
}

} // verus!

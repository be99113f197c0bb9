//! The `NdM` dice notation: its grammar as spec functions, a verified
//! parser, and the laws that relate parsing to rendering.

use vstd::prelude::*;
use vstd::string::StrSliceExecFns;

verus! {

/// A character that separates the die count from the die size.
pub open spec fn is_sep_char(c: char) -> bool {
    c == 'd' || c == 'D'
}

/// An ASCII decimal digit.
pub open spec fn is_digit_char(c: char) -> bool {
    48 <= c as u32 <= 57
}

/// The numeric value of an ASCII decimal digit.
pub open spec fn digit_value(c: char) -> int {
    c as u32 - 48
}

/// Every character of `s` is an ASCII decimal digit.
pub open spec fn all_digits(s: Seq<char>) -> bool {
    forall|i: int| 0 <= i < s.len() ==> is_digit_char(#[trigger] s[i])
}

/// The number denoted by a sequence of decimal digits, most significant
/// digit first. An empty sequence denotes zero.
pub open spec fn digits_value(s: Seq<char>) -> int
    decreases s.len(),
{
    if s.len() == 0 {
        0
    } else {
        digits_value(s.drop_last()) * 10 + digit_value(s.last())
    }
}

/// `s` with one leading `+` sign removed, if there is one. A leading `+`
/// is tolerated because `u32` parsing in the notation accepts it.
pub open spec fn strip_plus(s: Seq<char>) -> Seq<char> {
    if s.len() > 0 && s[0] == '+' {
        s.drop_first()
    } else {
        s
    }
}

/// What one side of the separator parses to: a `u32` if, after an
/// optional leading `+`, the part is a non-empty string of digits whose
/// value fits in a `u32`; nothing otherwise.
pub open spec fn parse_u32_part(s: Seq<char>) -> Option<u32> {
    let t = strip_plus(s);
    if t.len() > 0 && all_digits(t) && digits_value(t) <= u32::MAX {
        Some(digits_value(t) as u32)
    } else {
        None
    }
}

/// The first separator character at or after position `i`, if any.
pub open spec fn first_sep_from(s: Seq<char>, i: int) -> Option<int>
    decreases s.len() - i,
{
    if i < 0 || i >= s.len() {
        None
    } else if is_sep_char(s[i]) {
        Some(i)
    } else {
        first_sep_from(s, i + 1)
    }
}

/// What a whole notation string parses to: a `(count, sides)` pair if the
/// string holds exactly one separator, both sides parse as `u32`, and
/// neither value is zero; nothing otherwise.
pub open spec fn parse_notation(s: Seq<char>) -> Option<(u32, u32)> {
    match first_sep_from(s, 0) {
        None => None,
        Some(i) => {
            if first_sep_from(s, i + 1) is Some {
                None
            } else {
                match (parse_u32_part(s.subrange(0, i)), parse_u32_part(
                    s.subrange(i + 1, s.len() as int),
                )) {
                    (Some(n), Some(m)) => if n == 0 || m == 0 {
                        None
                    } else {
                        Some((n, m))
                    },
                    _ => None,
                }
            }
        },
    }
}

/// Relates the value of a digit prefix to the value of the prefix one
/// digit longer.
proof fn lemma_digits_value_take_succ(s: Seq<char>, j: int)
    requires
        0 <= j < s.len(),
    ensures
        digits_value(s.take(j + 1)) == digits_value(s.take(j)) * 10 + digit_value(s[j]),
{
    assert(s.take(j + 1).drop_last() =~= s.take(j));
    assert(s.take(j + 1).last() == s[j]);
}

/// The value of a digit string is never negative.
proof fn lemma_digits_value_nonneg(s: Seq<char>)
    requires
        all_digits(s),
    ensures
        digits_value(s) >= 0,
    decreases s.len(),
{
    if s.len() > 0 {
        assert(all_digits(s.drop_last()));
        lemma_digits_value_nonneg(s.drop_last());
    }
}

/// Appending digits never shrinks the value: every prefix of a digit
/// string denotes at most the whole string's value.
proof fn lemma_digits_value_prefix_le(s: Seq<char>, j: int)
    requires
        all_digits(s),
        0 <= j <= s.len(),
    ensures
        digits_value(s.take(j)) <= digits_value(s),
    decreases s.len() - j,
{
    if j == s.len() {
        assert(s.take(j) =~= s);
    } else {
        assert(all_digits(s.take(j)));
        lemma_digits_value_nonneg(s.take(j));
        lemma_digits_value_take_succ(s, j);
        lemma_digits_value_prefix_le(s, j + 1);
    }
}

/// Parses the characters of `s` between positions `from` and `to` as one
/// side of a dice notation: an optional `+`, then decimal digits.
fn parse_u32_range(s: &str, from: usize, to: usize) -> (r: Option<u32>)
    requires
        from <= to <= s@.len(),
    ensures
        r == parse_u32_part(s@.subrange(from as int, to as int)),
{
    let ghost part = s@.subrange(from as int, to as int);
    let mut start = from;
    if from < to && s.get_char(from) == '+' {
        start = from + 1;
    }
    let ghost t = s@.subrange(start as int, to as int);
    proof {
        if from < to && s@[from as int] == '+' {
            assert(part.drop_first() =~= t);
        } else {
            assert(part =~= t);
        }
        assert(t == strip_plus(part));
    }
    if start == to {
        return None;
    }
    let mut acc: u32 = 0;
    let mut i = start;
    while i < to
        invariant
            from <= start <= i <= to <= s@.len(),
            t == s@.subrange(start as int, to as int),
            t == strip_plus(s@.subrange(from as int, to as int)),
            t.len() == to - start,
            all_digits(t.take(i - start)),
            acc == digits_value(t.take(i - start)),
        decreases to - i,
    {
        let c = s.get_char(i);
        assert(c == t[i - start]);
        let cu = c as u32;
        if cu < 48 || cu > 57 {
            assert(!is_digit_char(t[i - start]));
            assert(!all_digits(t));
            return None;
        }
        let d = cu - 48;
        proof {
            lemma_digits_value_take_succ(t, i - start);
        }
        if acc > (u32::MAX - d) / 10 {
            proof {
                assert(acc * 10 > ((u32::MAX - d) / 10) * 10);
                assert(((u32::MAX - d) / 10) * 10 + (u32::MAX - d) % 10 == u32::MAX - d);
                assert(digits_value(t.take(i - start + 1)) > u32::MAX);
                if all_digits(t) {
                    lemma_digits_value_prefix_le(t, i - start + 1);
                }
            }
            return None;
        }
        proof {
            assert(acc * 10 <= ((u32::MAX - d) / 10) * 10);
            assert(((u32::MAX - d) / 10) * 10 + (u32::MAX - d) % 10 == u32::MAX - d);
        }
        acc = acc * 10 + d;
        i = i + 1;
    }
    proof {
        assert(t.take(i - start) =~= t);
    }
    Some(acc)
}

/// The first separator at or after `start`, as an index into `s`.
fn find_sep_from(s: &str, start: usize) -> (r: Option<usize>)
    requires
        start <= s@.len(),
    ensures
        match r {
            Some(i) => start <= i && (i as int) < s@.len() && first_sep_from(s@, start as int)
                == Some(i as int),
            None => first_sep_from(s@, start as int) is None,
        },
{
    let n = s.unicode_len();
    let mut i = start;
    while i < n
        invariant
            start <= i <= n,
            n == s@.len(),
            first_sep_from(s@, start as int) == first_sep_from(s@, i as int),
        decreases n - i,
    {
        let c = s.get_char(i);
        if c == 'd' || c == 'D' {
            return Some(i);
        }
        i = i + 1;
    }
    None
}

/// Parses a dice notation string such as `2d6` or `1D20` into its
/// `(count, sides)` pair; returns `None` exactly when the string is not
/// a well-formed notation with both values at least one.
pub fn parse_dice_arg(arg: &str) -> (r: Option<(u32, u32)>)
    ensures
        r == parse_notation(arg@),
{
    let n = arg.unicode_len();
    let sep = match find_sep_from(arg, 0) {
        Some(i) => i,
        None => {
            return None;
        },
    };
    if find_sep_from(arg, sep + 1).is_some() {
        return None;
    }
    let num = match parse_u32_range(arg, 0, sep) {
        Some(v) => v,
        None => {
            return None;
        },
    };
    let sides = match parse_u32_range(arg, sep + 1, n) {
        Some(v) => v,
        None => {
            return None;
        },
    };
    if num == 0 || sides == 0 {
        return None;
    }
    Some((num, sides))
}

/// The character for one decimal digit value.
pub open spec fn spec_digit_char(d: int) -> char {
    if d == 0 {
        '0'
    } else if d == 1 {
        '1'
    } else if d == 2 {
        '2'
    } else if d == 3 {
        '3'
    } else if d == 4 {
        '4'
    } else if d == 5 {
        '5'
    } else if d == 6 {
        '6'
    } else if d == 7 {
        '7'
    } else if d == 8 {
        '8'
    } else {
        '9'
    }
}

/// The canonical decimal rendering of a non-negative number: no sign, no
/// leading zeros (except for zero itself).
pub open spec fn dec_digits(n: int) -> Seq<char>
    decreases n,
{
    if n < 10 {
        seq![spec_digit_char(n)]
    } else {
        dec_digits(n / 10).push(spec_digit_char(n % 10))
    }
}

/// A canonical decimal rendering consists of digits only, and is never
/// empty.
pub proof fn lemma_dec_digits_are_digits(n: int)
    requires
        n >= 0,
    ensures
        all_digits(dec_digits(n)),
        dec_digits(n).len() >= 1,
    decreases n,
{
    if n >= 10 {
        lemma_dec_digits_are_digits(n / 10);
        assert forall|i: int| 0 <= i < dec_digits(n).len() implies is_digit_char(
            #[trigger] dec_digits(n)[i],
        ) by {
            if i < dec_digits(n / 10).len() {
                assert(dec_digits(n)[i] == dec_digits(n / 10)[i]);
            } else {
                assert(dec_digits(n)[i] == spec_digit_char(n % 10));
            }
        }
    }
}

/// A digit character denotes the value it was made from.
proof fn lemma_digit_char_value(d: int)
    requires
        0 <= d <= 9,
    ensures
        digit_value(spec_digit_char(d)) == d,
{
}

/// Parsing inverts rendering: the digits of `n` denote `n`.
pub proof fn lemma_dec_digits_value(n: int)
    requires
        n >= 0,
    ensures
        digits_value(dec_digits(n)) == n,
    decreases n,
{
    if n < 10 {
        lemma_digit_char_value(n);
        assert(dec_digits(n).drop_last() =~= Seq::<char>::empty());
        assert(digits_value(Seq::<char>::empty()) == 0);
        assert(dec_digits(n).last() == spec_digit_char(n));
    } else {
        lemma_digit_char_value(n % 10);
        lemma_dec_digits_value(n / 10);
        assert(dec_digits(n).drop_last() =~= dec_digits(n / 10));
        assert(dec_digits(n).last() == spec_digit_char(n % 10));
    }
}

/// Digits are neither separators nor a sign.
proof fn lemma_digit_not_special(c: char)
    requires
        is_digit_char(c),
    ensures
        !is_sep_char(c),
        c != '+',
{
}

/// Where the first separator search lands: at the first separator at or
/// after `k`, or nowhere when there is none.
proof fn lemma_first_sep_from_props(s: Seq<char>, k: int)
    requires
        0 <= k <= s.len(),
    ensures
        match first_sep_from(s, k) {
            Some(i) => k <= i < s.len() && is_sep_char(s[i]) && (forall|j: int|
                k <= j < i ==> !is_sep_char(#[trigger] s[j])),
            None => forall|j: int| k <= j < s.len() ==> !is_sep_char(#[trigger] s[j]),
        },
    decreases s.len() - k,
{
    if k < s.len() && !is_sep_char(s[k]) {
        lemma_first_sep_from_props(s, k + 1);
    }
}

/// The string `s` has a separator at position `i` and nowhere else.
pub open spec fn sep_only_at(s: Seq<char>, i: int) -> bool {
    &&& 0 <= i < s.len()
    &&& is_sep_char(s[i])
    &&& forall|j: int| 0 <= j < s.len() && j != i ==> !is_sep_char(#[trigger] s[j])
}

/// Both sides of the split at `i` parse as a positive `u32`.
pub open spec fn valid_parts(s: Seq<char>, i: int) -> bool {
    match (parse_u32_part(s.subrange(0, i)), parse_u32_part(s.subrange(i + 1, s.len() as int))) {
        (Some(n), Some(m)) => n >= 1 && m >= 1,
        _ => false,
    }
}

/// A well-formed dice notation: exactly one separator, and a positive
/// count and a positive number of sides around it.
pub open spec fn is_valid_notation(s: Seq<char>) -> bool {
    exists|i: int| #[trigger] sep_only_at(s, i) && valid_parts(s, i)
}

/// Parsing succeeds exactly on the well-formed notations, and what it
/// returns is always a pair of positive values. In particular a string
/// without exactly one `d`/`D` separator, or with a side that is not a
/// positive number, is rejected.
pub proof fn lemma_parse_notation_complete(s: Seq<char>)
    ensures
        parse_notation(s) is Some <==> is_valid_notation(s),
        parse_notation(s) matches Some(p) ==> p.0 >= 1 && p.1 >= 1,
{
    lemma_first_sep_from_props(s, 0);
    match first_sep_from(s, 0) {
        None => {
            assert(forall|i: int| !(#[trigger] sep_only_at(s, i)));
        },
        Some(i) => {
            lemma_first_sep_from_props(s, i + 1);
            match first_sep_from(s, i + 1) {
                Some(i2) => {
                    assert forall|j: int| !(#[trigger] sep_only_at(s, j) && valid_parts(
                        s,
                        j,
                    )) by {
                        if sep_only_at(s, j) {
                            assert(is_sep_char(s[i]) && is_sep_char(s[i2]) && i != i2);
                        }
                    }
                },
                None => {
                    assert(sep_only_at(s, i));
                    if parse_notation(s) is Some {
                        assert(valid_parts(s, i));
                    }
                    if is_valid_notation(s) {
                        let w = choose|w: int| #[trigger] sep_only_at(s, w) && valid_parts(s, w);
                        assert(w == i);
                    }
                },
            }
        },
    }
}

/// Round trip: rendering a positive pair as `NdM` (or `NDM`) and parsing
/// it back yields the same pair.
pub proof fn lemma_notation_round_trip(n: u32, m: u32, sep: char)
    requires
        n >= 1,
        m >= 1,
        is_sep_char(sep),
    ensures
        parse_notation(dec_digits(n as int) + seq![sep] + dec_digits(m as int)) == Some::<(
            u32,
            u32,
        )>((n, m)),
{
    let left = dec_digits(n as int);
    let right = dec_digits(m as int);
    let s = left + seq![sep] + right;
    lemma_dec_digits_are_digits(n as int);
    lemma_dec_digits_are_digits(m as int);
    lemma_dec_digits_value(n as int);
    lemma_dec_digits_value(m as int);
    let li = left.len() as int;
    assert(s[li] == sep);
    assert forall|j: int| 0 <= j < s.len() && j != li implies !is_sep_char(#[trigger] s[j]) by {
        if j < li {
            assert(s[j] == left[j]);
            lemma_digit_not_special(left[j]);
        } else {
            assert(s[j] == right[j - li - 1]);
            lemma_digit_not_special(right[j - li - 1]);
        }
    }
    lemma_first_sep_from_props(s, 0);
    match first_sep_from(s, 0) {
        None => {
            assert(false);
        },
        Some(i) => {
            assert(i == li);
        },
    }
    lemma_first_sep_from_props(s, li + 1);
    assert(first_sep_from(s, li + 1) is None);
    assert(s.subrange(0, li) =~= left);
    assert(s.subrange(li + 1, s.len() as int) =~= right);
    lemma_digit_not_special(left[0]);
    assert(strip_plus(left) == left);
    lemma_digit_not_special(right[0]);
    assert(strip_plus(right) == right);
    assert(parse_u32_part(left) == Some(n));
    assert(parse_u32_part(right) == Some(m));
}

} // verus!

//! Text: decimal notation, comparison of strings, and unsigned numbers read
//! from configuration values.

use vstd::prelude::*;
use vstd::string::*;

verus! {

broadcast use vstd::string::group_string_axioms;

/// The character of the decimal digit `d`.
pub open spec fn digit_char(d: nat) -> char {
    (48 + d) as char
}

/// The decimal notation of `n`: no sign, no leading zeros.
pub open spec fn decimal(n: nat) -> Seq<char>
    decreases n,
{
    if n < 10 {
        seq![digit_char(n)]
    } else {
        decimal(n / 10).push(digit_char(n % 10))
    }
}

/// Whether `c` is one of the ten decimal digits.
pub open spec fn is_digit(c: char) -> bool {
    '0' <= c <= '9'
}

/// Whether `s` holds decimal digits only.
pub open spec fn all_digits(s: Seq<char>) -> bool {
    forall|i: int| 0 <= i < s.len() ==> is_digit(#[trigger] s[i])
}

/// The number that a run of decimal digits denotes.
pub open spec fn digits_value(s: Seq<char>) -> nat
    decreases s.len(),
{
    if s.len() == 0 {
        0
    } else {
        digits_value(s.drop_last()) * 10 + (s.last() as nat - 48) as nat
    }
}

/// The digits of an unsigned literal: what follows an optional `+`.
pub open spec fn unsigned_digits(s: Seq<char>) -> Seq<char> {
    if s.len() > 0 && s[0] == '+' {
        s.skip(1)
    } else {
        s
    }
}

/// The number that `s` denotes as an unsigned literal, an optional `+` and
/// then digits only, if it is one.
pub open spec fn unsigned_value(s: Seq<char>) -> Option<nat> {
    let digits = unsigned_digits(s);
    if digits.len() > 0 && all_digits(digits) {
        Some(digits_value(digits))
    } else {
        None
    }
}

/// The texts of a list of strings.
pub open spec fn texts(list: Seq<String>) -> Seq<Seq<char>> {
    list.map_values(|s: String| s@)
}

/// `parts` one after another, with `sep` between each two.
pub open spec fn joined(parts: Seq<Seq<char>>, sep: Seq<char>) -> Seq<char>
    decreases parts.len(),
{
    if parts.len() == 0 {
        Seq::empty()
    } else if parts.len() == 1 {
        parts[0]
    } else {
        joined(parts.drop_last(), sep) + sep + parts.last()
    }
}

/// A text that may be missing.
pub open spec fn text_or_none(text: Option<String>) -> Option<Seq<char>> {
    match text {
        Some(s) => Some(s@),
        None => None,
    }
}

/// A digit as text.
fn digit_text(d: u64) -> (r: &'static str)
    requires
        d < 10,
    ensures
        r@ == seq![digit_char(d as nat)],
{
    proof {
        reveal_strlit("0");
        reveal_strlit("1");
        reveal_strlit("2");
        reveal_strlit("3");
        reveal_strlit("4");
        reveal_strlit("5");
        reveal_strlit("6");
        reveal_strlit("7");
        reveal_strlit("8");
        reveal_strlit("9");
    }
    match d {
        0 => "0",
        1 => "1",
        2 => "2",
        3 => "3",
        4 => "4",
        5 => "5",
        6 => "6",
        7 => "7",
        8 => "8",
        _ => "9",
    }
}

/// Writes `n` in decimal notation.
pub fn decimal_text(n: u64) -> (r: String)
    ensures
        r@ == decimal(n as nat),
    decreases n,
{
    let mut out: String = if n < 10 {
        String::new()
    } else {
        decimal_text(n / 10)
    };
    out.append(digit_text(n % 10));
    assert(out@ =~= decimal(n as nat));
    out
}

/// Whether two texts are the same.
pub fn same_text(a: &str, b: &str) -> (r: bool)
    ensures
        r == (a@ == b@),
{
    let mut x = a.chars();
    let mut y = b.chars();
    let ghost mut i: int = 0;
    loop
        invariant
            0 <= i <= a@.len(),
            i <= b@.len(),
            a@.take(i) == b@.take(i),
            vstd::std_specs::iter::IteratorSpec::remaining(&x) == a@.skip(i),
            vstd::std_specs::iter::IteratorSpec::remaining(&y) == b@.skip(i),
        decreases a@.len() - i,
    {
        match (x.next(), y.next()) {
            (None, None) => {
                assert(a@ == a@.take(i));
                assert(b@ == b@.take(i));
                return true;
            },
            (Some(c), Some(d)) => {
                if c != d {
                    assert(a@[i] != b@[i]);
                    return false;
                }
                proof {
                    assert(a@.take(i + 1) == a@.take(i).push(c));
                    assert(b@.take(i + 1) == b@.take(i).push(d));
                    assert(a@.skip(i).drop_first() == a@.skip(i + 1));
                    assert(b@.skip(i).drop_first() == b@.skip(i + 1));
                    i = i + 1;
                }
            },
            _ => {
                assert(a@.len() != b@.len());
                return false;
            },
        }
    }
}

/// Whether `text` begins with `prefix`.
pub fn has_prefix(text: &str, prefix: &str) -> (r: bool)
    ensures
        r == prefix@.is_prefix_of(text@),
{
    let mut x = text.chars();
    let mut y = prefix.chars();
    let ghost mut i: int = 0;
    loop
        invariant
            0 <= i <= text@.len(),
            i <= prefix@.len(),
            text@.take(i) == prefix@.take(i),
            vstd::std_specs::iter::IteratorSpec::remaining(&x) == text@.skip(i),
            vstd::std_specs::iter::IteratorSpec::remaining(&y) == prefix@.skip(i),
        decreases prefix@.len() - i,
    {
        match y.next() {
            None => {
                assert(prefix@ == prefix@.take(i));
                assert(text@.subrange(0, i) == text@.take(i));
                return true;
            },
            Some(d) => {
                match x.next() {
                    None => {
                        return false;
                    },
                    Some(c) => {
                        if c != d {
                            assert(text@[i] != prefix@[i]);
                            assert(prefix@.len() <= text@.len() ==> text@.subrange(
                                0,
                                prefix@.len() as int,
                            )[i] == text@[i]);
                            return false;
                        }
                        proof {
                            assert(text@.take(i + 1) == text@.take(i).push(c));
                            assert(prefix@.take(i + 1) == prefix@.take(i).push(d));
                            assert(text@.skip(i).drop_first() == text@.skip(i + 1));
                            assert(prefix@.skip(i).drop_first() == prefix@.skip(i + 1));
                            i = i + 1;
                        }
                    },
                }
            },
        }
    }
}

/// The characters of `text`, in order.
fn characters(text: &str) -> (r: Vec<char>)
    ensures
        r@ == text@,
{
    let mut out: Vec<char> = Vec::new();
    let mut x = text.chars();
    loop
        invariant
            out@.len() <= text@.len(),
            out@ == text@.take(out@.len() as int),
            vstd::std_specs::iter::IteratorSpec::remaining(&x) == text@.skip(out@.len() as int),
        decreases text@.len() - out@.len(),
    {
        let ghost n = out@.len() as int;
        match x.next() {
            None => {
                assert(text@ == text@.take(n));
                return out;
            },
            Some(c) => {
                out.push(c);
                assert(text@.take(n + 1) == text@.take(n).push(c));
                assert(text@.skip(n).drop_first() == text@.skip(n + 1));
            },
        }
    }
}

/// The number that the digit `c` denotes, if it is one.
fn digit_number(c: char) -> (r: Option<u64>)
    ensures
        match r {
            Some(d) => is_digit(c) && d == c as nat - 48 && d < 10,
            None => !is_digit(c),
        },
{
    if '0' <= c && c <= '9' {
        Some(c as u64 - 48)
    } else {
        None
    }
}

/// Whether `part` occurs in `text`.
pub open spec fn occurs_in(part: Seq<char>, text: Seq<char>) -> bool {
    exists|i: int|
        0 <= i && i + part.len() <= text.len() && #[trigger] text.subrange(i, i + part.len())
            == part
}

/// Tells whether `part` stands at place `at` of `text`.
fn stands_at(text: &Vec<char>, part: &Vec<char>, at: usize) -> (r: bool)
    requires
        at + part@.len() <= text@.len(),
    ensures
        r == (text@.subrange(at as int, at + part@.len()) == part@),
{
    let ghost cut = text@.subrange(at as int, at + part@.len());
    let end: usize = text.len();
    let mut k: usize = 0;
    while k < part.len()
        invariant
            end == text@.len(),
            k <= part@.len(),
            at + part@.len() <= text@.len(),
            cut == text@.subrange(at as int, at + part@.len()),
            forall|j: int| 0 <= j < k ==> #[trigger] cut[j] == part@[j],
        decreases part@.len() - k,
    {
        if text[at + k] != part[k] {
            assert(cut[k as int] != part@[k as int]);
            return false;
        }
        k = k + 1;
    }
    assert(cut =~= part@);
    true
}

/// Tells whether `part` occurs in `text`.
pub fn contains_text(text: &str, part: &str) -> (r: bool)
    ensures
        r == occurs_in(part@, text@),
{
    let t: Vec<char> = characters(text);
    let p: Vec<char> = characters(part);
    if p.len() > t.len() {
        return false;
    }
    let last: usize = t.len() - p.len();
    let mut i: usize = 0;
    loop
        invariant
            t@ == text@,
            p@ == part@,
            last == t@.len() - p@.len(),
            i <= last,
            forall|j: int|
                0 <= j < i ==> #[trigger] text@.subrange(j, j + part@.len()) != part@,
        decreases last - i,
    {
        if stands_at(&t, &p, i) {
            return true;
        }
        if i == last {
            return false;
        }
        i = i + 1;
    }
}

/// More digits never denote a smaller number.
proof fn lemma_digits_value_grows(s: Seq<char>, n: int)
    requires
        0 <= n <= s.len(),
    ensures
        digits_value(s.take(n)) <= digits_value(s),
    decreases s.len() - n,
{
    if n == s.len() {
        assert(s.take(n) == s);
    } else {
        lemma_digits_value_grows(s, n + 1);
        assert(s.take(n + 1).drop_last() == s.take(n));
    }
}

/// Reads an unsigned number: an optional `+`, then decimal digits only.
/// A number above `max` is refused, as is any other text.
pub fn parse_unsigned(text: &str, max: u64) -> (r: Option<u64>)
    ensures
        match unsigned_value(text@) {
            Some(v) => if v <= max {
                r == Some(v as u64)
            } else {
                r is None
            },
            None => r is None,
        },
{
    let chars: Vec<char> = characters(text);
    let start: usize = if chars.len() > 0 && chars[0] == '+' {
        1
    } else {
        0
    };
    let ghost digits = unsigned_digits(text@);
    assert(digits == text@.skip(start as int));
    if start == chars.len() {
        return None;
    }
    let mut value: u64 = 0;
    let mut i: usize = start;
    while i < chars.len()
        invariant
            chars@ == text@,
            digits == unsigned_digits(text@),
            digits == text@.skip(start as int),
            start <= i <= chars@.len(),
            digits.len() > 0,
            all_digits(digits.take(i - start)),
            value == digits_value(digits.take(i - start)),
            value <= max,
        decreases chars@.len() - i,
    {
        let ghost n = i - start;
        let ghost next = digits.take(n + 1);
        assert(digits[n] == chars@[i as int]);
        assert(next.drop_last() == digits.take(n));
        match digit_number(chars[i]) {
            None => {
                assert(!is_digit(digits[n]));
                return None;
            },
            Some(d) => {
                let grown: u128 = value as u128 * 10 + d as u128;
                assert(grown == digits_value(next));
                if grown > max as u128 {
                    proof {
                        lemma_digits_value_grows(digits, n + 1);
                    }
                    return None;
                }
                value = grown as u64;
            },
        }
        i = i + 1;
    }
    assert(digits.take(i - start) == digits);
    Some(value)
}

/// The decimal notation of a number consists of digits and denotes it.
pub proof fn lemma_decimal_denotes(n: nat)
    ensures
        decimal(n).len() > 0,
        all_digits(decimal(n)),
        digits_value(decimal(n)) == n,
    decreases n,
{
    let s = decimal(n);
    if n < 10 {
        assert(s.drop_last() == Seq::<char>::empty());
        assert(digits_value(s.drop_last()) == 0);
    } else {
        lemma_decimal_denotes(n / 10);
        assert(s.drop_last() == decimal(n / 10));
    }
}

/// Reading back the decimal notation of a number gives the number.
pub proof fn law_decimal_reads_back(n: nat)
    ensures
        unsigned_value(decimal(n)) == Some(n),
{
    lemma_decimal_denotes(n);
    assert(is_digit(decimal(n)[0]));
}

} // verus!

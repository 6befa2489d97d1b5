//! Laws of numbers in text, and of settings.

use vstd::prelude::*;

verus! {

/// The decimal notation of a number ends in its last digit; what stands before
/// is the notation of the number without that digit, or nothing.
pub proof fn law_decimal_digit_by_digit(n: nat)
    ensures
        ({
            let text = crate::text::decimal(n);
            &&& text.len() > 0
            &&& text.last() as nat == '0' as nat + n % 10
            &&& n < 10 ==> text.len() == 1
            &&& n >= 10 ==> text.drop_last() == crate::text::decimal(n / 10)
        }),
{
    let text = crate::text::decimal(n);
    if n >= 10 {
        assert(text.drop_last() =~= crate::text::decimal(n / 10));
    }
}

/// No two numbers have the same decimal notation.
pub proof fn law_decimal_tells_numbers_apart(a: nat, b: nat)
    requires
        crate::text::decimal(a) == crate::text::decimal(b),
    ensures
        a == b,
{
    crate::text::law_decimal_reads_back(a);
    crate::text::law_decimal_reads_back(b);
}

/// A text is an unsigned number just where it holds digits only, at least one,
/// behind at most one plus sign.
pub proof fn law_what_is_a_number(s: Seq<char>)
    ensures
        crate::text::unsigned_value(s) is Some <==> {
            ||| s.len() > 0 && forall|i: int|
                0 <= i < s.len() ==> '0' <= #[trigger] s[i] && s[i] <= '9'
            ||| s.len() > 1 && s[0] == '+' && forall|i: int|
                1 <= i < s.len() ==> '0' <= #[trigger] s[i] && s[i] <= '9'
        },
{
    let digits = crate::text::unsigned_digits(s);
    if s.len() > 0 && s[0] == '+' {
        assert(forall|i: int| 0 <= i < digits.len() ==> #[trigger] digits[i] == s[i + 1]);
        assert forall|i: int| 1 <= i < s.len() && crate::text::all_digits(digits) implies '0'
            <= #[trigger] s[i] && s[i] <= '9' by {
            assert(crate::text::is_digit(digits[i - 1]));
        }
        assert(!('0' <= s[0] && s[0] <= '9'));
    }
}

/// One more digit makes ten times the number and that digit more.
pub proof fn law_number_grows_digit_by_digit(s: Seq<char>, c: char)
    requires
        crate::text::unsigned_value(s) is Some,
        '0' <= c <= '9',
    ensures
        crate::text::unsigned_value(s.push(c)) == Some(
            (crate::text::unsigned_value(s)->0 * 10 + (c as nat - '0' as nat)) as nat,
        ),
{
    let longer = s.push(c);
    let digits = crate::text::unsigned_digits(s);
    let more = crate::text::unsigned_digits(longer);
    assert(longer[0] == s[0]);
    assert(more =~= digits.push(c));
    assert(more.drop_last() =~= digits);
    assert(crate::text::all_digits(more));
}

/// A plus sign in front of a number changes nothing.
pub proof fn law_plus_sign_changes_nothing(s: Seq<char>)
    requires
        s.len() > 0,
        s[0] != '+',
    ensures
        crate::text::unsigned_value(seq!['+'] + s) == crate::text::unsigned_value(s),
{
    assert((seq!['+'] + s).skip(1) =~= s);
}

/// A setting that is a number up to the largest is that number; one that is
/// missing, larger, or no number is the default.
pub proof fn law_setting_or_default(text: Option<Seq<char>>, n: nat, max: nat, default: nat)
    ensures
        crate::config::setting_value(None, max, default) == default,
        crate::config::setting_value(Some(crate::text::decimal(n)), max, default) == if n <= max {
            n
        } else {
            default
        },
        text matches Some(t) ==> {
            &&& crate::text::unsigned_value(t) is None ==> crate::config::setting_value(
                text,
                max,
                default,
            ) == default
            &&& crate::text::unsigned_value(t) matches Some(v) ==> {
                &&& v <= max ==> crate::config::setting_value(text, max, default) == v
                &&& v > max ==> crate::config::setting_value(text, max, default) == default
            }
        },
        default <= max ==> crate::config::setting_value(text, max, default) <= max,
{
    crate::text::law_decimal_reads_back(n);
}

/// A port that is set to a number that a port can have is that number, and any
/// other is 9100. A threshold that is set to a number is that number, as far as
/// it can be held; else it is five hundred connection requests, or a hundred
/// ports.
pub proof fn law_settings_are_followed(text: Option<Seq<char>>, n: nat)
    ensures
        crate::config::port_setting(Some(crate::text::decimal(n))) == if n <= 65_535 {
            n
        } else {
            9100
        },
        crate::config::syn_setting(Some(crate::text::decimal(n))) == if n <= u64::MAX {
            n
        } else {
            500
        },
        crate::config::ports_setting(Some(crate::text::decimal(n))) == if n <= usize::MAX {
            n
        } else {
            100
        },
        text is None || crate::text::unsigned_value(text->0) is None ==> {
            &&& crate::config::port_setting(text) == 9100
            &&& crate::config::syn_setting(text) == 500
            &&& crate::config::ports_setting(text) == 100
        },
{
    crate::text::law_decimal_reads_back(n);
}

} // verus!

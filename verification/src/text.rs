//! Text the library puts together: decimal numbers in messages, and locations without
//! trailing slashes.

use vstd::prelude::*;
use vstd::string::{StrSliceExecFns, StringExecFns};

verus! {

/// One decimal digit.
pub open spec fn digit(d: nat) -> Seq<char> {
    if d == 0 {
        "0"@
    } else if d == 1 {
        "1"@
    } else if d == 2 {
        "2"@
    } else if d == 3 {
        "3"@
    } else if d == 4 {
        "4"@
    } else if d == 5 {
        "5"@
    } else if d == 6 {
        "6"@
    } else if d == 7 {
        "7"@
    } else if d == 8 {
        "8"@
    } else {
        "9"@
    }
}

/// The decimal digits of a natural number, without leading zeros.
pub open spec fn digits(n: nat) -> Seq<char>
    decreases n,
{
    if n < 10 {
        digit(n)
    } else {
        digits(n / 10) + digit(n % 10)
    }
}

/// The decimal form of an integer: its digits, after a minus sign if it is negative.
pub open spec fn decimal(n: int) -> Seq<char> {
    if n < 0 {
        "-"@ + digits((-n) as nat)
    } else {
        digits(n as nat)
    }
}

fn push_digit(text: &mut String, d: u64)
    requires
        d < 10,
    ensures
        final(text)@ == old(text)@ + digit(d as nat),
{
    let c: &str = if d == 0 {
        "0"
    } else if d == 1 {
        "1"
    } else if d == 2 {
        "2"
    } else if d == 3 {
        "3"
    } else if d == 4 {
        "4"
    } else if d == 5 {
        "5"
    } else if d == 6 {
        "6"
    } else if d == 7 {
        "7"
    } else if d == 8 {
        "8"
    } else {
        "9"
    };
    text.append(c);
}

fn push_digits(text: &mut String, n: u64)
    ensures
        final(text)@ == old(text)@ + digits(n as nat),
    decreases n,
{
    if n >= 10 {
        push_digits(text, n / 10);
    }
    push_digit(text, n % 10);
    proof {
        assert(text@ =~= old(text)@ + digits(n as nat));
    }
}

/// Appends the decimal form of `n` to `text`.
pub fn push_decimal(text: &mut String, n: i64)
    ensures
        final(text)@ == old(text)@ + decimal(n as int),
{
    if n < 0 {
        text.append("-");
        let magnitude: u64 = (-(n as i128)) as u64;
        push_digits(text, magnitude);
        proof {
            assert(text@ =~= old(text)@ + decimal(n as int));
        }
    } else {
        push_digits(text, n as u64);
    }
}

/// Appends the decimal form of `n` to `text`.
pub fn push_decimal_u64(text: &mut String, n: u64)
    ensures
        final(text)@ == old(text)@ + decimal(n as int),
{
    push_digits(text, n)
}

/// `before`, the decimal form of `n`, and `after`, in one text.
pub fn around_number(before: &str, n: i64, after: &str) -> (r: String)
    ensures
        r@ == before@ + decimal(n as int) + after@,
{
    let mut text: String = before.to_owned();
    push_decimal(&mut text, n);
    text.append(after);
    text
}

/// `before`, `name` and `after` in one text.
pub fn around_name(before: &str, name: &String, after: &str) -> (r: String)
    ensures
        r@ == before@ + name@ + after@,
{
    let mut text: String = before.to_owned();
    text.append(name.as_str());
    text.append(after);
    text
}

/// The text without the slashes at its end.
pub open spec fn without_trailing_slashes(s: Seq<char>) -> Seq<char>
    decreases s.len(),
{
    if s.len() > 0 && s.last() == '/' {
        without_trailing_slashes(s.drop_last())
    } else {
        s
    }
}

/// What is left once the trailing slashes are gone is the text up to some place, with slashes
/// only behind that place and none just before it.
pub proof fn trailing_slashes_only(s: Seq<char>)
    ensures
        without_trailing_slashes(s).len() <= s.len(),
        without_trailing_slashes(s) == s.take(without_trailing_slashes(s).len() as int),
        forall|i: int| without_trailing_slashes(s).len() <= i < s.len() ==> s[i] == '/',
        without_trailing_slashes(s).len() > 0 ==> without_trailing_slashes(s).last() != '/',
    decreases s.len(),
{
    if s.len() > 0 && s.last() == '/' {
        trailing_slashes_only(s.drop_last());
        let kept: Seq<char> = without_trailing_slashes(s);
        assert(s.drop_last().take(kept.len() as int) =~= s.take(kept.len() as int));
        assert forall|i: int| kept.len() <= i < s.len() implies s[i] == '/' by {
            if i < s.len() - 1 {
                assert(s.drop_last()[i] == s[i]);
            }
        }
    } else {
        assert(s.take(s.len() as int) =~= s);
    }
}

/// Taking the trailing slashes away a second time changes nothing.
pub proof fn trailing_slashes_gone_for_good(s: Seq<char>)
    ensures
        without_trailing_slashes(without_trailing_slashes(s)) == without_trailing_slashes(s),
    decreases s.len(),
{
    if s.len() > 0 && s.last() == '/' {
        trailing_slashes_gone_for_good(s.drop_last());
    }
}

/// The text without the slashes at its end.
pub fn trim_trailing_slashes(text: &String) -> (r: String)
    ensures
        r@ == without_trailing_slashes(text@),
{
    let whole: &str = text.as_str();
    let mut n: usize = whole.unicode_len();
    proof {
        assert(text@.take(n as int) =~= text@);
    }
    while n > 0 && whole.get_char(n - 1) == '/'
        invariant
            whole@ == text@,
            n <= text@.len(),
            without_trailing_slashes(text@.take(n as int)) == without_trailing_slashes(text@),
        ensures
            n <= text@.len(),
            n > 0 ==> text@[n - 1] != '/',
            without_trailing_slashes(text@.take(n as int)) == without_trailing_slashes(text@),
        decreases n,
    {
        proof {
            assert(text@.take(n as int).drop_last() =~= text@.take(n - 1));
        }
        n = n - 1;
    }
    whole.substring_char(0, n).to_owned()
}

} // verus!

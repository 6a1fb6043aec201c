//! Decimal text for the counts and layer indices of a saved agent.

use vstd::prelude::*;
use vstd::string::*;

verus! {

/// The character that stands for the digit `d`.
pub open spec fn digit_char(d: int) -> char {
    seq!['0', '1', '2', '3', '4', '5', '6', '7', '8', '9'][d]
}

/// Whether a character is one of the ten decimal digits.
pub open spec fn is_digit(c: char) -> bool {
    '0' <= c <= '9'
}

/// The digit that a digit character stands for.
pub open spec fn digit_value(c: char) -> int {
    c as int - '0' as int
}

/// The decimal numeral of `n`: no sign, no leading zero, `"0"` for zero.
pub open spec fn decimal(n: nat) -> Seq<char>
    decreases n,
{
    if n < 10 {
        seq![digit_char(n as int)]
    } else {
        decimal(n / 10).push(digit_char((n % 10) as int))
    }
}

/// Whether every character of a text is a decimal digit.
pub open spec fn all_digits(s: Seq<char>) -> bool {
    forall|i: int| 0 <= i < s.len() ==> is_digit(#[trigger] s[i])
}

/// The number that a string of digits denotes, leading zeros allowed.
pub open spec fn digits_value(s: Seq<char>) -> nat
    decreases s.len(),
{
    if s.len() == 0 {
        0
    } else {
        (digits_value(s.drop_last()) * 10 + digit_value(s.last())) as nat
    }
}

/// The text of a count without the plus sign that may lead it.
pub open spec fn unsigned_part(s: Seq<char>) -> Seq<char> {
    if s.len() > 0 && s[0] == '+' {
        s.subrange(1, s.len() as int)
    } else {
        s
    }
}

/// The count that a text denotes: an optional `+`, then one or more decimal
/// digits whose value fits in `usize`. Any other text denotes none.
pub open spec fn count_of(s: Seq<char>) -> Option<usize> {
    let body = unsigned_part(s);
    if body.len() > 0 && all_digits(body) && digits_value(body) <= usize::MAX {
        Some(digits_value(body) as usize)
    } else {
        None
    }
}

/// The character of a digit is a digit character and stands for that digit.
pub proof fn lemma_digit_char(d: int)
    requires
        0 <= d < 10,
    ensures
        is_digit(digit_char(d)),
        digit_value(digit_char(d)) == d,
{
}

/// A decimal numeral is a non-empty string of digits that denotes its number.
pub proof fn lemma_decimal(n: nat)
    ensures
        decimal(n).len() >= 1,
        all_digits(decimal(n)),
        digits_value(decimal(n)) == n,
    decreases n,
{
    if n < 10 {
        lemma_digit_char(n as int);
        let s = decimal(n);
        assert(s.drop_last() =~= Seq::<char>::empty());
        assert(digits_value(s.drop_last()) == 0);
    } else {
        lemma_decimal(n / 10);
        lemma_digit_char((n % 10) as int);
        let s = decimal(n);
        assert(s.drop_last() =~= decimal(n / 10));
        assert(s.last() == digit_char((n % 10) as int));
    }
}

/// Different numbers have different numerals.
pub proof fn lemma_decimal_injective(a: nat, b: nat)
    requires
        decimal(a) == decimal(b),
    ensures
        a == b,
{
    lemma_decimal(a);
    lemma_decimal(b);
}

/// Reading the numeral of a count gives the count back.
pub proof fn lemma_count_of_decimal(n: usize)
    ensures
        count_of(decimal(n as nat)) == Some(n),
{
    lemma_decimal(n as nat);
    let s = decimal(n as nat);
    assert(is_digit(s[0]));
    assert(unsigned_part(s) == s);
}

/// The value of a string of digits is at least that of each of its prefixes.
pub proof fn lemma_digits_value_prefix(s: Seq<char>, k: int)
    requires
        all_digits(s),
        0 <= k <= s.len(),
    ensures
        digits_value(s.take(k)) <= digits_value(s),
    decreases s.len() - k,
{
    if k == s.len() {
        assert(s.take(k) =~= s);
    } else {
        lemma_digits_value_prefix(s, k + 1);
        assert(s.take(k + 1).drop_last() =~= s.take(k));
        assert(is_digit(s[k]));
        assert(s.take(k + 1).last() == s[k]);
    }
}

fn digit_str(d: u8) -> (r: &'static str)
    requires
        d < 10,
    ensures
        r@ == seq![digit_char(d as int)],
{
    let r: &'static str = match d {
        0 => "0",
        1 => "1",
        2 => "2",
        3 => "3",
        4 => "4",
        5 => "5",
        6 => "6",
        7 => "7",
        8 => "8",
        _ => "9",
    };
    proof {
        reveal_strlit("0");
        reveal_strlit("1");
        reveal_strlit("2");
        reveal_strlit("3");
        reveal_strlit("4");
        reveal_strlit("5");
        reveal_strlit("6");
        reveal_strlit("7");
        reveal_strlit("8");
        reveal_strlit("9");
        assert(r@ =~= seq![digit_char(d as int)]);
    }
    r
}

/// The decimal numeral of `n`.
pub fn render_decimal(n: usize) -> (s: String)
    ensures
        s@ == decimal(n as nat),
    decreases n,
{
    if n < 10 {
        String::from_str(digit_str(n as u8))
    } else {
        let mut s = render_decimal(n / 10);
        s.append(digit_str((n % 10) as u8));
        assert(s@ =~= decimal(n as nat));
        s
    }
}

/// Reads a count: an optional `+` and decimal digits. `None` for any other
/// text, and for a number that does not fit in `usize`.
pub fn parse_count(s: &str) -> (r: Option<usize>)
    ensures
        r == count_of(s@),
{
    if !s.is_ascii() {
        proof {
            let body = unsigned_part(s@);
            if body.len() > 0 && all_digits(body) {
                assert forall|i: int| 0 <= i < s@.len() implies '\0' <= #[trigger] s@[i]
                    <= '\u{7f}' by {
                    if s@[0] == '+' {
                        if i > 0 {
                            assert(is_digit(body[i - 1]));
                        }
                    } else {
                        assert(is_digit(body[i]));
                    }
                }
                assert(false);
            }
        }
        return None;
    }
    let bytes = s.as_bytes();
    let n: usize = bytes.len();
    proof {
        is_ascii_spec_bytes(s);
        vstd::utf8::is_ascii_chars_nat_bound(s@);
    }
    let start: usize = if n > 0 && bytes[0] == 43 {
        1
    } else {
        0
    };
    let ghost body = unsigned_part(s@);
    assert(forall|j: int| 0 <= j < n ==> #[trigger] bytes@[j] as int == s@[j] as int);
    assert(n > 0 ==> (bytes@[0] == 43 <==> s@[0] == '+'));
    assert(body =~= s@.subrange(start as int, n as int));
    if start == n {
        return None;
    }
    let mut value: usize = 0;
    let mut i: usize = start;
    assert(body.take(0) =~= Seq::<char>::empty());
    while i < n
        invariant
            start <= i <= n,
            n == s@.len(),
            n == bytes@.len(),
            body == unsigned_part(s@),
            body == s@.subrange(start as int, n as int),
            forall|j: int| 0 <= j < n ==> #[trigger] bytes@[j] as int == s@[j] as int,
            all_digits(body.take(i - start)),
            value == digits_value(body.take(i - start)),
        decreases n - i,
    {
        let b: u8 = bytes[i];
        let ghost c = s@[i as int];
        assert(bytes@[i as int] as int == c as int);
        assert(body[i - start] == c);
        if b < 48 || b > 57 {
            assert(!is_digit(c));
            return None;
        }
        assert(is_digit(c));
        assert(digit_value(c) == b - 48);
        proof {
            assert(body.take(i - start + 1).drop_last() =~= body.take(i - start));
            assert(body.take(i - start + 1).last() == c);
            if all_digits(body) {
                lemma_digits_value_prefix(body, i - start + 1);
            }
        }
        let shifted: usize = match value.checked_mul(10) {
            Some(v) => v,
            None => {
                return None;
            },
        };
        value = match shifted.checked_add((b - 48) as usize) {
            Some(v) => v,
            None => {
                return None;
            },
        };
        i += 1;
    }
    assert(body.take(n - start) =~= body);
    Some(value)
}

} // verus!

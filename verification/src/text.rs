//! Text: comparing, searching, and reading and writing decimal numbers.

use vstd::prelude::*;
use vstd::string::StringExecFns;

verus! {


/// Whether `c` is one of the ten decimal digits.
pub open spec fn is_digit(c: char) -> bool {
    '0' <= c && c <= '9'
}

/// The number a decimal digit stands for.
pub open spec fn digit_value(c: char) -> int {
    c as int - '0' as int
}

/// The character of the digit `d`, for `d` from 0 to 9.
pub open spec fn digit_char(d: int) -> char {
    (d + '0' as int) as char
}

/// Whether every character of `s` is a decimal digit.
pub open spec fn all_digits(s: Seq<char>) -> bool {
    forall|i: int| 0 <= i < s.len() ==> is_digit(#[trigger] s[i])
}

/// The number that a run of decimal digits writes, most significant digit
/// first; zero for the empty run.
pub open spec fn number_value(s: Seq<char>) -> nat
    decreases s.len(),
{
    if s.len() == 0 {
        0
    } else {
        (number_value(s.drop_last()) * 10 + digit_value(s.last())) as nat
    }
}

/// The magnitude written by `s`, if `s` is a non-empty run of digits.
pub open spec fn magnitude(s: Seq<char>) -> Option<int> {
    if s.len() > 0 && all_digits(s) {
        Some(number_value(s) as int)
    } else {
        None
    }
}

/// The integer that `s` writes in decimal: an optional `+` (or, where `signed`,
/// `-`) and then at least one digit, with nothing else before, between or after.
pub open spec fn parse_decimal(s: Seq<char>, signed: bool) -> Option<int> {
    if s.len() > 0 && s[0] == '+' {
        magnitude(s.skip(1))
    } else if signed && s.len() > 0 && s[0] == '-' {
        match magnitude(s.skip(1)) {
            Some(m) => Some(-m),
            None => None,
        }
    } else {
        magnitude(s)
    }
}

/// `parse_decimal`, kept only where the integer lies between `lo` and `hi`.
pub open spec fn parse_bounded(s: Seq<char>, signed: bool, lo: int, hi: int) -> Option<int> {
    match parse_decimal(s, signed) {
        Some(v) => if lo <= v <= hi {
            Some(v)
        } else {
            None
        },
        None => None,
    }
}

/// The decimal digits of `n`, most significant first, without leading zeros;
/// `"0"` for zero.
pub open spec fn digits(n: nat) -> Seq<char>
    decreases n,
{
    if n < 10 {
        seq![digit_char(n as int)]
    } else {
        digits(n / 10).push(digit_char((n % 10) as int))
    }
}

/// The decimal text of `n`: its digits, after a `-` where `n` is negative.
pub open spec fn decimal(n: int) -> Seq<char> {
    if n < 0 {
        seq!['-'] + digits((-n) as nat)
    } else {
        digits(n as nat)
    }
}

/// A run of digits that is cut short writes no more than the whole run.
pub proof fn lemma_number_value_prefix(s: Seq<char>, k: int)
    requires
        all_digits(s),
        0 <= k <= s.len(),
    ensures
        number_value(s.take(k)) <= number_value(s),
    decreases s.len() - k,
{
    if k == s.len() {
        assert(s.take(k) =~= s);
    } else {
        lemma_number_value_prefix(s, k + 1);
        let t = s.take(k + 1);
        assert(t.drop_last() =~= s.take(k));
        assert(is_digit(s[k]));
        assert(t.last() == s[k]);
    }
}

/// The digits of a number are digits, and they write that number.
pub proof fn lemma_digits(n: nat)
    ensures
        digits(n).len() > 0,
        all_digits(digits(n)),
        number_value(digits(n)) == n,
    decreases n,
{
    if n < 10 {
        let s = digits(n);
        assert(s.drop_last() =~= Seq::<char>::empty());
        assert(number_value(s.drop_last()) == 0);
    } else {
        lemma_digits(n / 10);
        let s = digits(n);
        assert(s.drop_last() =~= digits(n / 10));
        assert(s.last() == digit_char((n % 10) as int));
    }
}

/// Reading the decimal text of an integer gives the integer back: as a signed
/// number always, as an unsigned one where it is not negative.
pub proof fn lemma_parse_decimal_of_decimal(n: int, signed: bool)
    requires
        signed || n >= 0,
    ensures
        parse_decimal(decimal(n), signed) == Some(n),
{
    if n < 0 {
        let m = (-n) as nat;
        lemma_digits(m);
        let s = decimal(n);
        assert(s[0] == '-');
        assert(s.skip(1) =~= digits(m));
    } else {
        lemma_digits(n as nat);
        let s = digits(n as nat);
        assert(is_digit(s[0]));
    }
}

/// Reads `s` as a decimal integer and keeps it where it lies between `lo` and
/// `hi`. A `-` is taken only where `signed`.
pub(crate) fn parse_integer(s: &str, signed: bool, lo: i128, hi: i128) -> (r: Option<i128>)
    requires
        -0x1_0000_0000_0000_0000 <= lo <= 0 <= hi <= 0x1_0000_0000_0000_0000,
    ensures
        match r {
            Some(v) => parse_bounded(s@, signed, lo as int, hi as int) == Some(v as int),
            None => parse_bounded(s@, signed, lo as int, hi as int) is None,
        },
{
    let n = s.unicode_len();
    let mut negative = false;
    let mut start: usize = 0;
    if n > 0 {
        let c = s.get_char(0);
        if c == '+' {
            start = 1;
        } else if signed && c == '-' {
            negative = true;
            start = 1;
        }
    }
    let ghost rest = s@.skip(start as int);
    if start >= n {
        return None;
    }
    let limit: u128 = if negative {
        (-lo) as u128
    } else {
        hi as u128
    };
    let mut acc: u128 = 0;
    let mut i: usize = start;
    proof {
        if start == 0 {
            assert(rest =~= s@);
        }
    }
    while i < n
        invariant
            start <= i <= n,
            start < n,
            limit == if negative {
                -lo
            } else {
                hi as int
            },
            parse_decimal(s@, signed) == match magnitude(rest) {
                Some(m) => Some(
                    if negative {
                        -m
                    } else {
                        m
                    },
                ),
                None => None,
            },
            n == s@.len(),
            rest == s@.skip(start as int),
            all_digits(rest.take(i - start)),
            acc == number_value(rest.take(i - start)),
            acc <= limit <= 0x1_0000_0000_0000_0000,
        decreases n - i,
    {
        let c = s.get_char(i);
        let ghost k = i - start;
        assert(rest[k] == c);
        if !('0' <= c && c <= '9') {
            assert(!is_digit(rest[k]));
            return None;
        }
        let d: u128 = (c as u32 - '0' as u32) as u128;
        let next: u128 = acc * 10 + d;
        proof {
            let t = rest.take(k + 1);
            assert(t.drop_last() =~= rest.take(k));
            assert(t.last() == c);
            assert(next == number_value(t));
            assert forall|j: int| 0 <= j < t.len() implies is_digit(#[trigger] t[j]) by {
                if j < k {
                    assert(t[j] == rest.take(k)[j]);
                }
            }
        }
        if next > limit {
            proof {
                if all_digits(rest) {
                    lemma_number_value_prefix(rest, k + 1);
                }
            }
            return None;
        }
        acc = next;
        i += 1;
    }
    proof {
        assert(rest.take(i - start) =~= rest);
    }
    if negative {
        Some(-(acc as i128))
    } else {
        Some(acc as i128)
    }
}

/// The one-character text of the digit `d`.
fn digit_text(d: u8) -> (r: &'static str)
    requires
        d < 10,
    ensures
        r@ == seq![digit_char(d as int)],
{
    proof {
        reveal_strlit("0");
        reveal_strlit("1");
        reveal_strlit("2");
        reveal_strlit("3");
        reveal_strlit("4");
        reveal_strlit("5");
        reveal_strlit("6");
        reveal_strlit("7");
        reveal_strlit("8");
        reveal_strlit("9");
    }
    let r = if d == 0 {
        "0"
    } else if d == 1 {
        "1"
    } else if d == 2 {
        "2"
    } else if d == 3 {
        "3"
    } else if d == 4 {
        "4"
    } else if d == 5 {
        "5"
    } else if d == 6 {
        "6"
    } else if d == 7 {
        "7"
    } else if d == 8 {
        "8"
    } else {
        "9"
    };
    assert(r@ =~= seq![digit_char(d as int)]);
    r
}

/// Appends the decimal digits of `n` to `out`.
fn push_digits(n: u128, out: &mut String)
    ensures
        final(out)@ == old(out)@ + digits(n as nat),
    decreases n,
{
    if n >= 10 {
        push_digits(n / 10, out);
    }
    let d: u8 = (n % 10) as u8;
    out.append(digit_text(d));
    proof {
        if n >= 10 {
            assert(final(out)@ =~= old(out)@ + digits(n as nat));
        } else {
            assert(final(out)@ =~= old(out)@ + digits(n as nat));
        }
    }
}

/// The decimal text of an unsigned integer.
pub fn format_unsigned(n: u128) -> (r: String)
    ensures
        r@ == decimal(n as int),
{
    let mut out = String::new();
    push_digits(n, &mut out);
    assert(out@ =~= decimal(n as int));
    out
}

/// The decimal text of a signed integer.
pub fn format_signed(n: i128) -> (r: String)
    ensures
        r@ == decimal(n as int),
{
    if n >= 0 {
        format_unsigned(n as u128)
    } else {
        proof {
            reveal_strlit("-");
        }
        let mut out = String::from_str("-");
        let m: u128 = if n == i128::MIN {
            0x8000_0000_0000_0000_0000_0000_0000_0000u128
        } else {
            (-n) as u128
        };
        push_digits(m, &mut out);
        assert(out@ =~= decimal(n as int));
        out
    }
}

/// Whether `pat` stands in `s` at the place `i`.
pub open spec fn occurs_at(s: Seq<char>, pat: Seq<char>, i: int) -> bool {
    0 <= i && i + pat.len() <= s.len() && s.subrange(i, i + pat.len()) == pat
}

/// Whether `pat` stands somewhere in `s`.
pub open spec fn contains(s: Seq<char>, pat: Seq<char>) -> bool {
    exists|i: int| occurs_at(s, pat, i)
}

/// Whether `s` begins with `pat`.
pub open spec fn starts_with(s: Seq<char>, pat: Seq<char>) -> bool {
    occurs_at(s, pat, 0)
}

/// Tells whether `pat` stands in `s` at the place `i`.
fn text_occurs_at(s: &str, pat: &str, i: usize) -> (r: bool)
    ensures
        r == occurs_at(s@, pat@, i as int),
{
    let n = s.unicode_len();
    let m = pat.unicode_len();
    if i > n || m > n - i {
        return false;
    }
    let mut k: usize = 0;
    while k < m
        invariant
            k <= m,
            m == pat@.len(),
            n == s@.len(),
            i + m <= n,
            forall|j: int| 0 <= j < k ==> s@[i + j] == pat@[j],
        decreases m - k,
    {
        if s.get_char(i + k) != pat.get_char(k) {
            proof {
                let window = s@.subrange(i as int, i + m);
                assert(window[k as int] == s@[i + k]);
            }
            return false;
        }
        k += 1;
    }
    proof {
        assert(s@.subrange(i as int, i + m) =~= pat@);
    }
    true
}

/// Tells whether two string slices hold the same characters.
pub(crate) fn str_eq(a: &str, b: &str) -> (r: bool)
    ensures
        r == (a@ == b@),
{
    if a.unicode_len() != b.unicode_len() {
        return false;
    }
    proof {
        assert(a@.subrange(0, a@.len() as int) =~= a@);
    }
    text_occurs_at(a, b, 0)
}

/// Tells whether `pat` stands somewhere in `s`.
pub fn text_contains(s: &str, pat: &str) -> (r: bool)
    ensures
        r == contains(s@, pat@),
{
    let n = s.unicode_len();
    let mut i: usize = 0;
    while i < n
        invariant
            i <= n,
            n == s@.len(),
            forall|j: int| 0 <= j < i ==> !occurs_at(s@, pat@, j),
        decreases n - i,
    {
        if text_occurs_at(s, pat, i) {
            return true;
        }
        i += 1;
    }
    text_occurs_at(s, pat, n)
}

/// Tells whether `s` begins with `pat`.
pub fn text_starts_with(s: &str, pat: &str) -> (r: bool)
    ensures
        r == starts_with(s@, pat@),
{
    text_occurs_at(s, pat, 0)
}

/// Whether `s` writes a number as the wire format writes a fixed-point
/// number: an optional sign, at least one digit, a point, and at least one
/// digit.
pub open spec fn is_fixed_numeral(s: Seq<char>) -> bool {
    has_point(
        if s.len() > 0 && (s[0] == '+' || s[0] == '-') {
            s.skip(1)
        } else {
            s
        },
    )
}

/// Whether `body` is made of digits but for one point, with a digit on either
/// side of it.
pub open spec fn has_point(body: Seq<char>) -> bool {
    exists|p: int| point_at(body, p)
}

/// Whether `body` is made of digits but for a point at the place `p`, with a
/// digit on either side of it.
pub open spec fn point_at(body: Seq<char>, p: int) -> bool {
    0 < p < body.len() - 1 && body[p] == '.' && all_digits(body.take(p)) && all_digits(
        body.skip(p + 1),
    )
}

/// Tells whether `s` writes a number as the wire format writes a fixed-point
/// number.
pub fn text_is_fixed_numeral(s: &str) -> (r: bool)
    ensures
        r == is_fixed_numeral(s@),
{
    let n = s.unicode_len();
    let mut start: usize = 0;
    if n > 0 {
        let c = s.get_char(0);
        if c == '+' || c == '-' {
            start = 1;
        }
    }
    let ghost body = s@.skip(start as int);
    proof {
        let signed = s@.len() > 0 && (s@[0] == '+' || s@[0] == '-');
        assert(signed == (start == 1));
        if !signed {
            assert(body =~= s@);
        }
        assert(is_fixed_numeral(s@) == has_point(body));
    }
    // The digits before the point.
    let mut i: usize = start;
    while i < n && is_digit_char(s.get_char(i))
        invariant
            start <= i <= n,
            is_fixed_numeral(s@) == has_point(body),
            n == s@.len(),
            body == s@.skip(start as int),
            all_digits(body.take(i - start)),
        decreases n - i,
    {
        proof {
            let k = i - start;
            assert(body[k] == s@[i as int]);
            assert forall|j: int| 0 <= j < k + 1 implies
                is_digit(#[trigger] body.take(k + 1)[j]) by {
                if j < k {
                    assert(body.take(k + 1)[j] == body.take(k)[j]);
                }
            }
        }
        i += 1;
    }
    let ghost p = i - start;
    if i == start || i >= n || s.get_char(i) != '.' {
        proof {
            assert forall|q: int| !point_at(body, q) by {
                if point_at(body, q) {
                    if q < p {
                        assert(body.take(p)[q] == body[q]);
                        assert(is_digit(body[q]));
                    } else if q > p {
                        assert(body.take(q)[p] == body[p]);
                        assert(is_digit(body[p]));
                        assert(body[p] == s@[i as int]);
                    } else {
                        assert(body[p] == s@[i as int]);
                    }
                }
            }
        }
        return false;
    }
    // The digits after the point.
    let mut k: usize = i + 1;
    while k < n && is_digit_char(s.get_char(k))
        invariant
            i < k <= n,
            start <= i,
            is_fixed_numeral(s@) == has_point(body),
            all_digits(body.take(p)),
            body[p] == '.',
            n == s@.len(),
            body == s@.skip(start as int),
            p == i - start,
            forall|j: int| i < j < k ==> is_digit(#[trigger] s@[j]),
        decreases n - k,
    {
        k += 1;
    }
    proof {
        assert(body[p] == s@[i as int]);
        if k == n && k > i + 1 {
            assert forall|j: int| 0 <= j < body.skip(p + 1).len() implies is_digit(
                #[trigger] body.skip(p + 1)[j],
            ) by {
                assert(body.skip(p + 1)[j] == s@[i + 1 + j]);
            }
            assert(point_at(body, p));
        } else {
            assert forall|q: int| !point_at(body, q) by {
                if point_at(body, q) {
                    if q < p {
                        assert(body.take(p)[q] == body[q]);
                        assert(is_digit(body[q]));
                    } else if q > p {
                        assert(body.take(q)[p] == body[p]);
                        assert(is_digit(body[p]));
                    } else if k < n {
                        assert(body.skip(p + 1)[k - i - 1] == s@[k as int]);
                        assert(is_digit(s@[k as int]));
                    }
                }
            }
        }
    }
    k == n && k > i + 1
}

/// Tells whether `c` is a decimal digit.
fn is_digit_char(c: char) -> (r: bool)
    ensures
        r == is_digit(c),
{
    '0' <= c && c <= '9'
}

} // verus!

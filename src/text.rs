//! Character-level helpers: turning cells into characters, and reading
//! integers and decimal numbers out of them.

use vstd::prelude::*;
use vstd::string::*;

verus! {

/// Largest count of digits a decimal number may carry: what a 64-bit float
/// holds exactly.
pub const MAX_DIGITS: usize = 15;

pub open spec fn is_digit(c: char) -> bool {
    '0' <= c && c <= '9'
}

pub open spec fn digit_value(c: char) -> int {
    (c as u32) as int - ('0' as u32) as int
}

pub open spec fn pow10(n: nat) -> int
    decreases n,
{
    if n == 0 {
        1
    } else {
        10 * pow10((n - 1) as nat)
    }
}

/// The digits of `s` read as one base-ten integer; any '.' is skipped.
pub open spec fn digits_value(s: Seq<char>) -> int
    decreases s.len(),
{
    if s.len() == 0 {
        0
    } else if s.last() == '.' {
        digits_value(s.drop_last())
    } else {
        digits_value(s.drop_last()) * 10 + digit_value(s.last())
    }
}

/// How many characters of `s` are not '.'.
pub open spec fn digit_count(s: Seq<char>) -> nat
    decreases s.len(),
{
    if s.len() == 0 {
        0
    } else if s.last() == '.' {
        digit_count(s.drop_last())
    } else {
        digit_count(s.drop_last()) + 1
    }
}

/// How many characters of `s` are '.'.
pub open spec fn dot_count(s: Seq<char>) -> nat
    decreases s.len(),
{
    if s.len() == 0 {
        0
    } else if s.last() == '.' {
        dot_count(s.drop_last()) + 1
    } else {
        dot_count(s.drop_last())
    }
}

/// How many characters follow the first '.' of `s` (zero without a '.').
pub open spec fn frac_count(s: Seq<char>) -> nat
    decreases s.len(),
{
    if s.len() == 0 {
        0
    } else if dot_count(s.drop_last()) > 0 {
        frac_count(s.drop_last()) + 1
    } else {
        0
    }
}

pub open spec fn all_digits(s: Seq<char>) -> bool {
    forall|i: int| 0 <= i < s.len() ==> is_digit(#[trigger] s[i])
}

pub open spec fn digits_or_dots(s: Seq<char>) -> bool {
    forall|i: int| 0 <= i < s.len() ==> is_digit(#[trigger] s[i]) || s[i] == '.'
}

/// Where the body of a number starts: after a leading '+' or '-', if any.
pub open spec fn sign_len(s: Seq<char>) -> int {
    if s.len() > 0 && (s[0] == '-' || s[0] == '+') {
        1
    } else {
        0
    }
}

pub open spec fn is_negative(s: Seq<char>) -> bool {
    s.len() > 0 && s[0] == '-'
}

pub open spec fn signed(neg: bool, v: int) -> int {
    if neg {
        -v
    } else {
        v
    }
}

/// The 32-bit integer written in `s`: an optional sign, then one or more
/// digits, with a value that fits.
pub open spec fn int_of(s: Seq<char>) -> Option<i32> {
    let body = s.skip(sign_len(s));
    let v = signed(is_negative(s), digits_value(body));
    if body.len() >= 1 && all_digits(body) && i32::MIN <= v <= i32::MAX {
        Some(v as i32)
    } else {
        None
    }
}

/// A decimal number: `mantissa / 10^scale`.
#[derive(Clone, Copy, Debug, PartialEq, Eq)]
pub struct Decimal {
    pub mantissa: i64,
    pub scale: u32,
}

impl Decimal {
    /// Within what a written number of at most `MAX_DIGITS` digits can give.
    pub open spec fn fits(self) -> bool {
        -pow10(MAX_DIGITS as nat) < self.mantissa < pow10(MAX_DIGITS as nat) && self.scale
            <= MAX_DIGITS
    }

    /// Whether the number equals the integer `n`.
    pub open spec fn equals_int(self, n: int) -> bool {
        self.mantissa == n * pow10(self.scale as nat)
    }
}

/// The decimal number written in `s`: an optional sign, then digits with at
/// most one '.', at least one and at most `MAX_DIGITS` digits in all. Other
/// forms, an exponent (`1e2`) or a name (`inf`, `NaN`) among them, read as
/// no number.
pub open spec fn decimal_of(s: Seq<char>) -> Option<Decimal> {
    let body = s.skip(sign_len(s));
    if digits_or_dots(body) && dot_count(body) <= 1 && 1 <= digit_count(body) <= MAX_DIGITS {
        Some(
            Decimal {
                mantissa: signed(is_negative(s), digits_value(body)) as i64,
                scale: frac_count(body) as u32,
            },
        )
    } else {
        None
    }
}

/// `s` without a final '+', the feed's mark for "or more".
pub open spec fn without_plus_suffix(s: Seq<char>) -> Seq<char> {
    if s.len() > 0 && s.last() == '+' {
        s.drop_last()
    } else {
        s
    }
}

pub proof fn lemma_pow10_mono(a: nat, b: nat)
    requires
        a <= b,
    ensures
        1 <= pow10(a) <= pow10(b),
    decreases b,
{
    if b > 0 {
        if a < b {
            lemma_pow10_mono(a, (b - 1) as nat);
        } else {
            lemma_pow10_mono((b - 1) as nat, (b - 1) as nat);
        }
    }
}

pub proof fn lemma_pow10_max()
    ensures
        pow10(MAX_DIGITS as nat) == 1_000_000_000_000_000,
{
    reveal_with_fuel(pow10, 16);
}

/// The characters of a string, one by one.
pub fn chars_of(s: &str) -> (r: Vec<char>)
    ensures
        r@ == s@,
{
    let n = s.unicode_len();
    let mut r: Vec<char> = Vec::new();
    let mut i: usize = 0;
    while i < n
        invariant
            n == s@.len(),
            i <= n,
            r@ == s@.take(i as int),
        decreases n - i,
    {
        r.push(s.get_char(i));
        proof {
            assert(r@ =~= s@.take(i + 1));
        }
        i += 1;
    }
    proof {
        assert(r@ =~= s@);
    }
    r
}

/// Whether two strings hold the same characters.
pub fn text_eq(a: &str, b: &str) -> (r: bool)
    ensures
        r == (a@ == b@),
{
    let n = a.unicode_len();
    if n != b.unicode_len() {
        return false;
    }
    let mut i: usize = 0;
    while i < n
        invariant
            n == a@.len(),
            n == b@.len(),
            i <= n,
            forall|k: int| 0 <= k < i ==> a@[k] == b@[k],
        decreases n - i,
    {
        if a.get_char(i) != b.get_char(i) {
            return false;
        }
        i += 1;
    }
    proof {
        assert(a@ =~= b@);
    }
    true
}

fn digit_of(c: char) -> (r: i64)
    requires
        is_digit(c),
    ensures
        r == digit_value(c),
        0 <= r <= 9,
{
    (c as u32 - '0' as u32) as i64
}

/// Reads a 32-bit integer: an optional sign, then digits.
pub fn parse_int(s: &str) -> (r: Option<i32>)
    ensures
        r == int_of(s@),
{
    let cs = chars_of(s);
    let n = cs.len();
    let start: usize = if n > 0 && (cs[0] == '-' || cs[0] == '+') {
        1
    } else {
        0
    };
    let neg = n > 0 && cs[0] == '-';
    let ghost body = s@.skip(start as int);
    assert(start == sign_len(s@));
    if start == n {
        return None;
    }
    let mut acc: i64 = 0;
    let mut big = false;
    let mut i: usize = start;
    while i < n
        invariant
            cs@ == s@,
            n == s@.len(),
            start <= i <= n,
            start == sign_len(s@),
            neg == is_negative(s@),
            body == s@.skip(start as int),
            all_digits(s@.subrange(start as int, i as int)),
            big ==> digits_value(s@.subrange(start as int, i as int)) > 2147483648,
            !big ==> acc == digits_value(s@.subrange(start as int, i as int)) && 0 <= acc
                <= 2147483648,
        decreases n - i,
    {
        let c = cs[i];
        if !('0' <= c && c <= '9') {
            proof {
                assert(body[i - start] == c);
                assert(!all_digits(body));
            }
            return None;
        }
        let d = digit_of(c);
        proof {
            let p = s@.subrange(start as int, i + 1);
            assert(p.drop_last() =~= s@.subrange(start as int, i as int));
            assert(p.last() == c);
        }
        if !big {
            let v = acc * 10 + d;
            if v > 2147483648 {
                big = true;
            } else {
                acc = v;
            }
        }
        i += 1;
    }
    proof {
        assert(s@.subrange(start as int, n as int) =~= body);
    }
    if big {
        return None;
    }
    let v: i64 = if neg {
        -acc
    } else {
        acc
    };
    if v < i32::MIN as i64 || v > i32::MAX as i64 {
        None
    } else {
        Some(v as i32)
    }
}

/// Reads a decimal number: an optional sign, then digits with at most one
/// '.', at least one and at most `MAX_DIGITS` digits in all. An exponent
/// form or a name such as `inf` gives no number.
pub fn parse_decimal(s: &str) -> (r: Option<Decimal>)
    ensures
        r == decimal_of(s@),
        r matches Some(d) ==> d.fits(),
{
    let cs = chars_of(s);
    let n = cs.len();
    let start: usize = if n > 0 && (cs[0] == '-' || cs[0] == '+') {
        1
    } else {
        0
    };
    let neg = n > 0 && cs[0] == '-';
    let ghost body = s@.skip(start as int);
    assert(start == sign_len(s@));
    let mut acc: i64 = 0;
    let mut dots: usize = 0;
    let mut digits: usize = 0;
    let mut frac: usize = 0;
    let mut i: usize = start;
    proof {
        assert(s@.subrange(start as int, start as int) =~= Seq::<char>::empty());
    }
    while i < n
        invariant
            cs@ == s@,
            n == s@.len(),
            start <= i <= n,
            start == sign_len(s@),
            neg == is_negative(s@),
            body == s@.skip(start as int),
            dots <= i,
            digits <= i,
            frac <= i,
            ({
                let p = s@.subrange(start as int, i as int);
                &&& digits_or_dots(p)
                &&& dots == dot_count(p)
                &&& digits == digit_count(p)
                &&& frac == frac_count(p)
                &&& dots <= 1 ==> frac <= digits
                &&& dots == 0 ==> frac == 0
                &&& digits <= MAX_DIGITS ==> acc == digits_value(p) && 0 <= acc < pow10(
                    digits as nat,
                )
            }),
        decreases n - i,
    {
        let c = cs[i];
        let ghost p = s@.subrange(start as int, i as int);
        let ghost q = s@.subrange(start as int, i + 1);
        proof {
            assert(q.drop_last() =~= p);
            assert(q.last() == c);
        }
        let had_dot = dots > 0;
        if c == '.' {
            dots += 1;
        } else if '0' <= c && c <= '9' {
            let d = digit_of(c);
            if digits < MAX_DIGITS {
                proof {
                    lemma_pow10_mono((digits + 1) as nat, MAX_DIGITS as nat);
                    lemma_pow10_max();
                    assert(pow10((digits + 1) as nat) == 10 * pow10(digits as nat));
                }
                acc = acc * 10 + d;
            }
            digits += 1;
        } else {
            proof {
                assert(body[i - start] == c);
                assert(!digits_or_dots(body));
            }
            return None;
        }
        if had_dot {
            frac += 1;
        }
        proof {
            assert forall|k: int| 0 <= k < q.len() implies is_digit(#[trigger] q[k]) || q[k]
                == '.' by {
                if k < p.len() {
                    assert(q[k] == p[k]);
                }
            }
        }
        i += 1;
    }
    proof {
        assert(s@.subrange(start as int, n as int) =~= body);
    }
    if dots > 1 || digits == 0 || digits > MAX_DIGITS {
        return None;
    }
    proof {
        lemma_pow10_mono(digits as nat, MAX_DIGITS as nat);
        lemma_pow10_max();
    }
    let m: i64 = if neg {
        -acc
    } else {
        acc
    };
    Some(Decimal { mantissa: m, scale: frac as u32 })
}

/// The text without a final '+'.
pub fn strip_plus(s: &str) -> (r: String)
    ensures
        r@ == without_plus_suffix(s@),
{
    let n = s.unicode_len();
    if n > 0 && s.get_char(n - 1) == '+' {
        let head = s.substring_char(0, n - 1);
        proof {
            assert(head@ =~= s@.drop_last());
        }
        String::from_str(head)
    } else {
        String::from_str(s)
    }
}

/// An integer cell: absent when the cell is, or does not read as one.
pub open spec fn int_cell(c: Option<Seq<char>>) -> Option<i32> {
    match c {
        Some(s) => int_of(s),
        None => None,
    }
}

/// A decimal cell: absent when the cell is, or does not read as one.
pub open spec fn decimal_cell(c: Option<Seq<char>>) -> Option<Decimal> {
    match c {
        Some(s) => decimal_of(s),
        None => None,
    }
}

pub fn parse_int_cell(c: &Option<String>) -> (r: Option<i32>)
    ensures
        r == int_cell(c.deep_view()),
{
    match c {
        Some(s) => parse_int(s.as_str()),
        None => None,
    }
}

pub fn parse_decimal_cell(c: &Option<String>) -> (r: Option<Decimal>)
    ensures
        r == decimal_cell(c.deep_view()),
        r matches Some(d) ==> d.fits(),
{
    match c {
        Some(s) => parse_decimal(s.as_str()),
        None => None,
    }
}

} // verus!

//! Unsigned numbers as text: reading and writing them in a given base.

use vstd::prelude::*;

use crate::text::{chars_of, is_space, trim_end_of, trim_start_of, trimmed};

verus! {

/// The value of a digit: `0`-`9`, then `a`-`z` in either case.
pub open spec fn digit_value(c: char) -> int {
    if '0' <= c <= '9' {
        c as int - '0' as int
    } else if 'a' <= c <= 'z' {
        c as int - 'a' as int + 10
    } else if 'A' <= c <= 'Z' {
        c as int - 'A' as int + 10
    } else {
        1000
    }
}

/// Every character of `s` is a digit of base `radix`.
pub open spec fn all_digits(s: Seq<char>, radix: int) -> bool {
    forall|i: int| 0 <= i < s.len() ==> digit_value(#[trigger] s[i]) < radix
}

/// The number that the digits `s` denote in base `radix`.
pub open spec fn value_of(s: Seq<char>, radix: int) -> int
    decreases s.len(),
{
    if s.len() == 0 {
        0
    } else {
        value_of(s.drop_last(), radix) * radix + digit_value(s.last())
    }
}

/// The text after an optional plus sign.
pub open spec fn unsigned_part(s: Seq<char>) -> Seq<char> {
    if s.len() > 0 && s[0] == '+' {
        s.drop_first()
    } else {
        s
    }
}

/// Why a text is no number.
#[derive(Debug, Clone, Copy, PartialEq, Eq, Structural)]
pub enum ParseFault {
    /// There is no text at all.
    Empty,
    /// Something other than a digit.
    InvalidDigit,
    /// More than the largest number allowed.
    TooLarge,
}

/// What is said of a fault.
pub open spec fn fault_text(fault: ParseFault) -> Seq<char> {
    match fault {
        ParseFault::Empty => "cannot parse integer from empty string"@,
        ParseFault::InvalidDigit => "invalid digit found in string"@,
        ParseFault::TooLarge => "number too large to fit in target type"@,
    }
}

impl ParseFault {
    /// What is said of a fault.
    pub fn describe(self) -> (r: &'static str)
        ensures
            r@ == fault_text(self),
    {
        match self {
            ParseFault::Empty => "cannot parse integer from empty string",
            ParseFault::InvalidDigit => "invalid digit found in string",
            ParseFault::TooLarge => "number too large to fit in target type",
        }
    }
}

/// The first fault in the digits `t`, read from left to right: a character
/// that is no digit, or a digit with which the number exceeds `max`.
pub open spec fn first_fault(t: Seq<char>, radix: int, max: int) -> Option<ParseFault>
    decreases t.len(),
{
    if t.len() == 0 {
        None
    } else {
        match first_fault(t.drop_last(), radix, max) {
            Some(fault) => Some(fault),
            None => if digit_value(t.last()) >= radix {
                Some(ParseFault::InvalidDigit)
            } else if value_of(t, radix) > max {
                Some(ParseFault::TooLarge)
            } else {
                None
            },
        }
    }
}

/// What `s` denotes as a number of base `radix` that is at most `max`: an
/// optional plus sign and then one or more digits, nothing else.
pub open spec fn parsed(s: Seq<char>, radix: int, max: int) -> Result<int, ParseFault> {
    let t = unsigned_part(s);
    if s.len() == 0 {
        Err(ParseFault::Empty)
    } else if t.len() == 0 {
        Err(ParseFault::InvalidDigit)
    } else {
        match first_fault(t, radix, max) {
            Some(fault) => Err(fault),
            None => Ok(value_of(t, radix)),
        }
    }
}

proof fn lemma_fault_stays(t: Seq<char>, k: int, radix: int, max: int)
    requires
        0 <= k <= t.len(),
        first_fault(t.take(k), radix, max) is Some,
    ensures
        first_fault(t, radix, max) == first_fault(t.take(k), radix, max),
    decreases t.len(),
{
    if k < t.len() {
        assert(t.drop_last().take(k) =~= t.take(k));
        lemma_fault_stays(t.drop_last(), k, radix, max);
    } else {
        assert(t.take(k) =~= t);
    }
}

proof fn lemma_value_grows(s: Seq<char>, k: int, radix: int)
    requires
        0 <= k <= s.len(),
        radix >= 1,
        all_digits(s, radix),
    ensures
        0 <= value_of(s.take(k), radix) <= value_of(s, radix),
    decreases s.len(),
{
    if s.len() > 0 {
        let t = s.drop_last();
        assert forall|i: int| 0 <= i < t.len() implies digit_value(#[trigger] t[i]) < radix by {
            assert(t[i] == s[i]);
        }
        if k < s.len() {
            lemma_value_grows(t, k, radix);
            assert(t.take(k) =~= s.take(k));
        } else {
            lemma_value_grows(t, t.len() as int, radix);
            assert(t.take(t.len() as int) =~= t);
            assert(s.take(k) =~= s);
        }
        let v = value_of(t, radix);
        assert(v <= v * radix) by (nonlinear_arith)
            requires
                v >= 0,
                radix >= 1,
        ;
    } else {
        assert(s.take(k) =~= s);
    }
}

/// Digits are free of faults exactly when each of them is a digit and the
/// number they denote is within the limit.
pub proof fn lemma_no_fault(t: Seq<char>, radix: int, max: int)
    requires
        radix >= 1,
        max >= 0,
    ensures
        first_fault(t, radix, max) is None <==> all_digits(t, radix) && value_of(t, radix) <= max,
    decreases t.len(),
{
    if t.len() > 0 {
        let u = t.drop_last();
        lemma_no_fault(u, radix, max);
        if all_digits(t, radix) {
            assert forall|i: int| 0 <= i < u.len() implies digit_value(#[trigger] u[i]) < radix by {
                assert(u[i] == t[i]);
            }
            lemma_value_grows(t, u.len() as int, radix);
            assert(t.take(u.len() as int) =~= u);
            assert(digit_value(t[t.len() - 1]) < radix);
        }
        if first_fault(t, radix, max) is None {
            assert forall|i: int| 0 <= i < t.len() implies digit_value(#[trigger] t[i]) < radix by {
                if i < u.len() {
                    assert(u[i] == t[i]);
                }
            }
        }
    }
}

/// The value of a digit; anything of base 36 or more is no digit.
fn digit_of(c: char) -> (r: u64)
    ensures
        r == digit_value(c),
{
    if '0' <= c && c <= '9' {
        (c as u32 - 48) as u64
    } else if 'a' <= c && c <= 'z' {
        (c as u32 - 97 + 10) as u64
    } else if 'A' <= c && c <= 'Z' {
        (c as u32 - 65 + 10) as u64
    } else {
        1000
    }
}

/// Reads `s` as a number of base `radix` that is at most `max`.
pub fn parse_radix(s: &str, radix: u64, max: u64) -> (r: Result<u64, ParseFault>)
    requires
        2 <= radix <= 36,
        max <= 0xffff_ffff,
    ensures
        match r {
            Ok(n) => parsed(s@, radix as int, max as int) == Ok::<int, ParseFault>(n as int),
            Err(fault) => parsed(s@, radix as int, max as int) == Err::<int, ParseFault>(fault),
        },
        r matches Ok(n) ==> n <= max,
{
    let cs = chars_of(s);
    if cs.len() == 0 {
        return Err(ParseFault::Empty);
    }
    let start: usize = if cs[0] == '+' {
        1
    } else {
        0
    };
    let ghost t = unsigned_part(s@);
    assert(t =~= s@.skip(start as int));
    if start == cs.len() {
        return Err(ParseFault::InvalidDigit);
    }
    let mut n: u64 = 0;
    let mut i: usize = start;
    assert(t.take(0) =~= seq![]);
    while i < cs.len()
        invariant
            cs@ == s@,
            s@.len() > 0,
            t.len() > 0,
            start <= i <= cs.len(),
            t == s@.skip(start as int),
            t == unsigned_part(s@),
            2 <= radix <= 36,
            n <= max <= 0xffff_ffff,
            first_fault(t.take(i - start), radix as int, max as int) is None,
            n == value_of(t.take(i - start), radix as int),
        decreases cs.len() - i,
    {
        let ghost next = t.take(i - start + 1);
        assert(next.drop_last() =~= t.take(i - start));
        assert(next.last() == cs[i as int]);
        let d: u64 = digit_of(cs[i]);
        if d >= radix {
            proof {
                lemma_fault_stays(t, i - start + 1, radix as int, max as int);
            }
            return Err(ParseFault::InvalidDigit);
        }
        assert(n * radix <= 0xffff_ffff * 36) by (nonlinear_arith)
            requires
                n <= 0xffff_ffff,
                radix <= 36,
        ;
        let m: u64 = n * radix + d;
        if m > max {
            proof {
                lemma_fault_stays(t, i - start + 1, radix as int, max as int);
            }
            return Err(ParseFault::TooLarge);
        }
        n = m;
        i = i + 1;
    }
    assert(t.take(i - start) =~= t);
    Ok(n)
}

/// The digit of value `d`.
pub open spec fn digit_char(d: int) -> char {
    if d < 10 {
        (48 + d) as char
    } else {
        (87 + d) as char
    }
}

/// Dividing a number that is not a digit makes it smaller.
pub proof fn lemma_division(n: int, radix: int)
    requires
        n >= 0,
        radix >= 2,
    ensures
        n >= radix ==> 0 < n / radix < n,
        n < radix ==> n % radix == n,
        0 <= n % radix < radix,
        n == n / radix * radix + n % radix,
{
    assert(n >= radix ==> 0 < n / radix < n) by (nonlinear_arith)
        requires
            n >= 0,
            radix >= 2,
    ;
    assert(n < radix ==> n % radix == n) by (nonlinear_arith)
        requires
            n >= 0,
            radix >= 2,
    ;
    assert(0 <= n % radix < radix && n == n / radix * radix + n % radix) by (nonlinear_arith)
        requires
            n >= 0,
            radix >= 2,
    ;
}

/// `n` written in base `radix`, without leading zeros.
pub open spec fn numeral(n: int, radix: int) -> Seq<char>
    decreases n,
{
    if n < radix || radix < 2 {
        seq![digit_char(n)]
    } else {
        proof {
            lemma_division(n, radix);
        }
        numeral(n / radix, radix).push(digit_char(n % radix))
    }
}

/// `n` written in base `radix`.
pub fn to_radix(n: u64, radix: u64) -> (r: String)
    requires
        2 <= radix <= 16,
    ensures
        r@ == numeral(n as int, radix as int),
    decreases n,
{
    proof {
        lemma_division(n as int, radix as int);
    }
    let d: u64 = n % radix;
    let c: char = if d < 10 {
        (48 + d) as u8 as char
    } else {
        (87 + d) as u8 as char
    };
    if n < radix {
        let mut r = String::new();
        r.push(c);
        r
    } else {
        let mut r = to_radix(n / radix, radix);
        r.push(c);
        r
    }
}

/// `n` in decimal.
pub open spec fn decimal(n: int) -> Seq<char> {
    numeral(n, 10)
}

/// `n` in decimal.
pub fn to_decimal(n: u64) -> (r: String)
    ensures
        r@ == decimal(n as int),
{
    to_radix(n, 10)
}

/// A numeral consists of digits and denotes the number it was made from.
pub proof fn lemma_numeral_value(n: int, radix: int)
    requires
        0 <= n,
        2 <= radix <= 16,
    ensures
        numeral(n, radix).len() > 0,
        all_digits(numeral(n, radix), radix),
        value_of(numeral(n, radix), radix) == n,
    decreases n,
{
    let s = numeral(n, radix);
    if n < radix {
        assert(s.drop_last() =~= seq![]);
        assert(value_of(s.drop_last(), radix) == 0);
        assert(digit_value(s.last()) == n);
    } else {
        lemma_division(n, radix);
        lemma_numeral_value(n / radix, radix);
        assert(s.drop_last() =~= numeral(n / radix, radix));
        assert(digit_value(s.last()) == n % radix);
        assert forall|i: int| 0 <= i < s.len() implies digit_value(#[trigger] s[i]) < radix by {
            if i < s.len() - 1 {
                assert(s[i] == numeral(n / radix, radix)[i]);
            }
        }
    }
}

/// Reading a written number gives the number back, whenever it is within the
/// limit of the reader.
pub proof fn law_number_round_trip(n: int, radix: int, max: int)
    requires
        0 <= n <= max,
        2 <= radix <= 16,
    ensures
        parsed(numeral(n, radix), radix, max) == Ok::<int, ParseFault>(n),
        parsed(trimmed(numeral(n, radix)), radix, max) == Ok::<int, ParseFault>(n),
{
    lemma_numeral_value(n, radix);
    let s = numeral(n, radix);
    lemma_no_fault(s, radix, max);
    assert(digit_value(s[0]) < radix);
    assert(digit_value('+') == 1000);
    assert(unsigned_part(s) == s);
    assert(digit_value(s.last()) < radix) by {
        assert(s.last() == s[s.len() - 1]);
    }
    assert(!is_space(s[0]));
    assert(!is_space(s.last()));
    assert(trim_start_of(s) == s);
    assert(trim_end_of(s) == s);
}

proof fn lemma_value_not_negative(t: Seq<char>, radix: int)
    requires
        radix > 0,
    ensures
        value_of(t, radix) >= 0,
    decreases t.len(),
{
    if t.len() > 0 {
        let before = value_of(t.drop_last(), radix);
        lemma_value_not_negative(t.drop_last(), radix);
        assert(before * radix >= 0) by (nonlinear_arith)
            requires
                before >= 0,
                radix > 0,
        ;
    }
}

/// A number that is read is not negative, and is no larger than it may be.
pub proof fn law_numbers_are_in_range(s: Seq<char>, radix: int, max: int)
    requires
        radix > 0,
    ensures
        parsed(s, radix, max) matches Ok(n) ==> 0 <= n <= max,
{
    lemma_value_not_negative(unsigned_part(s), radix);
}

/// A digit behind a number makes it as many times larger as there are digits, and
/// counts for its own value.
pub proof fn law_digit_behind_a_number(s: Seq<char>, c: char, radix: int, max: int, n: int)
    requires
        parsed(s, radix, max) == Ok::<int, ParseFault>(n),
    ensures
        digit_value(c) < radix && n * radix + digit_value(c) <= max ==> parsed(
            s.push(c),
            radix,
            max,
        ) == Ok::<int, ParseFault>(n * radix + digit_value(c)),
        digit_value(c) < radix && n * radix + digit_value(c) > max ==> parsed(
            s.push(c),
            radix,
            max,
        ) == Err::<int, ParseFault>(ParseFault::TooLarge),
        digit_value(c) >= radix ==> parsed(s.push(c), radix, max) == Err::<int, ParseFault>(
            ParseFault::InvalidDigit,
        ),
{
    let t = unsigned_part(s);
    assert(unsigned_part(s.push(c)) =~= t.push(c));
    assert(t.push(c).drop_last() =~= t);
}

/// The value of a digit, and the number that it stands for on its own.
pub proof fn law_digits(c: char, radix: int, max: int)
    requires
        c != '+',
    ensures
        '0' <= c <= '9' ==> digit_value(c) == c as int - '0' as int,
        'a' <= c <= 'z' ==> digit_value(c) == c as int - 'a' as int + 10,
        'A' <= c <= 'Z' ==> digit_value(c) == c as int - 'A' as int + 10,
        digit_value(c) < radix && digit_value(c) <= max ==> parsed(seq![c], radix, max) == Ok::<
            int,
            ParseFault,
        >(digit_value(c)),
        parsed(seq![], radix, max) == Err::<int, ParseFault>(ParseFault::Empty),
{
    assert(seq![c].drop_last() =~= seq![]);
    reveal_with_fuel(first_fault, 2);
    reveal_with_fuel(value_of, 2);
}

/// A number is written with its highest digit first, and without zeros before it.
pub proof fn law_numbers_are_written_in_digits(n: int, radix: int)
    requires
        2 <= radix <= 36,
        0 <= n,
    ensures
        n < radix ==> numeral(n, radix).len() == 1 && digit_value(numeral(n, radix)[0]) == n,
        n >= radix ==> numeral(n, radix).drop_last() == numeral(n / radix, radix) && digit_value(
            numeral(n, radix).last(),
        ) == n % radix,
        decimal(n) == numeral(n, 10),
{
    if n >= radix {
        assert(numeral(n, radix).drop_last() =~= numeral(n / radix, radix));
    }
}

} // verus!

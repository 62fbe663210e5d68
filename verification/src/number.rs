//! Decimal integers read from text, with the acceptance rules and error kinds
//! of `str::parse` for `usize` and `i64`.
use vstd::prelude::*;

use crate::text::chars_of;

verus! {

/// Why a text is not an integer of the asked type.
#[derive(Debug, Clone, Copy, PartialEq, Eq)]
pub enum IntErrorKind {
    /// The text is empty.
    Empty,
    /// A character is not a decimal digit (a lone sign counts as one).
    InvalidDigit,
    /// The value is above the type's maximum.
    PosOverflow,
    /// The value is below the type's minimum.
    NegOverflow,
}

impl IntErrorKind {
    /// The message that std gives for this kind of error.
    pub fn message(&self) -> (s: String)
        ensures
            s@ == int_error_message(*self),
    {
        match self {
            IntErrorKind::Empty => crate::text::owned("cannot parse integer from empty string"),
            IntErrorKind::InvalidDigit => crate::text::owned("invalid digit found in string"),
            IntErrorKind::PosOverflow => crate::text::owned("number too large to fit in target type"),
            IntErrorKind::NegOverflow => crate::text::owned("number too small to fit in target type"),
        }
    }
}

/// The message of each error kind.
pub open spec fn int_error_message(k: IntErrorKind) -> Seq<char> {
    match k {
        IntErrorKind::Empty => "cannot parse integer from empty string"@,
        IntErrorKind::InvalidDigit => "invalid digit found in string"@,
        IntErrorKind::PosOverflow => "number too large to fit in target type"@,
        IntErrorKind::NegOverflow => "number too small to fit in target type"@,
    }
}

/// An ASCII decimal digit.
pub open spec fn is_digit(c: char) -> bool {
    '0' <= c && c <= '9'
}

/// The value of a decimal digit.
pub open spec fn digit_value(c: char) -> int {
    c as int - '0' as int
}

/// Reads the digits `s[i..]` onto the running value `acc`, away from zero
/// (downwards when `negative`), failing at the first character that is not a
/// digit or that takes the value out of `[lo, hi]`.
pub open spec fn scan_digits(
    s: Seq<char>,
    i: int,
    acc: int,
    negative: bool,
    lo: int,
    hi: int,
) -> Result<int, IntErrorKind>
    decreases s.len() - i,
{
    if i < 0 || i >= s.len() {
        Ok(acc)
    } else if !is_digit(s[i]) {
        Err(IntErrorKind::InvalidDigit)
    } else {
        let v = if negative {
            acc * 10 - digit_value(s[i])
        } else {
            acc * 10 + digit_value(s[i])
        };
        if v > hi {
            Err(IntErrorKind::PosOverflow)
        } else if v < lo {
            Err(IntErrorKind::NegOverflow)
        } else {
            scan_digits(s, i + 1, v, negative, lo, hi)
        }
    }
}

/// The integer that `s` writes in decimal, within `[lo, hi]`: an optional
/// `+` (or `-` where `signed`) and then digits.
pub open spec fn parse_int(s: Seq<char>, signed: bool, lo: int, hi: int) -> Result<
    int,
    IntErrorKind,
> {
    if s.len() == 0 {
        Err(IntErrorKind::Empty)
    } else if s.len() == 1 && (s[0] == '+' || s[0] == '-') {
        Err(IntErrorKind::InvalidDigit)
    } else if s[0] == '+' {
        scan_digits(s, 1, 0, false, lo, hi)
    } else if s[0] == '-' && signed {
        scan_digits(s, 1, 0, true, lo, hi)
    } else {
        scan_digits(s, 0, 0, false, lo, hi)
    }
}

/// `usize` read from `s`.
pub open spec fn parse_usize_spec(s: Seq<char>) -> Result<int, IntErrorKind> {
    parse_int(s, false, 0, usize::MAX as int)
}

/// `i64` read from `s`.
pub open spec fn parse_i64_spec(s: Seq<char>) -> Result<int, IntErrorKind> {
    parse_int(s, true, i64::MIN as int, i64::MAX as int)
}

fn scan_exec(cs: &Vec<char>, start: usize, negative: bool, lo: i128, hi: i128) -> (res: Result<
    i128,
    IntErrorKind,
>)
    requires
        start <= cs@.len(),
        -0x1_0000_0000_0000_0000 <= lo <= 0 <= hi <= 0x1_0000_0000_0000_0000,
    ensures
        match res {
            Ok(v) => scan_digits(cs@, start as int, 0, negative, lo as int, hi as int) == Ok::<
                int,
                IntErrorKind,
            >(v as int) && lo <= v <= hi,
            Err(e) => scan_digits(cs@, start as int, 0, negative, lo as int, hi as int) == Err::<
                int,
                IntErrorKind,
            >(e),
        },
{
    let n = cs.len();
    let mut acc: i128 = 0;
    let mut i = start;
    while i < n
        invariant
            n == cs@.len(),
            start <= i <= n,
            lo <= acc <= hi,
            -0x1_0000_0000_0000_0000 <= lo <= 0 <= hi <= 0x1_0000_0000_0000_0000,
            scan_digits(cs@, start as int, 0, negative, lo as int, hi as int) == scan_digits(
                cs@,
                i as int,
                acc as int,
                negative,
                lo as int,
                hi as int,
            ),
        decreases n - i,
    {
        let c = cs[i];
        if !('0' <= c && c <= '9') {
            return Err(IntErrorKind::InvalidDigit);
        }
        let d: i128 = ((c as u32) - ('0' as u32)) as i128;
        let v: i128 = if negative {
            acc * 10 - d
        } else {
            acc * 10 + d
        };
        if v > hi {
            return Err(IntErrorKind::PosOverflow);
        }
        if v < lo {
            return Err(IntErrorKind::NegOverflow);
        }
        acc = v;
        i = i + 1;
    }
    Ok(acc)
}

fn parse_exec(s: &str, signed: bool, lo: i128, hi: i128) -> (res: Result<i128, IntErrorKind>)
    requires
        -0x1_0000_0000_0000_0000 <= lo <= 0 <= hi <= 0x1_0000_0000_0000_0000,
    ensures
        match res {
            Ok(v) => parse_int(s@, signed, lo as int, hi as int) == Ok::<int, IntErrorKind>(
                v as int,
            ) && lo <= v <= hi,
            Err(e) => parse_int(s@, signed, lo as int, hi as int) == Err::<int, IntErrorKind>(e),
        },
{
    let cs = chars_of(s);
    if cs.len() == 0 {
        return Err(IntErrorKind::Empty);
    }
    if cs.len() == 1 && (cs[0] == '+' || cs[0] == '-') {
        return Err(IntErrorKind::InvalidDigit);
    }
    if cs[0] == '+' {
        scan_exec(&cs, 1, false, lo, hi)
    } else if cs[0] == '-' && signed {
        scan_exec(&cs, 1, true, lo, hi)
    } else {
        scan_exec(&cs, 0, false, lo, hi)
    }
}

/// Reads a `usize` written in decimal (`str::parse::<usize>`).
pub fn parse_usize(s: &str) -> (res: Result<usize, IntErrorKind>)
    ensures
        match res {
            Ok(v) => parse_usize_spec(s@) == Ok::<int, IntErrorKind>(v as int),
            Err(e) => parse_usize_spec(s@) == Err::<int, IntErrorKind>(e),
        },
{
    match parse_exec(s, false, 0, usize::MAX as i128) {
        Ok(v) => Ok(v as usize),
        Err(e) => Err(e),
    }
}

/// Reads an `i64` written in decimal (`str::parse::<i64>`).
pub fn parse_i64(s: &str) -> (res: Result<i64, IntErrorKind>)
    ensures
        match res {
            Ok(v) => parse_i64_spec(s@) == Ok::<int, IntErrorKind>(v as int),
            Err(e) => parse_i64_spec(s@) == Err::<int, IntErrorKind>(e),
        },
{
    match parse_exec(s, true, i64::MIN as i128, i64::MAX as i128) {
        Ok(v) => Ok(v as i64),
        Err(e) => Err(e),
    }
}


/// Reading one more character after `p` continues from the value read so far.
proof fn lemma_scan_push(p: Seq<char>, c: char, i: int, acc: int, negative: bool, lo: int, hi: int)
    requires
        0 <= i <= p.len(),
    ensures
        scan_digits(p.push(c), i, acc, negative, lo, hi) == match scan_digits(
            p,
            i,
            acc,
            negative,
            lo,
            hi,
        ) {
            Ok(v) => scan_digits(seq![c], 0, v, negative, lo, hi),
            Err(e) => Err(e),
        },
    decreases p.len() - i,
{
    let q = p.push(c);
    if i == p.len() {
        assert(q[i] == seq![c][0]);
        assert(scan_digits(p, i, acc, negative, lo, hi) == Ok::<int, IntErrorKind>(acc));
        if is_digit(c) {
            let v = if negative {
                acc * 10 - digit_value(c)
            } else {
                acc * 10 + digit_value(c)
            };
            assert(scan_digits(q, i + 1, v, negative, lo, hi) == Ok::<int, IntErrorKind>(v));
            assert(scan_digits(seq![c], 1, v, negative, lo, hi) == Ok::<int, IntErrorKind>(v));
        }
    } else {
        assert(q[i] == p[i]);
        if is_digit(p[i]) {
            let v = if negative {
                acc * 10 - digit_value(p[i])
            } else {
                acc * 10 + digit_value(p[i])
            };
            if lo <= v <= hi {
                lemma_scan_push(p, c, i + 1, v, negative, lo, hi);
            }
        }
    }
}

/// The decimal writing of `n` reads back as `n` when it fits.
proof fn lemma_scan_decimal(n: nat, hi: int)
    requires
        n <= hi,
    ensures
        scan_digits(crate::text::decimal(n), 0, 0, false, 0, hi) == Ok::<int, IntErrorKind>(
            n as int,
        ),
        crate::text::decimal(n).len() >= 1,
        is_digit(crate::text::decimal(n)[0]),
    decreases n,
{
    let d = crate::text::digit_char(n % 10);
    assert(d as int == (n % 10) + 48);
    assert(is_digit(d) && digit_value(d) == n % 10);
    assert(scan_digits(seq![d], 1, n as int, false, 0, hi) == Ok::<int, IntErrorKind>(n as int));
    if n < 10 {
        assert(crate::text::decimal(n) =~= seq![crate::text::digit_char(n)]);
    } else {
        let p = crate::text::decimal(n / 10);
        let c = crate::text::digit_char(n % 10);
        lemma_scan_decimal(n / 10, hi);
        lemma_scan_push(p, c, 0, 0, false, 0, hi);
        assert((n / 10) * 10 + (n % 10) == n);
        assert(crate::text::decimal(n)[0] == p[0]);
    }
}

/// Writing a `usize` in decimal and reading it back gives the same number.
pub proof fn law_usize_decimal_roundtrip(n: usize)
    ensures
        parse_usize_spec(crate::text::decimal(n as nat)) == Ok::<int, IntErrorKind>(n as int),
{
    lemma_scan_decimal(n as nat, usize::MAX as int);
}
} // verus!

//! Small string building blocks: decimal rendering and parsing of unsigned
//! integers, and appending characters.
use vstd::prelude::*;

verus! {

/// The character of a decimal digit `d` (`0 <= d < 10`).
pub open spec fn digit_char(d: nat) -> char {
    (d + 48) as char
}

/// Whether `c` is an ASCII decimal digit.
pub open spec fn is_digit(c: char) -> bool {
    '0' <= c && c <= '9'
}

/// The value of the ASCII decimal digit `c`.
pub open spec fn digit_value(c: char) -> nat {
    (c as nat - 48) as nat
}

/// The shortest decimal rendering of `n`, most significant digit first.
pub open spec fn decimal(n: nat) -> Seq<char>
    decreases n,
{
    if n < 10 {
        seq![digit_char(n)]
    } else {
        decimal(n / 10).push(digit_char(n % 10))
    }
}

/// Appends one character to a string (`String::push`).
#[verifier::external_body]
pub(crate) fn push_char(s: &mut String, c: char)
    ensures
        final(s)@ == old(s)@.push(c),
{
    s.push(c);
}

/// Appends the decimal rendering of `n` to `s`.
pub fn push_decimal(s: &mut String, n: u64)
    ensures
        final(s)@ == old(s)@ + decimal(n as nat),
    decreases n,
{
    if n >= 10 {
        push_decimal(s, n / 10);
    }
    let d: u64 = n % 10;
    let c: char = ((d as u8) + 48u8) as char;
    assert(c == digit_char((n % 10) as nat));
    push_char(s, c);
    assert(old(s)@ + decimal(n as nat) =~= final(s)@) by {
        if n >= 10 {
            assert(decimal(n as nat) == decimal((n / 10) as nat).push(digit_char((n % 10) as nat)));
        }
    }
}

/// The decimal rendering of `n` as a new string.
pub fn u64_to_decimal(n: u64) -> (s: String)
    ensures
        s@ == decimal(n as nat),
{
    let mut s = String::new();
    push_decimal(&mut s, n);
    assert(s@ =~= decimal(n as nat));
    s
}

/// Why a string is not the decimal rendering of an unsigned integer in range.
#[derive(Clone, Copy, Debug, PartialEq, Eq, Structural)]
pub enum IntErrorKind {
    /// The string is empty.
    Empty,
    /// A character is not a digit (or the string is a lone sign).
    InvalidDigit,
    /// The number exceeds the largest value of the target type.
    PosOverflow,
}

/// Scans `d` from left to right, accumulating its decimal value; the first
/// character that is not a digit, or the first digit that takes the value past
/// `max`, decides the error.
pub open spec fn scan_digits(d: Seq<char>, max: nat) -> Result<nat, IntErrorKind>
    decreases d.len(),
{
    if d.len() == 0 {
        Ok(0)
    } else {
        match scan_digits(d.drop_last(), max) {
            Err(e) => Err(e),
            Ok(v) => if !is_digit(d.last()) {
                Err(IntErrorKind::InvalidDigit)
            } else if v * 10 + digit_value(d.last()) > max {
                Err(IntErrorKind::PosOverflow)
            } else {
                Ok(v * 10 + digit_value(d.last()))
            },
        }
    }
}

/// The result of reading `s` as an unsigned decimal number no larger than
/// `max`: an optional leading `+`, then digits only.
pub open spec fn parse_unsigned(s: Seq<char>, max: nat) -> Result<nat, IntErrorKind> {
    if s.len() == 0 {
        Err(IntErrorKind::Empty)
    } else if s == seq!['+'] || s == seq!['-'] {
        Err(IntErrorKind::InvalidDigit)
    } else if s[0] == '+' {
        scan_digits(s.drop_first(), max)
    } else {
        scan_digits(s, max)
    }
}

/// Reads `s` as an unsigned decimal number no larger than `max`.
pub fn parse_unsigned_str(s: &str, max: u64) -> (r: Result<u64, IntErrorKind>)
    ensures
        match (r, parse_unsigned(s@, max as nat)) {
            (Ok(v), Ok(w)) => v == w,
            (Err(e), Err(f)) => e == f,
            _ => false,
        },
{
    let len = s.unicode_len();
    if len == 0 {
        return Err(IntErrorKind::Empty);
    }
    let first = s.get_char(0);
    if len == 1 && (first == '+' || first == '-') {
        assert(s@ =~= seq![first]);
        return Err(IntErrorKind::InvalidDigit);
    }
    assert(!(s@ == seq!['+'] || s@ == seq!['-'])) by {
        if s@ == seq!['+'] || s@ == seq!['-'] {
            assert(s@.len() == 1);
        }
    }
    let start: usize = if first == '+' { 1 } else { 0 };
    let ghost d: Seq<char> = s@.subrange(start as int, len as int);
    assert(d =~= if s@[0] == '+' { s@.drop_first() } else { s@ });
    assert(parse_unsigned(s@, max as nat) == scan_digits(d, max as nat));
    let mut value: u64 = 0;
    let mut i: usize = start;
    while i < len
        invariant
            start <= i <= len,
            len == s@.len(),
            d == s@.subrange(start as int, len as int),
            parse_unsigned(s@, max as nat) == scan_digits(d, max as nat),
            scan_digits(d.subrange(0, i - start), max as nat) == Ok::<nat, IntErrorKind>(value as nat),
            value <= max,
        decreases len - i,
    {
        let c = s.get_char(i);
        let ghost prefix = d.subrange(0, i + 1 - start);
        assert(prefix.drop_last() =~= d.subrange(0, i - start));
        assert(prefix.last() == c);
        if !('0' <= c && c <= '9') {
            assert(scan_digits(prefix, max as nat) == Err::<nat, IntErrorKind>(IntErrorKind::InvalidDigit));
            proof { lemma_scan_prefix_err(d, (i + 1 - start) as nat, max as nat); }
            assert(scan_digits(d, max as nat) == Err::<nat, IntErrorKind>(IntErrorKind::InvalidDigit));
            return Err(IntErrorKind::InvalidDigit);
        }
        let dv: u64 = ((c as u32) - 48) as u64;
        if dv > max || value > (max - dv) / 10 {
            assert(value * 10 + dv > max) by (nonlinear_arith)
                requires dv > max || value > (max - dv) / 10, value >= 0;
            assert(scan_digits(prefix, max as nat) == Err::<nat, IntErrorKind>(IntErrorKind::PosOverflow));
            proof { lemma_scan_prefix_err(d, (i + 1 - start) as nat, max as nat); }
            assert(scan_digits(d, max as nat) == Err::<nat, IntErrorKind>(IntErrorKind::PosOverflow));
            return Err(IntErrorKind::PosOverflow);
        }
        assert(value * 10 + dv <= max) by (nonlinear_arith)
            requires value <= (max - dv) / 10, dv <= max;
        value = value * 10 + dv;
        i = i + 1;
    }
    assert(d.subrange(0, len - start) =~= d);
    Ok(value)
}

/// Once a prefix of `d` is rejected, `d` as a whole is rejected the same way.
proof fn lemma_scan_prefix_err(d: Seq<char>, k: nat, max: nat)
    requires
        k <= d.len(),
        scan_digits(d.subrange(0, k as int), max) is Err,
    ensures
        scan_digits(d, max) == scan_digits(d.subrange(0, k as int), max),
    decreases d.len() - k,
{
    if k < d.len() {
        let p = d.subrange(0, k as int + 1);
        assert(p.drop_last() =~= d.subrange(0, k as int));
        lemma_scan_prefix_err(d, k + 1, max);
    } else {
        assert(d.subrange(0, k as int) =~= d);
    }
}


/// The decimal rendering of `n` is digits only, without a leading zero (but
/// for `0` itself), as long as `n` has digits, and reading it back gives `n`
/// whenever `n` is in range; a leading `+` reads the same.
pub proof fn law_decimal_round_trip(n: nat, max: nat)
    ensures
        forall|i: int| 0 <= i < decimal(n).len() ==> '0' <= #[trigger] decimal(n)[i] <= '9',
        decimal(n)[0] == '0' ==> n == 0,
        n <= max ==> parse_unsigned(decimal(n), max) == Ok::<nat, IntErrorKind>(n),
        n <= max ==> parse_unsigned(seq!['+'] + decimal(n), max) == Ok::<nat, IntErrorKind>(n),
        n > max ==> parse_unsigned(decimal(n), max) == Err::<nat, IntErrorKind>(IntErrorKind::PosOverflow),
    decreases n,
{
    lemma_decimal_scan(n, max);
    assert((seq!['+'] + decimal(n)).drop_first() =~= decimal(n));
    lemma_decimal_shape(n);
}

proof fn lemma_decimal_shape(n: nat)
    ensures
        decimal(n).len() >= 1,
        forall|i: int| 0 <= i < decimal(n).len() ==> '0' <= #[trigger] decimal(n)[i] <= '9',
        decimal(n)[0] == '0' ==> n == 0,
    decreases n,
{
    if n >= 10 {
        lemma_decimal_shape(n / 10);
        assert(decimal(n)[0] == decimal(n / 10)[0]);
        assert forall|i: int| 0 <= i < decimal(n).len() implies '0' <= #[trigger] decimal(n)[i] <= '9' by {
            if i < decimal(n / 10).len() {
                assert(decimal(n)[i] == decimal(n / 10)[i]);
            }
        }
    }
}

proof fn lemma_decimal_scan(n: nat, max: nat)
    ensures
        n <= max ==> scan_digits(decimal(n), max) == Ok::<nat, IntErrorKind>(n),
        n > max ==> scan_digits(decimal(n), max) == Err::<nat, IntErrorKind>(IntErrorKind::PosOverflow),
    decreases n,
{
    let d = decimal(n);
    let c = digit_char(n % 10);
    assert(c as nat == n % 10 + 48);
    assert(is_digit(c));
    assert(digit_value(c) == n % 10);
    assert(d.last() == c);
    if n < 10 {
        assert(d.drop_last() =~= Seq::<char>::empty());
        assert(n % 10 == n);
        assert(scan_digits(d.drop_last(), max) == Ok::<nat, IntErrorKind>(0));
        assert(0nat * 10 + n == n);
    } else {
        lemma_decimal_scan(n / 10, max);
        assert(d.drop_last() =~= decimal(n / 10));
        assert(n / 10 * 10 + n % 10 == n);
        if n / 10 > max {
            assert(n > max);
            assert(scan_digits(d.drop_last(), max) == Err::<nat, IntErrorKind>(IntErrorKind::PosOverflow));
        } else {
            assert(scan_digits(d.drop_last(), max) == Ok::<nat, IntErrorKind>(n / 10));
        }
    }
}

} // verus!

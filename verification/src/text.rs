//! Verified text helpers: reading unsigned numbers out of strings and
//! rendering numbers back into strings.
//!
//! These back the settings surface (ids and thresholds typed by an
//! operator) and the log renderer.

use vstd::prelude::*;
use vstd::string::*;

verus! {

/// A decimal digit.
pub open spec fn is_digit(c: char) -> bool {
    '0' <= c && c <= '9'
}

/// Numeric value of a decimal digit.
pub open spec fn digit_val(c: char) -> int {
    c as int - '0' as int
}

/// Every character of the sequence is a decimal digit.
pub open spec fn all_digits(s: Seq<char>) -> bool {
    forall|i: int| 0 <= i < s.len() ==> is_digit(#[trigger] s[i])
}

/// Value of a digit string read most-significant first.
pub open spec fn digits_val(s: Seq<char>) -> int
    decreases s.len(),
{
    if s.len() == 0 {
        0
    } else {
        digits_val(s.drop_last()) * 10 + digit_val(s.last())
    }
}

/// The digit character for a value below ten.
pub open spec fn dec_digit(d: int) -> char {
    if d == 0 {
        '0'
    } else if d == 1 {
        '1'
    } else if d == 2 {
        '2'
    } else if d == 3 {
        '3'
    } else if d == 4 {
        '4'
    } else if d == 5 {
        '5'
    } else if d == 6 {
        '6'
    } else if d == 7 {
        '7'
    } else if d == 8 {
        '8'
    } else {
        '9'
    }
}

/// Decimal rendering of a non-negative number, without leading zeroes
/// (a single zero for zero itself).
pub open spec fn dec_str(n: int) -> Seq<char>
    decreases n,
{
    if n < 10 {
        seq![dec_digit(n)]
    } else {
        dec_str(n / 10).push(dec_digit(n % 10))
    }
}

/// A string of digits reads as a non-negative value.
proof fn lemma_digits_val_nonneg(s: Seq<char>)
    requires
        all_digits(s),
    ensures
        digits_val(s) >= 0,
    decreases s.len(),
{
    if s.len() > 0 {
        assert(all_digits(s.drop_last())) by {
            assert(forall|i: int|
                0 <= i < s.len() - 1 ==> #[trigger] s.drop_last()[i] == s[i]);
        }
        lemma_digits_val_nonneg(s.drop_last());
    }
}

fn char_to_digit(c: char) -> (r: Option<u64>)
    ensures
        r is Some <==> is_digit(c),
        r is Some ==> r->0 == digit_val(c) && r->0 < 10,
{
    if c >= '0' && c <= '9' {
        Some(c as u64 - '0' as u64)
    } else {
        None
    }
}

/// Whether a digit string fits an unsigned 64-bit number: non-empty, all
/// digits, and within range.
pub open spec fn parse_u64_ok(s: Seq<char>) -> bool {
    s.len() > 0 && all_digits(s) && digits_val(s) <= u64::MAX as int
}

/// Read a non-empty string of decimal digits as an unsigned 64-bit
/// number.  Fails exactly on the empty string, on any non-digit, and on
/// a value out of range.
pub fn parse_u64(s: &str) -> (r: Option<u64>)
    ensures
        r is Some <==> parse_u64_ok(s@),
        r is Some ==> r->0 == digits_val(s@),
{
    let n = s.unicode_len();
    let mut i: usize = 0;
    let mut acc: u64 = 0;
    let mut overflowed = false;
    while i < n
        invariant
            0 <= i <= n,
            n == s@.len(),
            all_digits(s@.subrange(0, i as int)),
            !overflowed ==> acc == digits_val(s@.subrange(0, i as int)),
            overflowed ==> digits_val(s@.subrange(0, i as int)) > u64::MAX as int,
        decreases n - i,
    {
        let c = s.get_char(i);
        let ghost prefix = s@.subrange(0, i as int);
        proof {
            assert(s@.subrange(0, i + 1).drop_last() =~= prefix);
            assert(s@.subrange(0, i + 1).last() == s@[i as int]);
        }
        match char_to_digit(c) {
            Some(d) => {
                proof {
                    lemma_digits_val_nonneg(prefix);
                }
                if overflowed {
                    // value only grows: 10 * v + d > u64::MAX stays true
                    proof {
                        assert(digits_val(prefix) * 10 + digit_val(c) > u64::MAX as int)
                            by (nonlinear_arith)
                            requires
                                digits_val(prefix) > u64::MAX as int,
                                digit_val(c) >= 0,
                        ;
                    }
                } else if acc > (u64::MAX - d as u64) / 10 {
                    proof {
                        assert((acc as int) * 10 + (d as int) > u64::MAX as int) by (nonlinear_arith)
                            requires
                                (acc as int) > ((u64::MAX - d) as int) / 10,
                                0 <= d < 10,
                                acc <= u64::MAX,
                        ;
                    }
                    overflowed = true;
                } else {
                    proof {
                        assert((acc as int) * 10 + (d as int) <= u64::MAX as int) by (nonlinear_arith)
                            requires
                                (acc as int) <= ((u64::MAX - d) as int) / 10,
                                0 <= d < 10,
                        ;
                    }
                    acc = acc * 10 + d as u64;
                }
            },
            None => {
                proof {
                    assert(!is_digit(s@[i as int]));
                }
                return None;
            },
        }
        i = i + 1;
    }
    proof {
        assert(s@.subrange(0, n as int) =~= s@);
    }
    if n == 0 || overflowed {
        None
    } else {
        Some(acc)
    }
}

/// Whether a digit string fits an unsigned 32-bit number.
pub open spec fn parse_u32_ok(s: Seq<char>) -> bool {
    s.len() > 0 && all_digits(s) && digits_val(s) <= u32::MAX as int
}

/// Read a non-empty string of decimal digits as an unsigned 32-bit
/// number.
pub fn parse_u32(s: &str) -> (r: Option<u32>)
    ensures
        r is Some <==> parse_u32_ok(s@),
        r is Some ==> r->0 == digits_val(s@),
{
    match parse_u64(s) {
        Some(v) => {
            if v <= u32::MAX as u64 {
                Some(v as u32)
            } else {
                None
            }
        },
        None => None,
    }
}

/// Ten to the `k`.
pub open spec fn pow10(k: nat) -> int
    decreases k,
{
    if k == 0 {
        1
    } else {
        10 * pow10((k - 1) as nat)
    }
}

/// A digit string's value stays below ten to its length.
proof fn lemma_digits_val_bound(s: Seq<char>)
    requires
        all_digits(s),
    ensures
        0 <= digits_val(s) < pow10(s.len()),
    decreases s.len(),
{
    if s.len() > 0 {
        assert(all_digits(s.drop_last())) by {
            assert(forall|i: int|
                0 <= i < s.len() - 1 ==> #[trigger] s.drop_last()[i] == s[i]);
        }
        lemma_digits_val_bound(s.drop_last());
        assert(digit_val(s.last()) <= 9);
        assert(digits_val(s.drop_last()) * 10 + 9 < pow10(s.len())) by (nonlinear_arith)
            requires
                digits_val(s.drop_last()) < pow10((s.len() - 1) as nat),
                pow10(s.len()) == 10 * pow10((s.len() - 1) as nat),
        ;
    }
}

/// Index of the first dot in a string, or its length when there is none.
pub open spec fn dot_index(s: Seq<char>) -> int
    decreases s.len(),
{
    if s.len() == 0 {
        0
    } else if s[0] == '.' {
        0
    } else {
        1 + dot_index(s.drop_first())
    }
}

proof fn lemma_dot_index_from(s: Seq<char>, i: int)
    requires
        0 <= i <= s.len(),
        forall|j: int| 0 <= j < i ==> #[trigger] s[j] != '.',
    ensures
        dot_index(s) >= i,
        i < s.len() && s[i] == '.' ==> dot_index(s) == i,
    decreases i,
{
    lemma_dot_index_range(s);
    if i > 0 {
        assert(s[0] != '.');
        assert(dot_index(s) == 1 + dot_index(s.drop_first()));
        assert(s.drop_first().len() == s.len() - 1);
        assert(forall|j: int|
            0 <= j < i - 1 ==> #[trigger] s.drop_first()[j] == s[j + 1] && s[j + 1] != '.');
        lemma_dot_index_from(s.drop_first(), i - 1);
        assert(i - 1 < s.drop_first().len() ==> s.drop_first()[i - 1] == s[i]);
    }
}

proof fn lemma_dot_index_range(s: Seq<char>)
    ensures
        0 <= dot_index(s) <= s.len(),
        dot_index(s) < s.len() ==> s[dot_index(s)] == '.',
    decreases s.len(),
{
    if s.len() > 0 && s[0] != '.' {
        lemma_dot_index_range(s.drop_first());
        assert(dot_index(s) == 1 + dot_index(s.drop_first()));
        if dot_index(s) < s.len() {
            assert(s.drop_first()[dot_index(s.drop_first())] == s[dot_index(s)]);
        }
    }
}

proof fn lemma_pow10_small()
    ensures
        pow10(0) == 1,
        pow10(1) == 10,
        pow10(2) == 100,
        pow10(3) == 1000,
        pow10(4) == 10000,
        pow10(5) == 100000,
{
    reveal_with_fuel(pow10, 6);
}

proof fn lemma_pow10_add(a: nat, b: nat)
    ensures
        pow10(a) * pow10(b) == pow10(a + b),
    decreases a,
{
    if a == 0 {
        assert(pow10(0) * pow10(b) == pow10(b)) by (nonlinear_arith)
            requires
                pow10(0) == 1,
        ;
    } else {
        lemma_pow10_add((a - 1) as nat, b);
        assert(pow10(a) == 10 * pow10((a - 1) as nat));
        assert(pow10(a + b) == 10 * pow10((a + b - 1) as nat));
        assert((10 * pow10((a - 1) as nat)) * pow10(b) == 10 * (pow10((a - 1) as nat) * pow10(b)))
            by (nonlinear_arith);
    }
}

proof fn lemma_all_digits_sub(s: Seq<char>, t: Seq<char>, off: int)
    requires
        all_digits(s),
        0 <= off,
        off + t.len() <= s.len(),
        forall|i: int| 0 <= i < t.len() ==> #[trigger] t[i] == s[i + off],
    ensures
        all_digits(t),
{
    assert(forall|i: int| 0 <= i < t.len() ==> is_digit(#[trigger] t[i])) by {
        assert(forall|i: int| 0 <= i < t.len() ==> #[trigger] t[i] == s[i + off]
            && is_digit(s[i + off]));
    }
}

/// The scaled fractional value always stays below one whole unit.
proof fn lemma_frac_scaled_bound(f: Seq<char>)
    requires
        all_digits(f),
    ensures
        0 <= frac_scaled(f) < 100000,
{
    lemma_pow10_small();
    if f.len() >= 5 {
        lemma_all_digits_sub(f, f.take(5), 0);
        lemma_digits_val_bound(f.take(5));
    } else {
        lemma_digits_val_bound(f);
        lemma_pow10_add(f.len(), (5 - f.len()) as nat);
        assert(0 <= digits_val(f) * pow10((5 - f.len()) as nat) < pow10(f.len()) * pow10(
            (5 - f.len()) as nat)) by (nonlinear_arith)
            requires
                0 <= digits_val(f) < pow10(f.len()),
                pow10((5 - f.len()) as nat) >= 1,
        ;
    }
}

/// The digits of a string before its first dot.
pub open spec fn int_part(s: Seq<char>) -> Seq<char> {
    s.take(dot_index(s))
}

/// The digits of a string after its first dot; empty when there is no
/// dot.
pub open spec fn frac_part(s: Seq<char>) -> Seq<char> {
    if dot_index(s) == s.len() {
        Seq::<char>::empty()
    } else {
        s.skip(dot_index(s) + 1)
    }
}

/// The value of a fractional digit string, truncated to five places and
/// scaled by ten to the fifth.
pub open spec fn frac_scaled(f: Seq<char>) -> int {
    if f.len() >= 5 {
        digits_val(f.take(5))
    } else {
        digits_val(f) * pow10((5 - f.len()) as nat)
    }
}

/// Whether a string reads as a non-negative decimal number whose
/// fixed-point value fits an unsigned 64-bit number: digits around at
/// most one dot, at least one digit in all.
pub open spec fn parse_decimal_ok(s: Seq<char>) -> bool {
    &&& all_digits(int_part(s))
    &&& all_digits(frac_part(s))
    &&& int_part(s).len() + frac_part(s).len() > 0
    &&& digits_val(int_part(s)) * 100000 + frac_scaled(frac_part(s)) <= u64::MAX as int
}

/// The fixed-point value of a decimal string: the integer part scaled by
/// ten to the fifth, plus the first five fractional digits.
pub open spec fn decimal_val(s: Seq<char>) -> int {
    digits_val(int_part(s)) * 100000 + frac_scaled(frac_part(s))
}

/// Read the fractional digits of a decimal: their value truncated to
/// five places, scaled by ten to the fifth.
fn parse_frac(f: &str) -> (r: Option<u64>)
    ensures
        r is Some <==> all_digits(f@),
        r is Some ==> r->0 == frac_scaled(f@) && r->0 < 100000,
{
    let n = f.unicode_len();
    let mut i: usize = 0;
    let mut acc: u64 = 0;
    proof {
        lemma_pow10_small();
    }
    while i < n
        invariant
            0 <= i <= n,
            n == f@.len(),
            all_digits(f@.subrange(0, i as int)),
            i < 5 ==> acc == digits_val(f@.subrange(0, i as int)) && acc < pow10(i as nat),
            i >= 5 ==> acc == digits_val(f@.take(5)) && acc < 100000,
            pow10(0) == 1 && pow10(1) == 10 && pow10(2) == 100 && pow10(3) == 1000 && pow10(4)
                == 10000 && pow10(5) == 100000,
        decreases n - i,
    {
        let c = f.get_char(i);
        let ghost prefix = f@.subrange(0, i as int);
        proof {
            assert(f@.subrange(0, i + 1).drop_last() =~= prefix);
            assert(f@.subrange(0, i + 1).last() == f@[i as int]);
        }
        match char_to_digit(c) {
            Some(d) => {
                if i < 5 {
                    proof {
                        assert((acc as int) * 10 + (d as int) < pow10((i + 1) as nat))
                            by (nonlinear_arith)
                            requires
                                (acc as int) < pow10(i as nat),
                                0 <= d < 10,
                                pow10((i + 1) as nat) == 10 * pow10(i as nat),
                        ;
                        assert(pow10((i + 1) as nat) <= 100000);
                    }
                    acc = acc * 10 + d as u64;
                    proof {
                        if i + 1 == 5 {
                            assert(f@.subrange(0, 5) =~= f@.take(5));
                        }
                    }
                }
            },
            None => {
                proof {
                    assert(!is_digit(f@[i as int]));
                }
                return None;
            },
        }
        i = i + 1;
    }
    proof {
        assert(f@.subrange(0, n as int) =~= f@);
    }
    if n >= 5 {
        Some(acc)
    } else {
        // pad the missing places with one multiplier
        let ghost base = digits_val(f@);
        let pad: u64 = if n == 0 {
            100000
        } else if n == 1 {
            10000
        } else if n == 2 {
            1000
        } else if n == 3 {
            100
        } else {
            10
        };
        proof {
            assert(pad == pow10((5 - n) as nat));
            lemma_digits_val_bound(f@);
            lemma_pow10_add(n as nat, (5 - n) as nat);
            assert(0 <= base * pad && base * pad < 100000) by (nonlinear_arith)
                requires
                    0 <= base < pow10(n as nat),
                    pad == pow10((5 - n) as nat),
                    pad >= 1,
                    pow10(n as nat) * pow10((5 - n) as nat) == 100000,
            ;
        }
        Some(acc * pad)
    }
}

/// Read a non-negative decimal number as a fixed-point value scaled by
/// ten to the fifth, truncating past five fractional places.  Fails
/// exactly on an empty or dotted-only string, any character that is
/// neither digit nor a single dot, and a value out of range.
pub fn parse_decimal(s: &str) -> (r: Option<u64>)
    ensures
        r is Some <==> parse_decimal_ok(s@),
        r is Some ==> r->0 == decimal_val(s@),
{
    let n = s.unicode_len();
    // find the first dot
    let mut dot: usize = n;
    let mut i: usize = 0;
    let mut found = false;
    while i < n
        invariant_except_break
            0 <= i <= n,
            n == s@.len(),
            forall|j: int| 0 <= j < i ==> #[trigger] s@[j] != '.',
            dot == n,
            !found,
        ensures
            found ==> dot == dot_index(s@) && dot < n,
            !found ==> dot == n && (forall|j: int| 0 <= j < n ==> #[trigger] s@[j] != '.'),
        decreases n - i,
    {
        if s.get_char(i) == '.' {
            proof {
                lemma_dot_index_from(s@, i as int);
            }
            dot = i;
            found = true;
            break;
        }
        i = i + 1;
    }
    proof {
        if !found {
            lemma_dot_index_from(s@, n as int);
            lemma_dot_index_range(s@);
            assert(dot_index(s@) == n);
        }
    }
    let ghost ip = int_part(s@);
    let ghost fp = frac_part(s@);

    let int_str = s.substring_char(0, dot);
    proof {
        assert(int_str@ =~= ip);
    }
    let int_val: u64 = if dot == 0 {
        proof {
            assert(ip =~= Seq::<char>::empty());
        }
        0
    } else {
        match parse_u64(int_str) {
            Some(v) => v,
            None => {
                proof {
                    if all_digits(ip) && all_digits(fp) {
                        // the integer part alone is already out of range
                        lemma_digits_val_nonneg(ip);
                        lemma_frac_scaled_bound(fp);
                        assert(digits_val(ip) * 100000 >= digits_val(ip)) by (nonlinear_arith)
                            requires
                                digits_val(ip) >= 0,
                        ;
                    }
                }
                return None;
            },
        }
    };
    let frac_str = if dot < n {
        s.substring_char(dot + 1, n)
    } else {
        s.substring_char(n, n)
    };
    proof {
        assert(frac_str@ =~= fp);
    }
    let frac_val: u64 = match parse_frac(frac_str) {
        Some(v) => v,
        None => {
            return None;
        },
    };
    if int_str.unicode_len() == 0 && frac_str.unicode_len() == 0 {
        return None;
    }
    let total: u128 = (int_val as u128) * 100000 + (frac_val as u128);
    proof {
        assert((int_val as int) * 100000 <= (u64::MAX as int) * 100000) by (nonlinear_arith)
            requires
                int_val <= u64::MAX,
        ;
    }
    if total > u64::MAX as u128 {
        None
    } else {
        Some(total as u64)
    }
}

fn digit_str(d: u64) -> (s: &'static str)
    requires
        d < 10,
    ensures
        s@ =~= seq![dec_digit(d as int)],
{
    proof {
        reveal_strlit("0");
        reveal_strlit("1");
        reveal_strlit("2");
        reveal_strlit("3");
        reveal_strlit("4");
        reveal_strlit("5");
        reveal_strlit("6");
        reveal_strlit("7");
        reveal_strlit("8");
        reveal_strlit("9");
    }
    if d == 0 {
        "0"
    } else if d == 1 {
        "1"
    } else if d == 2 {
        "2"
    } else if d == 3 {
        "3"
    } else if d == 4 {
        "4"
    } else if d == 5 {
        "5"
    } else if d == 6 {
        "6"
    } else if d == 7 {
        "7"
    } else if d == 8 {
        "8"
    } else {
        "9"
    }
}

/// Render a number in decimal.
pub fn format_u64(n: u64) -> (s: String)
    ensures
        s@ == dec_str(n as int),
    decreases n,
{
    if n < 10 {
        digit_str(n).to_owned()
    } else {
        let head = format_u64(n / 10);
        let s = head.concat(digit_str(n % 10));
        proof {
            assert(s@ =~= dec_str(n as int / 10).push(dec_digit(n as int % 10)));
        }
        s
    }
}

/// Render a number below one hundred as exactly two digits.
pub open spec fn two_digits(n: int) -> Seq<char> {
    seq![dec_digit(n / 10), dec_digit(n % 10)]
}

/// Render a number below one hundred, zero-padded to two digits.
pub fn format_two_digits(n: u64) -> (s: String)
    requires
        n < 100,
    ensures
        s@ == two_digits(n as int),
{
    let s = digit_str(n / 10).to_owned().concat(digit_str(n % 10));
    proof {
        assert(s@ =~= two_digits(n as int));
    }
    s
}

} // verus!

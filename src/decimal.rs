use vstd::prelude::*;

use crate::error::IntErrorKind;

verus! {

pub open spec fn is_digit(c: char) -> bool {
    '0' <= c && c <= '9'
}

pub open spec fn digit_value(c: char) -> int {
    (c as u32) as int - ('0' as u32) as int
}

/// Reads the digits of `t` from left to right, as decimal integer parsing
/// does, with `bound` the largest magnitude allowed: the value read, or the
/// first failure met (`InvalidDigit` for a non-digit, `PosOverflow` for a
/// magnitude above `bound`).
pub open spec fn read_digits(t: Seq<char>, bound: int) -> Result<int, IntErrorKind>
    decreases t.len(),
{
    if t.len() == 0 {
        Ok(0)
    } else {
        match read_digits(t.drop_last(), bound) {
            Err(k) => Err(k),
            Ok(v) => if !is_digit(t.last()) {
                Err(IntErrorKind::InvalidDigit)
            } else if 10 * v + digit_value(t.last()) > bound {
                Err(IntErrorKind::PosOverflow)
            } else {
                Ok(10 * v + digit_value(t.last()))
            },
        }
    }
}

/// Decimal integer parsing into a type with bounds `min` and `max`: an
/// optional `+`, or `-` where the type is `signed`, then digits only.
pub open spec fn parse_int(s: Seq<char>, signed: bool, min: int, max: int) -> Result<
    int,
    IntErrorKind,
> {
    if s.len() == 0 {
        Err(IntErrorKind::Empty)
    } else if s.len() == 1 && (s[0] == '+' || s[0] == '-') {
        Err(IntErrorKind::InvalidDigit)
    } else if s[0] == '-' && signed {
        match read_digits(s.drop_first(), -min) {
            Ok(v) => Ok(-v),
            Err(IntErrorKind::PosOverflow) => Err(IntErrorKind::NegOverflow),
            Err(k) => Err(k),
        }
    } else if s[0] == '+' {
        read_digits(s.drop_first(), max)
    } else {
        read_digits(s, max)
    }
}

/// The decimal digits of `n`, most significant first, without leading zeros.
pub open spec fn decimal_digits(n: nat) -> Seq<char>
    decreases n,
{
    if n < 10 {
        seq![digit_char(n)]
    } else {
        decimal_digits(n / 10).push(digit_char(n % 10))
    }
}

pub open spec fn digit_char(d: nat) -> char {
    seq!['0', '1', '2', '3', '4', '5', '6', '7', '8', '9'][d as int]
}

/// The text of the integer `v` in decimal, with a `-` before a negative one.
pub open spec fn decimal_text(v: int) -> Seq<char> {
    if v < 0 {
        seq!['-'] + decimal_digits((-v) as nat)
    } else {
        decimal_digits(v as nat)
    }
}

/// A failure met on a prefix is the failure of the whole text.
proof fn lemma_failure_sticks(t: Seq<char>, k: int, bound: int)
    requires
        0 <= k <= t.len(),
        read_digits(t.take(k), bound) is Err,
    ensures
        read_digits(t, bound) == read_digits(t.take(k), bound),
    decreases t.len(),
{
    if t.len() == k {
        assert(t.take(k) =~= t);
    } else {
        assert(t.drop_last().take(k) =~= t.take(k));
        lemma_failure_sticks(t.drop_last(), k, bound);
    }
}

/// Reads the digits of `s` from `start` on, as [`read_digits`] states.
fn read_magnitude(s: &str, start: usize, bound: u128) -> (r: Result<u128, IntErrorKind>)
    requires
        start <= s@.len(),
        bound >= 9,
    ensures
        r is Ok ==> read_digits(s@.subrange(start as int, s@.len() as int), bound as int) == Ok::<
            int,
            IntErrorKind,
        >(r->Ok_0 as int),
        r is Err ==> read_digits(s@.subrange(start as int, s@.len() as int), bound as int) == Err::<
            int,
            IntErrorKind,
        >(r->Err_0),
        r is Ok ==> r->Ok_0 <= bound,
{
    let n = s.unicode_len();
    let ghost full = s@.subrange(start as int, n as int);
    let mut acc: u128 = 0;
    let mut i: usize = start;
    proof {
        assert(full.take(0).len() == 0);
    }
    while i < n
        invariant
            n == s@.len(),
            full == s@.subrange(start as int, n as int),
            start <= i <= n,
            bound >= 9,
            acc <= bound,
            read_digits(full.take(i - start), bound as int) == Ok::<int, IntErrorKind>(acc as int),
        decreases n - i,
    {
        let ghost t = full.take(i + 1 - start);
        proof {
            assert(t.drop_last() =~= full.take(i - start));
            assert(t.last() == s@[i as int]);
        }
        let c = s.get_char(i);
        if !('0' <= c && c <= '9') {
            proof {
                lemma_failure_sticks(full, i + 1 - start, bound as int);
            }
            return Err(IntErrorKind::InvalidDigit);
        }
        let d = (c as u32 - '0' as u32) as u128;
        if acc > (bound - d) / 10 {
            proof {
                let q = (bound - d) / 10;
                assert(10 * acc + d > bound) by (nonlinear_arith)
                    requires
                        acc > q,
                        q == (bound - d) / 10,
                        bound >= d,
                ;
                lemma_failure_sticks(full, i + 1 - start, bound as int);
            }
            return Err(IntErrorKind::PosOverflow);
        }
        proof {
            let q = (bound - d) / 10;
            assert(10 * acc + d <= bound) by (nonlinear_arith)
                requires
                    acc <= q,
                    q == (bound - d) / 10,
                    bound >= d,
            ;
        }
        acc = acc * 10 + d;
        i = i + 1;
    }
    proof {
        assert(full.take(n - start) =~= full);
    }
    Ok(acc)
}

/// Parses `s` as a decimal integer of an unsigned type whose largest value is `max`.
pub fn parse_unsigned(s: &str, max: u128) -> (r: Result<u128, IntErrorKind>)
    requires
        max >= 9,
    ensures
        r is Ok ==> parse_int(s@, false, 0, max as int) == Ok::<int, IntErrorKind>(r->Ok_0 as int),
        r is Err ==> parse_int(s@, false, 0, max as int) == Err::<int, IntErrorKind>(r->Err_0),
        r is Ok ==> r->Ok_0 <= max,
{
    let n = s.unicode_len();
    if n == 0 {
        return Err(IntErrorKind::Empty);
    }
    let c = s.get_char(0);
    if n == 1 && (c == '+' || c == '-') {
        return Err(IntErrorKind::InvalidDigit);
    }
    proof {
        assert(s@.drop_first() =~= s@.subrange(1, s@.len() as int));
        assert(s@ =~= s@.subrange(0, s@.len() as int));
    }
    if c == '+' {
        read_magnitude(s, 1, max)
    } else {
        read_magnitude(s, 0, max)
    }
}

/// Parses `s` as a decimal integer of a signed type with bounds `min` and `max`.
pub fn parse_signed(s: &str, min: i128, max: i128) -> (r: Result<i128, IntErrorKind>)
    requires
        min <= -9,
        max >= 9,
    ensures
        r is Ok ==> parse_int(s@, true, min as int, max as int) == Ok::<int, IntErrorKind>(
            r->Ok_0 as int,
        ),
        r is Err ==> parse_int(s@, true, min as int, max as int) == Err::<int, IntErrorKind>(
            r->Err_0,
        ),
        r is Ok ==> min <= r->Ok_0 <= max,
{
    let n = s.unicode_len();
    if n == 0 {
        return Err(IntErrorKind::Empty);
    }
    let c = s.get_char(0);
    if n == 1 && (c == '+' || c == '-') {
        return Err(IntErrorKind::InvalidDigit);
    }
    proof {
        assert(s@.drop_first() =~= s@.subrange(1, s@.len() as int));
        assert(s@ =~= s@.subrange(0, s@.len() as int));
    }
    if c == '-' {
        let bound = (-(min + 1)) as u128 + 1;
        match read_magnitude(s, 1, bound) {
            Ok(v) => {
                if v == 0 {
                    Ok(0)
                } else {
                    Ok(-((v - 1) as i128) - 1)
                }
            },
            Err(IntErrorKind::PosOverflow) => Err(IntErrorKind::NegOverflow),
            Err(k) => Err(k),
        }
    } else {
        let start: usize = if c == '+' { 1 } else { 0 };
        match read_magnitude(s, start, max as u128) {
            Ok(v) => Ok(v as i128),
            Err(k) => Err(k),
        }
    }
}

proof fn lemma_digit_char(d: nat)
    requires
        d < 10,
    ensures
        is_digit(digit_char(d)),
        digit_value(digit_char(d)) == d,
{
    let ds = seq!['0', '1', '2', '3', '4', '5', '6', '7', '8', '9'];
    assert(ds[0] == '0' && ds[1] == '1' && ds[2] == '2' && ds[3] == '3' && ds[4] == '4');
    assert(ds[5] == '5' && ds[6] == '6' && ds[7] == '7' && ds[8] == '8' && ds[9] == '9');
}

proof fn lemma_decimal_digits_shape(n: nat)
    ensures
        decimal_digits(n).len() >= 1,
        is_digit(decimal_digits(n)[0]),
    decreases n,
{
    if n < 10 {
        lemma_digit_char(n);
    } else {
        lemma_decimal_digits_shape(n / 10);
    }
}

/// Reading the decimal digits of `n` gives `n` back when `n` is within the
/// bound, and an overflow when it is above the bound by a digit.
proof fn lemma_read_decimal(n: nat, bound: int)
    requires
        n / 10 <= bound,
    ensures
        n <= bound ==> read_digits(decimal_digits(n), bound) == Ok::<int, IntErrorKind>(n as int),
        n > bound ==> read_digits(decimal_digits(n), bound) == Err::<int, IntErrorKind>(
            IntErrorKind::PosOverflow,
        ),
    decreases n,
{
    let t = decimal_digits(n);
    if n < 10 {
        lemma_digit_char(n);
        assert(t.drop_last() =~= Seq::<char>::empty());
        assert(read_digits(t.drop_last(), bound) == Ok::<int, IntErrorKind>(0));
        assert(t.last() == digit_char(n));
    } else {
        let q = n / 10;
        let d = (n % 10) as nat;
        lemma_digit_char(d);
        assert(q / 10 <= q);
        assert(q <= bound);
        lemma_read_decimal(q, bound);
        assert(t == decimal_digits(q).push(digit_char(d)));
        assert(t.drop_last() =~= decimal_digits(q));
        assert(t.last() == digit_char(d));
        assert(10 * q + d == n);
        assert(read_digits(t.drop_last(), bound) == Ok::<int, IntErrorKind>(q as int));
    }
}

/// Decimal integer parsing, for every integer type with bounds `min` and
/// `max`: the decimal text of each value in range parses back to it; the
/// value one past either bound fails with the overflow of that side; an empty
/// text fails as empty; and `-1` is an invalid digit for an unsigned type.
pub proof fn lemma_int_text_round_trip(v: int, signed: bool, min: int, max: int)
    requires
        min <= 0 < max,
        signed || min == 0,
        min <= v <= max,
    ensures
        parse_int(decimal_text(v), signed, min, max) == Ok::<int, IntErrorKind>(v),
        parse_int(decimal_text(max + 1), signed, min, max) == Err::<int, IntErrorKind>(
            IntErrorKind::PosOverflow,
        ),
        signed ==> parse_int(decimal_text(min - 1), signed, min, max) == Err::<int, IntErrorKind>(
            IntErrorKind::NegOverflow,
        ),
        parse_int(Seq::empty(), signed, min, max) == Err::<int, IntErrorKind>(IntErrorKind::Empty),
        !signed ==> parse_int(seq!['-', '1'], signed, min, max) == Err::<int, IntErrorKind>(
            IntErrorKind::InvalidDigit,
        ),
{
    if v >= 0 {
        lemma_decimal_digits_shape(v as nat);
        lemma_read_decimal(v as nat, max);
    } else {
        let d = decimal_digits((-v) as nat);
        lemma_decimal_digits_shape((-v) as nat);
        lemma_read_decimal((-v) as nat, -min);
        assert((seq!['-'] + d).drop_first() =~= d);
    }
    lemma_decimal_digits_shape((max + 1) as nat);
    lemma_read_decimal((max + 1) as nat, max);
    if signed {
        let d = decimal_digits((-(min - 1)) as nat);
        lemma_decimal_digits_shape((-(min - 1)) as nat);
        lemma_read_decimal((-(min - 1)) as nat, -min);
        assert((seq!['-'] + d).drop_first() =~= d);
    } else {
        let t = seq!['-', '1'];
        let u = seq!['-'];
        assert(t.drop_last() =~= u);
        assert(u.drop_last() =~= Seq::<char>::empty());
        assert(read_digits(u.drop_last(), max) == Ok::<int, IntErrorKind>(0));
        assert(!is_digit(u.last()));
        assert(read_digits(u, max) == Err::<int, IntErrorKind>(IntErrorKind::InvalidDigit));
        assert(read_digits(t, max) == Err::<int, IntErrorKind>(IntErrorKind::InvalidDigit));
    }
}

} // verus!

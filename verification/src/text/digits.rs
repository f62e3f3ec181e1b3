//! Decimal digits and their values.
use vstd::prelude::*;
use crate::text::run::{ByteClass, run1, run_end, lemma_run_end, take_run1};

verus! {

pub open spec fn is_digit(b: u8) -> bool {
    0x30 <= b <= 0x39
}

pub open spec fn all_digits(s: Seq<u8>) -> bool {
    forall|i: int| 0 <= i < s.len() ==> is_digit(#[trigger] s[i])
}

/// The value of a string of decimal digits.
pub open spec fn digits_value(s: Seq<u8>) -> nat
    decreases s.len(),
{
    if s.len() == 0 {
        0
    } else {
        (digits_value(s.drop_last()) * 10 + (s.last() - 0x30)) as nat
    }
}

pub proof fn lemma_digits_prefix_le(s: Seq<u8>, i: int)
    requires
        all_digits(s),
        0 <= i <= s.len(),
    ensures
        digits_value(s.take(i)) <= digits_value(s),
    decreases s.len() - i,
{
    if i < s.len() {
        lemma_digits_prefix_le(s, i + 1);
        assert(s.take(i + 1).drop_last() =~= s.take(i));
        assert(is_digit(s[i]));
        let x = digits_value(s.take(i));
        let d = s[i] - 0x30;
        assert(x <= x * 10 + d) by (nonlinear_arith)
            requires
                d >= 0,
        ;
    } else {
        assert(s.take(i) =~= s);
    }
}

/// Value of a run of decimal digits (`str::parse::<u64>` on a digit string).
pub fn ascii_to_u64(c: &[u8]) -> (r: u64)
    requires
        c@.len() > 0,
        all_digits(c@),
        digits_value(c@) <= u64::MAX,
    ensures
        r == digits_value(c@),
{
    let mut v: u64 = 0;
    let mut i: usize = 0;
    while i < c.len()
        invariant
            i <= c.len(),
            all_digits(c@),
            digits_value(c@) <= u64::MAX,
            v == digits_value(c@.take(i as int)),
        decreases c.len() - i,
    {
        proof {
            lemma_digits_prefix_le(c@, i + 1);
            assert(c@.take(i + 1).drop_last() =~= c@.take(i as int));
            assert(is_digit(c@[i as int]));
        }
        v = v * 10 + (c[i] - 0x30) as u64;
        i += 1;
    }
    assert(c@.take(c.len() as int) =~= c@);
    v
}

/// Value of a run of decimal digits, or `None` when it does not fit in `max`
/// (like the integer parsers of `str::parse`, which fail on overflow).
pub fn digits_to_u64_bounded(c: &[u8], max: u64) -> (r: Option<u64>)
    requires
        all_digits(c@),
    ensures
        match r {
            Some(v) => v == digits_value(c@) && v <= max,
            None => digits_value(c@) > max,
        },
{
    let mut v: u64 = 0;
    let mut i: usize = 0;
    while i < c.len()
        invariant
            i <= c.len(),
            all_digits(c@),
            v == digits_value(c@.take(i as int)),
            v <= max,
        decreases c.len() - i,
    {
        proof {
            assert(c@.take(i + 1).drop_last() =~= c@.take(i as int));
            assert(is_digit(c@[i as int]));
        }
        let d = (c[i] - 0x30) as u64;
        if d > max || v > (max - d) / 10 {
            proof {
                lemma_digits_prefix_le(c@, i + 1);
                if d <= max {
                    assert(v * 10 + d > max) by (nonlinear_arith)
                        requires
                            v > (max - d) / 10,
                            d <= max,
                    ;
                }
            }
            return None;
        }
        proof {
            assert(v * 10 + d <= max) by (nonlinear_arith)
                requires
                    v <= (max - d) / 10,
                    d <= 9,
            ;
        }
        v = v * 10 + d;
        i += 1;
    }
    assert(c@.take(c.len() as int) =~= c@);
    Some(v)
}

/// The decimal text of `n`, without leading zeros.
pub open spec fn decimal(n: nat) -> Seq<u8>
    decreases n,
{
    if n < 10 {
        seq![(0x30 + n) as u8]
    } else {
        decimal(n / 10).push((0x30 + n % 10) as u8)
    }
}

/// The decimal text of `n` (`u64::to_string`).
/// The decimal text of a number is made of digits, at least one.
pub proof fn lemma_decimal_digits(n: nat)
    ensures
        all_digits(decimal(n)),
        decimal(n).len() > 0,
    decreases n,
{
    if n >= 10 {
        lemma_decimal_digits(n / 10);
        let d = decimal(n / 10);
        assert forall|i: int| 0 <= i < decimal(n).len() implies is_digit(#[trigger] decimal(n)[i]) by {
            if i < d.len() {
                assert(decimal(n)[i] == d[i]);
            }
        }
    }
}

/// The decimal text of a number reads back as the number.
pub proof fn lemma_decimal_value(n: nat)
    ensures
        digits_value(decimal(n)) == n,
    decreases n,
{
    if n >= 10 {
        lemma_decimal_value(n / 10);
        assert(decimal(n).drop_last() =~= decimal(n / 10));
        let d = (0x30 + n % 10) as u8;
        assert(d == 0x30 + n % 10);
        assert(decimal(n).last() == d);
        assert((n / 10) * 10 + n % 10 == n);
    } else {
        let d = (0x30 + n) as u8;
        assert(d == 0x30 + n);
        assert(decimal(n).drop_last() =~= Seq::<u8>::empty());
        assert(digits_value(decimal(n).drop_last()) == 0);
    }
}

/// A maximal run of digits that spells `t` reads as the value of `t`.
pub proof fn lemma_number_at(s: Seq<u8>, a: int, t: Seq<u8>)
    requires
        0 <= a,
        a + t.len() <= s.len(),
        t.len() > 0,
        all_digits(t),
        s.subrange(a, a + t.len()) == t,
        a + t.len() == s.len() || !is_digit(s[a + t.len()]),
    ensures
        run_end(s, a, ByteClass::Digit) == a + t.len(),
        spec_number(s, a) == Some((a + t.len(), digits_value(t))),
{
    let b = a + t.len();
    assert forall|x: int| a <= x < b implies crate::text::run::in_class(ByteClass::Digit, #[trigger] s[x]) by {
        assert(s[x] == s.subrange(a, b)[x - a]);
        assert(is_digit(t[x - a]));
    }
    crate::text::run::lemma_run_end_exact(s, a, b, ByteClass::Digit);
}

pub fn u64_decimal(n: u64) -> (r: Vec<u8>)
    ensures
        r@ == decimal(n as nat),
    decreases n,
{
    if n < 10 {
        let mut r: Vec<u8> = Vec::new();
        r.push(0x30 + n as u8);
        assert(r@ =~= decimal(n as nat));
        r
    } else {
        let mut r = u64_decimal(n / 10);
        r.push(0x30 + (n % 10) as u8);
        r
    }
}

/// A run of digits at `i`: where it ends.
pub open spec fn spec_digits(s: Seq<u8>, i: int) -> Option<int> {
    run1(s, i, ByteClass::Digit)
}

/// The run of digits at `i`, its end and its value.
pub open spec fn spec_number(s: Seq<u8>, i: int) -> Option<(int, nat)> {
    match spec_digits(s, i) {
        Some(e) => Some((e, digits_value(s.subrange(i, e)))),
        None => None,
    }
}

/// A run of digits at `i` and its end.
pub fn digits(s: &[u8], i: usize) -> (r: Option<usize>)
    ensures
        crate::text::whitespace::opt_int(r) == spec_digits(s@, i as int),
        r matches Some(e) ==> i < e <= s.len() && all_digits(s@.subrange(i as int, e as int)),
{
    if i > s.len() {
        return None;
    }
    let r = take_run1(s, i, ByteClass::Digit);
    proof {
        lemma_run_end(s@, i as int, ByteClass::Digit);
        if let Some(e) = r {
            assert forall|k: int| 0 <= k < e - i implies is_digit(
                #[trigger] s@.subrange(i as int, e as int)[k],
            ) by {
                assert(s@.subrange(i as int, e as int)[k] == s@[i + k]);
            }
        }
    }
    r
}

/// The run of digits at `i` and its value, which must fit in a `u64`.
pub fn number(s: &[u8], i: usize) -> (r: Option<(usize, u64)>)
    requires
        spec_number(s@, i as int) matches Some((_, v)) ==> v <= u64::MAX,
    ensures
        match r {
            Some((e, v)) => spec_number(s@, i as int) == Some((e as int, v as nat)),
            None => spec_number(s@, i as int) is None,
        },
{
    match digits(s, i) {
        Some(e) => {
            let v = ascii_to_u64(vstd::slice::slice_subrange(s, i, e));
            Some((e, v))
        },
        None => None,
    }
}

/// A run of digits whose value fits in a `u32`: its end and its value (a
/// run that overflows is rejected, like nom's `u32`).
pub open spec fn spec_u32(s: Seq<u8>, i: int) -> Option<(int, nat)> {
    match spec_number(s, i) {
        Some((e, v)) => if v <= u32::MAX {
            Some((e, v))
        } else {
            None
        },
        None => None,
    }
}

pub fn u32_at(s: &[u8], i: usize) -> (r: Option<(usize, u32)>)
    ensures
        match r {
            Some((e, v)) => spec_u32(s@, i as int) == Some((e as int, v as nat)),
            None => spec_u32(s@, i as int) is None,
        },
{
    match digits(s, i) {
        Some(e) => match digits_to_u64_bounded(vstd::slice::slice_subrange(s, i, e), 0xffff_ffff) {
            Some(v) => Some((e, v as u32)),
            None => None,
        },
        None => None,
    }
}

pub open spec fn pow10(n: nat) -> nat
    decreases n,
{
    if n == 0 {
        1
    } else {
        10 * pow10((n - 1) as nat)
    }
}

/// `n` digits make a value below `10^n`.
pub proof fn lemma_digits_value_lt(s: Seq<u8>)
    requires
        all_digits(s),
    ensures
        digits_value(s) < pow10(s.len()),
    decreases s.len(),
{
    if s.len() > 0 {
        let t = s.drop_last();
        assert(all_digits(t)) by {
            assert forall|k: int| 0 <= k < t.len() implies is_digit(#[trigger] t[k]) by {
                assert(t[k] == s[k]);
            }
        }
        lemma_digits_value_lt(t);
        assert(is_digit(s[s.len() - 1]));
        let x = digits_value(t);
        let p = pow10(t.len());
        let d = s.last() - 0x30;
        assert(x * 10 + d < 10 * p) by (nonlinear_arith)
            requires
                x < p,
                0 <= d <= 9,
        ;
    }
}

pub proof fn lemma_pow10_mono(a: nat, b: nat)
    requires
        a <= b,
    ensures
        pow10(a) <= pow10(b),
    decreases b,
{
    if a < b {
        lemma_pow10_mono(a, (b - 1) as nat);
    }
}

} // verus!

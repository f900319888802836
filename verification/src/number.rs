//! Decimal numbers as they are written in a script.
//!
//! A script literal such as `-12.50` denotes an exact decimal. A `Number`
//! keeps that decimal in canonical form (no leading zero in the integer part,
//! no trailing zero in the fraction, no negative zero), so two numbers are
//! equal exactly when they denote the same value.

use vstd::prelude::*;

verus! {

/// The mathematical content of a [`Number`]: a sign and two digit strings,
/// most significant digit first.
pub struct Decimal {
    pub negative: bool,
    pub integer: Seq<u8>,
    pub fraction: Seq<u8>,
}

/// Every element is a decimal digit.
pub open spec fn is_digits(d: Seq<u8>) -> bool {
    forall|i: int| 0 <= i < d.len() ==> #[trigger] d[i] < 10
}

/// `d` without its leading zeros.
pub open spec fn strip_leading_zeros(d: Seq<u8>) -> Seq<u8>
    decreases d.len(),
{
    if d.len() > 0 && d[0] == 0 {
        strip_leading_zeros(d.drop_first())
    } else {
        d
    }
}

/// `d` without its trailing zeros.
pub open spec fn strip_trailing_zeros(d: Seq<u8>) -> Seq<u8>
    decreases d.len(),
{
    if d.len() > 0 && d.last() == 0 {
        strip_trailing_zeros(d.drop_last())
    } else {
        d
    }
}

/// The canonical decimal written as `integer.fraction` with the given sign.
pub open spec fn canonical(negative: bool, integer: Seq<u8>, fraction: Seq<u8>) -> Decimal {
    let i = strip_leading_zeros(integer);
    let f = strip_trailing_zeros(fraction);
    Decimal { negative: negative && (i.len() > 0 || f.len() > 0), integer: i, fraction: f }
}

/// The natural number that a digit string denotes.
pub open spec fn digits_value(d: Seq<u8>) -> nat
    decreases d.len(),
{
    if d.len() == 0 {
        0
    } else {
        digits_value(d.drop_last()) * 10 + d.last() as nat
    }
}

impl Decimal {
    /// Digits only, in canonical form.
    pub open spec fn is_canonical(self) -> bool {
        &&& is_digits(self.integer)
        &&& is_digits(self.fraction)
        &&& self.integer.len() > 0 ==> self.integer[0] != 0
        &&& self.fraction.len() > 0 ==> self.fraction.last() != 0
        &&& self.negative ==> self.integer.len() > 0 || self.fraction.len() > 0
    }

    /// The decimal zero.
    pub open spec fn zero() -> Decimal {
        Decimal { negative: false, integer: Seq::empty(), fraction: Seq::empty() }
    }

    /// The value truncated toward zero and brought into the range of `u32`:
    /// negative values give 0, values above `u32::MAX` give `u32::MAX`.
    pub open spec fn count(self) -> u32 {
        if self.negative {
            0
        } else if digits_value(self.integer) > u32::MAX {
            u32::MAX
        } else {
            digits_value(self.integer) as u32
        }
    }
}

/// An exact decimal number in canonical form.
#[derive(Debug, PartialEq, Eq)]
pub struct Number {
    negative: bool,
    integer: Vec<u8>,
    fraction: Vec<u8>,
}

impl View for Number {
    type V = Decimal;

    closed spec fn view(&self) -> Decimal {
        Decimal { negative: self.negative, integer: self.integer@, fraction: self.fraction@ }
    }
}

/// Stripping leading zeros leaves digits, and no zero in front.
pub proof fn lemma_strip_leading(d: Seq<u8>)
    requires
        is_digits(d),
    ensures
        is_digits(strip_leading_zeros(d)),
        strip_leading_zeros(d).len() <= d.len(),
        strip_leading_zeros(d).len() > 0 ==> strip_leading_zeros(d)[0] != 0,
        strip_leading_zeros(d) == d.subrange(d.len() - strip_leading_zeros(d).len(), d.len() as int),
    decreases d.len(),
{
    if d.len() > 0 && d[0] == 0 {
        lemma_strip_leading(d.drop_first());
        let r = strip_leading_zeros(d);
        assert(d.drop_first().subrange(d.len() - 1 - r.len(), d.len() - 1) =~= d.subrange(
            d.len() - r.len(),
            d.len() as int,
        ));
    } else {
        assert(d.subrange(0, d.len() as int) =~= d);
    }
}

/// Stripping trailing zeros leaves digits, and no zero at the end.
pub proof fn lemma_strip_trailing(d: Seq<u8>)
    requires
        is_digits(d),
    ensures
        is_digits(strip_trailing_zeros(d)),
        strip_trailing_zeros(d).len() <= d.len(),
        strip_trailing_zeros(d).len() > 0 ==> strip_trailing_zeros(d).last() != 0,
        strip_trailing_zeros(d) == d.subrange(0, strip_trailing_zeros(d).len() as int),
    decreases d.len(),
{
    if d.len() > 0 && d.last() == 0 {
        lemma_strip_trailing(d.drop_last());
        let r = strip_trailing_zeros(d);
        assert(d.drop_last().subrange(0, r.len() as int) =~= d.subrange(0, r.len() as int));
    } else {
        assert(d.subrange(0, d.len() as int) =~= d);
    }
}

/// A canonical decimal is its own canonical form.
pub proof fn lemma_canonical_fixed(d: Decimal)
    requires
        d.is_canonical(),
    ensures
        canonical(d.negative, d.integer, d.fraction) == d,
{
}

/// Whether every byte of `d` is a decimal digit.
fn all_digits(d: &Vec<u8>) -> (r: bool)
    ensures
        r == is_digits(d@),
{
    let mut i: usize = 0;
    while i < d.len()
        invariant
            i <= d.len(),
            forall|j: int| 0 <= j < i ==> #[trigger] d@[j] < 10,
        decreases d.len() - i,
    {
        if d[i] >= 10 {
            return false;
        }
        i = i + 1;
    }
    true
}

/// A copy of `d[from..to]`.
fn copy_range(d: &Vec<u8>, from: usize, to: usize) -> (r: Vec<u8>)
    requires
        from <= to <= d.len(),
    ensures
        r@ == d@.subrange(from as int, to as int),
{
    let mut out: Vec<u8> = Vec::new();
    let mut i: usize = from;
    while i < to
        invariant
            from <= i <= to <= d.len(),
            out@ == d@.subrange(from as int, i as int),
        decreases to - i,
    {
        out.push(d[i]);
        proof {
            assert(d@.subrange(from as int, i as int).push(d@[i as int]) =~= d@.subrange(
                from as int,
                i + 1,
            ));
        }
        i = i + 1;
    }
    out
}

impl Number {
    #[verifier::type_invariant]
    spec fn well_formed(self) -> bool {
        self@.is_canonical()
    }

    /// The number zero.
    pub fn zero() -> (r: Number)
        ensures
            r@ == Decimal::zero(),
    {
        Number { negative: false, integer: Vec::new(), fraction: Vec::new() }
    }

    /// The number written as `integer.fraction` with the given sign, brought
    /// into canonical form. `None` when a byte is not a decimal digit (a value
    /// from 0 to 9).
    pub fn from_digits(negative: bool, integer: Vec<u8>, fraction: Vec<u8>) -> (r: Option<Number>)
        ensures
            r is Some <==> is_digits(integer@) && is_digits(fraction@),
            r matches Some(n) ==> n@ == canonical(negative, integer@, fraction@) && n@.is_canonical(),
    {
        if !all_digits(&integer) || !all_digits(&fraction) {
            return None;
        }
        proof {
            assert(integer@.subrange(0, integer.len() as int) =~= integer@);
            assert(fraction@.subrange(0, fraction.len() as int) =~= fraction@);
        }
        let mut start: usize = 0;
        while start < integer.len() && integer[start] == 0
            invariant
                start <= integer.len(),
                strip_leading_zeros(integer@) == strip_leading_zeros(
                    integer@.subrange(start as int, integer.len() as int),
                ),
            decreases integer.len() - start,
        {
            proof {
                let cur = integer@.subrange(start as int, integer.len() as int);
                assert(cur.drop_first() =~= integer@.subrange(start + 1, integer.len() as int));
            }
            start = start + 1;
        }
        let mut end: usize = fraction.len();
        while end > 0 && fraction[end - 1] == 0
            invariant
                end <= fraction.len(),
                strip_trailing_zeros(fraction@) == strip_trailing_zeros(
                    fraction@.subrange(0, end as int),
                ),
            decreases end,
        {
            proof {
                let cur = fraction@.subrange(0, end as int);
                assert(cur.drop_last() =~= fraction@.subrange(0, end - 1));
            }
            end = end - 1;
        }
        proof {
            lemma_strip_leading(integer@);
            lemma_strip_trailing(fraction@);
        }
        let int_part = copy_range(&integer, start, integer.len());
        let frac_part = copy_range(&fraction, 0, end);
        let sign = negative && (int_part.len() > 0 || frac_part.len() > 0);
        Some(Number { negative: sign, integer: int_part, fraction: frac_part })
    }

    /// Whether the number is below zero.
    pub fn is_negative(&self) -> (r: bool)
        ensures
            r == self@.negative,
    {
        self.negative
    }

    /// The digits before the decimal point.
    pub fn integer_digits(&self) -> (r: &Vec<u8>)
        ensures
            r@ == self@.integer,
    {
        &self.integer
    }

    /// The digits after the decimal point.
    pub fn fraction_digits(&self) -> (r: &Vec<u8>)
        ensures
            r@ == self@.fraction,
    {
        &self.fraction
    }

    /// The number as a count of repetitions: truncated toward zero, with
    /// negative numbers counted as 0 and numbers above `u32::MAX` as `u32::MAX`.
    pub fn to_count(&self) -> (r: u32)
        ensures
            r == self@.count(),
    {
        if self.negative {
            return 0;
        }
        let mut acc: u32 = 0;
        let mut i: usize = 0;
        let ghost digits = self.integer@;
        proof {
            use_type_invariant(self);
            assert(digits.subrange(0, 0) =~= Seq::<u8>::empty());
        }
        while i < self.integer.len()
            invariant
                i <= self.integer.len(),
                !self.negative,
                digits == self.integer@,
                is_digits(digits),
                acc == digits_value(digits.subrange(0, i as int)),
            decreases self.integer.len() - i,
        {
            let d = self.integer[i];
            proof {
                let next = digits.subrange(0, i + 1);
                assert(next.drop_last() =~= digits.subrange(0, i as int));
                assert(next.last() == d);
                assert(digits_value(next) == acc * 10 + d);
            }
            if acc > 429496729 || (acc == 429496729 && d > 5) {
                proof {
                    lemma_value_grows(digits, i + 1);
                    assert(digits_value(digits.subrange(0, i + 1)) > u32::MAX);
                    assert(digits_value(digits) > u32::MAX);
                }
                return u32::MAX;
            }
            acc = acc * 10 + (d as u32);
            i = i + 1;
        }
        proof {
            assert(digits.subrange(0, i as int) =~= digits);
        }
        acc
    }
}

impl Clone for Number {
    fn clone(&self) -> (r: Number)
        ensures
            r@ == self@,
    {
        proof {
            use_type_invariant(self);
        }
        Number {
            negative: self.negative,
            integer: self.integer.clone(),
            fraction: self.fraction.clone(),
        }
    }
}

/// A digit string is worth at least as much as each of its prefixes.
proof fn lemma_value_grows(d: Seq<u8>, k: int)
    requires
        0 <= k <= d.len(),
    ensures
        digits_value(d.subrange(0, k)) <= digits_value(d),
    decreases d.len() - k,
{
    if k == d.len() {
        assert(d.subrange(0, k) =~= d);
    } else {
        lemma_value_grows(d, k + 1);
        let next = d.subrange(0, k + 1);
        assert(next.drop_last() =~= d.subrange(0, k));
    }
}

} // verus!

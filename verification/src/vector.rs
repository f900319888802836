//! The four-slot value that every envelope produces.

use crate::number::{Decimal, Number};
use vstd::prelude::*;

verus! {

/// The four slots filled from the front of `s`: slot `i` holds `s[i]` where
/// `s` has one, and zero otherwise. What `s` holds beyond its fourth element
/// is left out.
pub open spec fn slots_of(s: Seq<Decimal>) -> Seq<Decimal> {
    Seq::new(4, |i: int| if i < s.len() { s[i] } else { Decimal::zero() })
}

/// The view of each number of `s`.
pub open spec fn decimals_of(s: Seq<Number>) -> Seq<Decimal> {
    Seq::new(s.len(), |i: int| s[i]@)
}

/// A tuple of four numbers.
#[derive(Debug, PartialEq)]
pub struct Vector(pub [Number; 4]);

impl View for Vector {
    type V = Seq<Decimal>;

    open spec fn view(&self) -> Seq<Decimal> {
        Seq::new(4, |i: int| self.0[i]@)
    }
}

impl Vector {
    /// The first slot.
    pub fn to_f(&self) -> (r: Number)
        ensures
            r@ == self@[0],
    {
        self.0[0].clone()
    }

    /// The first two slots.
    pub fn to_f2(&self) -> (r: (Number, Number))
        ensures
            r.0@ == self@[0],
            r.1@ == self@[1],
    {
        (self.0[0].clone(), self.0[1].clone())
    }

    /// The first three slots.
    pub fn to_f3(&self) -> (r: (Number, Number, Number))
        ensures
            r.0@ == self@[0],
            r.1@ == self@[1],
            r.2@ == self@[2],
    {
        (self.0[0].clone(), self.0[1].clone(), self.0[2].clone())
    }

    /// The vector whose slot `i` is what `func` makes of slot `i` of `self`
    /// and slot `i` of `rhs`.
    pub fn combine_with<F>(&self, rhs: &Vector, func: F) -> (r: Vector) where
        F: Fn(&Number, &Number) -> Number,

        requires
            forall|i: int| 0 <= i < 4 ==> call_requires(func, (&self.0[i], &rhs.0[i])),
        ensures
            forall|i: int| 0 <= i < 4 ==> call_ensures(func, (&self.0[i], &rhs.0[i]), r.0[i]),
    {
        let s0 = func(&self.0[0], &rhs.0[0]);
        let s1 = func(&self.0[1], &rhs.0[1]);
        let s2 = func(&self.0[2], &rhs.0[2]);
        let s3 = func(&self.0[3], &rhs.0[3]);
        Vector([s0, s1, s2, s3])
    }

    /// All four slots.
    pub fn to_f4(&self) -> (r: (Number, Number, Number, Number))
        ensures
            r.0@ == self@[0],
            r.1@ == self@[1],
            r.2@ == self@[2],
            r.3@ == self@[3],
    {
        (self.0[0].clone(), self.0[1].clone(), self.0[2].clone(), self.0[3].clone())
    }
}

impl Clone for Vector {
    fn clone(&self) -> (r: Vector)
        ensures
            r@ == self@,
    {
        let r = Vector([self.0[0].clone(), self.0[1].clone(), self.0[2].clone(), self.0[3].clone()]);
        assert(r@ =~= self@);
        r
    }
}

impl From<Number> for Vector {
    fn from(a: Number) -> (r: Vector)
        ensures
            r@ == slots_of(seq![a@]),
    {
        let r = Vector([a, Number::zero(), Number::zero(), Number::zero()]);
        assert(r@ =~= slots_of(seq![a@]));
        r
    }
}

impl vstd::std_specs::convert::FromSpecImpl<Number> for Vector {
    open spec fn obeys_from_spec() -> bool {
        false
    }

    open spec fn from_spec(a: Number) -> Vector {
        arbitrary()
    }
}

impl vstd::std_specs::convert::FromSpecImpl<Vec<Number>> for Vector {
    open spec fn obeys_from_spec() -> bool {
        false
    }

    open spec fn from_spec(a: Vec<Number>) -> Vector {
        arbitrary()
    }
}

impl From<Vec<Number>> for Vector {
    fn from(a: Vec<Number>) -> (r: Vector)
        ensures
            r@ == slots_of(decimals_of(a@)),
    {
        let s0 = if a.len() > 0 { a[0].clone() } else { Number::zero() };
        let s1 = if a.len() > 1 { a[1].clone() } else { Number::zero() };
        let s2 = if a.len() > 2 { a[2].clone() } else { Number::zero() };
        let s3 = if a.len() > 3 { a[3].clone() } else { Number::zero() };
        let r = Vector([s0, s1, s2, s3]);
        assert(r@ =~= slots_of(decimals_of(a@)));
        r
    }
}

/// A vector made from a sequence is the vector made from the sequence's
/// first four elements: what follows them is left out.
pub proof fn law_leading_four(s: Seq<Decimal>)
    requires
        s.len() >= 4,
    ensures
        slots_of(s) == slots_of(s.take(4)),
{
    assert(slots_of(s) =~= slots_of(s.take(4)));
}

/// A vector made from a sequence holds the sequence's elements in its
/// first slots, and zero in every slot that the sequence does not reach.
pub proof fn law_zero_filled(s: Seq<Decimal>, i: int)
    requires
        0 <= i < 4,
    ensures
        slots_of(s).len() == 4,
        i < s.len() ==> slots_of(s)[i] == s[i],
        i >= s.len() ==> slots_of(s)[i] == Decimal::zero(),
{
}

} // verus!

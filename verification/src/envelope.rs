//! The envelopes that a script compiles to.
//!
//! An envelope is a function of time that yields a vector. This module holds
//! what an envelope is made of; sampling one at a time other than on a
//! constant envelope takes arithmetic on real numbers and is left to the
//! caller.

use crate::number::{Decimal, Number};
use crate::vector::Vector;
use vstd::prelude::*;

verus! {

/// The mathematical content of an [`Envelope`].
pub enum Curve {
    /// The constant `value` for `duration`.
    Hold { duration: Decimal, value: Seq<Decimal> },
    /// A straight line from `from` to `to` over `duration`.
    Linear { duration: Decimal, from: Seq<Decimal>, to: Seq<Decimal> },
    /// The parts one after another.
    Concat(Seq<Curve>),
    /// The part played the given number of times.
    Repeat(u32, Box<Curve>),
    /// The part played again and again without end.
    Loop(Box<Curve>),
}

/// How long an envelope lasts.
#[derive(Debug, PartialEq)]
pub enum Duration {
    /// For the given time.
    Finite(Number),
    /// Without end.
    Infinite,
}

/// The mathematical content of a [`Duration`].
pub enum Length {
    Finite(Decimal),
    Infinite,
}

impl View for Duration {
    type V = Length;

    open spec fn view(&self) -> Length {
        match self {
            Duration::Finite(d) => Length::Finite(d@),
            Duration::Infinite => Length::Infinite,
        }
    }
}

/// A step of the search for the part of a concatenation that plays at a
/// given time.
///
/// The parts are asked in order whether the time lies before their end,
/// counted from the start of the concatenation. Adding up durations and
/// comparing times is the caller's work; which part to ask next, and which
/// part plays, is decided here.
#[derive(Debug, Clone, Copy, PartialEq, Eq, Structural)]
pub enum Search {
    /// There is no part, so none plays.
    Nothing,
    /// Ask whether the time lies before the end of the part at this index.
    Probe(usize),
    /// The part at this index plays.
    Play(usize),
}

/// The first step of the search among `parts` parts.
pub open spec fn search_start(parts: nat) -> Search {
    if parts == 0 {
        Search::Nothing
    } else {
        Search::Probe(0)
    }
}

/// The step after the part at `at` of `parts` was asked: it plays if the
/// time lies before its end or if it is the last part; else the next part
/// is asked.
pub open spec fn search_next(parts: nat, at: usize, before_end: bool) -> Search {
    if before_end || at + 1 >= parts {
        Search::Play(at)
    } else {
        Search::Probe((at + 1) as usize)
    }
}

/// Where the search ends that stands at `step`, when `before_end[i]` says
/// whether the time lies before the end of part `i`.
pub open spec fn search_end(before_end: Seq<bool>, step: Search) -> Search
    decreases
        match step {
            Search::Probe(at) => before_end.len() - at,
            _ => 0,
        },
{
    match step {
        Search::Probe(at) => if at < before_end.len() <= usize::MAX {
            search_end(before_end, search_next(before_end.len(), at, before_end[at as int]))
        } else {
            step
        },
        _ => step,
    }
}

/// The part that plays, when `before_end[i]` says whether the time lies
/// before the end of part `i`: the first part before whose end the time
/// lies; the last part, if there is no such part; none, if there is no part.
pub open spec fn playing(before_end: Seq<bool>) -> Option<int> {
    if before_end.len() == 0 {
        None
    } else if exists|i: int| 0 <= i < before_end.len() && before_end[i] {
        Some(first_true(before_end, 0))
    } else {
        Some(before_end.len() - 1)
    }
}

/// The first index at or after `from` at which `flags` is true, or the
/// length of `flags` if there is none.
pub open spec fn first_true(flags: Seq<bool>, from: int) -> int
    decreases flags.len() - from,
{
    if from < 0 || from >= flags.len() || flags[from] {
        from
    } else {
        first_true(flags, from + 1)
    }
}

/// The search from the part at `at` on ends at the first part from there
/// on before whose end the time lies, or at the last part.
pub proof fn lemma_search_from(before_end: Seq<bool>, at: int)
    requires
        0 <= at < before_end.len() <= usize::MAX,
    ensures
        search_end(before_end, Search::Probe(at as usize)) == Search::Play(
            if first_true(before_end, at) < before_end.len() {
                first_true(before_end, at) as usize
            } else {
                (before_end.len() - 1) as usize
            },
        ),
    decreases before_end.len() - at,
{
    reveal_with_fuel(search_end, 3);
    reveal_with_fuel(first_true, 2);
    lemma_first_true(before_end, at);
    if !before_end[at] && at + 1 < before_end.len() {
        lemma_search_from(before_end, at + 1);
        lemma_first_true(before_end, at + 1);
    }
}

/// What [`first_true`] finds: a true flag, before which all are false.
pub proof fn lemma_first_true(flags: Seq<bool>, from: int)
    requires
        0 <= from <= flags.len(),
    ensures
        from <= first_true(flags, from) <= flags.len(),
        first_true(flags, from) < flags.len() ==> flags[first_true(flags, from)],
        forall|i: int| from <= i < first_true(flags, from) ==> !flags[i],
    decreases flags.len() - from,
{
    if from < flags.len() && !flags[from] {
        lemma_first_true(flags, from + 1);
    }
}

/// The search ends at the part that plays: at the first part before whose
/// end the time lies, or else at the last part, or nowhere if there is no
/// part.
pub proof fn law_search_finds_playing(before_end: Seq<bool>)
    requires
        before_end.len() <= usize::MAX,
    ensures
        search_end(before_end, search_start(before_end.len())) == match playing(before_end) {
            Some(i) => Search::Play(i as usize),
            None => Search::Nothing,
        },
        playing(before_end) matches Some(i) ==> {
            &&& 0 <= i < before_end.len()
            &&& before_end[i] || i == before_end.len() - 1
            &&& forall|j: int| 0 <= j < i ==> !before_end[j]
        },
{
    if before_end.len() > 0 {
        lemma_search_from(before_end, 0);
        lemma_first_true(before_end, 0);
    }
}

/// A constant value held for a duration.
#[derive(Debug, PartialEq)]
pub struct Hold {
    pub duration: Number,
    pub value: Vector,
}

/// A straight line between two values over a duration.
#[derive(Debug, PartialEq)]
pub struct Linear {
    pub duration: Number,
    pub from: Vector,
    pub to: Vector,
}

/// Envelopes played one after another.
#[derive(Debug, PartialEq)]
pub struct Concat {
    pub cons: Vec<Envelope>,
}

/// An envelope played a number of times.
#[derive(Debug, PartialEq)]
pub struct Repeat {
    pub repeats: u32,
    pub envelope: Box<Envelope>,
}

/// An envelope played without end.
#[derive(Debug, PartialEq)]
pub struct Loop {
    pub envelope: Box<Envelope>,
}

/// A function of time, built from the five kinds above.
#[derive(Debug, PartialEq)]
pub enum Envelope {
    Hold(Hold),
    Linear(Linear),
    Concat(Concat),
    Repeat(Repeat),
    Loop(Loop),
}

/// The curve of each envelope of `s`.
pub open spec fn curves_of(s: Seq<Envelope>) -> Seq<Curve>
    decreases s, 1nat,
{
    Seq::new(s.len(), |i: int| if 0 <= i < s.len() { s[i].view() } else { Curve::Concat(Seq::empty()) })
}

/// The curve of an envelope.
pub open spec fn curve_in(e: Envelope) -> Curve
    decreases e, 1nat,
{
    e.view()
}

impl View for Envelope {
    type V = Curve;

    open spec fn view(&self) -> Curve
        decreases self, 0nat,
    {
        match self {
            Envelope::Hold(h) => Curve::Hold { duration: h.duration@, value: h.value@ },
            Envelope::Linear(l) => Curve::Linear { duration: l.duration@, from: l.from@, to: l.to@ },
            Envelope::Concat(c) => Curve::Concat(curves_of(c.cons@)),
            Envelope::Repeat(r) => Curve::Repeat(r.repeats, Box::new(curve_in(*r.envelope))),
            Envelope::Loop(l) => Curve::Loop(Box::new(curve_in(*l.envelope))),
        }
    }
}

impl Hold {
    /// The envelope that is `value` for `duration`.
    pub fn new(duration: Number, value: Vector) -> (r: Hold)
        ensures
            r.duration@ == duration@,
            r.value@ == value@,
            Envelope::Hold(r)@ == (Curve::Hold { duration: duration@, value: value@ }),
    {
        Hold { duration, value }
    }

    /// How long the value is held: the duration it was made with.
    pub fn get_duration(&self) -> (r: Duration)
        ensures
            r@ == Length::Finite(self.duration@),
    {
        Duration::Finite(self.duration.clone())
    }

    /// The value at `time`: the held value, whatever the time.
    pub fn get_value(&self, time: &Number) -> (r: Vector)
        ensures
            r@ == self.value@,
    {
        self.value.clone()
    }
}

impl Linear {
    /// The envelope that goes from `from` to `to` in a straight line over
    /// `duration`.
    pub fn new(duration: Number, from: Vector, to: Vector) -> (r: Linear)
        ensures
            r.duration@ == duration@,
            r.from@ == from@,
            r.to@ == to@,
            Envelope::Linear(r)@ == (Curve::Linear { duration: duration@, from: from@, to: to@ }),
    {
        Linear { duration, from, to }
    }

    /// How long the line takes: the duration it was made with.
    pub fn get_duration(&self) -> (r: Duration)
        ensures
            r@ == Length::Finite(self.duration@),
    {
        Duration::Finite(self.duration.clone())
    }
}

impl Concat {
    /// The envelope that plays `cons` one after another.
    pub fn new(cons: Vec<Envelope>) -> (r: Concat)
        ensures
            r.cons@ == cons@,
            Envelope::Concat(r)@ == Curve::Concat(curves_of(cons@)),
    {
        Concat { cons }
    }

    /// The first step of the search for the part that plays at a time.
    pub fn search(&self) -> (r: Search)
        ensures
            r == search_start(self.cons@.len()),
    {
        if self.cons.len() == 0 {
            Search::Nothing
        } else {
            Search::Probe(0)
        }
    }

    /// The step of the search after the part at `at` was asked, where
    /// `before_end` says whether the time lies before that part's end.
    pub fn search_after(&self, at: usize, before_end: bool) -> (r: Search)
        requires
            at < self.cons@.len(),
        ensures
            r == search_next(self.cons@.len(), at, before_end),
            r matches Search::Probe(next) ==> next < self.cons@.len(),
            r matches Search::Play(part) ==> part < self.cons@.len(),
    {
        if before_end || at >= self.cons.len() - 1 {
            Search::Play(at)
        } else {
            Search::Probe(at + 1)
        }
    }
}

impl Repeat {
    /// The envelope that plays `envelope` `repeats` times.
    pub fn new(repeats: u32, envelope: Envelope) -> (r: Repeat)
        ensures
            r.repeats == repeats,
            *r.envelope == envelope,
            Envelope::Repeat(r)@ == Curve::Repeat(repeats, Box::new(envelope@)),
    {
        Repeat { repeats, envelope: Box::new(envelope) }
    }
}

impl Loop {
    /// The envelope that plays `envelope` without end.
    pub fn new(envelope: Envelope) -> (r: Loop)
        ensures
            *r.envelope == envelope,
            Envelope::Loop(r)@ == Curve::Loop(Box::new(envelope@)),
    {
        Loop { envelope: Box::new(envelope) }
    }

    /// How long the loop lasts: without end, whatever it plays.
    pub fn get_duration(&self) -> (r: Duration)
        ensures
            r@ == Length::Infinite,
    {
        Duration::Infinite
    }
}

/// The curves of a sequence with one more envelope at its end.
pub proof fn lemma_curves_push(s: Seq<Envelope>, e: Envelope)
    ensures
        curves_of(s.push(e)) == curves_of(s).push(e@),
{
    assert(curves_of(s.push(e)) =~= curves_of(s).push(e@));
}

/// A copy of `v`, envelope by envelope.
pub fn clone_envelopes(v: &Vec<Envelope>) -> (r: Vec<Envelope>)
    ensures
        curves_of(r@) == curves_of(v@),
    decreases v,
{
    let mut out: Vec<Envelope> = Vec::new();
    let mut i: usize = 0;
    while i < v.len()
        invariant
            i <= v.len(),
            out@.len() == i,
            forall|j: int| 0 <= j < i ==> out@[j]@ == v@[j]@,
        decreases v.len() - i,
    {
        out.push(v[i].clone());
        i = i + 1;
    }
    assert(curves_of(out@) =~= curves_of(v@));
    out
}

impl Clone for Envelope {
    fn clone(&self) -> (r: Envelope)
        ensures
            r@ == self@,
        decreases self,
    {
        match self {
            Envelope::Hold(h) => Envelope::Hold(Hold::new(h.duration.clone(), h.value.clone())),
            Envelope::Linear(l) => Envelope::Linear(
                Linear::new(l.duration.clone(), l.from.clone(), l.to.clone()),
            ),
            Envelope::Concat(c) => Envelope::Concat(Concat::new(clone_envelopes(&c.cons))),
            Envelope::Repeat(r) => Envelope::Repeat(Repeat::new(r.repeats, (*r.envelope).clone())),
            Envelope::Loop(l) => Envelope::Loop(Loop::new((*l.envelope).clone())),
        }
    }
}

} // verus!

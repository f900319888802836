use boenthoescript::envelope::{Concat, Duration, Envelope, Hold, Linear, Loop, Search};
use boenthoescript::number::Number;
use boenthoescript::vector::Vector;

fn dec(negative: bool, integer: &[u8], fraction: &[u8]) -> Number {
    Number::from_digits(negative, integer.to_vec(), fraction.to_vec()).unwrap()
}

fn whole(value: u8) -> Number {
    dec(false, &[value / 10, value % 10], &[])
}

#[test]
fn hold() {
    let x = Hold::new(whole(1), whole(10).into());
    assert_eq!(x.get_duration(), Duration::Finite(whole(1)));
    assert_eq!(x.get_value(&whole(0)).to_f(), whole(10));
    assert_eq!(x.get_value(&whole(10)).to_f(), whole(10));

    let x = Hold::new(whole(1), vec![whole(10), whole(5)].into());
    assert_eq!(x.get_value(&whole(0)), Vector::from(vec![whole(10), whole(5)]));
}

#[test]
fn linear_keeps_what_it_was_made_with() {
    let x = Linear::new(whole(1), whole(10).into(), whole(20).into());
    assert_eq!(x.get_duration(), Duration::Finite(whole(1)));
    assert_eq!(x.from.to_f(), whole(10));
    assert_eq!(x.to.to_f(), whole(20));
}

#[test]
fn loop_lasts_without_end() {
    let x = Loop::new(Envelope::Hold(Hold::new(whole(2), whole(5).into())));
    assert_eq!(x.get_duration(), Duration::Infinite);
    let y = Loop::new(Envelope::Loop(x));
    assert_eq!(y.get_duration(), Duration::Infinite);
}

#[test]
fn envelope_clone_is_equal() {
    let x = Envelope::Loop(Loop::new(Envelope::Hold(Hold::new(whole(2), whole(5).into()))));
    assert_eq!(x.clone(), x);
}

#[test]
fn vector_from_six_is_vector_from_four() {
    let six = vec![whole(1), whole(2), whole(3), whole(4), whole(5), whole(6)];
    let four = vec![whole(1), whole(2), whole(3), whole(4)];
    assert_eq!(Vector::from(six), Vector::from(four.clone()));
    assert_eq!(
        Vector::from(four).to_f4(),
        (whole(1), whole(2), whole(3), whole(4))
    );
}

#[test]
fn vector_from_two_is_zero_filled() {
    let v = Vector::from(vec![whole(7), whole(8)]);
    assert_eq!(v.to_f4(), (whole(7), whole(8), Number::zero(), Number::zero()));
    assert_eq!(v.to_f3(), (whole(7), whole(8), Number::zero()));
    assert_eq!(v.to_f2(), (whole(7), whole(8)));
    assert_eq!(v.to_f(), whole(7));
    assert_eq!(Vector::from(Vec::new()), Vector::from(Number::zero()));
}

#[test]
fn vector_from_one_number_fills_the_first_slot() {
    let v = Vector::from(whole(9));
    assert_eq!(v.to_f4(), (whole(9), Number::zero(), Number::zero(), Number::zero()));
    assert_eq!(v.clone(), v);
}

#[test]
fn number_is_kept_in_canonical_form() {
    let n = dec(true, &[0, 0, 1, 2], &[5, 0, 0]);
    assert!(n.is_negative());
    assert_eq!(n.integer_digits(), &vec![1, 2]);
    assert_eq!(n.fraction_digits(), &vec![5]);
    assert_eq!(n, dec(true, &[1, 2], &[5]));
    assert_eq!(n.clone(), n);
}

#[test]
fn zero_has_no_sign() {
    let n = dec(true, &[0, 0], &[0]);
    assert!(!n.is_negative());
    assert_eq!(n, Number::zero());
}

#[test]
fn number_needs_digits() {
    assert_eq!(Number::from_digits(false, vec![1, 10], vec![]), None);
    assert_eq!(Number::from_digits(false, vec![], vec![255]), None);
}

#[test]
fn count_is_the_integer_part() {
    assert_eq!(dec(false, &[3], &[9, 9]).to_count(), 3);
    assert_eq!(dec(false, &[], &[9]).to_count(), 0);
    assert_eq!(dec(true, &[3], &[]).to_count(), 0);
    assert_eq!(dec(false, &[4, 2, 9, 4, 9, 6, 7, 2, 9, 5], &[]).to_count(), 4294967295);
    assert_eq!(dec(false, &[4, 2, 9, 4, 9, 6, 7, 2, 9, 6], &[]).to_count(), 4294967295);
    assert_eq!(dec(false, &[4, 2, 9, 4, 9, 6, 7, 2, 9, 4], &[]).to_count(), 4294967294);
    assert_eq!(dec(false, &[1, 0, 0, 0, 0, 0, 0, 0, 0, 0, 0, 0], &[]).to_count(), 4294967295);
}

#[test]
fn search_asks_the_parts_in_order() {
    let part = |v: u8| Envelope::Hold(Hold::new(whole(1), whole(v).into()));
    let x = Concat::new(vec![part(0), part(1), part(2)]);
    assert_eq!(x.search(), Search::Probe(0));
    assert_eq!(x.search_after(0, false), Search::Probe(1));
    assert_eq!(x.search_after(1, false), Search::Probe(2));
    assert_eq!(x.search_after(0, true), Search::Play(0));
    assert_eq!(x.search_after(1, true), Search::Play(1));
    assert_eq!(x.search_after(2, true), Search::Play(2));
}

#[test]
fn search_ends_at_the_last_part() {
    let part = |v: u8| Envelope::Hold(Hold::new(whole(1), whole(v).into()));
    let x = Concat::new(vec![part(0), part(1)]);
    assert_eq!(x.search_after(1, false), Search::Play(1));
    let one = Concat::new(vec![part(0)]);
    assert_eq!(one.search(), Search::Probe(0));
    assert_eq!(one.search_after(0, false), Search::Play(0));
}

#[test]
fn search_among_no_parts_finds_nothing() {
    assert_eq!(Concat::new(vec![]).search(), Search::Nothing);
}

#[test]
fn combine_with_goes_slot_by_slot() {
    let a = Vector::from(vec![whole(1), whole(20), whole(3)]);
    let b = Vector::from(vec![whole(10), whole(2), whole(30), whole(4)]);
    let longer = |x: &Number, y: &Number| {
        if x.integer_digits().len() >= y.integer_digits().len() {
            x.clone()
        } else {
            y.clone()
        }
    };
    assert_eq!(
        a.combine_with(&b, longer),
        Vector::from(vec![whole(10), whole(20), whole(30), whole(4)])
    );
    let left = |x: &Number, _: &Number| x.clone();
    assert_eq!(a.combine_with(&b, left), a);
}

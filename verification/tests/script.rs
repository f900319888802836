use boenthoescript::compiler::{Build, BuildError};
use boenthoescript::envelope::{Envelope, Hold, Linear, Concat};
use boenthoescript::grammar::Expectation;
use boenthoescript::number::Number;
use boenthoescript::parser::ParseError;
use boenthoescript::vector::Vector;
use boenthoescript::{build, Error};

fn d(integer: &[u8], fraction: &[u8]) -> Number {
    Number::from_digits(false, integer.to_vec(), fraction.to_vec()).unwrap()
}

#[test]
fn script_builds_its_exports() {
    let source = "// fade\n\
                  black = [0, 0, 0]\n\
                  white = [1, 1, 1]\n\
                  fade = linear(black, white)\n\
                  out color = concat(hold(black, 0.5), fade(2))\n";
    let black = vec![d(&[], &[]), d(&[], &[]), d(&[], &[])];
    let white = vec![d(&[1], &[]), d(&[1], &[]), d(&[1], &[])];
    assert_eq!(
        build(source),
        Ok(vec![(
            "color".to_string(),
            Envelope::Concat(Concat::new(vec![
                Envelope::Hold(Hold::new(d(&[], &[5]), Vector::from(black.clone()))),
                Envelope::Linear(Linear::new(d(&[2], &[]), Vector::from(black), Vector::from(white))),
            ]))
        )])
    );
}

#[test]
fn script_that_is_no_script_gives_the_place() {
    assert_eq!(
        build("out a = hold(1, 2)\n?"),
        Err(Error::Parse(ParseError {
            line: 1,
            column: 0,
            offset: 19,
            expected: Expectation::ExpressionOrEnd
        }))
    );
}

#[test]
fn script_that_does_not_compile_gives_the_failure() {
    assert_eq!(
        build("out a = nothing(1)"),
        Err(Error::Build(BuildError::FunctionNotFound("nothing".to_string())))
    );
    assert_eq!(
        build("out a = [1, 2]"),
        Err(Error::Build(BuildError::InvalidType {
            expected: "Envelope function".to_string(),
            actual: Build::NumberList(vec![d(&[1], &[]), d(&[2], &[])])
        }))
    );
}

#[test]
fn script_without_exports_builds_nothing() {
    assert_eq!(build("a = hold(1, 2)"), Ok(vec![]));
}

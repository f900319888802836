//! A small language for time-varying parameter curves: its syntax tree,
//! parser, compiler and the envelope values that compilation produces.

pub mod assets;
pub mod ast;
pub mod compiler;
pub mod depth;
pub mod envelope;
pub mod grammar;
pub mod number;
pub mod parser;
pub mod rendering;
pub mod scope;
pub mod semantics;
pub mod text;
pub mod vector;

use crate::compiler::{exports_of, BuildError, DEPTH_LIMIT};
use crate::envelope::{Curve, Envelope};
use crate::parser::{error_at, ParseError};
use crate::semantics::Failure;
use vstd::prelude::*;

verus! {

/// Why a script could not be built.
#[derive(Debug, PartialEq)]
pub enum Error {
    /// The text is no script.
    Parse(ParseError),
    /// The script does not compile.
    Build(BuildError),
}

/// Builds the script `source`: parses it, compiles it, and yields each name
/// that the script exports with the envelope it stands for, in the order of
/// definition. A text that is no script gives the place where it stopped
/// being one; a script that does not compile gives the first failure.
pub fn build(source: &str) -> (r: Result<Vec<(String, Envelope)>, Error>)
    ensures
        match r {
            Ok(list) => grammar::script(source@) is Ok && semantics::build(
                grammar::script(source@)->Ok_0,
                DEPTH_LIMIT as nat,
            ) == Ok::<Seq<(Seq<char>, Curve)>, Failure>(exports_of(list@)),
            Err(Error::Parse(e)) => grammar::script(source@) is Err && e == error_at(
                source@,
                grammar::script(source@)->Err_0,
            ),
            Err(Error::Build(e)) => grammar::script(source@) is Ok && semantics::build(
                grammar::script(source@)->Ok_0,
                DEPTH_LIMIT as nat,
            ) == Err::<Seq<(Seq<char>, Curve)>, Failure>(e@),
        },
{
    match parser::parse(source) {
        Ok(ast) => match compiler::build(ast) {
            Ok(list) => Ok(list),
            Err(e) => Err(Error::Build(e)),
        },
        Err(e) => Err(Error::Parse(e)),
    }
}

} // verus!

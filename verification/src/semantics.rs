//! What a script means: the result of compiling a syntax tree in a scope.
//!
//! Everything here is mathematics. The compiler in [`crate::compiler`]
//! computes these functions.

use crate::ast::{Tree, KW_ARRAY, KW_BLOCK, KW_DEFINE, KW_EXPORT, KW_ROOT};
use crate::envelope::Curve;
use crate::number::Decimal;
use crate::vector::slots_of;
use vstd::prelude::*;

verus! {

/// Name of the standard form that holds a value.
pub const STD_HOLD: &'static str = "hold";

/// Name of the standard form that goes from one value to another.
pub const STD_LINEAR: &'static str = "linear";

/// Name of the standard form that plays envelopes one after another.
pub const STD_CONCAT: &'static str = "concat";

/// Name of the standard form that plays an envelope a number of times.
pub const STD_REPEAT: &'static str = "repeat";

/// Name of the standard form that plays an envelope without end.
pub const STD_LOOP: &'static str = "loop";

/// What an expression compiles to.
pub enum Value {
    /// A name that the scope does not bind.
    Symbol(Seq<char>),
    /// A sequence of numbers.
    NumberList(Seq<Decimal>),
    /// An envelope.
    Envelope(Curve),
    /// The body of a definition, not yet compiled.
    Unresolved(Tree),
    /// Nothing: what a comment or an empty block yields.
    Nothing,
}

/// Why an expression does not compile.
pub enum Failure {
    /// A value of another kind than `expected` was found.
    InvalidType { expected: Seq<char>, actual: Value },
    /// A form's name is neither a keyword, nor a standard form, nor bound.
    FunctionNotFound(Seq<char>),
    /// A name that the scope does not bind stands where a value is needed.
    VariableNotFound(Seq<char>),
    /// A form has fewer arguments than it needs.
    MissingArgument,
    /// A form's name is bound to something that is not a form.
    NotPartial(Tree),
    /// Names and forms are nested deeper than the compiler was allowed to go.
    TooDeep,
}

/// A name with the expression it stands for.
pub struct Binding {
    pub name: Seq<char>,
    pub body: Tree,
    pub exported: bool,
}

/// The outcome of one step of compilation: a result, and the scope as the
/// step leaves it.
pub struct Step<T> {
    pub result: Result<T, Failure>,
    pub scope: Seq<Binding>,
}

/// The step that yields `value`.
pub open spec fn done<T>(value: T, scope: Seq<Binding>) -> Step<T> {
    Step { result: Ok(value), scope }
}

/// The step that fails with `failure`.
pub open spec fn failed<T>(failure: Failure, scope: Seq<Binding>) -> Step<T> {
    Step { result: Err(failure), scope }
}

/// Whether `name` is one of the language's keywords.
pub open spec fn is_keyword(name: Seq<char>) -> bool {
    name == KW_ROOT@ || name == KW_BLOCK@ || name == KW_DEFINE@ || name == KW_EXPORT@ || name
        == KW_ARRAY@
}

/// Whether `name` is one of the standard forms.
pub open spec fn is_standard(name: Seq<char>) -> bool {
    name == STD_HOLD@ || name == STD_LINEAR@ || name == STD_CONCAT@ || name == STD_REPEAT@ || name
        == STD_LOOP@
}

/// No name is bound twice.
pub open spec fn unique_names(scope: Seq<Binding>) -> bool {
    forall|i: int, j: int|
        0 <= i < j < scope.len() ==> (#[trigger] scope[i]).name != (#[trigger] scope[j]).name
}

/// The first place at or after `from` where `scope` binds `name`, or the
/// length of `scope` if there is none.
pub open spec fn position(scope: Seq<Binding>, name: Seq<char>, from: int) -> int
    decreases scope.len() - from,
{
    if from < 0 || from >= scope.len() {
        scope.len() as int
    } else if scope[from].name == name {
        from
    } else {
        position(scope, name, from + 1)
    }
}

/// What `scope` binds `name` to.
pub open spec fn lookup(scope: Seq<Binding>, name: Seq<char>) -> Option<Binding> {
    let at = position(scope, name, 0);
    if at < scope.len() {
        Some(scope[at])
    } else {
        None
    }
}

/// `scope` with `binding` in the place of the binding of the same name, or
/// at the end if the name was not bound.
pub open spec fn bind(scope: Seq<Binding>, binding: Binding) -> Seq<Binding> {
    let at = position(scope, binding.name, 0);
    if at < scope.len() {
        scope.update(at, binding)
    } else {
        scope.push(binding)
    }
}

/// Compiles `expr` in `scope`, going at most `depth` levels deep.
///
/// A bound name stands for the result of compiling what it is bound to, in
/// the scope of its use; an unbound name is a symbol. A number list is
/// itself. A comment is nothing. A form goes to [`form`].
pub open spec fn compile(expr: Tree, scope: Seq<Binding>, depth: nat) -> Step<Value>
    decreases depth, 0nat, 0nat,
{
    if depth == 0 {
        failed(Failure::TooDeep, scope)
    } else {
        match expr {
            Tree::Symbol(name) => match lookup(scope, name) {
                Some(binding) => compile(binding.body, scope, (depth - 1) as nat),
                None => done(Value::Symbol(name), scope),
            },
            Tree::NumberList(numbers) => done(Value::NumberList(numbers), scope),
            Tree::Form(keyword, args) => form(keyword, args, scope, (depth - 1) as nat),
            Tree::Comment(_) => done(Value::Nothing, scope),
        }
    }
}

/// Compiles the form `name(args)`. Keywords come first, then the standard
/// forms, then the names that the scope binds.
///
/// A name bound to a form is applied in part: the arguments given here
/// follow the ones that the bound form already has, and the whole is
/// compiled as one form.
pub open spec fn form(name: Seq<char>, args: Seq<Tree>, scope: Seq<Binding>, depth: nat) -> Step<
    Value,
>
    decreases depth, 2nat, 0nat,
{
    if name == KW_ROOT@ {
        block(args, 0, scope, depth)
    } else if name == KW_BLOCK@ {
        Step { result: block(args, 0, scope, depth).result, scope }
    } else if name == KW_DEFINE@ {
        define(args, scope, depth, false)
    } else if name == KW_EXPORT@ {
        define(args, scope, depth, true)
    } else if name == KW_ARRAY@ {
        number_list(args, 0, Seq::empty(), scope, depth)
    } else if name == STD_HOLD@ {
        hold(args, scope, depth)
    } else if name == STD_LINEAR@ {
        linear(args, scope, depth)
    } else if name == STD_CONCAT@ {
        concat(args, 0, Seq::empty(), scope, depth)
    } else if name == STD_REPEAT@ {
        repeat(args, scope, depth)
    } else if name == STD_LOOP@ {
        inf_loop(args, scope, depth)
    } else {
        match lookup(scope, name) {
            Some(binding) => match binding.body {
                Tree::Form(inner, stored) => compile(Tree::Form(inner, stored + args), scope, depth),
                other => failed(Failure::NotPartial(other), scope),
            },
            None => failed(Failure::FunctionNotFound(name), scope),
        }
    }
}

/// Compiles `items` from the one at `from` on, each in the scope that the
/// one before left. The value is that of the last item, or nothing where
/// there is no item; the first failure ends it.
pub open spec fn block(items: Seq<Tree>, from: int, scope: Seq<Binding>, depth: nat) -> Step<Value>
    decreases depth, 1nat, items.len() - from,
{
    if from < 0 || from >= items.len() {
        done(Value::Nothing, scope)
    } else {
        let step = compile(items[from], scope, depth);
        if from + 1 == items.len() || step.result is Err {
            step
        } else {
            block(items, from + 1, step.scope, depth)
        }
    }
}

/// Compiles the definition `args[0] = args[1]`: the first argument has to
/// compile to a symbol, which is then bound to the second argument as it
/// stands. The definition's own value is that second argument.
pub open spec fn define(args: Seq<Tree>, scope: Seq<Binding>, depth: nat, exported: bool) -> Step<
    Value,
>
    decreases depth, 1nat, 1nat,
{
    let name = arg_symbol(args, 0, scope, depth);
    match name.result {
        Err(failure) => failed(failure, name.scope),
        Ok(name_text) => if args.len() < 2 {
            failed(Failure::MissingArgument, name.scope)
        } else {
            done(
                Value::Unresolved(args[1]),
                bind(name.scope, Binding { name: name_text, body: args[1], exported }),
            )
        },
    }
}

/// Compiles an array literal: every item from the one at `from` on has to
/// compile to a number list, and the lists are joined to `sofar`, in order.
pub open spec fn number_list(
    items: Seq<Tree>,
    from: int,
    sofar: Seq<Decimal>,
    scope: Seq<Binding>,
    depth: nat,
) -> Step<Value>
    decreases depth, 1nat, items.len() - from,
{
    if from < 0 || from >= items.len() {
        done(Value::NumberList(sofar), scope)
    } else {
        let step = compile(items[from], scope, depth);
        match step.result {
            Err(failure) => failed(failure, step.scope),
            Ok(Value::NumberList(list)) => number_list(
                items,
                from + 1,
                sofar + list,
                step.scope,
                depth,
            ),
            Ok(other) => failed(
                Failure::InvalidType { expected: "NumberList"@, actual: other },
                step.scope,
            ),
        }
    }
}

/// The argument at `at` as a symbol.
pub open spec fn arg_symbol(args: Seq<Tree>, at: int, scope: Seq<Binding>, depth: nat) -> Step<
    Seq<char>,
>
    decreases depth, 1nat, 0nat,
{
    if at < 0 || at >= args.len() {
        failed(Failure::MissingArgument, scope)
    } else {
        let step = compile(args[at], scope, depth);
        match step.result {
            Err(failure) => failed(failure, step.scope),
            Ok(Value::Symbol(name)) => done(name, step.scope),
            Ok(other) => failed(
                Failure::InvalidType { expected: "Symbol"@, actual: other },
                step.scope,
            ),
        }
    }
}

/// The argument at `at` as a single number.
pub open spec fn arg_number(args: Seq<Tree>, at: int, scope: Seq<Binding>, depth: nat) -> Step<
    Decimal,
>
    decreases depth, 1nat, 0nat,
{
    if at < 0 || at >= args.len() {
        failed(Failure::MissingArgument, scope)
    } else {
        let step = compile(args[at], scope, depth);
        match step.result {
            Err(failure) => failed(failure, step.scope),
            Ok(Value::Symbol(name)) => failed(Failure::VariableNotFound(name), step.scope),
            Ok(Value::NumberList(list)) => if list.len() == 1 {
                done(list[0], step.scope)
            } else {
                failed(
                    Failure::InvalidType { expected: "Number"@, actual: Value::NumberList(list) },
                    step.scope,
                )
            },
            Ok(other) => failed(
                Failure::InvalidType { expected: "Number"@, actual: other },
                step.scope,
            ),
        }
    }
}

/// The argument at `at` as a list of numbers.
pub open spec fn arg_number_list(
    args: Seq<Tree>,
    at: int,
    scope: Seq<Binding>,
    depth: nat,
) -> Step<Seq<Decimal>>
    decreases depth, 1nat, 0nat,
{
    if at < 0 || at >= args.len() {
        failed(Failure::MissingArgument, scope)
    } else {
        let step = compile(args[at], scope, depth);
        match step.result {
            Err(failure) => failed(failure, step.scope),
            Ok(Value::Symbol(name)) => failed(Failure::VariableNotFound(name), step.scope),
            Ok(Value::NumberList(list)) => done(list, step.scope),
            Ok(other) => failed(
                Failure::InvalidType { expected: "NumberList"@, actual: other },
                step.scope,
            ),
        }
    }
}

/// The argument at `at` as an envelope.
pub open spec fn arg_envelope_fn(
    args: Seq<Tree>,
    at: int,
    scope: Seq<Binding>,
    depth: nat,
) -> Step<Curve>
    decreases depth, 1nat, 0nat,
{
    if at < 0 || at >= args.len() {
        failed(Failure::MissingArgument, scope)
    } else {
        let step = compile(args[at], scope, depth);
        match step.result {
            Err(failure) => failed(failure, step.scope),
            Ok(Value::Symbol(name)) => failed(Failure::VariableNotFound(name), step.scope),
            Ok(Value::Envelope(curve)) => done(curve, step.scope),
            Ok(other) => failed(
                Failure::InvalidType { expected: "EnvelopeFunction"@, actual: other },
                step.scope,
            ),
        }
    }
}

/// `hold(value, duration)`: the value, a number list, held for the duration.
pub open spec fn hold(args: Seq<Tree>, scope: Seq<Binding>, depth: nat) -> Step<Value>
    decreases depth, 1nat, 1nat,
{
    let value = arg_number_list(args, 0, scope, depth);
    match value.result {
        Err(failure) => failed(failure, value.scope),
        Ok(v) => {
            let duration = arg_number(args, 1, value.scope, depth);
            match duration.result {
                Err(failure) => failed(failure, duration.scope),
                Ok(d) => done(
                    Value::Envelope(Curve::Hold { duration: d, value: slots_of(v) }),
                    duration.scope,
                ),
            }
        },
    }
}

/// `linear(from, to, duration)`: a straight line between two number lists.
pub open spec fn linear(args: Seq<Tree>, scope: Seq<Binding>, depth: nat) -> Step<Value>
    decreases depth, 1nat, 1nat,
{
    let from = arg_number_list(args, 0, scope, depth);
    match from.result {
        Err(failure) => failed(failure, from.scope),
        Ok(a) => {
            let to = arg_number_list(args, 1, from.scope, depth);
            match to.result {
                Err(failure) => failed(failure, to.scope),
                Ok(b) => {
                    let duration = arg_number(args, 2, to.scope, depth);
                    match duration.result {
                        Err(failure) => failed(failure, duration.scope),
                        Ok(d) => done(
                            Value::Envelope(
                                Curve::Linear { duration: d, from: slots_of(a), to: slots_of(b) },
                            ),
                            duration.scope,
                        ),
                    }
                },
            }
        },
    }
}

/// `concat(e1, e2, ...)`: every argument from the one at `from` on has to
/// compile to an envelope; they follow `sofar`, in order.
pub open spec fn concat(
    args: Seq<Tree>,
    from: int,
    sofar: Seq<Curve>,
    scope: Seq<Binding>,
    depth: nat,
) -> Step<Value>
    decreases depth, 1nat, args.len() - from,
{
    if from < 0 || from >= args.len() {
        done(Value::Envelope(Curve::Concat(sofar)), scope)
    } else {
        let step = compile(args[from], scope, depth);
        match step.result {
            Err(failure) => failed(failure, step.scope),
            Ok(Value::Envelope(curve)) => concat(
                args,
                from + 1,
                sofar.push(curve),
                step.scope,
                depth,
            ),
            Ok(other) => failed(
                Failure::InvalidType { expected: "EnvelopeFunction"@, actual: other },
                step.scope,
            ),
        }
    }
}

/// `repeat(count, e)`: the envelope played `count` times, where the count
/// is the number truncated as [`Decimal::count`] says.
pub open spec fn repeat(args: Seq<Tree>, scope: Seq<Binding>, depth: nat) -> Step<Value>
    decreases depth, 1nat, 1nat,
{
    let count = arg_number(args, 0, scope, depth);
    match count.result {
        Err(failure) => failed(failure, count.scope),
        Ok(n) => {
            let envelope = arg_envelope_fn(args, 1, count.scope, depth);
            match envelope.result {
                Err(failure) => failed(failure, envelope.scope),
                Ok(e) => done(
                    Value::Envelope(Curve::Repeat(n.count(), Box::new(e))),
                    envelope.scope,
                ),
            }
        },
    }
}

/// `loop(e)`: the envelope played without end.
pub open spec fn inf_loop(args: Seq<Tree>, scope: Seq<Binding>, depth: nat) -> Step<Value>
    decreases depth, 1nat, 1nat,
{
    let envelope = arg_envelope_fn(args, 0, scope, depth);
    match envelope.result {
        Err(failure) => failed(failure, envelope.scope),
        Ok(e) => done(Value::Envelope(Curve::Loop(Box::new(e))), envelope.scope),
    }
}

/// The envelopes that `scope` exports, from the binding at `from` on, after
/// `sofar`: each exported binding's body is compiled in `scope` and has to
/// yield an envelope. The first that does not ends it.
pub open spec fn exports(
    scope: Seq<Binding>,
    from: int,
    sofar: Seq<(Seq<char>, Curve)>,
    depth: nat,
) -> Result<Seq<(Seq<char>, Curve)>, Failure>
    decreases scope.len() - from,
{
    if from < 0 || from >= scope.len() {
        Ok(sofar)
    } else if !scope[from].exported {
        exports(scope, from + 1, sofar, depth)
    } else {
        match compile(scope[from].body, scope, depth).result {
            Err(failure) => Err(failure),
            Ok(Value::Envelope(curve)) => exports(
                scope,
                from + 1,
                sofar.push((scope[from].name, curve)),
                depth,
            ),
            Ok(other) => Err(
                Failure::InvalidType { expected: "Envelope function"@, actual: other },
            ),
        }
    }
}

/// Builds a program: compiles `program` in the empty scope, then compiles
/// what the resulting scope exports, in the order of definition.
pub open spec fn build(program: Tree, depth: nat) -> Result<Seq<(Seq<char>, Curve)>, Failure> {
    let top = compile(program, Seq::empty(), depth);
    match top.result {
        Err(failure) => Err(failure),
        Ok(_) => exports(top.scope, 0, Seq::empty(), depth),
    }
}

} // verus!

//! The compiler: from a syntax tree to envelopes.

use crate::ast::{clone_exprs, clone_numbers, trees_of, Expr, Tree};
use crate::ast::{KW_ARRAY, KW_BLOCK, KW_DEFINE, KW_EXPORT, KW_ROOT};
use crate::envelope::{curves_of, lemma_curves_push, Concat, Curve, Envelope};
use crate::envelope::{Hold, Linear, Loop, Repeat};
use crate::number::{Decimal, Number};
use crate::semantics;
use crate::scope::lemma_position;
use crate::semantics::{bind, lookup, position, Binding, Failure, Step, Value};
use crate::semantics::{STD_CONCAT, STD_HOLD, STD_LINEAR, STD_LOOP, STD_REPEAT};
use crate::vector::{decimals_of, Vector};
use vstd::prelude::*;

verus! {

/// How deep [`build`] lets names and forms be nested.
pub const DEPTH_LIMIT: usize = 1000;

/// What an expression compiles to.
#[derive(Debug, PartialEq)]
pub enum Build {
    /// A name that the scope does not bind.
    Symbol(String),
    /// A sequence of numbers.
    NumberList(Vec<Number>),
    /// An envelope.
    EnvelopeFn(Envelope),
    /// The body of a definition, not yet compiled.
    Partial(Expr),
    /// Nothing: what a comment or an empty block yields.
    Nil,
}

impl View for Build {
    type V = Value;

    open spec fn view(&self) -> Value {
        match self {
            Build::Symbol(s) => Value::Symbol(s@),
            Build::NumberList(n) => Value::NumberList(decimals_of(n@)),
            Build::EnvelopeFn(e) => Value::Envelope(e@),
            Build::Partial(e) => Value::Unresolved(e@),
            Build::Nil => Value::Nothing,
        }
    }
}

/// Why an expression does not compile.
#[derive(Debug, PartialEq)]
pub enum BuildError {
    /// A value of another kind than `expected` was found.
    InvalidType { expected: String, actual: Build },
    /// A form's name is neither a keyword, nor a standard form, nor bound.
    FunctionNotFound(String),
    /// A name that the scope does not bind stands where a value is needed.
    VariableNotFound(String),
    /// A form has fewer arguments than it needs.
    MissingArgument,
    /// A form's name is bound to something that is not a form.
    NotPartial(Expr),
    /// Names and forms are nested deeper than the compiler was allowed to go.
    TooDeep,
}

impl View for BuildError {
    type V = Failure;

    open spec fn view(&self) -> Failure {
        match self {
            BuildError::InvalidType { expected, actual } => Failure::InvalidType {
                expected: expected@,
                actual: actual@,
            },
            BuildError::FunctionNotFound(s) => Failure::FunctionNotFound(s@),
            BuildError::VariableNotFound(s) => Failure::VariableNotFound(s@),
            BuildError::MissingArgument => Failure::MissingArgument,
            BuildError::NotPartial(e) => Failure::NotPartial(e@),
            BuildError::TooDeep => Failure::TooDeep,
        }
    }
}

/// A name with the expression it stands for.
#[derive(Debug, PartialEq)]
pub struct Variable {
    pub name: String,
    pub expr: Expr,
    pub is_export: bool,
}

impl View for Variable {
    type V = Binding;

    open spec fn view(&self) -> Binding {
        Binding { name: self.name@, body: self.expr@, exported: self.is_export }
    }
}

/// The binding of each variable of `s`.
pub open spec fn bindings_of(s: Seq<Variable>) -> Seq<Binding> {
    Seq::new(s.len(), |i: int| s[i]@)
}

/// The names that are bound where an expression is compiled, in the order
/// in which they were first defined.
#[derive(Debug, PartialEq)]
pub struct Env {
    vars: Vec<Variable>,
}

impl View for Env {
    type V = Seq<Binding>;

    closed spec fn view(&self) -> Seq<Binding> {
        bindings_of(self.vars@)
    }
}

impl Env {
    /// The scope that binds nothing.
    pub fn new() -> (r: Env)
        ensures
            r@ == Seq::<Binding>::empty(),
    {
        let r = Env { vars: Vec::new() };
        assert(r@ =~= Seq::<Binding>::empty());
        r
    }

    /// How many names are bound.
    pub fn len(&self) -> (n: usize)
        ensures
            n == self@.len(),
    {
        self.vars.len()
    }

    /// The binding at `at`, in the order of definition.
    pub fn at(&self, at: usize) -> (r: &Variable)
        requires
            at < self@.len(),
        ensures
            r@ == self@[at as int],
    {
        &self.vars[at]
    }

    /// Where `name` is bound, or `len()` where it is not.
    fn find(&self, name: &str) -> (at: usize)
        ensures
            at == position(self@, name@, 0),
            at <= self@.len(),
    {
        let mut i: usize = 0;
        while i < self.vars.len()
            invariant
                i <= self.vars.len(),
                position(self@, name@, 0) == position(self@, name@, i as int),
            decreases self.vars.len() - i,
        {
            if self.vars[i].name.as_str().eq(name) {
                return i;
            }
            i = i + 1;
        }
        i
    }

    /// What `name` is bound to.
    pub fn get(&self, name: &str) -> (r: Option<&Variable>)
        ensures
            r is Some <==> lookup(self@, name@) is Some,
            r matches Some(v) ==> lookup(self@, name@) == Some(v@),
    {
        let at = self.find(name);
        if at < self.vars.len() {
            Some(&self.vars[at])
        } else {
            None
        }
    }

    /// Binds `name` to `expr`, in the place of an earlier binding of the name
    /// where there is one, and else after all the others.
    pub fn insert(&mut self, name: String, expr: Expr, is_export: bool)
        ensures
            final(self)@ == bind(
                old(self)@,
                Binding { name: name@, body: expr@, exported: is_export },
            ),
    {
        let at = self.find(name.as_str());
        let ghost before = self@;
        let ghost binding = Binding { name: name@, body: expr@, exported: is_export };
        proof {
            lemma_position(before, name@, 0);
        }
        let var = Variable { name, expr, is_export };
        if at < self.vars.len() {
            self.vars[at] = var;
            assert(self@ =~= before.update(at as int, binding));
        } else {
            self.vars.push(var);
            assert(self@ =~= before.push(binding));
        }
    }
}

impl Clone for Env {
    fn clone(&self) -> (r: Env)
        ensures
            r@ == self@,
    {
        let mut vars: Vec<Variable> = Vec::new();
        let mut i: usize = 0;
        while i < self.vars.len()
            invariant
                i <= self.vars.len(),
                vars@.len() == i,
                forall|j: int| 0 <= j < i ==> vars@[j]@ == self.vars@[j]@,
            decreases self.vars.len() - i,
        {
            let v = &self.vars[i];
            vars.push(Variable { name: v.name.clone(), expr: v.expr.clone(), is_export: v.is_export });
            i = i + 1;
        }
        assert(bindings_of(vars@) =~= bindings_of(self.vars@));
        Env { vars }
    }
}

/// A result and a scope as one step of compilation.
pub open spec fn outcome(r: Result<Build, BuildError>, scope: Seq<Binding>) -> Step<Value> {
    Step {
        result: match r {
            Ok(b) => Ok(b@),
            Err(e) => Err(e@),
        },
        scope,
    }
}

/// The error that a value of the wrong kind gives.
fn invalid_type(expected: &str, actual: Build) -> (e: BuildError)
    ensures
        e@ == (Failure::InvalidType { expected: expected@, actual: actual@ }),
{
    BuildError::InvalidType { expected: expected.to_owned(), actual }
}

/// Compiles `expr` in `env`, going at most `depth` levels deep. Definitions
/// that `expr` makes are added to `env`.
pub fn compile(expr: &Expr, env: &mut Env, depth: usize) -> (r: Result<Build, BuildError>)
    ensures
        outcome(r, final(env)@) == semantics::compile(expr@, old(env)@, depth as nat),
    decreases depth, 0nat, 0nat,
{
    if depth == 0 {
        return Err(BuildError::TooDeep);
    }
    match expr {
        Expr::Symbol(s) => {
            let body = match env.get(s.as_str()) {
                Some(var) => Some(var.expr.clone()),
                None => None,
            };
            match body {
                Some(body) => compile(&body, env, depth - 1),
                None => Ok(Build::Symbol(s.clone())),
            }
        },
        Expr::NumberList(n) => Ok(Build::NumberList(clone_numbers(n))),
        Expr::List(name, cons) => list(name.as_str(), cons, env, depth - 1),
        Expr::Comment(_) => Ok(Build::Nil),
    }
}

/// Compiles the form `name(cons)`: a keyword, a standard form, or a bound
/// name applied in part.
pub fn list(name: &str, cons: &Vec<Expr>, env: &mut Env, depth: usize) -> (r: Result<
    Build,
    BuildError,
>)
    ensures
        outcome(r, final(env)@) == semantics::form(
            name@,
            trees_of(cons@),
            old(env)@,
            depth as nat,
        ),
    decreases depth, 2nat, 0nat,
{
    if name.eq(KW_ROOT) {
        block(cons, env, depth)
    } else if name.eq(KW_BLOCK) {
        let mut inner = env.clone();
        block(cons, &mut inner, depth)
    } else if name.eq(KW_DEFINE) {
        define(cons, env, depth, false)
    } else if name.eq(KW_EXPORT) {
        define(cons, env, depth, true)
    } else if name.eq(KW_ARRAY) {
        number_list(cons, env, depth)
    } else if name.eq(STD_HOLD) {
        hold(cons, env, depth)
    } else if name.eq(STD_LINEAR) {
        linear(cons, env, depth)
    } else if name.eq(STD_CONCAT) {
        concat(cons, env, depth)
    } else if name.eq(STD_REPEAT) {
        repeat(cons, env, depth)
    } else if name.eq(STD_LOOP) {
        inf_loop(cons, env, depth)
    } else {
        let bound = match env.get(name) {
            Some(var) => Some(var.expr.clone()),
            None => None,
        };
        match bound {
            Some(Expr::List(sub_name, sub_cons)) => {
                let mut merged = sub_cons;
                let mut given = clone_exprs(cons);
                let ghost stored = merged@;
                merged.append(&mut given);
                proof {
                    assert(trees_of(merged@) =~= trees_of(stored) + trees_of(cons@));
                }
                let whole = Expr::List(sub_name, merged);
                compile(&whole, env, depth)
            },
            Some(other) => Err(BuildError::NotPartial(other)),
            None => Err(BuildError::FunctionNotFound(name.to_owned())),
        }
    }
}

/// Compiles the items of a block one after another in `env` and yields the
/// value of the last, or nothing where the block is empty.
pub fn block(cons: &Vec<Expr>, env: &mut Env, depth: usize) -> (r: Result<Build, BuildError>)
    ensures
        outcome(r, final(env)@) == semantics::block(trees_of(cons@), 0, old(env)@, depth as nat),
    decreases depth, 1nat, cons.len(),
{
    let n = cons.len();
    if n == 0 {
        return Ok(Build::Nil);
    }
    let mut i: usize = 0;
    while i + 1 < n
        invariant
            n == cons.len(),
            i + 1 <= n,
            semantics::block(trees_of(cons@), 0, old(env)@, depth as nat) == semantics::block(
                trees_of(cons@),
                i as int,
                env@,
                depth as nat,
            ),
        decreases n - i,
    {
        match compile(&cons[i], env, depth) {
            Err(e) => {
                return Err(e);
            },
            Ok(_) => {},
        }
        i = i + 1;
    }
    compile(&cons[i], env, depth)
}

/// Compiles a definition: binds the symbol that the first argument compiles
/// to, in `env`, to the second argument as it stands.
pub fn define(cons: &Vec<Expr>, env: &mut Env, depth: usize, is_export: bool) -> (r: Result<
    Build,
    BuildError,
>)
    ensures
        outcome(r, final(env)@) == semantics::define(
            trees_of(cons@),
            old(env)@,
            depth as nat,
            is_export,
        ),
    decreases depth, 1nat, 1nat,
{
    let name = match arg_symbol(cons, 0, env, depth) {
        Ok(name) => name,
        Err(e) => {
            return Err(e);
        },
    };
    let expr = match arg_expr(cons, 1) {
        Ok(expr) => expr,
        Err(e) => {
            return Err(e);
        },
    };
    env.insert(name, expr.clone(), is_export);
    Ok(Build::Partial(expr))
}

/// Compiles an array literal: the number lists that the items compile to,
/// joined in order.
pub fn number_list(cons: &Vec<Expr>, env: &mut Env, depth: usize) -> (r: Result<Build, BuildError>)
    ensures
        outcome(r, final(env)@) == semantics::number_list(
            trees_of(cons@),
            0,
            Seq::empty(),
            old(env)@,
            depth as nat,
        ),
    decreases depth, 1nat, cons.len(),
{
    let mut arr: Vec<Number> = Vec::new();
    let mut i: usize = 0;
    proof {
        assert(decimals_of(arr@) =~= Seq::<Decimal>::empty());
    }
    while i < cons.len()
        invariant
            i <= cons.len(),
            semantics::number_list(trees_of(cons@), 0, Seq::empty(), old(env)@, depth as nat)
                == semantics::number_list(
                trees_of(cons@),
                i as int,
                decimals_of(arr@),
                env@,
                depth as nat,
            ),
        decreases cons.len() - i,
    {
        match compile(&cons[i], env, depth) {
            Err(e) => {
                return Err(e);
            },
            Ok(Build::NumberList(list)) => {
                let mut list = list;
                let ghost before = arr@;
                let ghost added = list@;
                arr.append(&mut list);
                proof {
                    assert(decimals_of(arr@) =~= decimals_of(before) + decimals_of(added));
                }
            },
            Ok(x) => {
                return Err(invalid_type("NumberList", x));
            },
        }
        i = i + 1;
    }
    Ok(Build::NumberList(arr))
}

/// The argument at `at`, compiled, as a symbol.
pub fn arg_symbol(cons: &Vec<Expr>, at: usize, env: &mut Env, depth: usize) -> (r: Result<
    String,
    BuildError,
>)
    ensures
        match r {
            Ok(name) => semantics::arg_symbol(trees_of(cons@), at as int, old(env)@, depth as nat)
                == semantics::done(name@, final(env)@),
            Err(e) => semantics::arg_symbol(trees_of(cons@), at as int, old(env)@, depth as nat)
                == semantics::failed::<Seq<char>>(e@, final(env)@),
        },
    decreases depth, 1nat, 0nat,
{
    if at >= cons.len() {
        return Err(BuildError::MissingArgument);
    }
    match compile(&cons[at], env, depth) {
        Err(e) => Err(e),
        Ok(Build::Symbol(name)) => Ok(name),
        Ok(x) => Err(invalid_type("Symbol", x)),
    }
}

/// The argument at `at`, compiled, as a single number.
pub fn arg_number(cons: &Vec<Expr>, at: usize, env: &mut Env, depth: usize) -> (r: Result<
    Number,
    BuildError,
>)
    ensures
        match r {
            Ok(n) => semantics::arg_number(trees_of(cons@), at as int, old(env)@, depth as nat)
                == semantics::done(n@, final(env)@),
            Err(e) => semantics::arg_number(trees_of(cons@), at as int, old(env)@, depth as nat)
                == semantics::failed::<Decimal>(e@, final(env)@),
        },
    decreases depth, 1nat, 0nat,
{
    if at >= cons.len() {
        return Err(BuildError::MissingArgument);
    }
    match compile(&cons[at], env, depth) {
        Err(e) => Err(e),
        Ok(Build::NumberList(n)) => {
            if n.len() == 1 {
                Ok(n[0].clone())
            } else {
                Err(invalid_type("Number", Build::NumberList(n)))
            }
        },
        Ok(Build::Symbol(k)) => Err(BuildError::VariableNotFound(k)),
        Ok(x) => Err(invalid_type("Number", x)),
    }
}

/// The argument at `at`, compiled, as a list of numbers.
pub fn arg_number_list(cons: &Vec<Expr>, at: usize, env: &mut Env, depth: usize) -> (r: Result<
    Vec<Number>,
    BuildError,
>)
    ensures
        match r {
            Ok(list) => semantics::arg_number_list(
                trees_of(cons@),
                at as int,
                old(env)@,
                depth as nat,
            ) == semantics::done(decimals_of(list@), final(env)@),
            Err(e) => semantics::arg_number_list(
                trees_of(cons@),
                at as int,
                old(env)@,
                depth as nat,
            ) == semantics::failed::<Seq<Decimal>>(e@, final(env)@),
        },
    decreases depth, 1nat, 0nat,
{
    if at >= cons.len() {
        return Err(BuildError::MissingArgument);
    }
    match compile(&cons[at], env, depth) {
        Err(e) => Err(e),
        Ok(Build::NumberList(a)) => Ok(a),
        Ok(Build::Symbol(k)) => Err(BuildError::VariableNotFound(k)),
        Ok(x) => Err(invalid_type("NumberList", x)),
    }
}

/// The argument at `at` as it stands.
pub fn arg_expr(cons: &Vec<Expr>, at: usize) -> (r: Result<Expr, BuildError>)
    ensures
        r is Ok <==> at < cons.len(),
        r matches Ok(e) ==> e@ == trees_of(cons@)[at as int],
        r matches Err(e) ==> e@ == Failure::MissingArgument,
{
    if at < cons.len() {
        Ok(cons[at].clone())
    } else {
        Err(BuildError::MissingArgument)
    }
}

/// The argument at `at`, compiled, as an envelope.
pub fn arg_envelope_fn(cons: &Vec<Expr>, at: usize, env: &mut Env, depth: usize) -> (r: Result<
    Envelope,
    BuildError,
>)
    ensures
        match r {
            Ok(f) => semantics::arg_envelope_fn(
                trees_of(cons@),
                at as int,
                old(env)@,
                depth as nat,
            ) == semantics::done(f@, final(env)@),
            Err(e) => semantics::arg_envelope_fn(
                trees_of(cons@),
                at as int,
                old(env)@,
                depth as nat,
            ) == semantics::failed::<Curve>(e@, final(env)@),
        },
    decreases depth, 1nat, 0nat,
{
    if at >= cons.len() {
        return Err(BuildError::MissingArgument);
    }
    match compile(&cons[at], env, depth) {
        Err(e) => Err(e),
        Ok(Build::EnvelopeFn(f)) => Ok(f),
        Ok(Build::Symbol(k)) => Err(BuildError::VariableNotFound(k)),
        Ok(x) => Err(invalid_type("EnvelopeFunction", x)),
    }
}

/// Compiles `hold(value, duration)`.
pub fn hold(cons: &Vec<Expr>, env: &mut Env, depth: usize) -> (r: Result<Build, BuildError>)
    ensures
        outcome(r, final(env)@) == semantics::hold(trees_of(cons@), old(env)@, depth as nat),
    decreases depth, 1nat, 1nat,
{
    let value = match arg_number_list(cons, 0, env, depth) {
        Ok(value) => value,
        Err(e) => {
            return Err(e);
        },
    };
    let duration = match arg_number(cons, 1, env, depth) {
        Ok(duration) => duration,
        Err(e) => {
            return Err(e);
        },
    };
    Ok(Build::EnvelopeFn(Envelope::Hold(Hold::new(duration, Vector::from(value)))))
}

/// Compiles `linear(from, to, duration)`.
pub fn linear(cons: &Vec<Expr>, env: &mut Env, depth: usize) -> (r: Result<Build, BuildError>)
    ensures
        outcome(r, final(env)@) == semantics::linear(trees_of(cons@), old(env)@, depth as nat),
    decreases depth, 1nat, 1nat,
{
    let from = match arg_number_list(cons, 0, env, depth) {
        Ok(from) => from,
        Err(e) => {
            return Err(e);
        },
    };
    let to = match arg_number_list(cons, 1, env, depth) {
        Ok(to) => to,
        Err(e) => {
            return Err(e);
        },
    };
    let duration = match arg_number(cons, 2, env, depth) {
        Ok(duration) => duration,
        Err(e) => {
            return Err(e);
        },
    };
    Ok(
        Build::EnvelopeFn(
            Envelope::Linear(Linear::new(duration, Vector::from(from), Vector::from(to))),
        ),
    )
}

/// Compiles `concat(e1, e2, ...)`.
pub fn concat(cons: &Vec<Expr>, env: &mut Env, depth: usize) -> (r: Result<Build, BuildError>)
    ensures
        outcome(r, final(env)@) == semantics::concat(
            trees_of(cons@),
            0,
            Seq::empty(),
            old(env)@,
            depth as nat,
        ),
    decreases depth, 1nat, cons.len(),
{
    let mut fns: Vec<Envelope> = Vec::new();
    let mut i: usize = 0;
    proof {
        assert(curves_of(fns@) =~= Seq::<Curve>::empty());
    }
    while i < cons.len()
        invariant
            i <= cons.len(),
            semantics::concat(trees_of(cons@), 0, Seq::empty(), old(env)@, depth as nat)
                == semantics::concat(
                trees_of(cons@),
                i as int,
                curves_of(fns@),
                env@,
                depth as nat,
            ),
        decreases cons.len() - i,
    {
        match compile(&cons[i], env, depth) {
            Err(e) => {
                return Err(e);
            },
            Ok(Build::EnvelopeFn(f)) => {
                let ghost before = fns@;
                let ghost last = f;
                fns.push(f);
                proof {
                    lemma_curves_push(before, last);
                }
            },
            Ok(actual) => {
                return Err(invalid_type("EnvelopeFunction", actual));
            },
        }
        i = i + 1;
    }
    Ok(Build::EnvelopeFn(Envelope::Concat(Concat::new(fns))))
}

/// Compiles `repeat(count, e)`.
pub fn repeat(cons: &Vec<Expr>, env: &mut Env, depth: usize) -> (r: Result<Build, BuildError>)
    ensures
        outcome(r, final(env)@) == semantics::repeat(trees_of(cons@), old(env)@, depth as nat),
    decreases depth, 1nat, 1nat,
{
    let repeats = match arg_number(cons, 0, env, depth) {
        Ok(n) => n.to_count(),
        Err(e) => {
            return Err(e);
        },
    };
    let envelope_fn = match arg_envelope_fn(cons, 1, env, depth) {
        Ok(f) => f,
        Err(e) => {
            return Err(e);
        },
    };
    Ok(Build::EnvelopeFn(Envelope::Repeat(Repeat::new(repeats, envelope_fn))))
}

/// Compiles `loop(e)`.
pub fn inf_loop(cons: &Vec<Expr>, env: &mut Env, depth: usize) -> (r: Result<Build, BuildError>)
    ensures
        outcome(r, final(env)@) == semantics::inf_loop(trees_of(cons@), old(env)@, depth as nat),
    decreases depth, 1nat, 1nat,
{
    let envelope_fn = match arg_envelope_fn(cons, 0, env, depth) {
        Ok(f) => f,
        Err(e) => {
            return Err(e);
        },
    };
    Ok(Build::EnvelopeFn(Envelope::Loop(Loop::new(envelope_fn))))
}

/// The name and curve of each pair of `s`.
pub open spec fn exports_of(s: Seq<(String, Envelope)>) -> Seq<(Seq<char>, Curve)> {
    Seq::new(s.len(), |i: int| (s[i].0@, s[i].1@))
}

/// Builds a program: compiles `expr` in an empty scope, then compiles what
/// the scope exports. The result holds each exported name with its envelope,
/// in the order of definition. The first failure ends the build.
pub fn build(expr: Expr) -> (r: Result<Vec<(String, Envelope)>, BuildError>)
    ensures
        match r {
            Ok(list) => semantics::build(expr@, DEPTH_LIMIT as nat) == Ok::<
                Seq<(Seq<char>, Curve)>,
                Failure,
            >(exports_of(list@)),
            Err(e) => semantics::build(expr@, DEPTH_LIMIT as nat) == Err::<
                Seq<(Seq<char>, Curve)>,
                Failure,
            >(e@),
        },
{
    let mut env = Env::new();
    match compile(&expr, &mut env, DEPTH_LIMIT) {
        Err(e) => {
            return Err(e);
        },
        Ok(_) => {},
    }
    let mut exports: Vec<(String, Envelope)> = Vec::new();
    let mut i: usize = 0;
    proof {
        assert(exports_of(exports@) =~= Seq::<(Seq<char>, Curve)>::empty());
    }
    while i < env.len()
        invariant
            i <= env@.len(),
            semantics::compile(expr@, Seq::empty(), DEPTH_LIMIT as nat).result is Ok,
            semantics::compile(expr@, Seq::empty(), DEPTH_LIMIT as nat).scope == env@,
            semantics::exports(env@, 0, Seq::empty(), DEPTH_LIMIT as nat) == semantics::exports(
                env@,
                i as int,
                exports_of(exports@),
                DEPTH_LIMIT as nat,
            ),
        decreases env@.len() - i,
    {
        let var = env.at(i);
        if var.is_export {
            let mut snapshot = env.clone();
            match compile(&var.expr, &mut snapshot, DEPTH_LIMIT) {
                Err(e) => {
                    return Err(e);
                },
                Ok(Build::EnvelopeFn(f)) => {
                    let ghost before = exports@;
                    let ghost pair = (var.name, f);
                    exports.push((var.name.clone(), f));
                    proof {
                        assert(exports_of(exports@) =~= exports_of(before).push(
                            (pair.0@, pair.1@),
                        ));
                    }
                },
                Ok(x) => {
                    return Err(invalid_type("Envelope function", x));
                },
            }
        }
        i = i + 1;
    }
    Ok(exports)
}

/// A form whose name is no keyword, no standard form and not bound fails
/// with `FunctionNotFound`, whatever its arguments.
pub proof fn law_unbound_call(name: Seq<char>, args: Seq<Tree>, scope: Seq<Binding>, depth: nat)
    requires
        depth > 0,
        !semantics::is_keyword(name),
        !semantics::is_standard(name),
        lookup(scope, name) is None,
    ensures
        semantics::compile(Tree::Form(name, args), scope, depth) == semantics::failed::<Value>(
            Failure::FunctionNotFound(name),
            scope,
        ),
{
    reveal_with_fuel(semantics::compile, 2);
}

/// A name that is not bound compiles to a symbol, and where a number, a
/// number list or an envelope is asked of it, that fails with
/// `VariableNotFound`.
pub proof fn law_unbound_value(args: Seq<Tree>, at: int, scope: Seq<Binding>, depth: nat)
    requires
        depth > 0,
        0 <= at < args.len(),
        args[at] is Symbol,
        lookup(scope, args[at]->Symbol_0) is None,
    ensures
        semantics::compile(args[at], scope, depth) == semantics::done(
            Value::Symbol(args[at]->Symbol_0),
            scope,
        ),
        semantics::arg_number(args, at, scope, depth) == semantics::failed::<Decimal>(
            Failure::VariableNotFound(args[at]->Symbol_0),
            scope,
        ),
        semantics::arg_number_list(args, at, scope, depth) == semantics::failed::<Seq<Decimal>>(
            Failure::VariableNotFound(args[at]->Symbol_0),
            scope,
        ),
        semantics::arg_envelope_fn(args, at, scope, depth) == semantics::failed::<Curve>(
            Failure::VariableNotFound(args[at]->Symbol_0),
            scope,
        ),
{
}

/// Applying a bound form in part is compiling the form with the new
/// arguments after its own: where `name` is bound to `inner(stored)`, the
/// call `name(args)` compiles, one level deeper, to what `inner(stored, args)`
/// compiles to.
pub proof fn law_partial_application(
    name: Seq<char>,
    args: Seq<Tree>,
    inner: Seq<char>,
    stored: Seq<Tree>,
    scope: Seq<Binding>,
    depth: nat,
)
    requires
        !semantics::is_keyword(name),
        !semantics::is_standard(name),
        lookup(scope, name) is Some,
        lookup(scope, name)->Some_0.body == Tree::Form(inner, stored),
    ensures
        semantics::compile(Tree::Form(name, args), scope, depth + 1) == semantics::compile(
            Tree::Form(inner, stored + args),
            scope,
            depth,
        ),
{
    reveal_with_fuel(semantics::compile, 2);
}

} // verus!

//! The depth to which the compiler goes matters only where it is too small:
//! a compilation that does not fail with `TooDeep` comes out the same at
//! every greater depth.

use crate::ast::{Tree, KW_ARRAY, KW_BLOCK, KW_DEFINE, KW_EXPORT, KW_ROOT};
use crate::envelope::Curve;
use crate::number::Decimal;
use crate::semantics::{
    arg_envelope_fn, arg_number, arg_number_list, arg_symbol, block, build, compile, concat,
    define, exports, form, hold, inf_loop, linear, lookup, number_list, repeat, Binding, Failure,
    Step, Value,
};
use crate::semantics::{STD_CONCAT, STD_HOLD, STD_LINEAR, STD_LOOP, STD_REPEAT};
use vstd::prelude::*;

verus! {

/// The step did not fail for want of depth.
pub open spec fn deep_enough<T>(step: Step<T>) -> bool {
    step.result != Err::<T, Failure>(Failure::TooDeep)
}

/// [`compile`] at one more level.
pub proof fn lemma_compile_deeper(expr: Tree, scope: Seq<Binding>, depth: nat)
    requires
        deep_enough(compile(expr, scope, depth)),
    ensures
        compile(expr, scope, depth + 1) == compile(expr, scope, depth),
    decreases depth, 0nat, 0nat,
{
    match expr {
        Tree::Symbol(name) => match lookup(scope, name) {
            Some(binding) => {
                lemma_compile_deeper(binding.body, scope, (depth - 1) as nat);
            },
            None => {},
        },
        Tree::Form(keyword, args) => {
            lemma_form_deeper(keyword, args, scope, (depth - 1) as nat);
        },
        _ => {},
    }
}

/// [`form`] at one more level.
pub proof fn lemma_form_deeper(name: Seq<char>, args: Seq<Tree>, scope: Seq<Binding>, depth: nat)
    requires
        deep_enough(form(name, args, scope, depth)),
    ensures
        form(name, args, scope, depth + 1) == form(name, args, scope, depth),
    decreases depth, 2nat, 0nat,
{
    if name == KW_ROOT@ {
        lemma_block_deeper(args, 0, scope, depth);
    } else if name == KW_BLOCK@ {
        lemma_block_deeper(args, 0, scope, depth);
    } else if name == KW_DEFINE@ {
        lemma_define_deeper(args, scope, depth, false);
    } else if name == KW_EXPORT@ {
        lemma_define_deeper(args, scope, depth, true);
    } else if name == KW_ARRAY@ {
        lemma_number_list_deeper(args, 0, Seq::empty(), scope, depth);
    } else if name == STD_HOLD@ {
        lemma_hold_deeper(args, scope, depth);
    } else if name == STD_LINEAR@ {
        lemma_linear_deeper(args, scope, depth);
    } else if name == STD_CONCAT@ {
        lemma_concat_deeper(args, 0, Seq::empty(), scope, depth);
    } else if name == STD_REPEAT@ {
        lemma_repeat_deeper(args, scope, depth);
    } else if name == STD_LOOP@ {
        lemma_inf_loop_deeper(args, scope, depth);
    } else {
        match lookup(scope, name) {
            Some(binding) => match binding.body {
                Tree::Form(inner, stored) => {
                    lemma_compile_deeper(Tree::Form(inner, stored + args), scope, depth);
                },
                _ => {},
            },
            None => {},
        }
    }
}

/// [`block`] at one more level.
pub proof fn lemma_block_deeper(items: Seq<Tree>, from: int, scope: Seq<Binding>, depth: nat)
    requires
        deep_enough(block(items, from, scope, depth)),
    ensures
        block(items, from, scope, depth + 1) == block(items, from, scope, depth),
    decreases depth, 1nat, items.len() - from,
{
    if 0 <= from < items.len() {
        let step = compile(items[from], scope, depth);
        lemma_compile_deeper(items[from], scope, depth);
        if !(from + 1 == items.len() || step.result is Err) {
            lemma_block_deeper(items, from + 1, step.scope, depth);
        }
    }
}

/// [`define`] at one more level.
pub proof fn lemma_define_deeper(args: Seq<Tree>, scope: Seq<Binding>, depth: nat, exported: bool)
    requires
        deep_enough(define(args, scope, depth, exported)),
    ensures
        define(args, scope, depth + 1, exported) == define(args, scope, depth, exported),
    decreases depth, 1nat, 1nat,
{
    lemma_arg_symbol_deeper(args, 0, scope, depth);
}

/// [`number_list`] at one more level.
pub proof fn lemma_number_list_deeper(
    items: Seq<Tree>,
    from: int,
    sofar: Seq<Decimal>,
    scope: Seq<Binding>,
    depth: nat,
)
    requires
        deep_enough(number_list(items, from, sofar, scope, depth)),
    ensures
        number_list(items, from, sofar, scope, depth + 1) == number_list(
            items,
            from,
            sofar,
            scope,
            depth,
        ),
    decreases depth, 1nat, items.len() - from,
{
    if 0 <= from < items.len() {
        let step = compile(items[from], scope, depth);
        lemma_compile_deeper(items[from], scope, depth);
        match step.result {
            Ok(Value::NumberList(list)) => {
                lemma_number_list_deeper(items, from + 1, sofar + list, step.scope, depth);
            },
            _ => {},
        }
    }
}

/// [`arg_symbol`] at one more level.
pub proof fn lemma_arg_symbol_deeper(args: Seq<Tree>, at: int, scope: Seq<Binding>, depth: nat)
    requires
        deep_enough(arg_symbol(args, at, scope, depth)),
    ensures
        arg_symbol(args, at, scope, depth + 1) == arg_symbol(args, at, scope, depth),
    decreases depth, 1nat, 0nat,
{
    if 0 <= at < args.len() {
        lemma_compile_deeper(args[at], scope, depth);
    }
}

/// [`arg_number`] at one more level.
pub proof fn lemma_arg_number_deeper(args: Seq<Tree>, at: int, scope: Seq<Binding>, depth: nat)
    requires
        deep_enough(arg_number(args, at, scope, depth)),
    ensures
        arg_number(args, at, scope, depth + 1) == arg_number(args, at, scope, depth),
    decreases depth, 1nat, 0nat,
{
    if 0 <= at < args.len() {
        lemma_compile_deeper(args[at], scope, depth);
    }
}

/// [`arg_number_list`] at one more level.
pub proof fn lemma_arg_number_list_deeper(
    args: Seq<Tree>,
    at: int,
    scope: Seq<Binding>,
    depth: nat,
)
    requires
        deep_enough(arg_number_list(args, at, scope, depth)),
    ensures
        arg_number_list(args, at, scope, depth + 1) == arg_number_list(args, at, scope, depth),
    decreases depth, 1nat, 0nat,
{
    if 0 <= at < args.len() {
        lemma_compile_deeper(args[at], scope, depth);
    }
}

/// [`arg_envelope_fn`] at one more level.
pub proof fn lemma_arg_envelope_fn_deeper(
    args: Seq<Tree>,
    at: int,
    scope: Seq<Binding>,
    depth: nat,
)
    requires
        deep_enough(arg_envelope_fn(args, at, scope, depth)),
    ensures
        arg_envelope_fn(args, at, scope, depth + 1) == arg_envelope_fn(args, at, scope, depth),
    decreases depth, 1nat, 0nat,
{
    if 0 <= at < args.len() {
        lemma_compile_deeper(args[at], scope, depth);
    }
}

/// [`hold`] at one more level.
pub proof fn lemma_hold_deeper(args: Seq<Tree>, scope: Seq<Binding>, depth: nat)
    requires
        deep_enough(hold(args, scope, depth)),
    ensures
        hold(args, scope, depth + 1) == hold(args, scope, depth),
    decreases depth, 1nat, 1nat,
{
    let value = arg_number_list(args, 0, scope, depth);
    lemma_arg_number_list_deeper(args, 0, scope, depth);
    if value.result is Ok {
        lemma_arg_number_deeper(args, 1, value.scope, depth);
    }
}

/// [`linear`] at one more level.
pub proof fn lemma_linear_deeper(args: Seq<Tree>, scope: Seq<Binding>, depth: nat)
    requires
        deep_enough(linear(args, scope, depth)),
    ensures
        linear(args, scope, depth + 1) == linear(args, scope, depth),
    decreases depth, 1nat, 1nat,
{
    let from = arg_number_list(args, 0, scope, depth);
    lemma_arg_number_list_deeper(args, 0, scope, depth);
    if from.result is Ok {
        let to = arg_number_list(args, 1, from.scope, depth);
        lemma_arg_number_list_deeper(args, 1, from.scope, depth);
        if to.result is Ok {
            lemma_arg_number_deeper(args, 2, to.scope, depth);
        }
    }
}

/// [`concat`] at one more level.
pub proof fn lemma_concat_deeper(
    args: Seq<Tree>,
    from: int,
    sofar: Seq<Curve>,
    scope: Seq<Binding>,
    depth: nat,
)
    requires
        deep_enough(concat(args, from, sofar, scope, depth)),
    ensures
        concat(args, from, sofar, scope, depth + 1) == concat(args, from, sofar, scope, depth),
    decreases depth, 1nat, args.len() - from,
{
    if 0 <= from < args.len() {
        let step = compile(args[from], scope, depth);
        lemma_compile_deeper(args[from], scope, depth);
        match step.result {
            Ok(Value::Envelope(curve)) => {
                lemma_concat_deeper(args, from + 1, sofar.push(curve), step.scope, depth);
            },
            _ => {},
        }
    }
}

/// [`repeat`] at one more level.
pub proof fn lemma_repeat_deeper(args: Seq<Tree>, scope: Seq<Binding>, depth: nat)
    requires
        deep_enough(repeat(args, scope, depth)),
    ensures
        repeat(args, scope, depth + 1) == repeat(args, scope, depth),
    decreases depth, 1nat, 1nat,
{
    let count = arg_number(args, 0, scope, depth);
    lemma_arg_number_deeper(args, 0, scope, depth);
    if count.result is Ok {
        lemma_arg_envelope_fn_deeper(args, 1, count.scope, depth);
    }
}

/// [`inf_loop`] at one more level.
pub proof fn lemma_inf_loop_deeper(args: Seq<Tree>, scope: Seq<Binding>, depth: nat)
    requires
        deep_enough(inf_loop(args, scope, depth)),
    ensures
        inf_loop(args, scope, depth + 1) == inf_loop(args, scope, depth),
    decreases depth, 1nat, 1nat,
{
    lemma_arg_envelope_fn_deeper(args, 0, scope, depth);
}

/// A compilation that does not fail with `TooDeep` is the same at every
/// greater depth.
pub proof fn law_depth_is_enough(expr: Tree, scope: Seq<Binding>, depth: nat, more: nat)
    requires
        deep_enough(compile(expr, scope, depth)),
        more >= depth,
    ensures
        compile(expr, scope, more) == compile(expr, scope, depth),
    decreases more - depth,
{
    if more > depth {
        law_depth_is_enough(expr, scope, depth, (more - 1) as nat);
        lemma_compile_deeper(expr, scope, (more - 1) as nat);
    }
}

/// Applying a bound form in part is compiling the form with the new
/// arguments after its own: where `name` is no keyword and no standard form
/// and is bound to `inner(stored)`, and `inner(stored, args)` compiles at
/// `depth` without failing for want of depth, the call `name(args)` compiles
/// to the same at every greater depth.
pub proof fn law_partial_application_is_application(
    name: Seq<char>,
    args: Seq<Tree>,
    inner: Seq<char>,
    stored: Seq<Tree>,
    scope: Seq<Binding>,
    depth: nat,
    more: nat,
)
    requires
        !crate::semantics::is_keyword(name),
        !crate::semantics::is_standard(name),
        lookup(scope, name) is Some,
        lookup(scope, name)->Some_0.body == Tree::Form(inner, stored),
        deep_enough(compile(Tree::Form(inner, stored + args), scope, depth)),
        more > depth,
    ensures
        compile(Tree::Form(name, args), scope, more) == compile(
            Tree::Form(inner, stored + args),
            scope,
            depth,
        ),
{
    reveal_with_fuel(compile, 2);
    assert(compile(Tree::Form(name, args), scope, depth + 1) == compile(
        Tree::Form(inner, stored + args),
        scope,
        depth,
    ));
    law_depth_is_enough(Tree::Form(name, args), scope, depth + 1, more);
}

/// [`exports`] at one more level.
pub proof fn lemma_exports_deeper(
    scope: Seq<Binding>,
    from: int,
    sofar: Seq<(Seq<char>, Curve)>,
    depth: nat,
)
    requires
        exports(scope, from, sofar, depth) != Err::<Seq<(Seq<char>, Curve)>, Failure>(
            Failure::TooDeep,
        ),
    ensures
        exports(scope, from, sofar, depth + 1) == exports(scope, from, sofar, depth),
    decreases scope.len() - from,
{
    if 0 <= from < scope.len() {
        if !scope[from].exported {
            lemma_exports_deeper(scope, from + 1, sofar, depth);
        } else {
            lemma_compile_deeper(scope[from].body, scope, depth);
            match compile(scope[from].body, scope, depth).result {
                Ok(Value::Envelope(curve)) => {
                    lemma_exports_deeper(
                        scope,
                        from + 1,
                        sofar.push((scope[from].name, curve)),
                        depth,
                    );
                },
                _ => {},
            }
        }
    }
}

/// A build that does not fail with `TooDeep` is the same at every greater
/// depth.
pub proof fn law_build_depth_is_enough(program: Tree, depth: nat, more: nat)
    requires
        build(program, depth) != Err::<Seq<(Seq<char>, Curve)>, Failure>(Failure::TooDeep),
        more >= depth,
    ensures
        build(program, more) == build(program, depth),
    decreases more - depth,
{
    if more > depth {
        law_build_depth_is_enough(program, depth, (more - 1) as nat);
        let below = (more - 1) as nat;
        lemma_compile_deeper(program, Seq::empty(), below);
        let top = compile(program, Seq::empty(), below);
        if top.result is Ok {
            lemma_exports_deeper(top.scope, 0, Seq::empty(), below);
        }
    }
}

} // verus!

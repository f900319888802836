//! A scope binds each name once: compiling in a scope that does so leaves a
//! scope that does so, and a build hands out each name once.

use crate::ast::{Tree, KW_ARRAY, KW_BLOCK, KW_DEFINE, KW_EXPORT, KW_ROOT};
use crate::envelope::Curve;
use crate::number::Decimal;
use crate::semantics::{
    arg_envelope_fn, arg_number, arg_number_list, arg_symbol, bind, block, build, compile, concat,
    define, exports, form, lookup, number_list, position, unique_names, Binding, Value,
};
use crate::semantics::{STD_CONCAT, STD_HOLD, STD_LINEAR, STD_LOOP, STD_REPEAT};
use vstd::prelude::*;

verus! {

/// What [`position`] finds: a place that binds the name, before which no
/// place does.
pub proof fn lemma_position(scope: Seq<Binding>, name: Seq<char>, from: int)
    requires
        0 <= from <= scope.len(),
    ensures
        from <= position(scope, name, from) <= scope.len(),
        position(scope, name, from) < scope.len() ==> scope[position(scope, name, from)].name
            == name,
        forall|i: int| from <= i < position(scope, name, from) ==> (#[trigger] scope[i]).name != name,
    decreases scope.len() - from,
{
    if from < scope.len() && scope[from].name != name {
        lemma_position(scope, name, from + 1);
    }
}

/// Binding a name keeps every name bound once.
pub proof fn lemma_bind_unique(scope: Seq<Binding>, binding: Binding)
    requires
        unique_names(scope),
    ensures
        unique_names(bind(scope, binding)),
{
    lemma_position(scope, binding.name, 0);
}

/// A name that was just bound is bound to what it was bound to, and every
/// other name is bound as before.
pub proof fn law_bind_then_lookup(scope: Seq<Binding>, binding: Binding, name: Seq<char>)
    ensures
        lookup(bind(scope, binding), binding.name) == Some(binding),
        name != binding.name ==> lookup(bind(scope, binding), name) == lookup(scope, name),
{
    let after = bind(scope, binding);
    lemma_position(scope, binding.name, 0);
    lemma_position(after, binding.name, 0);
    lemma_position(scope, name, 0);
    lemma_position(after, name, 0);
    let at = position(scope, binding.name, 0);
    let found = position(after, binding.name, 0);
    if found != at {
        if found < at {
            assert(after[found].name == scope[found].name);
        } else {
            assert(after[at].name == binding.name);
        }
    }
    if name != binding.name {
        let before_at = position(scope, name, 0);
        let after_at = position(after, name, 0);
        if before_at < scope.len() {
            assert(after[before_at].name == name);
            if after_at < before_at {
                assert(scope[after_at].name == after[after_at].name);
            }
        } else {
            if after_at < after.len() {
                if after_at < scope.len() {
                    assert(scope[after_at].name == after[after_at].name);
                }
            }
        }
    }
}

/// [`compile`] keeps every name bound once.
pub proof fn lemma_compile_unique(expr: Tree, scope: Seq<Binding>, depth: nat)
    requires
        unique_names(scope),
    ensures
        unique_names(compile(expr, scope, depth).scope),
    decreases depth, 0nat, 0nat,
{
    if depth > 0 {
        match expr {
            Tree::Symbol(name) => match lookup(scope, name) {
                Some(binding) => {
                    lemma_compile_unique(binding.body, scope, (depth - 1) as nat);
                },
                None => {},
            },
            Tree::Form(keyword, args) => {
                lemma_form_unique(keyword, args, scope, (depth - 1) as nat);
            },
            _ => {},
        }
    }
}

/// [`form`] keeps every name bound once.
pub proof fn lemma_form_unique(name: Seq<char>, args: Seq<Tree>, scope: Seq<Binding>, depth: nat)
    requires
        unique_names(scope),
    ensures
        unique_names(form(name, args, scope, depth).scope),
    decreases depth, 2nat, 0nat,
{
    if name == KW_ROOT@ {
        lemma_block_unique(args, 0, scope, depth);
    } else if name == KW_BLOCK@ {
    } else if name == KW_DEFINE@ {
        lemma_define_unique(args, scope, depth, false);
    } else if name == KW_EXPORT@ {
        lemma_define_unique(args, scope, depth, true);
    } else if name == KW_ARRAY@ {
        lemma_number_list_unique(args, 0, Seq::empty(), scope, depth);
    } else if name == STD_HOLD@ {
        lemma_arg_number_list_unique(args, 0, scope, depth);
        lemma_arg_number_unique(args, 1, arg_number_list(args, 0, scope, depth).scope, depth);
    } else if name == STD_LINEAR@ {
        let from = arg_number_list(args, 0, scope, depth);
        lemma_arg_number_list_unique(args, 0, scope, depth);
        let to = arg_number_list(args, 1, from.scope, depth);
        lemma_arg_number_list_unique(args, 1, from.scope, depth);
        lemma_arg_number_unique(args, 2, to.scope, depth);
    } else if name == STD_CONCAT@ {
        lemma_concat_unique(args, 0, Seq::empty(), scope, depth);
    } else if name == STD_REPEAT@ {
        lemma_arg_number_unique(args, 0, scope, depth);
        lemma_arg_envelope_fn_unique(args, 1, arg_number(args, 0, scope, depth).scope, depth);
    } else if name == STD_LOOP@ {
        lemma_arg_envelope_fn_unique(args, 0, scope, depth);
    } else {
        match lookup(scope, name) {
            Some(binding) => match binding.body {
                Tree::Form(inner, stored) => {
                    lemma_compile_unique(Tree::Form(inner, stored + args), scope, depth);
                },
                _ => {},
            },
            None => {},
        }
    }
}

/// [`block`] keeps every name bound once.
pub proof fn lemma_block_unique(items: Seq<Tree>, from: int, scope: Seq<Binding>, depth: nat)
    requires
        unique_names(scope),
    ensures
        unique_names(block(items, from, scope, depth).scope),
    decreases depth, 1nat, items.len() - from,
{
    if 0 <= from < items.len() {
        let step = compile(items[from], scope, depth);
        lemma_compile_unique(items[from], scope, depth);
        if !(from + 1 == items.len() || step.result is Err) {
            lemma_block_unique(items, from + 1, step.scope, depth);
        }
    }
}

/// [`define`] keeps every name bound once.
pub proof fn lemma_define_unique(args: Seq<Tree>, scope: Seq<Binding>, depth: nat, exported: bool)
    requires
        unique_names(scope),
    ensures
        unique_names(define(args, scope, depth, exported).scope),
    decreases depth, 1nat, 1nat,
{
    let name = arg_symbol(args, 0, scope, depth);
    if 0 < args.len() {
        lemma_compile_unique(args[0], scope, depth);
    }
    match name.result {
        Ok(text) => {
            if args.len() >= 2 {
                lemma_bind_unique(name.scope, Binding { name: text, body: args[1], exported });
            }
        },
        Err(_) => {},
    }
}

/// [`number_list`] keeps every name bound once.
pub proof fn lemma_number_list_unique(
    items: Seq<Tree>,
    from: int,
    sofar: Seq<Decimal>,
    scope: Seq<Binding>,
    depth: nat,
)
    requires
        unique_names(scope),
    ensures
        unique_names(number_list(items, from, sofar, scope, depth).scope),
    decreases depth, 1nat, items.len() - from,
{
    if 0 <= from < items.len() {
        let step = compile(items[from], scope, depth);
        lemma_compile_unique(items[from], scope, depth);
        match step.result {
            Ok(Value::NumberList(list)) => {
                lemma_number_list_unique(items, from + 1, sofar + list, step.scope, depth);
            },
            _ => {},
        }
    }
}

/// [`arg_number`] keeps every name bound once.
pub proof fn lemma_arg_number_unique(args: Seq<Tree>, at: int, scope: Seq<Binding>, depth: nat)
    requires
        unique_names(scope),
    ensures
        unique_names(arg_number(args, at, scope, depth).scope),
    decreases depth, 1nat, 0nat,
{
    if 0 <= at < args.len() {
        lemma_compile_unique(args[at], scope, depth);
    }
}

/// [`arg_number_list`] keeps every name bound once.
pub proof fn lemma_arg_number_list_unique(
    args: Seq<Tree>,
    at: int,
    scope: Seq<Binding>,
    depth: nat,
)
    requires
        unique_names(scope),
    ensures
        unique_names(arg_number_list(args, at, scope, depth).scope),
    decreases depth, 1nat, 0nat,
{
    if 0 <= at < args.len() {
        lemma_compile_unique(args[at], scope, depth);
    }
}

/// [`arg_envelope_fn`] keeps every name bound once.
pub proof fn lemma_arg_envelope_fn_unique(
    args: Seq<Tree>,
    at: int,
    scope: Seq<Binding>,
    depth: nat,
)
    requires
        unique_names(scope),
    ensures
        unique_names(arg_envelope_fn(args, at, scope, depth).scope),
    decreases depth, 1nat, 0nat,
{
    if 0 <= at < args.len() {
        lemma_compile_unique(args[at], scope, depth);
    }
}

/// [`concat`] keeps every name bound once.
pub proof fn lemma_concat_unique(
    args: Seq<Tree>,
    from: int,
    sofar: Seq<Curve>,
    scope: Seq<Binding>,
    depth: nat,
)
    requires
        unique_names(scope),
    ensures
        unique_names(concat(args, from, sofar, scope, depth).scope),
    decreases depth, 1nat, args.len() - from,
{
    if 0 <= from < args.len() {
        let step = compile(args[from], scope, depth);
        lemma_compile_unique(args[from], scope, depth);
        match step.result {
            Ok(Value::Envelope(curve)) => {
                lemma_concat_unique(args, from + 1, sofar.push(curve), step.scope, depth);
            },
            _ => {},
        }
    }
}

/// What [`exports`] adds to `sofar` holds, in order, the names of the
/// exported bindings from `from` on.
pub proof fn lemma_exports_names(
    scope: Seq<Binding>,
    from: int,
    sofar: Seq<(Seq<char>, Curve)>,
    depth: nat,
)
    requires
        0 <= from <= scope.len(),
        unique_names(scope),
        forall|i: int, j: int|
            0 <= i < j < sofar.len() ==> (#[trigger] sofar[i]).0 != (#[trigger] sofar[j]).0,
        forall|i: int, k: int|
            0 <= i < sofar.len() && from <= k < scope.len() ==> (#[trigger] sofar[i]).0
                != (#[trigger] scope[k]).name,
    ensures
        exports(scope, from, sofar, depth) matches Ok(list) ==> forall|i: int, j: int|
            0 <= i < j < list.len() ==> (#[trigger] list[i]).0 != (#[trigger] list[j]).0,
    decreases scope.len() - from,
{
    if from < scope.len() {
        if !scope[from].exported {
            lemma_exports_names(scope, from + 1, sofar, depth);
        } else {
            match compile(scope[from].body, scope, depth).result {
                Ok(Value::Envelope(curve)) => {
                    let next = sofar.push((scope[from].name, curve));
                    assert forall|i: int, j: int| 0 <= i < j < next.len() implies (
                    #[trigger] next[i]).0 != (#[trigger] next[j]).0 by {
                        if j == sofar.len() {
                            assert(sofar[i].0 != scope[from].name);
                        }
                    }
                    assert forall|i: int, k: int|
                        0 <= i < next.len() && from + 1 <= k < scope.len() implies (
                    #[trigger] next[i]).0 != (#[trigger] scope[k]).name by {
                        if i == sofar.len() {
                            assert(scope[from].name != scope[k].name);
                        } else {
                            assert(sofar[i].0 != scope[k].name);
                        }
                    }
                    lemma_exports_names(scope, from + 1, next, depth);
                },
                _ => {},
            }
        }
    }
}

/// A build hands out no name twice.
pub proof fn law_build_names_unique(program: Tree, depth: nat)
    ensures
        build(program, depth) matches Ok(list) ==> forall|i: int, j: int|
            0 <= i < j < list.len() ==> (#[trigger] list[i]).0 != (#[trigger] list[j]).0,
{
    let top = compile(program, Seq::empty(), depth);
    lemma_compile_unique(program, Seq::empty(), depth);
    if top.result is Ok {
        lemma_exports_names(top.scope, 0, Seq::empty(), depth);
    }
}

/// Whether `scope` holds an exported binding of `name`.
pub open spec fn exports_name(scope: Seq<Binding>, name: Seq<char>) -> bool {
    exists|k: int| 0 <= k < scope.len() && (#[trigger] scope[k]).exported && scope[k].name == name
}

/// What [`exports`] adds to `sofar` are names that `scope` exports.
pub proof fn lemma_exports_are_exported(
    scope: Seq<Binding>,
    from: int,
    sofar: Seq<(Seq<char>, Curve)>,
    depth: nat,
)
    requires
        0 <= from <= scope.len(),
        forall|i: int| 0 <= i < sofar.len() ==> exports_name(scope, (#[trigger] sofar[i]).0),
    ensures
        exports(scope, from, sofar, depth) matches Ok(list) ==> forall|i: int|
            0 <= i < list.len() ==> exports_name(scope, (#[trigger] list[i]).0),
    decreases scope.len() - from,
{
    if from < scope.len() {
        if !scope[from].exported {
            lemma_exports_are_exported(scope, from + 1, sofar, depth);
        } else {
            match compile(scope[from].body, scope, depth).result {
                Ok(Value::Envelope(curve)) => {
                    let next = sofar.push((scope[from].name, curve));
                    assert forall|i: int| 0 <= i < next.len() implies exports_name(
                        scope,
                        (#[trigger] next[i]).0,
                    ) by {
                        if i == sofar.len() {
                            assert(scope[from].exported && scope[from].name == next[i].0);
                        } else {
                            assert(next[i] == sofar[i]);
                        }
                    }
                    lemma_exports_are_exported(scope, from + 1, next, depth);
                },
                _ => {},
            }
        }
    }
}

/// A build hands out only names that the program exports: names with an
/// exported binding in the scope that compiling the program leaves.
pub proof fn law_build_names_exported(program: Tree, depth: nat)
    ensures
        build(program, depth) matches Ok(list) ==> forall|i: int|
            0 <= i < list.len() ==> exports_name(
                compile(program, Seq::empty(), depth).scope,
                (#[trigger] list[i]).0,
            ),
{
    let top = compile(program, Seq::empty(), depth);
    if top.result is Ok {
        lemma_exports_are_exported(top.scope, 0, Seq::empty(), depth);
    }
}

/// Whether `list` holds `name`.
pub open spec fn hands_out(list: Seq<(Seq<char>, Curve)>, name: Seq<char>) -> bool {
    exists|i: int| 0 <= i < list.len() && (#[trigger] list[i]).0 == name
}

/// What [`exports`] yields holds all of `sofar` and the name of every
/// exported binding from `from` on.
pub proof fn lemma_exports_are_complete(
    scope: Seq<Binding>,
    from: int,
    sofar: Seq<(Seq<char>, Curve)>,
    depth: nat,
)
    requires
        0 <= from <= scope.len(),
    ensures
        exports(scope, from, sofar, depth) matches Ok(list) ==> {
            &&& forall|i: int| 0 <= i < sofar.len() ==> hands_out(list, (#[trigger] sofar[i]).0)
            &&& forall|k: int|
                from <= k < scope.len() && (#[trigger] scope[k]).exported ==> hands_out(
                    list,
                    scope[k].name,
                )
        },
    decreases scope.len() - from,
{
    if from < scope.len() {
        if !scope[from].exported {
            lemma_exports_are_complete(scope, from + 1, sofar, depth);
        } else {
            match compile(scope[from].body, scope, depth).result {
                Ok(Value::Envelope(curve)) => {
                    let next = sofar.push((scope[from].name, curve));
                    lemma_exports_are_complete(scope, from + 1, next, depth);
                    match exports(scope, from, sofar, depth) {
                        Ok(list) => {
                            assert forall|i: int| 0 <= i < sofar.len() implies hands_out(
                                list,
                                (#[trigger] sofar[i]).0,
                            ) by {
                                assert(next[i] == sofar[i]);
                            }
                            assert(next[sofar.len() as int].0 == scope[from].name);
                        },
                        Err(_) => {},
                    }
                },
                _ => {},
            }
        }
    } else {
        assert forall|i: int| 0 <= i < sofar.len() implies hands_out(
            sofar,
            (#[trigger] sofar[i]).0,
        ) by {}
    }
}

/// A build hands out every name that the program exports.
pub proof fn law_build_names_complete(program: Tree, depth: nat, name: Seq<char>)
    requires
        build(program, depth) is Ok,
        exports_name(compile(program, Seq::empty(), depth).scope, name),
    ensures
        hands_out(build(program, depth)->Ok_0, name),
{
    let top = compile(program, Seq::empty(), depth);
    lemma_exports_are_complete(top.scope, 0, Seq::empty(), depth);
}

} // verus!

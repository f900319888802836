use boenthoescript::ast::{Expr, KW_ARRAY, KW_BLOCK, KW_DEFINE, KW_EXPORT, KW_ROOT};
use boenthoescript::compiler::{build, compile, Build, BuildError, Env, DEPTH_LIMIT};
use boenthoescript::envelope::{Concat, Duration, Envelope, Hold, Linear, Loop, Repeat};
use boenthoescript::number::Number;
use boenthoescript::vector::Vector;

fn n(value: u8) -> Number {
    Number::from_digits(false, vec![value], vec![]).unwrap()
}

fn num(value: u8) -> Expr {
    Expr::from(n(value))
}

fn num_list() -> Expr {
    Expr::list("hold", vec![num(1), num(1)])
}

fn name(text: &str) -> Expr {
    Expr::from(text)
}

fn run(expr: Expr) -> Result<Build, BuildError> {
    let mut env = Env::new();
    compile(&expr, &mut env, DEPTH_LIMIT)
}

fn hold_of(value: Vec<Number>, duration: Number) -> Envelope {
    Envelope::Hold(Hold::new(duration, Vector::from(value)))
}

#[test]
fn build1() {
    let ast = Expr::list(
        KW_BLOCK,
        vec![
            Expr::list(KW_DEFINE, vec!["length".into(), n(4).into()]),
            Expr::list(KW_DEFINE, vec!["value".into(), n(1).into()]),
            Expr::list("hold", vec!["length".into(), "value".into()]),
        ],
    );

    let mut env = Env::new();
    let result = compile(&ast, &mut env, DEPTH_LIMIT);

    // `hold` takes the value first and the duration second, so the value is
    // what `length` stands for and the duration what `value` stands for.
    match result {
        Ok(c) => match c {
            Build::EnvelopeFn(Envelope::Hold(f)) => {
                assert_eq!(f.get_value(&n(0)).to_f(), n(4));
                assert_eq!(f.get_duration(), Duration::Finite(n(1)));
            }
            _ => panic!("Not a compiled function"),
        },
        _ => panic!("Failure of life"),
    }
    assert_eq!(env.len(), 0);
}

#[test]
fn symbol_compiles_to_what_it_is_bound_to() {
    let mut env = Env::new();
    env.insert("a".to_string(), num(7), false);
    assert_eq!(compile(&name("a"), &mut env, 5), Ok(Build::NumberList(vec![n(7)])));
    assert_eq!(compile(&name("b"), &mut env, 5), Ok(Build::Symbol("b".to_string())));
}

#[test]
fn comment_compiles_to_nothing() {
    assert_eq!(run(Expr::Comment("x".to_string())), Ok(Build::Nil));
}

#[test]
fn empty_program_compiles_to_nothing() {
    assert_eq!(run(Expr::list(KW_ROOT, vec![])), Ok(Build::Nil));
    assert_eq!(run(Expr::list(KW_BLOCK, vec![])), Ok(Build::Nil));
    assert_eq!(build(Expr::list(KW_ROOT, vec![])), Ok(vec![]));
}

#[test]
fn define_yields_its_body_and_binds_the_name() {
    let mut env = Env::new();
    let body = Expr::list("hold", vec![num(1)]);
    let ast = Expr::list(KW_DEFINE, vec![name("x"), body.clone()]);
    assert_eq!(compile(&ast, &mut env, 5), Ok(Build::Partial(body.clone())));
    assert_eq!(env.len(), 1);
    let var = env.get("x").unwrap();
    assert_eq!(var.expr, body);
    assert!(!var.is_export);
}

#[test]
fn block_keeps_its_definitions_to_itself() {
    let mut env = Env::new();
    let ast = Expr::list(
        KW_BLOCK,
        vec![Expr::list(KW_DEFINE, vec![name("x"), num(1)]), name("x")],
    );
    assert_eq!(compile(&ast, &mut env, 5), Ok(Build::NumberList(vec![n(1)])));
    assert_eq!(env.len(), 0);

    let ast = Expr::list(
        KW_ROOT,
        vec![Expr::list(KW_DEFINE, vec![name("x"), num(1)]), name("x")],
    );
    assert_eq!(compile(&ast, &mut env, 5), Ok(Build::NumberList(vec![n(1)])));
    assert_eq!(env.len(), 1);
}

#[test]
fn array_joins_its_lists() {
    let ast = Expr::list(
        KW_ROOT,
        vec![
            Expr::list(KW_DEFINE, vec![name("a"), Expr::list(KW_ARRAY, vec![num(1), num(2)])]),
            Expr::list(KW_ARRAY, vec![name("a"), num(3), name("a")]),
        ],
    );
    assert_eq!(run(ast), Ok(Build::NumberList(vec![n(1), n(2), n(3), n(1), n(2)])));
}

#[test]
fn array_of_something_else_is_an_invalid_type() {
    let ast = Expr::list(KW_ARRAY, vec![num(1), name("nope")]);
    assert_eq!(
        run(ast),
        Err(BuildError::InvalidType {
            expected: "NumberList".to_string(),
            actual: Build::Symbol("nope".to_string())
        })
    );
}

#[test]
fn define_needs_a_symbol_and_a_body() {
    assert_eq!(run(Expr::list(KW_DEFINE, vec![])), Err(BuildError::MissingArgument));
    assert_eq!(run(Expr::list(KW_DEFINE, vec![name("x")])), Err(BuildError::MissingArgument));
    assert_eq!(
        run(Expr::list(KW_DEFINE, vec![num(1), num(2)])),
        Err(BuildError::InvalidType {
            expected: "Symbol".to_string(),
            actual: Build::NumberList(vec![n(1)])
        })
    );
}

#[test]
fn unknown_call_is_function_not_found() {
    assert_eq!(
        run(Expr::list("nope", vec![num(1)])),
        Err(BuildError::FunctionNotFound("nope".to_string()))
    );
}

#[test]
fn unbound_name_where_a_value_is_needed_is_variable_not_found() {
    assert_eq!(
        run(Expr::list("hold", vec![name("nope"), num(1)])),
        Err(BuildError::VariableNotFound("nope".to_string()))
    );
    assert_eq!(
        run(Expr::list("hold", vec![num(1), name("nope")])),
        Err(BuildError::VariableNotFound("nope".to_string()))
    );
    assert_eq!(
        run(Expr::list("loop", vec![name("nope")])),
        Err(BuildError::VariableNotFound("nope".to_string()))
    );
}

#[test]
fn calling_a_number_is_not_partial() {
    let ast = Expr::list(
        KW_ROOT,
        vec![Expr::list(KW_DEFINE, vec![name("x"), num(1)]), Expr::list("x", vec![num(2)])],
    );
    assert_eq!(run(ast), Err(BuildError::NotPartial(num(1))));
}

#[test]
fn partial_application_appends_the_arguments() {
    let partial = Expr::list(
        KW_ROOT,
        vec![
            Expr::list(KW_DEFINE, vec![name("x"), Expr::list("hold", vec![num(4)])]),
            Expr::list("x", vec![num(1)]),
        ],
    );
    let direct = Expr::list("hold", vec![num(4), num(1)]);
    assert_eq!(run(partial), run(direct));
    assert_eq!(
        run(Expr::list("hold", vec![num(4), num(1)])),
        Ok(Build::EnvelopeFn(hold_of(vec![n(4)], n(1))))
    );
}

#[test]
fn hold_takes_a_list_and_a_single_number() {
    let ast = Expr::list("hold", vec![Expr::list(KW_ARRAY, vec![num(1), num(2)]), num(3)]);
    assert_eq!(run(ast), Ok(Build::EnvelopeFn(hold_of(vec![n(1), n(2)], n(3)))));

    let ast = Expr::list("hold", vec![num(3), Expr::list(KW_ARRAY, vec![num(1), num(2)])]);
    assert_eq!(
        run(ast),
        Err(BuildError::InvalidType {
            expected: "Number".to_string(),
            actual: Build::NumberList(vec![n(1), n(2)])
        })
    );
    assert_eq!(run(Expr::list("hold", vec![num(3)])), Err(BuildError::MissingArgument));
}

#[test]
fn linear_takes_two_lists_and_a_number() {
    let ast = Expr::list("linear", vec![num(1), num(2), num(3)]);
    assert_eq!(
        run(ast),
        Ok(Build::EnvelopeFn(Envelope::Linear(Linear::new(
            n(3),
            Vector::from(n(1)),
            Vector::from(n(2))
        ))))
    );
    assert_eq!(
        run(Expr::list("linear", vec![num(1), num(2)])),
        Err(BuildError::MissingArgument)
    );
}

#[test]
fn concat_takes_envelopes() {
    let ast = Expr::list(
        "concat",
        vec![
            Expr::list("hold", vec![num(0), num(1)]),
            Expr::list("hold", vec![num(5), num(2)]),
        ],
    );
    assert_eq!(
        run(ast),
        Ok(Build::EnvelopeFn(Envelope::Concat(Concat::new(vec![
            hold_of(vec![n(0)], n(1)),
            hold_of(vec![n(5)], n(2))
        ]))))
    );
    assert_eq!(
        run(Expr::list("concat", vec![])),
        Ok(Build::EnvelopeFn(Envelope::Concat(Concat::new(vec![]))))
    );
    assert_eq!(
        run(Expr::list("concat", vec![num(1)])),
        Err(BuildError::InvalidType {
            expected: "EnvelopeFunction".to_string(),
            actual: Build::NumberList(vec![n(1)])
        })
    );
}

#[test]
fn repeat_truncates_its_count() {
    let two_and_a_half = Expr::from(Number::from_digits(false, vec![2], vec![5]).unwrap());
    let ast = Expr::list("repeat", vec![two_and_a_half, Expr::list("hold", vec![num(5), num(2)])]);
    assert_eq!(
        run(ast),
        Ok(Build::EnvelopeFn(Envelope::Repeat(Repeat::new(2, hold_of(vec![n(5)], n(2))))))
    );
    let minus_three = Expr::from(Number::from_digits(true, vec![3], vec![]).unwrap());
    let ast = Expr::list("repeat", vec![minus_three, Expr::list("hold", vec![num(5), num(2)])]);
    assert_eq!(
        run(ast),
        Ok(Build::EnvelopeFn(Envelope::Repeat(Repeat::new(0, hold_of(vec![n(5)], n(2))))))
    );
}

#[test]
fn loop_takes_an_envelope() {
    let ast = Expr::list("loop", vec![Expr::list("hold", vec![num(5), num(2)])]);
    assert_eq!(
        run(ast),
        Ok(Build::EnvelopeFn(Envelope::Loop(Loop::new(hold_of(vec![n(5)], n(2))))))
    );
    assert_eq!(
        run(Expr::list("loop", vec![num(1)])),
        Err(BuildError::InvalidType {
            expected: "EnvelopeFunction".to_string(),
            actual: Build::NumberList(vec![n(1)])
        })
    );
}

#[test]
fn keywords_outrank_bound_names() {
    let mut env = Env::new();
    env.insert("hold".to_string(), Expr::list("loop", vec![]), false);
    assert_eq!(
        compile(&Expr::list("hold", vec![num(4), num(1)]), &mut env, 5),
        Ok(Build::EnvelopeFn(hold_of(vec![n(4)], n(1))))
    );
}

#[test]
fn build_gives_the_exports_in_the_order_of_definition() {
    let ast = Expr::list(
        KW_ROOT,
        vec![
            Expr::list(KW_DEFINE, vec![name("d"), num(2)]),
            Expr::list(KW_EXPORT, vec![name("b"), Expr::list("hold", vec![num(1), name("d")])]),
            Expr::list(KW_DEFINE, vec![name("hidden"), Expr::list("hold", vec![num(9), num(9)])]),
            Expr::list(KW_EXPORT, vec![name("a"), Expr::list("loop", vec![name("b")])]),
        ],
    );
    assert_eq!(
        build(ast),
        Ok(vec![
            ("b".to_string(), hold_of(vec![n(1)], n(2))),
            ("a".to_string(), Envelope::Loop(Loop::new(hold_of(vec![n(1)], n(2))))),
        ])
    );
}

#[test]
fn export_of_something_else_is_an_invalid_type() {
    let ast = Expr::list(KW_ROOT, vec![Expr::list(KW_EXPORT, vec![name("a"), num(1)])]);
    assert_eq!(
        build(ast),
        Err(BuildError::InvalidType {
            expected: "Envelope function".to_string(),
            actual: Build::NumberList(vec![n(1)])
        })
    );
}

#[test]
fn export_sees_later_definitions() {
    let ast = Expr::list(
        KW_ROOT,
        vec![
            Expr::list(KW_EXPORT, vec![name("a"), Expr::list("hold", vec![name("v"), num(1)])]),
            Expr::list(KW_DEFINE, vec![name("v"), num(3)]),
        ],
    );
    assert_eq!(build(ast), Ok(vec![("a".to_string(), hold_of(vec![n(3)], n(1)))]));
}

#[test]
fn a_name_that_stands_for_itself_is_too_deep() {
    let mut env = Env::new();
    env.insert("a".to_string(), name("a"), false);
    assert_eq!(compile(&name("a"), &mut env, DEPTH_LIMIT), Err(BuildError::TooDeep));
    assert_eq!(compile(&name("b"), &mut env, 0), Err(BuildError::TooDeep));
}

#[test]
fn a_form_that_holds_itself_is_too_deep() {
    let mut env = Env::new();
    env.insert("x".to_string(), Expr::list("hold", vec![name("x"), num(1)]), false);
    assert_eq!(compile(&name("x"), &mut env, DEPTH_LIMIT), Err(BuildError::TooDeep));

    let mut env = Env::new();
    env.insert(
        "y".to_string(),
        Expr::list(KW_BLOCK, vec![Expr::list("concat", vec![num_list(), name("y")])]),
        false,
    );
    assert_eq!(compile(&name("y"), &mut env, DEPTH_LIMIT), Err(BuildError::TooDeep));

    let ast = Expr::list(
        KW_ROOT,
        vec![Expr::list(KW_EXPORT, vec![name("z"), Expr::list("loop", vec![name("z")])])],
    );
    assert_eq!(build(ast), Err(BuildError::TooDeep));
}

#[test]
fn depth_counts_names_and_forms() {
    let mut env = Env::new();
    env.insert("a".to_string(), num(1), false);
    // one level for the name, one for what it stands for
    assert_eq!(compile(&name("a"), &mut env, 1), Err(BuildError::TooDeep));
    assert_eq!(compile(&name("a"), &mut env, 2), Ok(Build::NumberList(vec![n(1)])));
    // one level for the form, one for each of its arguments
    let form = Expr::list("hold", vec![num(1), num(2)]);
    assert_eq!(compile(&form, &mut env, 1), Err(BuildError::TooDeep));
    assert_eq!(
        compile(&form, &mut env, 2),
        Ok(Build::EnvelopeFn(hold_of(vec![n(1)], n(2))))
    );
}

#[test]
fn insert_replaces_a_binding_of_the_same_name() {
    let mut env = Env::new();
    env.insert("a".to_string(), num(1), false);
    env.insert("b".to_string(), num(2), false);
    env.insert("a".to_string(), num(3), true);
    assert_eq!(env.len(), 2);
    assert_eq!(env.at(0).name, "a");
    assert_eq!(env.at(0).expr, num(3));
    assert!(env.at(0).is_export);
    assert_eq!(env.at(1).name, "b");
    assert!(env.get("c").is_none());
    assert_eq!(env.clone(), env);
}

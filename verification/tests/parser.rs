use boenthoescript::ast::{Expr, KW_ARRAY, KW_BLOCK, KW_DEFINE, KW_EXPORT, KW_ROOT};
use boenthoescript::grammar::Expectation;
use boenthoescript::number::Number;
use boenthoescript::parser::{expr, expr_list, parse, ParseError};

fn lit(negative: bool, integer: &[u8], fraction: &[u8]) -> Expr {
    Expr::from(Number::from_digits(negative, integer.to_vec(), fraction.to_vec()).unwrap())
}

fn sym(name: &str) -> Expr {
    Expr::from(name)
}

#[test]
fn number_parsing() {
    assert_eq!(expr("123"), Ok(lit(false, &[1, 2, 3], &[])));
    assert_eq!(expr("123.2"), Ok(lit(false, &[1, 2, 3], &[2])));
}

#[test]
fn symbol_parsing() {
    assert_eq!(expr("foobar.zap1"), Ok(sym("foobar.zap1")));
}

#[test]
fn fn_call_parsing() {
    assert_eq!(
        expr("hold(1, 4)"),
        Ok(Expr::list("hold", vec![lit(false, &[1], &[]), lit(false, &[4], &[])]))
    );

    assert_eq!(
        expr("linear(black, red, 1.1)"),
        Ok(Expr::list(
            "linear",
            vec![sym("black"), sym("red"), lit(false, &[1], &[1])]
        ))
    );

    assert_eq!(
        expr("concat(hold(1, 1.0), linear(1, 0, 1.5))"),
        Ok(Expr::list(
            "concat",
            vec![
                Expr::list("hold", vec![lit(false, &[1], &[]), lit(false, &[1], &[])]),
                Expr::list(
                    "linear",
                    vec![lit(false, &[1], &[]), lit(false, &[], &[]), lit(false, &[1], &[5])]
                )
            ]
        ))
    );
}

#[test]
fn define_parsing() {
    assert_eq!(
        expr("pi = 3.14"),
        Ok(Expr::list(KW_DEFINE, vec![sym("pi"), lit(false, &[3], &[1, 4])]))
    );

    assert_eq!(
        expr("off = hold(0)"),
        Ok(Expr::list(
            KW_DEFINE,
            vec![sym("off"), Expr::List("hold".into(), vec![lit(false, &[], &[])])]
        ))
    );
}

#[test]
fn expr_list_parsing() {
    assert_eq!(
        expr_list(
            "a = 1\n\
             b = 2\n\
             c = add(a, b)"
        ),
        Ok(vec![
            Expr::list(KW_DEFINE, vec![sym("a"), lit(false, &[1], &[])]),
            Expr::list(KW_DEFINE, vec![sym("b"), lit(false, &[2], &[])]),
            Expr::list(
                KW_DEFINE,
                vec![sym("c"), Expr::list("add", vec![sym("a"), sym("b")])]
            )
        ])
    )
}

#[test]
fn scope_parsing() {
    assert_eq!(
        expr_list(
            "a = 1\n\
             b = {\n\
                foo([a, 2])\n\
             }"
        ),
        Ok(vec![
            Expr::list(KW_DEFINE, vec![sym("a"), lit(false, &[1], &[])]),
            Expr::list(
                KW_DEFINE,
                vec![
                    sym("b"),
                    Expr::list(
                        KW_BLOCK,
                        vec![Expr::list(
                            "foo",
                            vec![Expr::list(KW_ARRAY, vec![sym("a"), lit(false, &[2], &[])])]
                        )]
                    )
                ]
            )
        ])
    )
}

#[test]
fn parsing_the_same_text_twice_gives_the_same_tree() {
    let text = "// a curve\nout x = concat(hold([1, 2], 1), linear(0, 1, 2.5))\n";
    assert_eq!(parse(text), parse(text));
    assert!(parse(text).is_ok());
}

#[test]
fn script_holds_its_statements_in_a_root_form() {
    assert_eq!(
        parse("  a = 1\n\tout b = a\n"),
        Ok(Expr::list(
            KW_ROOT,
            vec![
                Expr::list(KW_DEFINE, vec![sym("a"), lit(false, &[1], &[])]),
                Expr::list(KW_EXPORT, vec![sym("b"), sym("a")]),
            ]
        ))
    );
}

#[test]
fn export_needs_no_space_after_out() {
    assert_eq!(
        parse("outx = 1"),
        Ok(Expr::list(
            KW_ROOT,
            vec![Expr::list(KW_EXPORT, vec![sym("x"), lit(false, &[1], &[])])]
        ))
    );
}

#[test]
fn out_alone_is_a_name() {
    assert_eq!(
        parse("out = 5"),
        Ok(Expr::list(
            KW_ROOT,
            vec![Expr::list(KW_DEFINE, vec![sym("out"), lit(false, &[5], &[])])]
        ))
    );
}

#[test]
fn export_is_a_statement_only() {
    assert_eq!(
        expr("out x = 1"),
        Err(ParseError { line: 0, column: 3, offset: 3, expected: Expectation::End })
    );
}

#[test]
fn comment_ends_with_its_newline() {
    assert_eq!(expr("// hello\n"), Ok(Expr::Comment(" hello".to_string())));
    assert_eq!(
        expr("// hello"),
        Err(ParseError { line: 0, column: 0, offset: 0, expected: Expectation::Expression })
    );
}

#[test]
fn comment_may_hold_any_character() {
    assert_eq!(expr("//\u{e9}\u{4e16}\n"), Ok(Expr::Comment("\u{e9}\u{4e16}".to_string())));
}

#[test]
fn signed_numbers() {
    assert_eq!(expr("-12.50"), Ok(lit(true, &[1, 2], &[5])));
    assert_eq!(expr("+7"), Ok(lit(false, &[7], &[])));
    assert_eq!(expr("007.100"), Ok(lit(false, &[7], &[1])));
    assert_eq!(expr("-0"), Ok(lit(false, &[], &[])));
}

#[test]
fn point_without_digits_is_not_part_of_the_number() {
    assert_eq!(
        expr("1."),
        Err(ParseError { line: 0, column: 1, offset: 1, expected: Expectation::End })
    );
    assert_eq!(
        expr_list("1 .5"),
        Err(ParseError { line: 0, column: 1, offset: 1, expected: Expectation::ExpressionOrEnd })
    );
}

#[test]
fn symbol_starts_with_a_letter() {
    assert_eq!(expr("a_b.C9"), Ok(sym("a_b.C9")));
    assert_eq!(
        expr("_a"),
        Err(ParseError { line: 0, column: 0, offset: 0, expected: Expectation::Expression })
    );
}

#[test]
fn call_allows_spaces_before_its_bracket_but_no_newline() {
    assert_eq!(
        expr("hold \t( 1,\n 2 )"),
        Ok(Expr::list("hold", vec![lit(false, &[1], &[]), lit(false, &[2], &[])]))
    );
    assert_eq!(
        expr("hold\n(1)"),
        Err(ParseError { line: 0, column: 4, offset: 4, expected: Expectation::End })
    );
}

#[test]
fn no_blank_before_a_comma() {
    assert_eq!(
        expr("hold(1 , 4)"),
        Err(ParseError { line: 0, column: 4, offset: 4, expected: Expectation::End })
    );
}

#[test]
fn call_and_array_need_an_argument() {
    assert_eq!(
        expr("foo()"),
        Err(ParseError { line: 0, column: 3, offset: 3, expected: Expectation::End })
    );
    assert_eq!(
        expr("[]"),
        Err(ParseError { line: 0, column: 0, offset: 0, expected: Expectation::Expression })
    );
    assert_eq!(expr("[ 1 ]"), Ok(Expr::list(KW_ARRAY, vec![lit(false, &[1], &[])])));
}

#[test]
fn block_may_be_empty() {
    assert_eq!(expr("{ }"), Ok(Expr::list(KW_BLOCK, vec![])));
    assert_eq!(
        expr("{a b}"),
        Ok(Expr::list(KW_BLOCK, vec![sym("a"), sym("b")]))
    );
}

#[test]
fn items_need_nothing_between_them() {
    assert_eq!(
        expr_list("[1][2]"),
        Ok(vec![
            Expr::list(KW_ARRAY, vec![lit(false, &[1], &[])]),
            Expr::list(KW_ARRAY, vec![lit(false, &[2], &[])]),
        ])
    );
}

#[test]
fn define_of_define() {
    assert_eq!(
        expr("a = b = 1"),
        Ok(Expr::list(
            KW_DEFINE,
            vec![
                sym("a"),
                Expr::list(KW_DEFINE, vec![sym("b"), lit(false, &[1], &[])])
            ]
        ))
    );
}

#[test]
fn empty_text_is_no_script() {
    assert_eq!(
        parse(""),
        Err(ParseError { line: 0, column: 0, offset: 0, expected: Expectation::Expression })
    );
    assert_eq!(
        parse(" \n\t"),
        Err(ParseError { line: 1, column: 1, offset: 3, expected: Expectation::Expression })
    );
    assert_eq!(expr_list(""), Ok(vec![]));
}

#[test]
fn error_names_line_and_column() {
    assert_eq!(
        parse("a = 1\nb = 2\n  )"),
        Err(ParseError { line: 2, column: 2, offset: 14, expected: Expectation::ExpressionOrEnd })
    );
    assert_eq!(
        parse("a = 1\n\u{e9}"),
        Err(ParseError { line: 1, column: 0, offset: 6, expected: Expectation::ExpressionOrEnd })
    );
}

#[test]
fn unclosed_block_is_an_error_where_it_starts() {
    assert_eq!(
        parse("x = 1 { a"),
        Err(ParseError { line: 0, column: 6, offset: 6, expected: Expectation::ExpressionOrEnd })
    );
}

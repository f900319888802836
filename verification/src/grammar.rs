//! The grammar of scripts, as functions on a sequence of characters.
//!
//! ```text
//! script  = ws statement (ws statement)* ws
//! statement = export | expr
//! export  = "out" sp symbol ws "=" ws expr
//! expr    = comment | block | array | call | define | number | symbol
//! comment = "//" (any character but newline)* newline
//! block   = "{" ws (expr (ws expr)*)? ws "}"
//! array   = "[" ws expr ("," ws expr)* ws "]"
//! call    = symbol sp "(" ws expr ("," ws expr)* ws ")"
//! define  = symbol ws "=" ws expr
//! number  = ("+" | "-")? digit+ ("." digit+)?
//! symbol  = letter (letter | digit | "." | "_")*
//! sp      = (" " | tab)*
//! ws      = (" " | tab | newline)*
//! ```
//!
//! Alternatives are tried in the order written and the first that matches is
//! taken; repetitions take as much as they can and give nothing back. Each
//! function takes the text and a position and yields, where the rule matches
//! there, what it stands for and the position after it.

use crate::ast::{Tree, KW_ARRAY, KW_BLOCK, KW_DEFINE, KW_EXPORT, KW_ROOT};
use crate::number::{canonical, Decimal};
use vstd::prelude::*;

verus! {

/// A class of characters.
#[derive(Clone, Copy, Debug, PartialEq, Eq)]
pub enum Class {
    /// A space or a tab.
    Space,
    /// A space, a tab or a newline.
    Blank,
    /// A decimal digit.
    Digit,
    /// A character that can follow the first letter of a symbol.
    Name,
    /// Any character but a newline.
    Text,
}

/// Whether `c` is a letter from `a` to `z` or from `A` to `Z`.
pub open spec fn is_letter(c: char) -> bool {
    ('a' <= c && c <= 'z') || ('A' <= c && c <= 'Z')
}

/// Whether `c` is a digit from `0` to `9`.
pub open spec fn is_digit(c: char) -> bool {
    '0' <= c && c <= '9'
}

impl Class {
    /// Whether `c` belongs to the class.
    pub open spec fn has(self, c: char) -> bool {
        match self {
            Class::Space => c == ' ' || c == '\t',
            Class::Blank => c == ' ' || c == '\t' || c == '\n',
            Class::Digit => is_digit(c),
            Class::Name => is_letter(c) || is_digit(c) || c == '.' || c == '_',
            Class::Text => c != '\n',
        }
    }
}

/// Whether `s` has the character `c` at `at`.
pub open spec fn has_char(s: Seq<char>, at: int, c: char) -> bool {
    0 <= at < s.len() && s[at] == c
}

/// The end of the longest run of characters of `class` that starts at `from`.
pub open spec fn span(s: Seq<char>, from: int, class: Class) -> int
    decreases s.len() - from,
{
    if 0 <= from < s.len() && class.has(s[from]) {
        span(s, from + 1, class)
    } else {
        from
    }
}

/// A run ends at or after its start, within the text, before a character
/// that is not of the class, and holds characters of the class only.
pub proof fn lemma_span(s: Seq<char>, from: int, class: Class)
    requires
        0 <= from <= s.len(),
    ensures
        from <= span(s, from, class) <= s.len(),
        span(s, from, class) < s.len() ==> !class.has(s[span(s, from, class)]),
        forall|i: int| from <= i < span(s, from, class) ==> class.has(#[trigger] s[i]),
    decreases s.len() - from,
{
    if from < s.len() && class.has(s[from]) {
        lemma_span(s, from + 1, class);
    }
}

/// Where the symbol that starts at `from` ends.
pub open spec fn symbol_end(s: Seq<char>, from: int) -> Option<int> {
    if 0 <= from < s.len() && is_letter(s[from]) {
        Some(span(s, from + 1, Class::Name))
    } else {
        None
    }
}

/// Where the digits of the number that starts at `from` start: after its
/// sign, if it has one.
pub open spec fn digits_start(s: Seq<char>, from: int) -> int {
    if has_char(s, from, '+') || has_char(s, from, '-') {
        from + 1
    } else {
        from
    }
}

/// Where the number that starts at `from` ends. The fraction belongs to the
/// number only where a digit follows the point.
pub open spec fn number_end(s: Seq<char>, from: int) -> Option<int> {
    let start = digits_start(s, from);
    let whole = span(s, start, Class::Digit);
    if from < 0 || whole == start {
        None
    } else if has_char(s, whole, '.') && span(s, whole + 1, Class::Digit) > whole + 1 {
        Some(span(s, whole + 1, Class::Digit))
    } else {
        Some(whole)
    }
}

/// The values of the digits of `s`.
pub open spec fn digit_values(s: Seq<char>) -> Seq<u8> {
    Seq::new(s.len(), |i: int| (s[i] as u32 - 48) as u8)
}

/// The decimal that the number from `from` to `end` denotes.
pub open spec fn number_value(s: Seq<char>, from: int, end: int) -> Decimal {
    let start = digits_start(s, from);
    let whole = span(s, start, Class::Digit);
    canonical(
        has_char(s, from, '-'),
        digit_values(s.subrange(start, whole)),
        if whole < end {
            digit_values(s.subrange(whole + 1, end))
        } else {
            Seq::empty()
        },
    )
}

/// `number`: a number literal, as a list of one number.
pub open spec fn number(s: Seq<char>, from: int) -> Option<(Tree, int)> {
    match number_end(s, from) {
        Some(end) => Some((Tree::NumberList(seq![number_value(s, from, end)]), end)),
        None => None,
    }
}

/// `symbol`: a name.
pub open spec fn symbol(s: Seq<char>, from: int) -> Option<(Tree, int)> {
    match symbol_end(s, from) {
        Some(end) => Some((Tree::Symbol(s.subrange(from, end)), end)),
        None => None,
    }
}

/// `comment`: two slashes, then the comment's text up to the newline that
/// ends it. A comment that no newline ends is no comment.
pub open spec fn comment(s: Seq<char>, from: int) -> Option<(Tree, int)> {
    let end = span(s, from + 2, Class::Text);
    if has_char(s, from, '/') && has_char(s, from + 1, '/') && end < s.len() {
        Some((Tree::Comment(s.subrange(from + 2, end)), end + 1))
    } else {
        None
    }
}

/// `a` where it matched, and else `b`.
pub open spec fn or_else(a: Option<(Tree, int)>, b: Option<(Tree, int)>) -> Option<(Tree, int)> {
    if a is Some {
        a
    } else {
        b
    }
}

/// `expr`: the first of comment, block, array, call, define, number and
/// symbol that matches at `from`.
pub open spec fn expr(s: Seq<char>, from: int) -> Option<(Tree, int)>
    decreases s.len() - from, 2nat,
{
    if from < 0 || from >= s.len() {
        None
    } else {
        or_else(
            comment(s, from),
            or_else(
                block(s, from),
                or_else(
                    array(s, from),
                    or_else(
                        call(s, from),
                        or_else(define(s, from), or_else(number(s, from), symbol(s, from))),
                    ),
                ),
            ),
        )
    }
}

/// `block`: expressions between braces, with nothing but blanks between them.
pub open spec fn block(s: Seq<char>, from: int) -> Option<(Tree, int)>
    decreases s.len() - from, 1nat,
{
    if has_char(s, from, '{') {
        let first = span(s, from + 1, Class::Blank);
        proof {
            lemma_span(s, from + 1, Class::Blank);
        }
        let (list, last) = items(s, first);
        let close = span(s, last, Class::Blank);
        if has_char(s, close, '}') {
            Some((Tree::Form(KW_BLOCK@, list), close + 1))
        } else {
            None
        }
    } else {
        None
    }
}

/// `array`: one or more expressions between square brackets, with a comma
/// after each but the last.
pub open spec fn array(s: Seq<char>, from: int) -> Option<(Tree, int)>
    decreases s.len() - from, 1nat,
{
    if has_char(s, from, '[') {
        let first = span(s, from + 1, Class::Blank);
        proof {
            lemma_span(s, from + 1, Class::Blank);
        }
        match arguments(s, first) {
            Some((list, last)) => {
                let close = span(s, last, Class::Blank);
                if has_char(s, close, ']') {
                    Some((Tree::Form(KW_ARRAY@, list), close + 1))
                } else {
                    None
                }
            },
            None => None,
        }
    } else {
        None
    }
}

/// `call`: a name, then one or more arguments between round brackets, with a
/// comma after each but the last.
pub open spec fn call(s: Seq<char>, from: int) -> Option<(Tree, int)>
    decreases s.len() - from, 1nat,
{
    match symbol_end(s, from) {
        Some(end) => {
            let open = span(s, end, Class::Space);
            if has_char(s, open, '(') {
                let first = span(s, open + 1, Class::Blank);
                proof {
                    lemma_span(s, from + 1, Class::Name);
                    lemma_span(s, end, Class::Space);
                    lemma_span(s, open + 1, Class::Blank);
                }
                match arguments(s, first) {
                    Some((list, last)) => {
                        let close = span(s, last, Class::Blank);
                        if has_char(s, close, ')') {
                            Some((Tree::Form(s.subrange(from, end), list), close + 1))
                        } else {
                            None
                        }
                    },
                    None => None,
                }
            } else {
                None
            }
        },
        None => None,
    }
}

/// The definition that starts with the name from `from` to `end`: an equals
/// sign and the expression that the name stands for.
pub open spec fn binding(s: Seq<char>, from: int, end: int, keyword: Seq<char>) -> Option<
    (Tree, int),
>
    decreases s.len() - end, 0nat,
{
    let equals = span(s, end, Class::Blank);
    if 0 <= from <= end && has_char(s, equals, '=') {
        let value = span(s, equals + 1, Class::Blank);
        proof {
            lemma_span(s, end, Class::Blank);
            lemma_span(s, equals + 1, Class::Blank);
        }
        match expr(s, value) {
            Some((tree, last)) => Some(
                (Tree::Form(keyword, seq![Tree::Symbol(s.subrange(from, end)), tree]), last),
            ),
            None => None,
        }
    } else {
        None
    }
}

/// `define`: a name, an equals sign and an expression.
pub open spec fn define(s: Seq<char>, from: int) -> Option<(Tree, int)>
    decreases s.len() - from, 1nat,
{
    match symbol_end(s, from) {
        Some(end) => {
            proof {
                lemma_span(s, from + 1, Class::Name);
            }
            binding(s, from, end, KW_DEFINE@)
        },
        None => None,
    }
}

/// `export`: the word `out`, then a definition.
pub open spec fn export(s: Seq<char>, from: int) -> Option<(Tree, int)> {
    if has_char(s, from, 'o') && has_char(s, from + 1, 'u') && has_char(s, from + 2, 't') {
        let name = span(s, from + 3, Class::Space);
        match symbol_end(s, name) {
            Some(end) => binding(s, name, end, KW_EXPORT@),
            None => None,
        }
    } else {
        None
    }
}

/// `statement`: an export, or else an expression.
pub open spec fn statement(s: Seq<char>, from: int) -> Option<(Tree, int)> {
    or_else(export(s, from), expr(s, from))
}

/// Zero or more expressions from `from` on, with nothing but blanks between
/// them: the expressions, and where the last one ends.
pub open spec fn items(s: Seq<char>, from: int) -> (Seq<Tree>, int)
    decreases s.len() - from, 4nat,
{
    match expr(s, from) {
        Some((tree, end)) => if from < end <= s.len() {
            more_items(s, end, seq![tree])
        } else {
            (Seq::empty(), from)
        },
        None => (Seq::empty(), from),
    }
}

/// The expressions `sofar`, which end at `after`, and those that follow
/// them, with nothing but blanks between them.
pub open spec fn more_items(s: Seq<char>, after: int, sofar: Seq<Tree>) -> (Seq<Tree>, int)
    decreases s.len() - after, 3nat,
{
    let next = span(s, after, Class::Blank);
    proof {
        if 0 <= after <= s.len() {
            lemma_span(s, after, Class::Blank);
        }
    }
    if 0 <= after <= s.len() {
        match expr(s, next) {
            Some((tree, end)) => if next < end <= s.len() {
                more_items(s, end, sofar.push(tree))
            } else {
                (sofar, after)
            },
            None => (sofar, after),
        }
    } else {
        (sofar, after)
    }
}

/// One or more expressions from `from` on, with a comma after each but the
/// last: the expressions, and where the last one ends.
pub open spec fn arguments(s: Seq<char>, from: int) -> Option<(Seq<Tree>, int)>
    decreases s.len() - from, 4nat,
{
    match expr(s, from) {
        Some((tree, end)) => if from < end <= s.len() {
            Some(more_arguments(s, end, seq![tree]))
        } else {
            None
        },
        None => None,
    }
}

/// The expressions `sofar`, which end at `after`, and those that follow
/// them, each after a comma.
pub open spec fn more_arguments(s: Seq<char>, after: int, sofar: Seq<Tree>) -> (Seq<Tree>, int)
    decreases s.len() - after, 3nat,
{
    if has_char(s, after, ',') {
        let next = span(s, after + 1, Class::Blank);
        proof {
            lemma_span(s, after + 1, Class::Blank);
        }
        match expr(s, next) {
            Some((tree, end)) => if next < end <= s.len() {
                more_arguments(s, end, sofar.push(tree))
            } else {
                (sofar, after)
            },
            None => (sofar, after),
        }
    } else {
        (sofar, after)
    }
}

/// The statements `sofar`, which end at `after`, and those that follow them,
/// with nothing but blanks between them.
pub open spec fn more_statements(s: Seq<char>, after: int, sofar: Seq<Tree>) -> (Seq<Tree>, int)
    decreases s.len() - after,
{
    let next = span(s, after, Class::Blank);
    proof {
        if 0 <= after <= s.len() {
            lemma_span(s, after, Class::Blank);
        }
    }
    if 0 <= after <= s.len() {
        match statement(s, next) {
            Some((tree, end)) => if next < end <= s.len() {
                more_statements(s, end, sofar.push(tree))
            } else {
                (sofar, after)
            },
            None => (sofar, after),
        }
    } else {
        (sofar, after)
    }
}

/// An expression that matches at `from` ends after `from` and within the
/// text.
pub proof fn law_expr_advances(s: Seq<char>, from: int)
    ensures
        expr(s, from) matches Some((_, end)) ==> from < end <= s.len(),
    decreases s.len() - from, 2nat,
{
    if 0 <= from < s.len() {
        lemma_span(s, from + 1, Class::Name);
        lemma_span(s, from + 1, Class::Blank);
        if from + 2 <= s.len() {
            lemma_span(s, from + 2, Class::Text);
        }
        lemma_block_advances(s, from);
        lemma_array_advances(s, from);
        lemma_call_advances(s, from);
        lemma_define_advances(s, from);
        lemma_number_advances(s, from);
    }
}

/// A number that matches at `from` ends after `from` and within the text.
pub proof fn lemma_number_advances(s: Seq<char>, from: int)
    requires
        0 <= from < s.len(),
    ensures
        number(s, from) matches Some((_, end)) ==> from < end <= s.len(),
{
    let start = digits_start(s, from);
    lemma_span(s, start, Class::Digit);
    let whole = span(s, start, Class::Digit);
    if whole < s.len() {
        lemma_span(s, whole + 1, Class::Digit);
    }
}

/// A block that matches at `from` ends after `from` and within the text.
pub proof fn lemma_block_advances(s: Seq<char>, from: int)
    ensures
        block(s, from) matches Some((_, end)) ==> from < end <= s.len(),
    decreases s.len() - from, 1nat,
{
    if has_char(s, from, '{') {
        lemma_span(s, from + 1, Class::Blank);
        let first = span(s, from + 1, Class::Blank);
        lemma_items_advance(s, first);
        lemma_span(s, items(s, first).1, Class::Blank);
    }
}

/// An array that matches at `from` ends after `from` and within the text.
pub proof fn lemma_array_advances(s: Seq<char>, from: int)
    ensures
        array(s, from) matches Some((_, end)) ==> from < end <= s.len(),
    decreases s.len() - from, 1nat,
{
    if has_char(s, from, '[') {
        lemma_span(s, from + 1, Class::Blank);
        let first = span(s, from + 1, Class::Blank);
        lemma_arguments_advance(s, first);
        match arguments(s, first) {
            Some((_, last)) => {
                lemma_span(s, last, Class::Blank);
            },
            None => {},
        }
    }
}

/// A call that matches at `from` ends after `from` and within the text.
pub proof fn lemma_call_advances(s: Seq<char>, from: int)
    ensures
        call(s, from) matches Some((_, end)) ==> from < end <= s.len(),
    decreases s.len() - from, 1nat,
{
    match symbol_end(s, from) {
        Some(end) => {
            lemma_span(s, from + 1, Class::Name);
            lemma_span(s, end, Class::Space);
            let open = span(s, end, Class::Space);
            if has_char(s, open, '(') {
                lemma_span(s, open + 1, Class::Blank);
                let first = span(s, open + 1, Class::Blank);
                lemma_arguments_advance(s, first);
                match arguments(s, first) {
                    Some((_, last)) => {
                        lemma_span(s, last, Class::Blank);
                    },
                    None => {},
                }
            }
        },
        None => {},
    }
}

/// A definition that matches after the name from `from` to `end` ends
/// after `end` and within the text.
pub proof fn lemma_binding_advances(s: Seq<char>, from: int, end: int, keyword: Seq<char>)
    requires
        0 <= from <= end <= s.len(),
    ensures
        binding(s, from, end, keyword) matches Some((_, last)) ==> end < last <= s.len(),
    decreases s.len() - end, 0nat,
{
    lemma_span(s, end, Class::Blank);
    let equals = span(s, end, Class::Blank);
    if has_char(s, equals, '=') {
        lemma_span(s, equals + 1, Class::Blank);
        law_expr_advances(s, span(s, equals + 1, Class::Blank));
    }
}

/// A definition that matches at `from` ends after `from` and within the
/// text.
pub proof fn lemma_define_advances(s: Seq<char>, from: int)
    ensures
        define(s, from) matches Some((_, end)) ==> from < end <= s.len(),
    decreases s.len() - from, 1nat,
{
    match symbol_end(s, from) {
        Some(end) => {
            lemma_span(s, from + 1, Class::Name);
            lemma_binding_advances(s, from, end, KW_DEFINE@);
        },
        None => {},
    }
}

/// A statement that matches at `from` ends after `from` and within the
/// text.
pub proof fn law_statement_advances(s: Seq<char>, from: int)
    ensures
        statement(s, from) matches Some((_, end)) ==> from < end <= s.len(),
{
    law_expr_advances(s, from);
    if has_char(s, from, 'o') && has_char(s, from + 1, 'u') && has_char(s, from + 2, 't') {
        lemma_span(s, from + 3, Class::Space);
        let name = span(s, from + 3, Class::Space);
        match symbol_end(s, name) {
            Some(end) => {
                lemma_span(s, name + 1, Class::Name);
                lemma_binding_advances(s, name, end, KW_EXPORT@);
            },
            None => {},
        }
    }
}

/// The items from `from` on end at or after `from` and within the text.
pub proof fn lemma_items_advance(s: Seq<char>, from: int)
    requires
        0 <= from <= s.len(),
    ensures
        from <= items(s, from).1 <= s.len(),
    decreases s.len() - from, 4nat,
{
    law_expr_advances(s, from);
    match expr(s, from) {
        Some((tree, end)) => {
            lemma_more_items_advance(s, end, seq![tree]);
        },
        None => {},
    }
}

/// The items that follow those that end at `after` end at or after `after`
/// and within the text.
pub proof fn lemma_more_items_advance(s: Seq<char>, after: int, sofar: Seq<Tree>)
    requires
        0 <= after <= s.len(),
    ensures
        after <= more_items(s, after, sofar).1 <= s.len(),
    decreases s.len() - after, 3nat,
{
    lemma_span(s, after, Class::Blank);
    let next = span(s, after, Class::Blank);
    law_expr_advances(s, next);
    match expr(s, next) {
        Some((tree, end)) => {
            lemma_more_items_advance(s, end, sofar.push(tree));
        },
        None => {},
    }
}

/// The arguments from `from` on end after `from` and within the text.
pub proof fn lemma_arguments_advance(s: Seq<char>, from: int)
    requires
        0 <= from <= s.len(),
    ensures
        arguments(s, from) matches Some((_, end)) ==> from < end <= s.len(),
    decreases s.len() - from, 4nat,
{
    law_expr_advances(s, from);
    match expr(s, from) {
        Some((tree, end)) => {
            lemma_more_arguments_advance(s, end, seq![tree]);
        },
        None => {},
    }
}

/// The arguments that follow those that end at `after` end at or after
/// `after` and within the text.
pub proof fn lemma_more_arguments_advance(s: Seq<char>, after: int, sofar: Seq<Tree>)
    requires
        0 <= after <= s.len(),
    ensures
        after <= more_arguments(s, after, sofar).1 <= s.len(),
    decreases s.len() - after, 3nat,
{
    if has_char(s, after, ',') {
        lemma_span(s, after + 1, Class::Blank);
        let next = span(s, after + 1, Class::Blank);
        law_expr_advances(s, next);
        match expr(s, next) {
            Some((tree, end)) => {
                lemma_more_arguments_advance(s, end, sofar.push(tree));
            },
            None => {},
        }
    }
}

/// What was expected where a text stopped being what it was read as.
#[derive(Clone, Copy, Debug, PartialEq, Eq, Structural)]
pub enum Expectation {
    /// An expression.
    Expression,
    /// The end of the text.
    End,
    /// Another expression, or the end of the text.
    ExpressionOrEnd,
}

/// Where a text stopped being what it was read as, and what was expected
/// there.
pub struct Stop {
    pub offset: int,
    pub expected: Expectation,
}

/// `script`: one or more statements with blanks around and between them,
/// and nothing else. Where the text is a script, the root form of its
/// statements; where it is not, the position at which no further statement
/// could be read.
pub open spec fn script(s: Seq<char>) -> Result<Tree, Stop> {
    let first = span(s, 0, Class::Blank);
    match statement(s, first) {
        Some((tree, end)) => {
            let (list, last) = more_statements(s, end, seq![tree]);
            let rest = span(s, last, Class::Blank);
            if rest == s.len() {
                Ok(Tree::Form(KW_ROOT@, list))
            } else {
                Err(Stop { offset: rest, expected: Expectation::ExpressionOrEnd })
            }
        },
        None => Err(Stop { offset: first, expected: Expectation::Expression }),
    }
}

/// One expression that is the whole text; else the position where the
/// expression ended, or 0 where there is none.
pub open spec fn whole_expr(s: Seq<char>) -> Result<Tree, Stop> {
    match expr(s, 0) {
        Some((tree, end)) => if end == s.len() {
            Ok(tree)
        } else {
            Err(Stop { offset: end, expected: Expectation::End })
        },
        None => Err(Stop { offset: 0, expected: Expectation::Expression }),
    }
}

/// Expressions with nothing but blanks between them that are the whole text;
/// else the position where the last of them ended.
pub open spec fn whole_items(s: Seq<char>) -> Result<Seq<Tree>, Stop> {
    let (list, end) = items(s, 0);
    if end == s.len() {
        Ok(list)
    } else {
        Err(Stop { offset: end, expected: Expectation::ExpressionOrEnd })
    }
}

/// How many newlines `s` has before `offset`.
pub open spec fn line_of(s: Seq<char>, offset: int) -> nat
    decreases offset,
{
    if offset <= 0 || offset > s.len() {
        0
    } else if s[offset - 1] == '\n' {
        line_of(s, offset - 1) + 1
    } else {
        line_of(s, offset - 1)
    }
}

/// How many characters stand between the start of its line and `offset`.
pub open spec fn column_of(s: Seq<char>, offset: int) -> nat
    decreases offset,
{
    if offset <= 0 || offset > s.len() || s[offset - 1] == '\n' {
        0
    } else {
        column_of(s, offset - 1) + 1
    }
}

} // verus!

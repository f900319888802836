//! The parser: from the text of a script to its syntax tree.

use crate::ast::{lemma_trees_push, trees_of, Expr, Tree};
use crate::ast::{KW_ARRAY, KW_BLOCK, KW_DEFINE, KW_EXPORT, KW_ROOT};
use crate::grammar;
use crate::grammar::{column_of, digit_values, has_char, lemma_span, line_of, span};
use crate::grammar::{Class, Expectation, Stop};
use crate::number::{is_digits, Number};
use crate::vector::decimals_of;
use vstd::prelude::*;

verus! {

/// Where a text stopped being what it was read as.
#[derive(Clone, Copy, Debug, PartialEq, Eq, Structural)]
pub struct ParseError {
    /// How many newlines stand before the place.
    pub line: usize,
    /// How many characters stand between the start of its line and the place.
    pub column: usize,
    /// How many characters stand before the place.
    pub offset: usize,
    /// What was expected at the place.
    pub expected: Expectation,
}

/// The error for a text that stopped at `stop`.
pub open spec fn error_at(s: Seq<char>, stop: Stop) -> ParseError {
    ParseError {
        line: line_of(s, stop.offset) as usize,
        column: column_of(s, stop.offset) as usize,
        offset: stop.offset as usize,
        expected: stop.expected,
    }
}

/// The characters of `source`.
fn chars_of(source: &str) -> (r: Vec<char>)
    ensures
        r@ == source@,
{
    let mut out: Vec<char> = Vec::new();
    let mut it = source.chars();
    for c in iter: it
        invariant
            out@ == iter.seq().take(iter.index@),
    {
        out.push(c);
    }
    out
}

/// The text of `s` from `from` to `to`.
fn text(s: &Vec<char>, from: usize, to: usize) -> (r: String)
    requires
        from <= to <= s.len(),
    ensures
        r@ == s@.subrange(from as int, to as int),
{
    let mut out = String::new();
    let mut i: usize = from;
    while i < to
        invariant
            from <= i <= to <= s.len(),
            out@ == s@.subrange(from as int, i as int),
        decreases to - i,
    {
        out.push(s[i]);
        proof {
            assert(s@.subrange(from as int, i as int).push(s@[i as int]) =~= s@.subrange(
                from as int,
                i + 1,
            ));
        }
        i = i + 1;
    }
    out
}

/// The values of the digits of `s` from `from` to `to`.
fn digits(s: &Vec<char>, from: usize, to: usize) -> (r: Vec<u8>)
    requires
        from <= to <= s.len(),
        forall|i: int| from <= i < to ==> grammar::is_digit(#[trigger] s@[i]),
    ensures
        r@ == digit_values(s@.subrange(from as int, to as int)),
        is_digits(r@),
{
    let mut out: Vec<u8> = Vec::new();
    let mut i: usize = from;
    while i < to
        invariant
            from <= i <= to <= s.len(),
            forall|j: int| from <= j < to ==> grammar::is_digit(#[trigger] s@[j]),
            out@ == digit_values(s@.subrange(from as int, i as int)),
            is_digits(out@),
        decreases to - i,
    {
        let c = s[i];
        assert(grammar::is_digit(s@[i as int]));
        out.push((c as u32 - 48) as u8);
        proof {
            assert(out@ =~= digit_values(s@.subrange(from as int, i + 1)));
        }
        i = i + 1;
    }
    out
}

impl Class {
    /// Whether `c` belongs to the class.
    pub fn holds(&self, c: char) -> (r: bool)
        ensures
            r == self.has(c),
    {
        match self {
            Class::Space => c == ' ' || c == '\t',
            Class::Blank => c == ' ' || c == '\t' || c == '\n',
            Class::Digit => c >= '0' && c <= '9',
            Class::Name => (c >= 'a' && c <= 'z') || (c >= 'A' && c <= 'Z') || (c >= '0' && c
                <= '9') || c == '.' || c == '_',
            Class::Text => c != '\n',
        }
    }
}

/// The end of the longest run of characters of `class` from `from`.
fn scan(s: &Vec<char>, from: usize, class: Class) -> (r: usize)
    requires
        from <= s.len(),
    ensures
        r == span(s@, from as int, class),
        from <= r <= s.len(),
        r < s.len() ==> !class.has(s@[r as int]),
        forall|i: int| from <= i < r ==> class.has(#[trigger] s@[i]),
{
    let mut i: usize = from;
    while i < s.len() && class.holds(s[i])
        invariant
            from <= i <= s.len(),
            span(s@, from as int, class) == span(s@, i as int, class),
        decreases s.len() - i,
    {
        i = i + 1;
    }
    proof {
        lemma_span(s@, from as int, class);
    }
    i
}

/// Whether `s` has the character `c` at `at`.
fn is_char(s: &Vec<char>, at: usize, c: char) -> (r: bool)
    ensures
        r == has_char(s@, at as int, c),
{
    at < s.len() && s[at] == c
}

/// Where the symbol that starts at `from` ends.
fn symbol_end(s: &Vec<char>, from: usize) -> (r: Option<usize>)
    ensures
        match r {
            Some(end) => grammar::symbol_end(s@, from as int) == Some(end as int) && from < end
                <= s.len(),
            None => grammar::symbol_end(s@, from as int) is None,
        },
{
    if from < s.len() {
        let c = s[from];
        if (c >= 'a' && c <= 'z') || (c >= 'A' && c <= 'Z') {
            return Some(scan(s, from + 1, Class::Name));
        }
    }
    None
}

/// Reads a symbol at `from`.
fn parse_symbol(s: &Vec<char>, from: usize) -> (r: Option<(Expr, usize)>)
    ensures
        match r {
            Some((e, end)) => grammar::symbol(s@, from as int) == Some((e@, end as int)) && from
                < end <= s.len(),
            None => grammar::symbol(s@, from as int) is None,
        },
{
    match symbol_end(s, from) {
        Some(end) => Some((Expr::Symbol(text(s, from, end)), end)),
        None => None,
    }
}

/// Reads a number at `from`.
fn parse_number(s: &Vec<char>, from: usize) -> (r: Option<(Expr, usize)>)
    ensures
        match r {
            Some((e, end)) => grammar::number(s@, from as int) == Some((e@, end as int)) && from
                < end <= s.len(),
            None => grammar::number(s@, from as int) is None,
        },
{
    if from >= s.len() {
        return None;
    }
    let negative = is_char(s, from, '-');
    let start = if negative || is_char(s, from, '+') {
        from + 1
    } else {
        from
    };
    let whole = scan(s, start, Class::Digit);
    if whole == start {
        return None;
    }
    let mut end = whole;
    if is_char(s, whole, '.') {
        let fraction = scan(s, whole + 1, Class::Digit);
        if fraction > whole + 1 {
            end = fraction;
        }
    }
    let integer_digits = digits(s, start, whole);
    let fraction_digits = if whole < end {
        digits(s, whole + 1, end)
    } else {
        Vec::new()
    };
    match Number::from_digits(negative, integer_digits, fraction_digits) {
        Some(n) => {
            let ghost value = n@;
            let list = vec![n];
            proof {
                assert(decimals_of(list@) =~= seq![value]);
            }
            Some((Expr::NumberList(list), end))
        },
        None => None,
    }
}

/// Reads a comment at `from`.
fn parse_comment(s: &Vec<char>, from: usize) -> (r: Option<(Expr, usize)>)
    ensures
        match r {
            Some((e, end)) => grammar::comment(s@, from as int) == Some((e@, end as int)) && from
                < end <= s.len(),
            None => grammar::comment(s@, from as int) is None,
        },
{
    if from >= s.len() {
        return None;
    }
    if is_char(s, from, '/') && is_char(s, from + 1, '/') {
        let end = scan(s, from + 2, Class::Text);
        if end < s.len() {
            return Some((Expr::Comment(text(s, from + 2, end)), end + 1));
        }
    }
    None
}

/// Reads an expression at `from`.
pub fn parse_expr(s: &Vec<char>, from: usize) -> (r: Option<(Expr, usize)>)
    ensures
        match r {
            Some((e, end)) => grammar::expr(s@, from as int) == Some((e@, end as int)) && from
                < end <= s.len(),
            None => grammar::expr(s@, from as int) is None,
        },
    decreases s.len() - from, 2nat,
{
    if from >= s.len() {
        return None;
    }
    if let Some(r) = parse_comment(s, from) {
        return Some(r);
    }
    if let Some(r) = parse_block(s, from) {
        return Some(r);
    }
    if let Some(r) = parse_array(s, from) {
        return Some(r);
    }
    if let Some(r) = parse_call(s, from) {
        return Some(r);
    }
    if let Some(r) = parse_define(s, from) {
        return Some(r);
    }
    if let Some(r) = parse_number(s, from) {
        return Some(r);
    }
    parse_symbol(s, from)
}

/// Reads a block at `from`.
fn parse_block(s: &Vec<char>, from: usize) -> (r: Option<(Expr, usize)>)
    ensures
        match r {
            Some((e, end)) => grammar::block(s@, from as int) == Some((e@, end as int)) && from
                < end <= s.len(),
            None => grammar::block(s@, from as int) is None,
        },
    decreases s.len() - from, 1nat,
{
    if !is_char(s, from, '{') {
        return None;
    }
    let first = scan(s, from + 1, Class::Blank);
    let (list, last) = parse_items(s, first);
    let close = scan(s, last, Class::Blank);
    if is_char(s, close, '}') {
        Some((Expr::list(KW_BLOCK, list), close + 1))
    } else {
        None
    }
}

/// Reads an array at `from`.
fn parse_array(s: &Vec<char>, from: usize) -> (r: Option<(Expr, usize)>)
    ensures
        match r {
            Some((e, end)) => grammar::array(s@, from as int) == Some((e@, end as int)) && from
                < end <= s.len(),
            None => grammar::array(s@, from as int) is None,
        },
    decreases s.len() - from, 1nat,
{
    if !is_char(s, from, '[') {
        return None;
    }
    let first = scan(s, from + 1, Class::Blank);
    match parse_arguments(s, first) {
        Some((list, last)) => {
            let close = scan(s, last, Class::Blank);
            if is_char(s, close, ']') {
                Some((Expr::list(KW_ARRAY, list), close + 1))
            } else {
                None
            }
        },
        None => None,
    }
}

/// Reads a call at `from`.
fn parse_call(s: &Vec<char>, from: usize) -> (r: Option<(Expr, usize)>)
    ensures
        match r {
            Some((e, end)) => grammar::call(s@, from as int) == Some((e@, end as int)) && from
                < end <= s.len(),
            None => grammar::call(s@, from as int) is None,
        },
    decreases s.len() - from, 1nat,
{
    let end = match symbol_end(s, from) {
        Some(end) => end,
        None => {
            return None;
        },
    };
    let open = scan(s, end, Class::Space);
    if !is_char(s, open, '(') {
        return None;
    }
    let first = scan(s, open + 1, Class::Blank);
    match parse_arguments(s, first) {
        Some((list, last)) => {
            let close = scan(s, last, Class::Blank);
            if is_char(s, close, ')') {
                let name = text(s, from, end);
                Some((Expr::List(name, list), close + 1))
            } else {
                None
            }
        },
        None => None,
    }
}

/// Reads, after the name from `from` to `end`, the rest of a definition.
fn parse_binding(s: &Vec<char>, from: usize, end: usize, keyword: &str) -> (r: Option<
    (Expr, usize),
>)
    requires
        from < end <= s.len(),
    ensures
        match r {
            Some((e, last)) => grammar::binding(s@, from as int, end as int, keyword@) == Some(
                (e@, last as int),
            ) && end < last <= s.len(),
            None => grammar::binding(s@, from as int, end as int, keyword@) is None,
        },
    decreases s.len() - end, 0nat,
{
    let equals = scan(s, end, Class::Blank);
    if !is_char(s, equals, '=') {
        return None;
    }
    let value = scan(s, equals + 1, Class::Blank);
    match parse_expr(s, value) {
        Some((e, last)) => {
            let name = Expr::Symbol(text(s, from, end));
            let ghost given = seq![name, e];
            let list = vec![name, e];
            proof {
                assert(trees_of(list@) =~= seq![given[0]@, given[1]@]);
            }
            Some((Expr::list(keyword, list), last))
        },
        None => None,
    }
}

/// Reads a definition at `from`.
fn parse_define(s: &Vec<char>, from: usize) -> (r: Option<(Expr, usize)>)
    ensures
        match r {
            Some((e, end)) => grammar::define(s@, from as int) == Some((e@, end as int)) && from
                < end <= s.len(),
            None => grammar::define(s@, from as int) is None,
        },
    decreases s.len() - from, 1nat,
{
    match symbol_end(s, from) {
        Some(end) => parse_binding(s, from, end, KW_DEFINE),
        None => None,
    }
}

/// Reads an export at `from`.
fn parse_export(s: &Vec<char>, from: usize) -> (r: Option<(Expr, usize)>)
    ensures
        match r {
            Some((e, end)) => grammar::export(s@, from as int) == Some((e@, end as int)) && from
                < end <= s.len(),
            None => grammar::export(s@, from as int) is None,
        },
{
    if from >= s.len() {
        return None;
    }
    if is_char(s, from, 'o') && is_char(s, from + 1, 'u') && is_char(s, from + 2, 't') {
        let name = scan(s, from + 3, Class::Space);
        match symbol_end(s, name) {
            Some(end) => parse_binding(s, name, end, KW_EXPORT),
            None => None,
        }
    } else {
        None
    }
}

/// Reads a statement at `from`.
fn parse_statement(s: &Vec<char>, from: usize) -> (r: Option<(Expr, usize)>)
    ensures
        match r {
            Some((e, end)) => grammar::statement(s@, from as int) == Some((e@, end as int)) && from
                < end <= s.len(),
            None => grammar::statement(s@, from as int) is None,
        },
{
    if let Some(r) = parse_export(s, from) {
        return Some(r);
    }
    parse_expr(s, from)
}

/// Reads expressions from `from` on, with nothing but blanks between them.
fn parse_items(s: &Vec<char>, from: usize) -> (r: (Vec<Expr>, usize))
    requires
        from <= s.len(),
    ensures
        grammar::items(s@, from as int) == (trees_of(r.0@), r.1 as int),
        from <= r.1 <= s.len(),
    decreases s.len() - from, 4nat,
{
    let mut list: Vec<Expr> = Vec::new();
    let mut after: usize = from;
    match parse_expr(s, from) {
        Some((e, end)) => {
            proof {
                lemma_trees_push(list@, e);
                assert(trees_of(list@) =~= Seq::<Tree>::empty());
                assert(Seq::<Tree>::empty().push(e@) =~= seq![e@]);
            }
            list.push(e);
            after = end;
        },
        None => {
            proof {
                assert(trees_of(list@) =~= Seq::<Tree>::empty());
            }
            return (list, from);
        },
    }
    loop
        invariant
            from < after <= s.len(),
            grammar::items(s@, from as int) == grammar::more_items(
                s@,
                after as int,
                trees_of(list@),
            ),
        decreases s.len() - after,
    {
        let next = scan(s, after, Class::Blank);
        match parse_expr(s, next) {
            Some((e, end)) => {
                proof {
                    lemma_trees_push(list@, e);
                }
                list.push(e);
                after = end;
            },
            None => {
                return (list, after);
            },
        }
    }
}

/// Reads one or more expressions from `from` on, with a comma after each
/// but the last.
fn parse_arguments(s: &Vec<char>, from: usize) -> (r: Option<(Vec<Expr>, usize)>)
    requires
        from <= s.len(),
    ensures
        match r {
            Some((list, end)) => grammar::arguments(s@, from as int) == Some(
                (trees_of(list@), end as int),
            ) && from < end <= s.len(),
            None => grammar::arguments(s@, from as int) is None,
        },
    decreases s.len() - from, 4nat,
{
    let mut list: Vec<Expr> = Vec::new();
    let mut after: usize = from;
    match parse_expr(s, from) {
        Some((e, end)) => {
            proof {
                lemma_trees_push(list@, e);
                assert(trees_of(list@) =~= Seq::<Tree>::empty());
                assert(Seq::<Tree>::empty().push(e@) =~= seq![e@]);
            }
            list.push(e);
            after = end;
        },
        None => {
            return None;
        },
    }
    loop
        invariant
            from < after <= s.len(),
            grammar::arguments(s@, from as int) == Some(
                grammar::more_arguments(s@, after as int, trees_of(list@)),
            ),
        decreases s.len() - after,
    {
        if !is_char(s, after, ',') {
            return Some((list, after));
        }
        let next = scan(s, after + 1, Class::Blank);
        match parse_expr(s, next) {
            Some((e, end)) => {
                proof {
                    lemma_trees_push(list@, e);
                }
                list.push(e);
                after = end;
            },
            None => {
                return Some((list, after));
            },
        }
    }
}

/// The error for the place `offset` of `s`.
fn error(s: &Vec<char>, offset: usize, expected: Expectation) -> (r: ParseError)
    requires
        offset <= s.len(),
    ensures
        r == error_at(s@, Stop { offset: offset as int, expected }),
{
    let mut line: usize = 0;
    let mut column: usize = 0;
    let mut i: usize = 0;
    while i < offset
        invariant
            i <= offset <= s.len(),
            line == line_of(s@, i as int),
            column == column_of(s@, i as int),
            line <= i,
            column <= i,
        decreases offset - i,
    {
        if s[i] == '\n' {
            line = line + 1;
            column = 0;
        } else {
            column = column + 1;
        }
        i = i + 1;
    }
    ParseError { line, column, offset, expected }
}

/// Reads a script: the whole of `s`.
pub fn parse_script(s: &Vec<char>) -> (r: Result<Expr, ParseError>)
    ensures
        match r {
            Ok(e) => grammar::script(s@) == Ok::<Tree, Stop>(e@),
            Err(err) => grammar::script(s@) is Err && err == error_at(
                s@,
                grammar::script(s@)->Err_0,
            ),
        },
{
    let first = scan(s, 0, Class::Blank);
    let mut list: Vec<Expr> = Vec::new();
    let mut after: usize = first;
    match parse_statement(s, first) {
        Some((e, end)) => {
            proof {
                lemma_trees_push(list@, e);
                assert(trees_of(list@) =~= Seq::<Tree>::empty());
                assert(Seq::<Tree>::empty().push(e@) =~= seq![e@]);
            }
            list.push(e);
            after = end;
        },
        None => {
            return Err(error(s, first, Expectation::Expression));
        },
    }
    let ghost head = grammar::statement(s@, first as int)->Some_0;
    loop
        invariant
            first < after <= s.len(),
            first == span(s@, 0, Class::Blank),
            grammar::statement(s@, first as int) == Some(head),
            grammar::more_statements(s@, head.1, seq![head.0]) == grammar::more_statements(
                s@,
                after as int,
                trees_of(list@),
            ),
        decreases s.len() - after,
    {
        let next = scan(s, after, Class::Blank);
        match parse_statement(s, next) {
            Some((e, end)) => {
                proof {
                    lemma_trees_push(list@, e);
                }
                list.push(e);
                after = end;
            },
            None => {
                if next == s.len() {
                    return Ok(Expr::list(KW_ROOT, list));
                } else {
                    return Err(error(s, next, Expectation::ExpressionOrEnd));
                }
            },
        }
    }
}

/// Reads a script. A script is one or more statements, each an expression
/// or an export, with blanks around and between them. The result is the root
/// form that holds the statements in order; a text that is no script gives
/// the place where it stopped being one.
pub fn parse(script: &str) -> (r: Result<Expr, ParseError>)
    ensures
        match r {
            Ok(e) => grammar::script(script@) == Ok::<Tree, Stop>(e@),
            Err(err) => grammar::script(script@) is Err && err == error_at(
                script@,
                grammar::script(script@)->Err_0,
            ),
        },
{
    let s = chars_of(script);
    parse_script(&s)
}

/// Reads one expression that is the whole of `source`.
pub fn expr(source: &str) -> (r: Result<Expr, ParseError>)
    ensures
        match r {
            Ok(e) => grammar::whole_expr(source@) == Ok::<Tree, Stop>(e@),
            Err(err) => grammar::whole_expr(source@) is Err && err == error_at(
                source@,
                grammar::whole_expr(source@)->Err_0,
            ),
        },
{
    let s = chars_of(source);
    match parse_expr(&s, 0) {
        Some((e, end)) => {
            if end == s.len() {
                Ok(e)
            } else {
                Err(error(&s, end, Expectation::End))
            }
        },
        None => Err(error(&s, 0, Expectation::Expression)),
    }
}

/// Reads expressions with nothing but blanks between them that are the
/// whole of `source`.
pub fn expr_list(source: &str) -> (r: Result<Vec<Expr>, ParseError>)
    ensures
        match r {
            Ok(list) => grammar::whole_items(source@) == Ok::<Seq<Tree>, Stop>(trees_of(list@)),
            Err(err) => grammar::whole_items(source@) is Err && err == error_at(
                source@,
                grammar::whole_items(source@)->Err_0,
            ),
        },
{
    let s = chars_of(source);
    let (list, end) = parse_items(&s, 0);
    if end == s.len() {
        Ok(list)
    } else {
        Err(error(&s, end, Expectation::ExpressionOrEnd))
    }
}

} // verus!

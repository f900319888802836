//! The syntax tree of a script.

use crate::number::{Decimal, Number};
use crate::vector::decimals_of;
use vstd::prelude::*;

verus! {

/// Keyword of the form that holds a whole program.
pub const KW_ROOT: &'static str = ".root";

/// Keyword of a definition, `name = value`.
pub const KW_DEFINE: &'static str = ".define";

/// Keyword of a block, `{ ... }`.
pub const KW_BLOCK: &'static str = ".block";

/// Keyword of an array literal, `[ ... ]`.
pub const KW_ARRAY: &'static str = ".array";

/// Keyword of an exported definition, `out name = value`.
pub const KW_EXPORT: &'static str = ".export";

/// A node of the syntax tree.
#[derive(Debug, PartialEq)]
pub enum Expr {
    /// A name.
    Symbol(String),
    /// A sequence of numbers; a number literal is a sequence of one.
    NumberList(Vec<Number>),
    /// A keyword or function name with its arguments.
    List(String, Vec<Expr>),
    /// The text of a comment.
    Comment(String),
}

/// The mathematical content of an [`Expr`].
pub enum Tree {
    Symbol(Seq<char>),
    NumberList(Seq<Decimal>),
    Form(Seq<char>, Seq<Tree>),
    Comment(Seq<char>),
}

/// The tree of each expression of `s`.
pub open spec fn trees_of(s: Seq<Expr>) -> Seq<Tree>
    decreases s,
{
    Seq::new(s.len(), |i: int| if 0 <= i < s.len() { s[i].view() } else { Tree::Comment(Seq::empty()) })
}

impl View for Expr {
    type V = Tree;

    open spec fn view(&self) -> Tree
        decreases self,
    {
        match self {
            Expr::Symbol(s) => Tree::Symbol(s@),
            Expr::NumberList(n) => Tree::NumberList(decimals_of(n@)),
            Expr::List(k, c) => Tree::Form(k@, trees_of(c@)),
            Expr::Comment(t) => Tree::Comment(t@),
        }
    }
}

/// The trees of a sequence with one more expression at its end.
pub proof fn lemma_trees_push(s: Seq<Expr>, e: Expr)
    ensures
        trees_of(s.push(e)) == trees_of(s).push(e@),
{
    assert(trees_of(s.push(e)) =~= trees_of(s).push(e@));
}

/// A copy of `v`, number by number.
pub fn clone_numbers(v: &Vec<Number>) -> (r: Vec<Number>)
    ensures
        decimals_of(r@) == decimals_of(v@),
{
    let mut out: Vec<Number> = Vec::new();
    let mut i: usize = 0;
    while i < v.len()
        invariant
            i <= v.len(),
            out@.len() == i,
            forall|j: int| 0 <= j < i ==> out@[j]@ == v@[j]@,
        decreases v.len() - i,
    {
        out.push(v[i].clone());
        i = i + 1;
    }
    assert(decimals_of(out@) =~= decimals_of(v@));
    out
}

/// A copy of `v`, expression by expression.
pub fn clone_exprs(v: &Vec<Expr>) -> (r: Vec<Expr>)
    ensures
        trees_of(r@) == trees_of(v@),
    decreases v,
{
    let mut out: Vec<Expr> = Vec::new();
    let mut i: usize = 0;
    while i < v.len()
        invariant
            i <= v.len(),
            out@.len() == i,
            forall|j: int| 0 <= j < i ==> out@[j]@ == v@[j]@,
        decreases v.len() - i,
    {
        out.push(v[i].clone());
        i = i + 1;
    }
    assert(trees_of(out@) =~= trees_of(v@));
    out
}

impl Clone for Expr {
    fn clone(&self) -> (r: Expr)
        ensures
            r@ == self@,
        decreases self,
    {
        match self {
            Expr::Symbol(s) => Expr::Symbol(s.clone()),
            Expr::NumberList(n) => Expr::NumberList(clone_numbers(n)),
            Expr::List(k, c) => Expr::List(k.clone(), clone_exprs(c)),
            Expr::Comment(t) => Expr::Comment(t.clone()),
        }
    }
}

impl Expr {
    /// The form with the given keyword and arguments.
    pub fn list(keyword: &str, cons: Vec<Expr>) -> (r: Expr)
        ensures
            r@ == Tree::Form(keyword@, trees_of(cons@)),
    {
        Expr::List(keyword.to_owned(), cons)
    }
}

/// The name under which a script hands out an envelope.
#[derive(Debug, PartialEq)]
pub struct Export {
    pub name: String,
}

impl vstd::std_specs::convert::FromSpecImpl<&str> for Expr {
    open spec fn obeys_from_spec() -> bool {
        false
    }

    open spec fn from_spec(key: &str) -> Expr {
        arbitrary()
    }
}

impl From<&str> for Expr {
    /// The symbol with the name `key`.
    fn from(key: &str) -> (r: Expr)
        ensures
            r@ == Tree::Symbol(key@),
    {
        Expr::Symbol(key.to_owned())
    }
}

impl vstd::std_specs::convert::FromSpecImpl<Number> for Expr {
    open spec fn obeys_from_spec() -> bool {
        false
    }

    open spec fn from_spec(n: Number) -> Expr {
        arbitrary()
    }
}

impl From<Number> for Expr {
    /// The number list that holds `n` alone.
    fn from(n: Number) -> (r: Expr)
        ensures
            r@ == Tree::NumberList(seq![n@]),
    {
        let ghost value = n@;
        let list = vec![n];
        assert(decimals_of(list@) =~= seq![value]);
        Expr::NumberList(list)
    }
}

} // verus!

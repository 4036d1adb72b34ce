//! The expression tree produced by the parser and consumed by the evaluator,
//! together with its mathematical model.

use vstd::prelude::*;

verus! {

/// One node of a query expression tree. Trees are built once by the parser
/// and never mutated afterwards.
#[derive(Debug)]
pub enum Expr {
    Integer(i64),
    String(String),
    Variable(String),
    Equal(Box<Expr>, Box<Expr>),
    NotEqual(Box<Expr>, Box<Expr>),
    LessThan(Box<Expr>, Box<Expr>),
    LessThanOrEqual(Box<Expr>, Box<Expr>),
    GreaterThan(Box<Expr>, Box<Expr>),
    GreaterThanOrEqual(Box<Expr>, Box<Expr>),
    And(Box<Expr>, Box<Expr>),
    Or(Box<Expr>, Box<Expr>),
    Predicate(String, Box<Expr>),
}

/// Mathematical model of an expression tree: texts are character sequences
/// and integers are unbounded.
pub enum SpecExpr {
    Integer(int),
    String(Seq<char>),
    Variable(Seq<char>),
    Equal(Box<SpecExpr>, Box<SpecExpr>),
    NotEqual(Box<SpecExpr>, Box<SpecExpr>),
    LessThan(Box<SpecExpr>, Box<SpecExpr>),
    LessThanOrEqual(Box<SpecExpr>, Box<SpecExpr>),
    GreaterThan(Box<SpecExpr>, Box<SpecExpr>),
    GreaterThanOrEqual(Box<SpecExpr>, Box<SpecExpr>),
    And(Box<SpecExpr>, Box<SpecExpr>),
    Or(Box<SpecExpr>, Box<SpecExpr>),
    Predicate(Seq<char>, Box<SpecExpr>),
}

impl View for Expr {
    type V = SpecExpr;

    open spec fn view(&self) -> SpecExpr
        decreases self,
    {
        match self {
            Expr::Integer(i) => SpecExpr::Integer(*i as int),
            Expr::String(s) => SpecExpr::String(s@),
            Expr::Variable(p) => SpecExpr::Variable(p@),
            Expr::Equal(l, r) => SpecExpr::Equal(Box::new((**l)@), Box::new((**r)@)),
            Expr::NotEqual(l, r) => SpecExpr::NotEqual(Box::new((**l)@), Box::new((**r)@)),
            Expr::LessThan(l, r) => SpecExpr::LessThan(Box::new((**l)@), Box::new((**r)@)),
            Expr::LessThanOrEqual(l, r) => SpecExpr::LessThanOrEqual(
                Box::new((**l)@),
                Box::new((**r)@),
            ),
            Expr::GreaterThan(l, r) => SpecExpr::GreaterThan(Box::new((**l)@), Box::new((**r)@)),
            Expr::GreaterThanOrEqual(l, r) => SpecExpr::GreaterThanOrEqual(
                Box::new((**l)@),
                Box::new((**r)@),
            ),
            Expr::And(l, r) => SpecExpr::And(Box::new((**l)@), Box::new((**r)@)),
            Expr::Or(l, r) => SpecExpr::Or(Box::new((**l)@), Box::new((**r)@)),
            Expr::Predicate(p, e) => SpecExpr::Predicate(p@, Box::new((**e)@)),
        }
    }
}

impl Expr {
    /// Structural equality of two expression trees.
    pub fn deep_eq(&self, other: &Expr) -> (r: bool)
        ensures
            r == (self@ == other@),
        decreases self,
    {
        match (self, other) {
            (Expr::Integer(a), Expr::Integer(b)) => a == b,
            (Expr::String(a), Expr::String(b)) => *a == *b,
            (Expr::Variable(a), Expr::Variable(b)) => *a == *b,
            (Expr::Equal(l1, r1), Expr::Equal(l2, r2)) => l1.deep_eq(l2) && r1.deep_eq(r2),
            (Expr::NotEqual(l1, r1), Expr::NotEqual(l2, r2)) => l1.deep_eq(l2) && r1.deep_eq(r2),
            (Expr::LessThan(l1, r1), Expr::LessThan(l2, r2)) => l1.deep_eq(l2) && r1.deep_eq(r2),
            (Expr::LessThanOrEqual(l1, r1), Expr::LessThanOrEqual(l2, r2)) => l1.deep_eq(l2)
                && r1.deep_eq(r2),
            (Expr::GreaterThan(l1, r1), Expr::GreaterThan(l2, r2)) => l1.deep_eq(l2) && r1.deep_eq(
                r2,
            ),
            (Expr::GreaterThanOrEqual(l1, r1), Expr::GreaterThanOrEqual(l2, r2)) => l1.deep_eq(l2)
                && r1.deep_eq(r2),
            (Expr::And(l1, r1), Expr::And(l2, r2)) => l1.deep_eq(l2) && r1.deep_eq(r2),
            (Expr::Or(l1, r1), Expr::Or(l2, r2)) => l1.deep_eq(l2) && r1.deep_eq(r2),
            (Expr::Predicate(p1, e1), Expr::Predicate(p2, e2)) => *p1 == *p2 && e1.deep_eq(e2),
            _ => false,
        }
    }
}

} // verus!

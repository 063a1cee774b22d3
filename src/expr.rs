use vstd::prelude::*;

use crate::token::{Token, TokenView};

verus! {

/// What a literal leaf holds: the text of its token, `null`, or the
/// placeholder that stands where no expression could be read.
#[derive(Debug, Clone, PartialEq)]
pub enum LiteralValue {
    Text(String),
    Null,
    Illegal,
}

pub enum LiteralView {
    Text(Seq<char>),
    Null,
    Illegal,
}

impl View for LiteralValue {
    type V = LiteralView;

    open spec fn view(&self) -> LiteralView {
        match self {
            LiteralValue::Text(s) => LiteralView::Text(s@),
            LiteralValue::Null => LiteralView::Null,
            LiteralValue::Illegal => LiteralView::Illegal,
        }
    }
}

/// An expression tree. Each node owns its children; a tree is built bottom
/// up and not changed afterwards.
#[derive(Debug)]
pub enum Expr {
    Binary(Binary),
    Grouping(Grouping),
    Literal(Literal),
    Unary(Unary),
}

#[derive(Debug)]
pub struct Binary {
    pub left: Box<Expr>,
    pub op: Token,
    pub right: Box<Expr>,
}

#[derive(Debug)]
pub struct Grouping {
    pub expr: Box<Expr>,
}

#[derive(Debug)]
pub struct Literal {
    pub value: LiteralValue,
}

#[derive(Debug)]
pub struct Unary {
    pub op: Token,
    pub right: Box<Expr>,
}

/// The shape of an expression tree, with its tokens and texts as plain values.
pub enum ExprView {
    Binary(Box<ExprView>, TokenView, Box<ExprView>),
    Grouping(Box<ExprView>),
    Literal(LiteralView),
    Unary(TokenView, Box<ExprView>),
}

pub open spec fn expr_view(e: &Expr) -> ExprView
    decreases e,
{
    match e {
        Expr::Binary(b) => ExprView::Binary(
            Box::new(expr_view(&*b.left)),
            b.op@,
            Box::new(expr_view(&*b.right)),
        ),
        Expr::Grouping(g) => ExprView::Grouping(Box::new(expr_view(&*g.expr))),
        Expr::Literal(l) => ExprView::Literal(l.value@),
        Expr::Unary(u) => ExprView::Unary(u.op@, Box::new(expr_view(&*u.right))),
    }
}

impl View for Expr {
    type V = ExprView;

    open spec fn view(&self) -> ExprView {
        expr_view(self)
    }
}

/// The placeholder tree: a literal that holds no expression.
pub open spec fn illegal_placeholder() -> ExprView {
    ExprView::Literal(LiteralView::Illegal)
}

impl Binary {
    pub fn new(left: Box<Expr>, op: Token, right: Box<Expr>) -> (r: Binary)
        ensures
            r.left == left,
            r.op == op,
            r.right == right,
    {
        Binary { left, op, right }
    }

    /// Hands the node to the visitor's method for this variant.
    pub fn accept<T, V: Visitor<T>>(&self, visitor: &mut V) -> (r: T)
        ensures
            old(visitor).binary_post(self, r),
    {
        visitor.visit_binary(self)
    }
}

impl Grouping {
    pub fn new(expr: Box<Expr>) -> (r: Grouping)
        ensures
            r.expr == expr,
    {
        Grouping { expr }
    }

    /// Hands the node to the visitor's method for this variant.
    pub fn accept<T, V: Visitor<T>>(&self, visitor: &mut V) -> (r: T)
        ensures
            old(visitor).grouping_post(self, r),
    {
        visitor.visit_grouping(self)
    }
}

impl Literal {
    pub fn new(value: LiteralValue) -> (r: Literal)
        ensures
            r.value == value,
    {
        Literal { value }
    }

    /// Hands the node to the visitor's method for this variant.
    pub fn accept<T, V: Visitor<T>>(&self, visitor: &mut V) -> (r: T)
        ensures
            old(visitor).literal_post(self, r),
    {
        visitor.visit_literal(self)
    }
}

impl Unary {
    pub fn new(op: Token, right: Box<Expr>) -> (r: Unary)
        ensures
            r.op == op,
            r.right == right,
    {
        Unary { op, right }
    }

    /// Hands the node to the visitor's method for this variant.
    pub fn accept<T, V: Visitor<T>>(&self, visitor: &mut V) -> (r: T)
        ensures
            old(visitor).unary_post(self, r),
    {
        visitor.visit_unary(self)
    }
}

/// What a visitor's method for the tree's variant promises of `r`.
pub open spec fn accept_post<T, V: Visitor<T>>(visitor: &V, e: &Expr, r: T) -> bool {
    match e {
        Expr::Binary(b) => visitor.binary_post(b, r),
        Expr::Grouping(g) => visitor.grouping_post(g, r),
        Expr::Literal(l) => visitor.literal_post(l, r),
        Expr::Unary(u) => visitor.unary_post(u, r),
    }
}

impl Expr {
    /// Hands the node to the one visitor method for its variant.
    pub fn accept<T, V: Visitor<T>>(&self, visitor: &mut V) -> (r: T)
        ensures
            accept_post(old(visitor), self, r),
    {
        match self {
            Expr::Binary(b) => visitor.visit_binary(b),
            Expr::Grouping(g) => visitor.visit_grouping(g),
            Expr::Literal(l) => visitor.visit_literal(l),
            Expr::Unary(u) => visitor.visit_unary(u),
        }
    }
}

/// An operation over expression trees, one method per node variant. Each
/// method's result is described by the matching predicate of the visitor, as
/// it stood before the call.
pub trait Visitor<T> {
    spec fn binary_post(&self, e: &Binary, r: T) -> bool;

    spec fn grouping_post(&self, e: &Grouping, r: T) -> bool;

    spec fn literal_post(&self, e: &Literal, r: T) -> bool;

    spec fn unary_post(&self, e: &Unary, r: T) -> bool;

    fn visit_binary(&mut self, e: &Binary) -> (r: T)
        ensures
            old(self).binary_post(e, r),
    ;

    fn visit_grouping(&mut self, e: &Grouping) -> (r: T)
        ensures
            old(self).grouping_post(e, r),
    ;

    fn visit_literal(&mut self, e: &Literal) -> (r: T)
        ensures
            old(self).literal_post(e, r),
    ;

    fn visit_unary(&mut self, e: &Unary) -> (r: T)
        ensures
            old(self).unary_post(e, r),
    ;
}

} // verus!

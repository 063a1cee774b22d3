use vstd::prelude::*;

use crate::expr::{accept_post, Binary, Expr, ExprView, Grouping, Literal, LiteralValue, LiteralView, Unary, Visitor};

verus! {

/// The parts, each after one space.
pub open spec fn spaced(parts: Seq<Seq<char>>) -> Seq<char>
    decreases parts.len(),
{
    if parts.len() == 0 {
        Seq::empty()
    } else {
        spaced(parts.drop_last()) + " "@ + parts.last()
    }
}

/// `(name part1 part2 ...)`.
pub open spec fn parenthesized(name: Seq<char>, parts: Seq<Seq<char>>) -> Seq<char> {
    "("@ + name + spaced(parts) + ")"@
}

pub open spec fn literal_text(v: LiteralView) -> Seq<char> {
    match v {
        LiteralView::Text(s) => s,
        LiteralView::Null => "null"@,
        LiteralView::Illegal => "ILLEGAL"@,
    }
}

/// The fully parenthesized prefix form of a tree.
pub open spec fn render(e: ExprView) -> Seq<char>
    decreases e,
{
    match e {
        ExprView::Binary(l, op, r) => parenthesized(op.lexeme, seq![render(*l), render(*r)]),
        ExprView::Grouping(inner) => parenthesized("group"@, seq![render(*inner)]),
        ExprView::Literal(v) => literal_text(v),
        ExprView::Unary(op, r) => parenthesized(op.lexeme, seq![render(*r)]),
    }
}

/// Renders trees in prefix form with every operation in parentheses.
pub struct AstPrinter {}

impl AstPrinter {
    pub fn new() -> (r: AstPrinter) {
        AstPrinter {}
    }

    /// The tree in prefix form; the tree is only read.
    pub fn print(&mut self, e: &Expr) -> (r: String)
        ensures
            r@ == render(e@),
        decreases e,
    {
        match e {
            Expr::Binary(b) => self.visit_binary(b),
            Expr::Grouping(g) => self.visit_grouping(g),
            Expr::Literal(l) => self.visit_literal(l),
            Expr::Unary(u) => self.visit_unary(u),
        }
    }

    pub fn print_literal(&mut self, e: &Literal) -> (r: String)
        ensures
            r@ == literal_text(e.value@),
    {
        match &e.value {
            LiteralValue::Text(s) => s.clone(),
            LiteralValue::Null => String::from_str("null"),
            LiteralValue::Illegal => String::from_str("ILLEGAL"),
        }
    }

    fn parenthesize(&mut self, name: String, parts: Vec<String>) -> (r: String)
        ensures
            r@ == parenthesized(name@, parts@.map_values(|p: String| p@)),
    {
        let ghost views = parts@.map_values(|p: String| p@);
        let mut result = String::from_str("(");
        result.append(name.as_str());
        let mut i: usize = 0;
        while i < parts.len()
            invariant
                i <= parts@.len(),
                views == parts@.map_values(|p: String| p@),
                result@ == "("@ + name@ + spaced(views.subrange(0, i as int)),
            decreases parts@.len() - i,
        {
            result.append(" ");
            result.append(parts[i].as_str());
            assert(views.subrange(0, i + 1).drop_last() =~= views.subrange(0, i as int));
            i = i + 1;
        }
        assert(views.subrange(0, i as int) =~= views);
        result.append(")");
        result
    }
}

impl Visitor<String> for AstPrinter {
    open spec fn binary_post(&self, e: &Binary, r: String) -> bool {
        r@ == parenthesized(e.op@.lexeme, seq![render(e.left@), render(e.right@)])
    }

    open spec fn grouping_post(&self, e: &Grouping, r: String) -> bool {
        r@ == parenthesized("group"@, seq![render(e.expr@)])
    }

    open spec fn literal_post(&self, e: &Literal, r: String) -> bool {
        r@ == literal_text(e.value@)
    }

    open spec fn unary_post(&self, e: &Unary, r: String) -> bool {
        r@ == parenthesized(e.op@.lexeme, seq![render(e.right@)])
    }

    fn visit_binary(&mut self, e: &Binary) -> (r: String)
        ensures
            r@ == parenthesized(e.op@.lexeme, seq![render(e.left@), render(e.right@)]),
        decreases e,
    {
        let left = self.print(&e.left);
        let right = self.print(&e.right);
        let ghost views = seq![left@, right@];
        let parts = vec![left, right];
        assert(parts@.map_values(|p: String| p@) =~= views);
        assert(views.drop_last() =~= seq![views[0]]);
        self.parenthesize(e.op.lexeme.clone(), parts)
    }

    fn visit_grouping(&mut self, e: &Grouping) -> (r: String)
        ensures
            r@ == parenthesized("group"@, seq![render(e.expr@)]),
        decreases e,
    {
        let inner = self.print(&e.expr);
        let ghost views = seq![inner@];
        let parts = vec![inner];
        assert(parts@.map_values(|p: String| p@) =~= views);
        self.parenthesize(String::from_str("group"), parts)
    }

    fn visit_literal(&mut self, e: &Literal) -> (r: String)
        ensures
            r@ == literal_text(e.value@),
    {
        self.print_literal(e)
    }

    fn visit_unary(&mut self, e: &Unary) -> (r: String)
        ensures
            r@ == parenthesized(e.op@.lexeme, seq![render(e.right@)]),
        decreases e,
    {
        let right = self.print(&e.right);
        let ghost views = seq![right@];
        let parts = vec![right];
        assert(parts@.map_values(|p: String| p@) =~= views);
        self.parenthesize(e.op.lexeme.clone(), parts)
    }
}

/// A printer's traversal of a tree through `accept` gives the tree's prefix
/// form; so two traversals of one tree give the same text.
pub proof fn lemma_reprint_identical(p: AstPrinter, q: AstPrinter, e: &Expr, first: String, second: String)
    requires
        accept_post(&p, e, first),
        accept_post(&q, e, second),
    ensures
        first@ == render(e@),
        first@ == second@,
{
    match e {
        Expr::Binary(b) => {
            let parts = seq![render(b.left@), render(b.right@)];
            assert(parts.drop_last() =~= seq![parts[0]]);
        },
        _ => {},
    }
}

} // verus!

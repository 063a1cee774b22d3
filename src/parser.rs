use vstd::prelude::*;

use crate::expr::{
    illegal_placeholder, Binary, Expr, ExprView, Grouping, Literal, LiteralValue, LiteralView,
    Unary,
};
use crate::lexer::{lex_all, Lexer};
use crate::token::{Token, TokenType, TokenView};

verus! {

/// What the parser looked for when it stopped.
#[derive(Debug, Clone, Copy, PartialEq, Eq, Structural)]
pub enum Expectation {
    /// A `)` to close a parenthesized expression.
    CloseParen,
    /// The start of an expression.
    Expression,
}

/// A syntax error: the token where parsing stopped (`None` at the end of the
/// input) and what was expected there.
#[derive(Debug)]
pub struct ParseError {
    pub token: Option<Token>,
    pub expected: Expectation,
}

pub struct ParseErrorView {
    pub token: Option<TokenView>,
    pub expected: Expectation,
}

impl View for ParseError {
    type V = ParseErrorView;

    open spec fn view(&self) -> ParseErrorView {
        ParseErrorView {
            token: match self.token {
                Some(t) => Some(t@),
                None => None,
            },
            expected: self.expected,
        }
    }
}

/// Where in the token sequence parsing stopped, and what it expected there.
pub struct SyntaxError {
    pub at: int,
    pub expected: Expectation,
}

/// The error as reported: the token at the stopping point, if any.
pub open spec fn error_view(t: Seq<TokenView>, e: SyntaxError) -> ParseErrorView {
    ParseErrorView {
        token: if 0 <= e.at < t.len() {
            Some(t[e.at])
        } else {
            None
        },
        expected: e.expected,
    }
}

/// The operators of each binary level, from the tightest (1) to the loosest
/// (4): `* /`, `+ -`, `> < >= <=`, `!= ==`.
pub open spec fn level_op(level: nat, k: TokenType) -> bool {
    if level == 1 {
        k == TokenType::ASTERISK || k == TokenType::SLASH
    } else if level == 2 {
        k == TokenType::MINUS || k == TokenType::PLUS
    } else if level == 3 {
        k == TokenType::GT || k == TokenType::LT || k == TokenType::GE || k == TokenType::LE
    } else if level == 4 {
        k == TokenType::NOT_EQ || k == TokenType::EQ
    } else {
        false
    }
}

/// Kinds whose token stands as a literal leaf.
pub open spec fn literal_kind(k: TokenType) -> bool {
    k == TokenType::FALSE || k == TokenType::TRUE || k == TokenType::NULL || k == TokenType::NUMBER
        || k == TokenType::STRING
}

pub type Parsed = Result<(ExprView, int), SyntaxError>;

/// The expression of binary level `level` (0 for unary) that starts at token
/// `i`, and the index after it. Operands of one level fold to the left.
pub open spec fn parse_level(t: Seq<TokenView>, i: int, level: nat) -> Parsed
    decreases t.len() - i, level + 2,
{
    if level == 0 {
        parse_unary(t, i)
    } else {
        match parse_level(t, i, (level - 1) as nat) {
            Err(e) => Err(e),
            Ok((left, j)) => {
                // always so: see lemma_level_advances
                if i < j <= t.len() {
                    fold_level(t, left, j, level)
                } else {
                    Ok((left, j))
                }
            },
        }
    }
}

/// Folds `left op operand op operand ...` at `level`, from token `j` on.
pub open spec fn fold_level(t: Seq<TokenView>, left: ExprView, j: int, level: nat) -> Parsed
    decreases t.len() - j, level + 2,
{
    if 0 <= j < t.len() && level >= 1 && level_op(level, t[j].kind) {
        match parse_level(t, j + 1, (level - 1) as nat) {
            Err(e) => Err(e),
            Ok((right, k)) => {
                let e = ExprView::Binary(Box::new(left), t[j], Box::new(right));
                if j < k <= t.len() {
                    fold_level(t, e, k, level)
                } else {
                    Ok((e, k))
                }
            },
        }
    } else {
        Ok((left, j))
    }
}

/// `("-" | "!") unary | primary`
pub open spec fn parse_unary(t: Seq<TokenView>, i: int) -> Parsed
    decreases t.len() - i, 1nat,
{
    if 0 <= i < t.len() && (t[i].kind == TokenType::MINUS || t[i].kind == TokenType::EXCLAMATION) {
        match parse_unary(t, i + 1) {
            Err(e) => Err(e),
            Ok((right, k)) => Ok((ExprView::Unary(t[i], Box::new(right)), k)),
        }
    } else {
        parse_primary(t, i)
    }
}

/// A literal token, or `( expression )`.
pub open spec fn parse_primary(t: Seq<TokenView>, i: int) -> Parsed
    decreases t.len() - i, 0nat,
{
    if 0 <= i < t.len() && literal_kind(t[i].kind) {
        Ok((ExprView::Literal(LiteralView::Text(t[i].lexeme)), i + 1))
    } else if 0 <= i < t.len() && t[i].kind == TokenType::LPAREN {
        match parse_level(t, i + 1, 4) {
            Err(e) => Err(e),
            Ok((inner, j)) => if 0 <= j < t.len() && t[j].kind == TokenType::RPAREN {
                Ok((ExprView::Grouping(Box::new(inner)), j + 1))
            } else {
                Err(SyntaxError { at: j, expected: Expectation::CloseParen })
            },
        }
    } else {
        Err(SyntaxError { at: i, expected: Expectation::Expression })
    }
}

/// Every expression the grammar accepts takes at least one token and ends
/// within the sequence; so the tests on `i < j` in `parse_level` and
/// `fold_level` always pass and only make the recursion's end evident.
pub proof fn lemma_level_advances(t: Seq<TokenView>, i: int, level: nat)
    ensures
        parse_level(t, i, level) matches Ok((e, j)) ==> 0 <= i < j <= t.len(),
    decreases t.len() - i, level + 2,
{
    if level == 0 {
        lemma_unary_advances(t, i);
    } else {
        lemma_level_advances(t, i, (level - 1) as nat);
        if let Ok((left, j)) = parse_level(t, i, (level - 1) as nat) {
            if i < j <= t.len() {
                lemma_fold_advances(t, left, j, level);
            }
        }
    }
}

pub proof fn lemma_fold_advances(t: Seq<TokenView>, left: ExprView, j: int, level: nat)
    requires
        0 <= j <= t.len(),
    ensures
        fold_level(t, left, j, level) matches Ok((e, k)) ==> j <= k <= t.len(),
    decreases t.len() - j, level + 2,
{
    if 0 <= j < t.len() && level >= 1 && level_op(level, t[j].kind) {
        lemma_level_advances(t, j + 1, (level - 1) as nat);
        if let Ok((right, k)) = parse_level(t, j + 1, (level - 1) as nat) {
            let e = ExprView::Binary(Box::new(left), t[j], Box::new(right));
            if j < k <= t.len() {
                lemma_fold_advances(t, e, k, level);
            }
        }
    }
}

pub proof fn lemma_unary_advances(t: Seq<TokenView>, i: int)
    ensures
        parse_unary(t, i) matches Ok((e, j)) ==> 0 <= i < j <= t.len(),
    decreases t.len() - i, 1nat,
{
    if 0 <= i < t.len() && (t[i].kind == TokenType::MINUS || t[i].kind == TokenType::EXCLAMATION) {
        lemma_unary_advances(t, i + 1);
    } else {
        lemma_primary_advances(t, i);
    }
}

pub proof fn lemma_primary_advances(t: Seq<TokenView>, i: int)
    ensures
        parse_primary(t, i) matches Ok((e, j)) ==> 0 <= i < j <= t.len(),
    decreases t.len() - i, 0nat,
{
    if 0 <= i < t.len() && !literal_kind(t[i].kind) && t[i].kind == TokenType::LPAREN {
        lemma_level_advances(t, i + 1, 4);
    }
}

/// An expression that opens with `(` and whose `)` is missing is a syntax
/// error at the token found in the `)`'s place (none at the end of the
/// input); with the contract of `Parser::parse`, the call then returns the
/// placeholder and records that error.
pub proof fn lemma_unclosed_group(t: Seq<TokenView>, i: int, inner: ExprView, j: int)
    requires
        0 <= i < t.len(),
        t[i].kind == TokenType::LPAREN,
        parse_level(t, i + 1, 4) == Ok::<(ExprView, int), SyntaxError>((inner, j)),
        !(0 <= j < t.len() && t[j].kind == TokenType::RPAREN),
    ensures
        parse_level(t, i, 4) == Err::<(ExprView, int), SyntaxError>(
            SyntaxError { at: j, expected: Expectation::CloseParen },
        ),
{
    let err = Err::<(ExprView, int), SyntaxError>(
        SyntaxError { at: j, expected: Expectation::CloseParen },
    );
    assert(parse_primary(t, i) == err);
    assert(parse_unary(t, i) == err);
    assert(parse_level(t, i, 0) == err);
    assert(parse_level(t, i, 1) == err);
    assert(parse_level(t, i, 2) == err);
    assert(parse_level(t, i, 3) == err);
}

/// Kinds of the keywords that begin a statement.
pub open spec fn statement_start(k: TokenType) -> bool {
    k == TokenType::CLASS || k == TokenType::FUNCTION || k == TokenType::LET || k == TokenType::FOR
        || k == TokenType::IF || k == TokenType::WHILE || k == TokenType::RETURN
}

/// The first index at or after `j` that holds a `;` or a statement keyword,
/// or the end.
pub open spec fn sync_end(t: Seq<TokenView>, j: int) -> int
    decreases t.len() - j,
{
    if 0 <= j < t.len() && !(t[j].kind == TokenType::SEMICOLON || statement_start(t[j].kind)) {
        sync_end(t, j + 1)
    } else {
        j
    }
}

/// The executable result `r`, with the parser left at `pos`, is what the
/// grammar gives.
pub open spec fn agrees(t: Seq<TokenView>, p: Parsed, r: Result<Expr, ParseError>, pos: int) -> bool {
    match p {
        Ok((e, j)) => r matches Ok(x) && x@ == e && pos == j,
        Err(err) => r matches Err(x) && x@ == error_view(t, err) && pos == err.at,
    }
}

/// A recursive-descent parser over the tokens of one text.
pub struct Parser {
    tokens: Vec<Token>,
    pos: usize,
    current_token: Token,
    errors: Vec<ParseError>,
}

impl Parser {
    /// The tokens of the text.
    pub closed spec fn tokens(&self) -> Seq<TokenView> {
        self.tokens@.map_values(|t: Token| t@)
    }

    /// The index of the next token.
    pub closed spec fn pos(&self) -> int {
        self.pos as int
    }

    /// The token matched last.
    pub closed spec fn current(&self) -> TokenView {
        self.current_token@
    }

    /// The syntax errors reported so far.
    pub closed spec fn diagnostics(&self) -> Seq<ParseErrorView> {
        self.errors@.map_values(|e: ParseError| e@)
    }

    pub closed spec fn wf(&self) -> bool {
        self.pos <= self.tokens@.len()
    }

    /// The same text and reports as `prev`, and a position no earlier.
    pub open spec fn moved_on(&self, prev: &Parser) -> bool {
        &&& self.wf()
        &&& self.tokens() == prev.tokens()
        &&& self.diagnostics() == prev.diagnostics()
        &&& prev.pos() <= self.pos()
    }

    /// A parser at the first token of `text`, with no errors reported.
    pub fn new(text: &str) -> (r: Parser)
        requires
            text@.len() < usize::MAX,
        ensures
            r.wf(),
            r.tokens() == lex_all(text@, 0, 1),
            r.pos() == 0,
            r.diagnostics() == Seq::<ParseErrorView>::empty(),
    {
        let mut lexer = Lexer::new(text);
        let tokens = lexer.tokens();
        Parser {
            tokens,
            pos: 0,
            current_token: Token::new(TokenType::ILLEGAL, String::new(), 0),
            errors: Vec::new(),
        }
    }

    /// The syntax errors reported so far, oldest first.
    pub fn errors(&self) -> (r: &Vec<ParseError>)
        ensures
            r@.map_values(|e: ParseError| e@) == self.diagnostics(),
    {
        &self.errors
    }

    /// Parses one expression from the current token on. Where no token is
    /// left, or the tokens do not form an expression, the result is the
    /// placeholder literal; a syntax error is then recorded. Tokens after the
    /// expression are left where they are.
    pub fn parse(&mut self) -> (r: Expr)
        requires
            old(self).wf(),
        ensures
            final(self).wf(),
            final(self).tokens() == old(self).tokens(),
            old(self).pos() >= old(self).tokens().len() ==> r@ == illegal_placeholder()
                && final(self).pos() == old(self).pos() && final(self).diagnostics()
                == old(self).diagnostics(),
            old(self).pos() < old(self).tokens().len() ==> match parse_level(
                old(self).tokens(),
                old(self).pos(),
                4,
            ) {
                Ok((e, j)) => r@ == e && final(self).pos() == j && final(self).diagnostics()
                    == old(self).diagnostics(),
                Err(err) => r@ == illegal_placeholder() && final(self).pos() == err.at
                    && final(self).diagnostics() == old(self).diagnostics().push(
                    error_view(old(self).tokens(), err),
                ),
            },
    {
        if self.pos >= self.tokens.len() {
            return Expr::Literal(Literal::new(LiteralValue::Illegal));
        }
        match self.expression() {
            Ok(e) => e,
            Err(err) => {
                let ghost before = self.errors@.map_values(|e: ParseError| e@);
                let ghost v = err@;
                self.errors.push(err);
                assert(self.errors@.map_values(|e: ParseError| e@) =~= before.push(v));
                Expr::Literal(Literal::new(LiteralValue::Illegal))
            },
        }
    }

    /// The next token, if any, without taking it.
    fn peek_token(&self) -> (r: Option<Token>)
        requires
            self.wf(),
        ensures
            match r {
                Some(x) => self.pos() < self.tokens().len() && x@ == self.tokens()[self.pos()],
                None => self.pos() >= self.tokens().len(),
            },
    {
        if self.pos < self.tokens.len() {
            Some(self.tokens[self.pos].duplicate())
        } else {
            None
        }
    }

    /// Takes the next token if it is of kind `token_type`, and keeps it as
    /// the current token.
    fn match_token(&mut self, token_type: TokenType) -> (r: bool)
        requires
            old(self).wf(),
        ensures
            final(self).moved_on(old(self)),
            r == (old(self).pos() < old(self).tokens().len() && old(self).tokens()[old(
                self,
            ).pos()].kind == token_type),
            r ==> final(self).pos() == old(self).pos() + 1 && final(self).current() == old(
                self,
            ).tokens()[old(self).pos()],
            !r ==> final(self).pos() == old(self).pos() && final(self).current() == old(self).current(),
    {
        if self.pos < self.tokens.len() && self.tokens[self.pos].token_type == token_type {
            self.current_token = self.tokens[self.pos].duplicate();
            self.pos = self.pos + 1;
            true
        } else {
            false
        }
    }

    /// Takes the next token, which must be of kind `token_type`; else reports
    /// what was expected where it stopped.
    fn consume(&mut self, token_type: TokenType, expected: Expectation) -> (r: Result<(), ParseError>)
        requires
            old(self).wf(),
        ensures
            final(self).moved_on(old(self)),
            old(self).pos() < old(self).tokens().len() && old(self).tokens()[old(self).pos()].kind
                == token_type ==> r is Ok && final(self).pos() == old(self).pos() + 1
                && final(self).current() == old(self).tokens()[old(self).pos()],
            !(old(self).pos() < old(self).tokens().len() && old(self).tokens()[old(
                self,
            ).pos()].kind == token_type) ==> (r matches Err(x) && final(self).pos() == old(
                self,
            ).pos() && final(self).current() == old(self).current() && x@ == error_view(
                old(self).tokens(),
                SyntaxError { at: old(self).pos(), expected },
            )),
    {
        if self.match_token(token_type) {
            Ok(())
        } else {
            Err(ParseError { token: self.peek_token(), expected })
        }
    }

    /// Passes over the failing token and then every token up to a `;` or a
    /// keyword that begins a statement, so that parsing can start again there.
    pub fn synchronize(&mut self)
        requires
            old(self).wf(),
        ensures
            final(self).moved_on(old(self)),
            final(self).current() == old(self).current(),
            final(self).pos() == sync_end(
                old(self).tokens(),
                if old(self).pos() < old(self).tokens().len() {
                    old(self).pos() + 1
                } else {
                    old(self).pos()
                },
            ),
    {
        if self.pos < self.tokens.len() {
            self.pos = self.pos + 1;
        }
        while self.pos < self.tokens.len()
            invariant
                self.moved_on(old(self)),
                self.current() == old(self).current(),
                sync_end(self.tokens(), self.pos()) == sync_end(
                    old(self).tokens(),
                    if old(self).pos() < old(self).tokens().len() {
                        old(self).pos() + 1
                    } else {
                        old(self).pos()
                    },
                ),
            decreases self.tokens@.len() - self.pos,
        {
            let k = self.tokens[self.pos].token_type;
            if k == TokenType::SEMICOLON || k == TokenType::CLASS || k == TokenType::FUNCTION || k
                == TokenType::LET || k == TokenType::FOR || k == TokenType::IF || k
                == TokenType::WHILE || k == TokenType::RETURN {
                return;
            }
            self.pos = self.pos + 1;
        }
    }

    fn expression(&mut self) -> (r: Result<Expr, ParseError>)
        requires
            old(self).wf(),
        ensures
            final(self).moved_on(old(self)),
            agrees(old(self).tokens(), parse_level(old(self).tokens(), old(self).pos(), 4), r, final(self).pos()),
            r is Ok ==> old(self).pos() < final(self).pos(),
        decreases old(self).tokens().len() - old(self).pos(), 7nat,
    {
        self.equality()
    }

    fn equality(&mut self) -> (r: Result<Expr, ParseError>)
        requires
            old(self).wf(),
        ensures
            final(self).moved_on(old(self)),
            agrees(old(self).tokens(), parse_level(old(self).tokens(), old(self).pos(), 4), r, final(self).pos()),
            r is Ok ==> old(self).pos() < final(self).pos(),
        decreases old(self).tokens().len() - old(self).pos(), 6nat,
    {
        let ghost t = self.tokens();
        let ghost i = self.pos();
        let mut expr = match self.comparison() {
            Ok(e) => e,
            Err(e) => return Err(e),
        };
        loop
            invariant
                self.wf(),
                self.tokens() == t,
                self.diagnostics() == old(self).diagnostics(),
                i < self.pos() <= t.len(),
                i == old(self).pos(),
                t == old(self).tokens(),
                fold_level(t, expr@, self.pos(), 4) == parse_level(t, i, 4),
            decreases t.len() - self.pos(),
        {
            if !(self.match_token(TokenType::NOT_EQ) || self.match_token(TokenType::EQ)) {
                return Ok(expr);
            }
            let op = self.current_token.duplicate();
            let right = match self.comparison() {
                Ok(e) => e,
                Err(e) => return Err(e),
            };
            expr = Expr::Binary(Binary::new(Box::new(expr), op, Box::new(right)));
        }
    }

    fn comparison(&mut self) -> (r: Result<Expr, ParseError>)
        requires
            old(self).wf(),
        ensures
            final(self).moved_on(old(self)),
            agrees(old(self).tokens(), parse_level(old(self).tokens(), old(self).pos(), 3), r, final(self).pos()),
            r is Ok ==> old(self).pos() < final(self).pos(),
        decreases old(self).tokens().len() - old(self).pos(), 5nat,
    {
        let ghost t = self.tokens();
        let ghost i = self.pos();
        let mut expr = match self.addition() {
            Ok(e) => e,
            Err(e) => return Err(e),
        };
        loop
            invariant
                self.wf(),
                self.tokens() == t,
                self.diagnostics() == old(self).diagnostics(),
                i < self.pos() <= t.len(),
                i == old(self).pos(),
                t == old(self).tokens(),
                fold_level(t, expr@, self.pos(), 3) == parse_level(t, i, 3),
            decreases t.len() - self.pos(),
        {
            if !(self.match_token(TokenType::GT) || self.match_token(TokenType::LT) || self.match_token(TokenType::GE) || self.match_token(TokenType::LE)) {
                return Ok(expr);
            }
            let op = self.current_token.duplicate();
            let right = match self.addition() {
                Ok(e) => e,
                Err(e) => return Err(e),
            };
            expr = Expr::Binary(Binary::new(Box::new(expr), op, Box::new(right)));
        }
    }

    fn addition(&mut self) -> (r: Result<Expr, ParseError>)
        requires
            old(self).wf(),
        ensures
            final(self).moved_on(old(self)),
            agrees(old(self).tokens(), parse_level(old(self).tokens(), old(self).pos(), 2), r, final(self).pos()),
            r is Ok ==> old(self).pos() < final(self).pos(),
        decreases old(self).tokens().len() - old(self).pos(), 4nat,
    {
        let ghost t = self.tokens();
        let ghost i = self.pos();
        let mut expr = match self.multiplication() {
            Ok(e) => e,
            Err(e) => return Err(e),
        };
        loop
            invariant
                self.wf(),
                self.tokens() == t,
                self.diagnostics() == old(self).diagnostics(),
                i < self.pos() <= t.len(),
                i == old(self).pos(),
                t == old(self).tokens(),
                fold_level(t, expr@, self.pos(), 2) == parse_level(t, i, 2),
            decreases t.len() - self.pos(),
        {
            if !(self.match_token(TokenType::MINUS) || self.match_token(TokenType::PLUS)) {
                return Ok(expr);
            }
            let op = self.current_token.duplicate();
            let right = match self.multiplication() {
                Ok(e) => e,
                Err(e) => return Err(e),
            };
            expr = Expr::Binary(Binary::new(Box::new(expr), op, Box::new(right)));
        }
    }

    fn multiplication(&mut self) -> (r: Result<Expr, ParseError>)
        requires
            old(self).wf(),
        ensures
            final(self).moved_on(old(self)),
            agrees(old(self).tokens(), parse_level(old(self).tokens(), old(self).pos(), 1), r, final(self).pos()),
            r is Ok ==> old(self).pos() < final(self).pos(),
        decreases old(self).tokens().len() - old(self).pos(), 3nat,
    {
        let ghost t = self.tokens();
        let ghost i = self.pos();
        assert(parse_level(t, i, 0) == parse_unary(t, i));
        let mut expr = match self.unary() {
            Ok(e) => e,
            Err(e) => return Err(e),
        };
        loop
            invariant
                self.wf(),
                self.tokens() == t,
                self.diagnostics() == old(self).diagnostics(),
                i < self.pos() <= t.len(),
                i == old(self).pos(),
                t == old(self).tokens(),
                fold_level(t, expr@, self.pos(), 1) == parse_level(t, i, 1),
            decreases t.len() - self.pos(),
        {
            if !(self.match_token(TokenType::ASTERISK) || self.match_token(TokenType::SLASH)) {
                return Ok(expr);
            }
            let op = self.current_token.duplicate();
            assert(parse_level(t, self.pos(), 0) == parse_unary(t, self.pos()));
            let right = match self.unary() {
                Ok(e) => e,
                Err(e) => return Err(e),
            };
            expr = Expr::Binary(Binary::new(Box::new(expr), op, Box::new(right)));
        }
    }

    fn unary(&mut self) -> (r: Result<Expr, ParseError>)
        requires
            old(self).wf(),
        ensures
            final(self).moved_on(old(self)),
            agrees(old(self).tokens(), parse_unary(old(self).tokens(), old(self).pos()), r, final(self).pos()),
            r is Ok ==> old(self).pos() < final(self).pos(),
        decreases old(self).tokens().len() - old(self).pos(), 1nat,
    {
        if self.match_token(TokenType::MINUS) || self.match_token(TokenType::EXCLAMATION) {
            let op = self.current_token.duplicate();
            match self.unary() {
                Ok(right) => Ok(Expr::Unary(Unary::new(op, Box::new(right)))),
                Err(e) => Err(e),
            }
        } else {
            self.primary()
        }
    }

    fn primary(&mut self) -> (r: Result<Expr, ParseError>)
        requires
            old(self).wf(),
        ensures
            final(self).moved_on(old(self)),
            agrees(old(self).tokens(), parse_primary(old(self).tokens(), old(self).pos()), r, final(self).pos()),
            old(self).pos() < old(self).tokens().len() && literal_kind(old(self).tokens()[old(self).pos()].kind)
                ==> final(self).current() == old(self).tokens()[old(self).pos()],
            r is Ok ==> old(self).pos() < final(self).pos(),
        decreases old(self).tokens().len() - old(self).pos(), 0nat,
    {
        if self.match_token(TokenType::FALSE) || self.match_token(TokenType::TRUE)
            || self.match_token(TokenType::NULL) || self.match_token(TokenType::NUMBER)
            || self.match_token(TokenType::STRING) {
            let text = self.current_token.lexeme.clone();
            Ok(Expr::Literal(Literal::new(LiteralValue::Text(text))))
        } else if self.match_token(TokenType::LPAREN) {
            let inner = match self.expression() {
                Ok(e) => e,
                Err(e) => return Err(e),
            };
            match self.consume(TokenType::RPAREN, Expectation::CloseParen) {
                Ok(()) => Ok(Expr::Grouping(Grouping::new(Box::new(inner)))),
                Err(e) => Err(e),
            }
        } else {
            Err(ParseError { token: self.peek_token(), expected: Expectation::Expression })
        }
    }
}

} // verus!

use vstd::prelude::*;

use crate::token::{chars_of, keyword_kind, loopkup_ident, word_token, Token, TokenType, TokenView};

verus! {

/// Whether a character above U+007F has the Unicode Alphabetic property.
pub uninterp spec fn unicode_alphabetic(c: char) -> bool;

/// Whether a character above U+007F is in the Unicode Numeric categories.
pub uninterp spec fn unicode_numeric(c: char) -> bool;

pub open spec fn ascii_letter(c: char) -> bool {
    ('a' <= c && c <= 'z') || ('A' <= c && c <= 'Z')
}

pub open spec fn ascii_digit(c: char) -> bool {
    '0' <= c && c <= '9'
}

/// A character that may stand in a word.
pub open spec fn alphabetic(c: char) -> bool {
    if (c as u32) < 0x80 {
        ascii_letter(c)
    } else {
        unicode_alphabetic(c)
    }
}

/// A character that may follow the first digit of a number (dots aside).
pub open spec fn numeric(c: char) -> bool {
    if (c as u32) < 0x80 {
        ascii_digit(c)
    } else {
        unicode_numeric(c)
    }
}

/// Relies on char::is_alphabetic: ASCII letters below U+0080, the Unicode
/// Alphabetic property above.
#[verifier::external_body]
fn char_is_alphabetic(c: char) -> (r: bool)
    ensures
        r == (if (c as u32) < 0x80 {
            ascii_letter(c)
        } else {
            unicode_alphabetic(c)
        }),
{
    c.is_alphabetic()
}

/// Relies on char::is_numeric: ASCII digits below U+0080, the Unicode
/// Numeric categories above.
#[verifier::external_body]
fn char_is_numeric(c: char) -> (r: bool)
    ensures
        r == (if (c as u32) < 0x80 {
            ascii_digit(c)
        } else {
            unicode_numeric(c)
        }),
{
    c.is_numeric()
}

/// Relies on String::push: the character is appended at the end.
#[verifier::external_body]
fn push_char(s: &mut String, c: char)
    ensures
        final(s)@ == old(s)@.push(c),
{
    s.push(c);
}

/// The runs of characters that the lexer takes in one sweep.
#[derive(Clone, Copy, PartialEq, Eq, Structural)]
pub enum Run {
    /// The rest of a line comment: anything but a newline.
    Comment,
    /// The body of a string literal: anything but a double quote.
    Text,
    /// The tail of a number: numeric characters and dots.
    Number,
    /// The tail of a word: alphabetic characters.
    Word,
}

pub open spec fn keeps(run: Run, c: char) -> bool {
    match run {
        Run::Comment => c != '\n',
        Run::Text => c != '"',
        Run::Number => numeric(c) || c == '.',
        Run::Word => alphabetic(c),
    }
}

/// The first index at or after `i` whose character ends the run, or the end
/// of the text.
pub open spec fn run_end(s: Seq<char>, i: int, run: Run) -> int
    decreases s.len() - i,
{
    if 0 <= i < s.len() && keeps(run, s[i]) {
        run_end(s, i + 1, run)
    } else {
        i
    }
}

/// The number of newlines in `s[a..b]`.
pub open spec fn newlines_in(s: Seq<char>, a: int, b: int) -> nat
    decreases b - a,
{
    if b <= a {
        0
    } else {
        newlines_in(s, a, b - 1) + if s[b - 1] == '\n' {
            1nat
        } else {
            0nat
        }
    }
}

/// Characters that separate tokens and yield none.
pub open spec fn blank(c: char) -> bool {
    c == ' ' || c == '\t' || c == '\r'
}

pub open spec fn starts_comment(s: Seq<char>, pos: int) -> bool {
    s[pos] == '/' && pos + 1 < s.len() && s[pos + 1] == '/'
}

/// The punctuation or operator that starts at `pos`, and where it ends: one
/// character, or two where `=` follows `=`, `!`, `<` or `>`.
pub open spec fn operator_token(s: Seq<char>, pos: int) -> Option<(TokenType, int)> {
    let c = s[pos];
    let eq_next = pos + 1 < s.len() && s[pos + 1] == '=';
    if c == '+' {
        Some((TokenType::PLUS, pos + 1))
    } else if c == '.' {
        Some((TokenType::DOT, pos + 1))
    } else if c == '-' {
        Some((TokenType::MINUS, pos + 1))
    } else if c == '*' {
        Some((TokenType::ASTERISK, pos + 1))
    } else if c == '^' {
        Some((TokenType::CARET, pos + 1))
    } else if c == '(' {
        Some((TokenType::LPAREN, pos + 1))
    } else if c == ')' {
        Some((TokenType::RPAREN, pos + 1))
    } else if c == '{' {
        Some((TokenType::LBRACE, pos + 1))
    } else if c == '}' {
        Some((TokenType::RBRACE, pos + 1))
    } else if c == '[' {
        Some((TokenType::LBRACKET, pos + 1))
    } else if c == ']' {
        Some((TokenType::RBRACKET, pos + 1))
    } else if c == ':' {
        Some((TokenType::COLON, pos + 1))
    } else if c == ',' {
        Some((TokenType::COMMA, pos + 1))
    } else if c == ';' {
        Some((TokenType::SEMICOLON, pos + 1))
    } else if c == '/' {
        Some((TokenType::SLASH, pos + 1))
    } else if c == '=' {
        if eq_next {
            Some((TokenType::EQ, pos + 2))
        } else {
            Some((TokenType::ASSIGN, pos + 1))
        }
    } else if c == '!' {
        if eq_next {
            Some((TokenType::NOT_EQ, pos + 2))
        } else {
            Some((TokenType::EXCLAMATION, pos + 1))
        }
    } else if c == '<' {
        if eq_next {
            Some((TokenType::LE, pos + 2))
        } else {
            Some((TokenType::LT, pos + 1))
        }
    } else if c == '>' {
        if eq_next {
            Some((TokenType::GE, pos + 2))
        } else {
            Some((TokenType::GT, pos + 1))
        }
    } else {
        None
    }
}

/// The token that starts at `pos` once blanks, newlines and line comments
/// are passed, with the position after it and the line count there; `None`
/// when only those remain.
///
/// A string literal runs to the next `"`; its lexeme is the text between the
/// quotes and its token carries the line on which it closes. A `"` that no
/// other closes yields an `ILLEGAL` token holding the rest of the text from
/// the quote on. A number is a digit followed by every numeric character and
/// dot after it.
pub open spec fn next_token(s: Seq<char>, pos: int, line: nat) -> Option<(TokenView, int, nat)>
    decreases s.len() - pos,
    via next_token_decreases
{
    if pos < 0 || pos >= s.len() {
        None
    } else if blank(s[pos]) {
        next_token(s, pos + 1, line)
    } else if s[pos] == '\n' {
        next_token(s, pos + 1, line + 1)
    } else if starts_comment(s, pos) {
        next_token(s, run_end(s, pos + 2, Run::Comment), line)
    } else if operator_token(s, pos) is Some {
        let (k, e) = operator_token(s, pos)->0;
        Some((TokenView { kind: k, lexeme: s.subrange(pos, e), line }, e, line))
    } else if s[pos] == '"' {
        let e = run_end(s, pos + 1, Run::Text);
        let l = line + newlines_in(s, pos + 1, e);
        if e < s.len() {
            Some((TokenView { kind: TokenType::STRING, lexeme: s.subrange(pos + 1, e), line: l }, e + 1, l))
        } else {
            Some((TokenView { kind: TokenType::ILLEGAL, lexeme: s.subrange(pos, e), line: l }, e, l))
        }
    } else if ascii_digit(s[pos]) {
        let e = run_end(s, pos + 1, Run::Number);
        Some((TokenView { kind: TokenType::NUMBER, lexeme: s.subrange(pos, e), line }, e, line))
    } else if alphabetic(s[pos]) {
        let e = run_end(s, pos + 1, Run::Word);
        Some((word_token(s.subrange(pos, e), line), e, line))
    } else {
        Some((TokenView { kind: TokenType::ILLEGAL, lexeme: s.subrange(pos, pos + 1), line }, pos + 1, line))
    }
}

pub proof fn lemma_run_end_bounds(s: Seq<char>, i: int, run: Run)
    requires
        0 <= i <= s.len(),
    ensures
        i <= run_end(s, i, run) <= s.len(),
        run_end(s, i, run) < s.len() ==> !keeps(run, s[run_end(s, i, run)]),
        forall|j: int| i <= j < run_end(s, i, run) ==> keeps(run, #[trigger] s[j]),
    decreases s.len() - i,
{
    if i < s.len() && keeps(run, s[i]) {
        lemma_run_end_bounds(s, i + 1, run);
    }
}

#[via_fn]
proof fn next_token_decreases(s: Seq<char>, pos: int, line: nat) {
    if 0 <= pos < s.len() && !blank(s[pos]) && s[pos] != '\n' && starts_comment(s, pos) {
        lemma_run_end_bounds(s, pos + 2, Run::Comment);
    }
}

/// Where the next token begins: the first index from `pos` on that is not
/// a blank, a newline or part of a line comment.
pub open spec fn token_start(s: Seq<char>, pos: int) -> int
    decreases s.len() - pos,
    via token_start_decreases
{
    if pos < 0 || pos >= s.len() {
        pos
    } else if blank(s[pos]) || s[pos] == '\n' {
        token_start(s, pos + 1)
    } else if starts_comment(s, pos) {
        token_start(s, run_end(s, pos + 2, Run::Comment))
    } else {
        pos
    }
}

#[via_fn]
proof fn token_start_decreases(s: Seq<char>, pos: int) {
    if 0 <= pos < s.len() && !blank(s[pos]) && s[pos] != '\n' && starts_comment(s, pos) {
        lemma_run_end_bounds(s, pos + 2, Run::Comment);
    }
}

/// Every token of the text from `pos` on, in order.
pub open spec fn lex_all(s: Seq<char>, pos: int, line: nat) -> Seq<TokenView>
    decreases s.len() - pos,
    via lex_all_decreases
{
    match next_token(s, pos, line) {
        None => Seq::empty(),
        Some((t, e, l)) => seq![t] + lex_all(s, e, l),
    }
}

#[via_fn]
proof fn lex_all_decreases(s: Seq<char>, pos: int, line: nat) {
    lemma_next_token_bounds(s, pos, line);
}

/// A token found at `pos` ends after `pos` and within the text.
pub proof fn lemma_next_token_bounds(s: Seq<char>, pos: int, line: nat)
    ensures
        next_token(s, pos, line) matches Some((t, e, l)) ==> 0 <= pos < e <= s.len() && line <= l,
    decreases s.len() - pos,
{
    if pos < 0 || pos >= s.len() {
    } else if blank(s[pos]) {
        lemma_next_token_bounds(s, pos + 1, line);
    } else if s[pos] == '\n' {
        lemma_next_token_bounds(s, pos + 1, line + 1);
    } else if starts_comment(s, pos) {
        lemma_run_end_bounds(s, pos + 2, Run::Comment);
        lemma_next_token_bounds(s, run_end(s, pos + 2, Run::Comment), line);
    } else if operator_token(s, pos) is Some {
    } else if s[pos] == '"' {
        lemma_run_end_bounds(s, pos + 1, Run::Text);
    } else if ascii_digit(s[pos]) {
        lemma_run_end_bounds(s, pos + 1, Run::Number);
    } else if alphabetic(s[pos]) {
        lemma_run_end_bounds(s, pos + 1, Run::Word);
    }
}

/// `s[a..b]` as a `String`.
fn text_between(s: &Vec<char>, a: usize, b: usize) -> (r: String)
    requires
        a <= b <= s@.len(),
    ensures
        r@ == s@.subrange(a as int, b as int),
{
    let mut r = String::new();
    let mut i: usize = a;
    while i < b
        invariant
            a <= i <= b <= s@.len(),
            r@ == s@.subrange(a as int, i as int),
        decreases b - i,
    {
        push_char(&mut r, s[i]);
        assert(s@.subrange(a as int, i + 1) =~= s@.subrange(a as int, i as int).push(s@[i as int]));
        i = i + 1;
    }
    r
}

fn keeps_char(run: Run, c: char) -> (r: bool)
    ensures
        r == keeps(run, c),
{
    match run {
        Run::Comment => c != '\n',
        Run::Text => c != '"',
        Run::Number => char_is_numeric(c) || c == '.',
        Run::Word => char_is_alphabetic(c),
    }
}

fn find_run_end(s: &Vec<char>, i: usize, run: Run) -> (r: usize)
    requires
        i <= s@.len(),
    ensures
        r == run_end(s@, i as int, run),
        i <= r <= s@.len(),
{
    let mut j: usize = i;
    while j < s.len() && keeps_char(run, s[j])
        invariant
            i <= j <= s@.len(),
            run_end(s@, j as int, run) == run_end(s@, i as int, run),
        decreases s@.len() - j,
    {
        j = j + 1;
    }
    j
}

fn count_newlines(s: &Vec<char>, a: usize, b: usize) -> (r: usize)
    requires
        a <= b <= s@.len(),
    ensures
        r == newlines_in(s@, a as int, b as int),
        r <= b - a,
{
    let mut n: usize = 0;
    let mut i: usize = a;
    while i < b
        invariant
            a <= i <= b <= s@.len(),
            n == newlines_in(s@, a as int, i as int),
            n <= i - a,
        decreases b - i,
    {
        if s[i] == '\n' {
            n = n + 1;
        }
        i = i + 1;
    }
    n
}

fn operator_at(s: &Vec<char>, pos: usize) -> (r: Option<(TokenType, usize)>)
    requires
        pos < s@.len(),
        s@.len() < usize::MAX,
    ensures
        match r {
            Some((k, e)) => operator_token(s@, pos as int) == Some((k, e as int)),
            None => operator_token(s@, pos as int) is None,
        },
{
    let c = s[pos];
    let eq_next = pos + 1 < s.len() && s[pos + 1] == '=';
    let one = pos + 1;
    if c == '+' {
        Some((TokenType::PLUS, one))
    } else if c == '.' {
        Some((TokenType::DOT, one))
    } else if c == '-' {
        Some((TokenType::MINUS, one))
    } else if c == '*' {
        Some((TokenType::ASTERISK, one))
    } else if c == '^' {
        Some((TokenType::CARET, one))
    } else if c == '(' {
        Some((TokenType::LPAREN, one))
    } else if c == ')' {
        Some((TokenType::RPAREN, one))
    } else if c == '{' {
        Some((TokenType::LBRACE, one))
    } else if c == '}' {
        Some((TokenType::RBRACE, one))
    } else if c == '[' {
        Some((TokenType::LBRACKET, one))
    } else if c == ']' {
        Some((TokenType::RBRACKET, one))
    } else if c == ':' {
        Some((TokenType::COLON, one))
    } else if c == ',' {
        Some((TokenType::COMMA, one))
    } else if c == ';' {
        Some((TokenType::SEMICOLON, one))
    } else if c == '/' {
        Some((TokenType::SLASH, one))
    } else if c == '=' {
        if eq_next {
            Some((TokenType::EQ, pos + 2))
        } else {
            Some((TokenType::ASSIGN, one))
        }
    } else if c == '!' {
        if eq_next {
            Some((TokenType::NOT_EQ, pos + 2))
        } else {
            Some((TokenType::EXCLAMATION, one))
        }
    } else if c == '<' {
        if eq_next {
            Some((TokenType::LE, pos + 2))
        } else {
            Some((TokenType::LT, one))
        }
    } else if c == '>' {
        if eq_next {
            Some((TokenType::GE, pos + 2))
        } else {
            Some((TokenType::GT, one))
        }
    } else {
        None
    }
}

/// Turns source text into tokens, one at a time, keeping a cursor into the
/// text and the current line.
#[derive(Debug, Clone)]
pub struct Lexer {
    chars: Vec<char>,
    pos: usize,
    line: usize,
}

impl Lexer {
    /// The text being read.
    pub closed spec fn text(&self) -> Seq<char> {
        self.chars@
    }

    /// The index of the next character to read.
    pub closed spec fn pos(&self) -> int {
        self.pos as int
    }

    /// The line on which the next character stands.
    pub closed spec fn line(&self) -> nat {
        self.line as nat
    }

    pub closed spec fn wf(&self) -> bool {
        &&& self.chars@.len() < usize::MAX
        &&& self.pos <= self.chars@.len()
        &&& 1 <= self.line <= self.pos + 1
    }

    /// The line count is one more than the newlines before the cursor.
    pub open spec fn tracks_lines(&self) -> bool {
        self.line() == 1 + newlines_in(self.text(), 0, self.pos())
    }

    /// The tokens that are still to come.
    pub open spec fn rest(&self) -> Seq<TokenView> {
        lex_all(self.text(), self.pos(), self.line())
    }

    /// A lexer at the start of `text`, on line 1.
    pub fn new(text: &str) -> (r: Lexer)
        requires
            text@.len() < usize::MAX,
        ensures
            r.wf(),
            r.text() == text@,
            r.pos() == 0,
            r.line() == 1,
            r.tracks_lines(),
    {
        Lexer { chars: chars_of(text), pos: 0, line: 1 }
    }

    /// The next token, or `None` once the text holds no more. Blanks,
    /// newlines and line comments are passed over; each newline taken, inside
    /// a string literal too, adds one to the line count.
    pub fn next(&mut self) -> (r: Option<Token>)
        requires
            old(self).wf(),
        ensures
            old(self).tracks_lines() ==> final(self).tracks_lines(),
            final(self).wf(),
            final(self).text() == old(self).text(),
            old(self).pos() <= final(self).pos(),
            final(self).line() == old(self).line() + newlines_in(
                old(self).text(),
                old(self).pos(),
                final(self).pos(),
            ),
            match next_token(old(self).text(), old(self).pos(), old(self).line()) {
                None => r is None && final(self).pos() == final(self).text().len(),
                Some((t, e, l)) => r matches Some(tok) && tok@ == t && final(self).pos() == e
                    && final(self).line() == l,
            },
    {
        let r = self.scan_token();
        proof {
            lemma_newlines_split(self.text(), 0, old(self).pos(), self.pos());
        }
        r
    }

    /// Reads the next token; `next` adds what it keeps of the line count.
    fn scan_token(&mut self) -> (r: Option<Token>)
        requires
            old(self).wf(),
        ensures
            final(self).wf(),
            final(self).text() == old(self).text(),
            old(self).pos() <= final(self).pos(),
            final(self).line() == old(self).line() + newlines_in(
                old(self).text(),
                old(self).pos(),
                final(self).pos(),
            ),
            match next_token(old(self).text(), old(self).pos(), old(self).line()) {
                None => r is None && final(self).pos() == final(self).text().len(),
                Some((t, e, l)) => r matches Some(tok) && tok@ == t && final(self).pos() == e
                    && final(self).line() == l,
            },
    {
        let ghost s = self.chars@;
        let ghost pos0 = self.pos as int;
        let ghost line0 = self.line as nat;
        let n = self.chars.len();
        while self.pos < n && trivia_at(&self.chars, self.pos)
            invariant
                self.wf(),
                self.chars@ == s,
                n == s.len(),
                pos0 <= self.pos,
                self.line == line0 + newlines_in(s, pos0, self.pos as int),
                next_token(s, self.pos as int, self.line as nat) == next_token(s, pos0, line0),
            decreases n - self.pos,
        {
            let ghost p = self.pos as int;
            let c = self.chars[self.pos];
            if c == '\n' {
                self.pos = self.pos + 1;
                self.line = self.line + 1;
            } else if c == '/' {
                let e = find_run_end(&self.chars, self.pos + 2, Run::Comment);
                proof {
                    lemma_run_end_bounds(s, p + 2, Run::Comment);
                    lemma_no_newlines(s, p, e as int);
                    lemma_newlines_split(s, pos0, p, e as int);
                }
                self.pos = e;
            } else {
                self.pos = self.pos + 1;
            }
        }
        if self.pos >= n {
            return None;
        }
        let start = self.pos;
        let ghost line1 = self.line as nat;
        let c = self.chars[start];
        assert(!blank(c) && c != '\n' && !starts_comment(s, start as int));
        if let Some((k, e)) = operator_at(&self.chars, start) {
            let lexeme = text_between(&self.chars, start, e);
            proof {
                lemma_no_newlines(s, start as int, e as int);
                lemma_newlines_split(s, pos0, start as int, e as int);
            }
            self.pos = e;
            return Some(Token::new(k, lexeme, self.line));
        }
        if c == '"' {
            let e = find_run_end(&self.chars, start + 1, Run::Text);
            let k = count_newlines(&self.chars, start + 1, e);
            proof {
                lemma_no_newlines(s, start as int, start + 1);
                lemma_newlines_split(s, pos0, start as int, start + 1);
                lemma_newlines_split(s, pos0, start + 1, e as int);
                if e < n {
                    lemma_run_end_bounds(s, start + 1, Run::Text);
                    lemma_no_newlines(s, e as int, e + 1);
                    lemma_newlines_split(s, pos0, e as int, e + 1);
                }
            }
            self.line = self.line + k;
            if e < n {
                let text = text_between(&self.chars, start + 1, e);
                self.pos = e + 1;
                return Some(Token::new(TokenType::STRING, text, self.line));
            } else {
                let text = text_between(&self.chars, start, e);
                self.pos = e;
                return Some(Token::new(TokenType::ILLEGAL, text, self.line));
            }
        }
        if '0' <= c && c <= '9' {
            let e = find_run_end(&self.chars, start + 1, Run::Number);
            let text = text_between(&self.chars, start, e);
            proof {
                lemma_run_end_bounds(s, start + 1, Run::Number);
                lemma_no_newlines(s, start as int, e as int);
                lemma_newlines_split(s, pos0, start as int, e as int);
            }
            self.pos = e;
            return Some(Token::new(TokenType::NUMBER, text, self.line));
        }
        if char_is_alphabetic(c) {
            let e = find_run_end(&self.chars, start + 1, Run::Word);
            let mut word = text_between(&self.chars, start, e);
            proof {
                lemma_run_end_bounds(s, start + 1, Run::Word);
                lemma_no_newlines(s, start as int, e as int);
                lemma_newlines_split(s, pos0, start as int, e as int);
            }
            self.pos = e;
            return Some(loopkup_ident(&mut word, self.line));
        }
        let text = text_between(&self.chars, start, start + 1);
        proof {
            lemma_no_newlines(s, start as int, start + 1);
            lemma_newlines_split(s, pos0, start as int, start + 1);
        }
        self.pos = start + 1;
        Some(Token::new(TokenType::ILLEGAL, text, self.line))
    }

    /// Every token that is still to come, in order; the lexer is then spent.
    pub fn tokens(&mut self) -> (r: Vec<Token>)
        requires
            old(self).wf(),
        ensures
            final(self).wf(),
            final(self).text() == old(self).text(),
            r@.map_values(|t: Token| t@) == old(self).rest(),
            final(self).rest() == Seq::<TokenView>::empty(),
    {
        let mut r: Vec<Token> = Vec::new();
        loop
            invariant
                self.wf(),
                self.text() == old(self).text(),
                r@.map_values(|t: Token| t@) + self.rest() == old(self).rest(),
            decreases self.text().len() - self.pos(),
        {
            let ghost before = *self;
            proof {
                lemma_next_token_bounds(self.text(), self.pos(), self.line());
            }
            match self.next() {
                None => {
                    assert(r@.map_values(|t: Token| t@) =~= old(self).rest());
                    return r;
                },
                Some(t) => {
                    let ghost v = r@.map_values(|t: Token| t@);
                    r.push(t);
                    assert(r@.map_values(|t: Token| t@) =~= v.push(t@));
                    assert(before.rest() == seq![t@] + self.rest());
                    assert(v + before.rest() =~= v.push(t@) + self.rest());
                },
            }
        }
    }
}

/// A stretch without a newline adds nothing to the line count.
proof fn lemma_no_newlines(s: Seq<char>, a: int, b: int)
    requires
        0 <= a <= b <= s.len(),
        forall|j: int| a <= j < b ==> s[j] != '\n',
    ensures
        newlines_in(s, a, b) == 0,
    decreases b - a,
{
    if b > a {
        lemma_no_newlines(s, a, b - 1);
    }
}

/// Newlines are counted piece by piece.
pub proof fn lemma_newlines_split(s: Seq<char>, a: int, b: int, c: int)
    requires
        a <= b <= c,
    ensures
        newlines_in(s, a, c) == newlines_in(s, a, b) + newlines_in(s, b, c),
    decreases c - b,
{
    if c > b {
        lemma_newlines_split(s, a, b, c - 1);
    }
}

/// Whether the character at `pos` is passed over: a blank, a newline, or
/// the start of a line comment.
fn trivia_at(s: &Vec<char>, pos: usize) -> (r: bool)
    requires
        pos < s@.len(),
        s@.len() < usize::MAX,
    ensures
        r == (blank(s@[pos as int]) || s@[pos as int] == '\n' || starts_comment(s@, pos as int)),
{
    let c = s[pos];
    c == ' ' || c == '\t' || c == '\r' || c == '\n' || (c == '/' && pos + 1 < s.len() && s[pos
        + 1] == '/')
}

/// A text that is one whole operator or punctuation mark lexes to exactly
/// that one token, with the text as its lexeme.
pub proof fn lemma_operator_round_trip(s: Seq<char>, k: TokenType)
    requires
        s.len() >= 1,
        operator_token(s, 0) == Some((k, s.len() as int)),
        !starts_comment(s, 0),
    ensures
        lex_all(s, 0, 1) == seq![TokenView { kind: k, lexeme: s, line: 1 }],
{
    assert(!blank(s[0]) && s[0] != '\n');
    assert(s.subrange(0, s.len() as int) =~= s);
    assert(next_token(s, s.len() as int, 1) is None);
    assert(lex_all(s, s.len() as int, 1) == Seq::<TokenView>::empty());
    assert(lex_all(s, 0, 1) =~= seq![TokenView { kind: k, lexeme: s, line: 1 }]);
}

proof fn lemma_word_run(w: Seq<char>, i: int)
    requires
        0 <= i <= w.len(),
        forall|j: int| 0 <= j < w.len() ==> alphabetic(#[trigger] w[j]),
    ensures
        run_end(w, i, Run::Word) == w.len(),
    decreases w.len() - i,
{
    if i < w.len() {
        lemma_word_run(w, i + 1);
    }
}

/// A run of alphabetic characters lexes to one token: the keyword's token if
/// the keyword table has the word, else an identifier with the word verbatim.
pub proof fn lemma_word_classification(w: Seq<char>)
    requires
        w.len() >= 1,
        forall|j: int| 0 <= j < w.len() ==> alphabetic(#[trigger] w[j]),
    ensures
        lex_all(w, 0, 1) == seq![word_token(w, 1)],
{
    let c = w[0];
    assert(alphabetic(c));
    lemma_word_run(w, 1);
    assert(w.subrange(0, w.len() as int) =~= w);
    assert(next_token(w, w.len() as int, 1) is None);
    assert(lex_all(w, w.len() as int, 1) == Seq::<TokenView>::empty());
    assert(lex_all(w, 0, 1) =~= seq![word_token(w, 1)]);
}

/// Every word of the keyword table lexes to one token of its keyword's kind,
/// with the word as its lexeme.
pub proof fn lemma_keyword_classification(w: Seq<char>)
    requires
        keyword_kind(w) is Some,
    ensures
        lex_all(w, 0, 1) == seq![TokenView { kind: keyword_kind(w)->0, lexeme: w, line: 1 }],
{
    assert(forall|j: int| 0 <= j < w.len() ==> ascii_letter(#[trigger] w[j]));
    lemma_word_classification(w);
}

/// The line count goes up by one for each newline taken, and each token
/// carries the count as it stands after the token, which begins at
/// `token_start`.
pub proof fn lemma_line_tracking(s: Seq<char>, pos: int, line: nat)
    ensures
        next_token(s, pos, line) matches Some((t, e, l)) ==> t.line == l && pos <= token_start(s, pos)
            < e && l == line + newlines_in(s, pos, e),
    decreases s.len() - pos,
{
    if pos < 0 || pos >= s.len() {
    } else if blank(s[pos]) {
        assert(newlines_in(s, pos, pos) == 0);
        assert(newlines_in(s, pos, pos + 1) == 0);
        lemma_line_tracking(s, pos + 1, line);
        lemma_next_token_bounds(s, pos + 1, line);
        if let Some((t, e, l)) = next_token(s, pos + 1, line) {
            lemma_newlines_split(s, pos, pos + 1, e);
        }
    } else if s[pos] == '\n' {
        assert(newlines_in(s, pos, pos) == 0);
        assert(newlines_in(s, pos, pos + 1) == 1);
        lemma_line_tracking(s, pos + 1, line + 1);
        lemma_next_token_bounds(s, pos + 1, line + 1);
        if let Some((t, e, l)) = next_token(s, pos + 1, line + 1) {
            lemma_newlines_split(s, pos, pos + 1, e);
        }
    } else if starts_comment(s, pos) {
        let c = run_end(s, pos + 2, Run::Comment);
        lemma_run_end_bounds(s, pos + 2, Run::Comment);
        lemma_line_tracking(s, c, line);
        lemma_next_token_bounds(s, c, line);
        lemma_no_newlines(s, pos, c);
        if let Some((t, e, l)) = next_token(s, c, line) {
            lemma_newlines_split(s, pos, c, e);
        }
    } else if operator_token(s, pos) is Some {
        let (k, e) = operator_token(s, pos)->0;
        assert(e == pos + 1 || s[pos + 1] == '=');
        assert(forall|j: int| pos <= j < e ==> s[j] != '\n');
        lemma_no_newlines(s, pos, e);
    } else if s[pos] == '"' {
        let e = run_end(s, pos + 1, Run::Text);
        lemma_run_end_bounds(s, pos + 1, Run::Text);
        lemma_no_newlines(s, pos, pos + 1);
        lemma_newlines_split(s, pos, pos + 1, e);
        if e < s.len() {
            lemma_no_newlines(s, e, e + 1);
            lemma_newlines_split(s, pos, e, e + 1);
        }
    } else if ascii_digit(s[pos]) {
        lemma_run_end_bounds(s, pos + 1, Run::Number);
        lemma_no_newlines(s, pos, run_end(s, pos + 1, Run::Number));
    } else if alphabetic(s[pos]) {
        lemma_run_end_bounds(s, pos + 1, Run::Word);
        lemma_no_newlines(s, pos, run_end(s, pos + 1, Run::Word));
    } else {
        lemma_no_newlines(s, pos, pos + 1);
    }
}

/// Counting from line 1 at the start of the text, each token carries the
/// line on which it begins plus the newlines inside it (only a string
/// literal can hold any).
pub proof fn lemma_token_line(s: Seq<char>, pos: int)
    requires
        0 <= pos <= s.len(),
    ensures
        next_token(s, pos, 1 + newlines_in(s, 0, pos)) matches Some((t, e, l)) ==> pos <= token_start(
            s,
            pos,
        ) < e && t.line == 1 + newlines_in(s, 0, token_start(s, pos)) + newlines_in(
            s,
            token_start(s, pos),
            e,
        ),
{
    let line = 1 + newlines_in(s, 0, pos);
    lemma_line_tracking(s, pos, line);
    if let Some((t, e, l)) = next_token(s, pos, line) {
        let b = token_start(s, pos);
        lemma_newlines_split(s, pos, b, e);
        lemma_newlines_split(s, 0, pos, b);
    }
}

} // verus!

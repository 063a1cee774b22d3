use vstd::prelude::*;

verus! {

/// The closed set of token kinds: punctuation, operators, literals, keywords
/// and the two sentinels `ILLEGAL` and `EOF`.
#[allow(non_camel_case_types)]
#[derive(Debug, Clone, Copy, PartialEq, Eq, Hash, Structural)]
pub enum TokenType {
    ILLEGAL,
    EOF,
    IDENT,
    NUMBER,
    STRING,
    ASSIGN,
    PLUS,
    MINUS,
    ASTERISK,
    SLASH,
    EXCLAMATION,
    GT,
    LT,
    GE,
    LE,
    CARET,
    EQ,
    NOT_EQ,
    COMMA,
    SEMICOLON,
    COLON,
    DOT,
    LPAREN,
    RPAREN,
    LBRACE,
    RBRACE,
    LBRACKET,
    RBRACKET,
    FUNCTION,
    CLASS,
    LET,
    IF,
    ELSE,
    RETURN,
    TRUE,
    FALSE,
    AND,
    OR,
    FOR,
    WHILE,
    BREAK,
    NULL,
}

/// The printed name of a kind: the variant's own name.
pub open spec fn kind_name(k: TokenType) -> Seq<char> {
    match k {
        TokenType::ILLEGAL => "ILLEGAL"@,
        TokenType::EOF => "EOF"@,
        TokenType::IDENT => "IDENT"@,
        TokenType::NUMBER => "NUMBER"@,
        TokenType::STRING => "STRING"@,
        TokenType::ASSIGN => "ASSIGN"@,
        TokenType::PLUS => "PLUS"@,
        TokenType::MINUS => "MINUS"@,
        TokenType::ASTERISK => "ASTERISK"@,
        TokenType::SLASH => "SLASH"@,
        TokenType::EXCLAMATION => "EXCLAMATION"@,
        TokenType::GT => "GT"@,
        TokenType::LT => "LT"@,
        TokenType::GE => "GE"@,
        TokenType::LE => "LE"@,
        TokenType::CARET => "CARET"@,
        TokenType::EQ => "EQ"@,
        TokenType::NOT_EQ => "NOT_EQ"@,
        TokenType::COMMA => "COMMA"@,
        TokenType::SEMICOLON => "SEMICOLON"@,
        TokenType::COLON => "COLON"@,
        TokenType::DOT => "DOT"@,
        TokenType::LPAREN => "LPAREN"@,
        TokenType::RPAREN => "RPAREN"@,
        TokenType::LBRACE => "LBRACE"@,
        TokenType::RBRACE => "RBRACE"@,
        TokenType::LBRACKET => "LBRACKET"@,
        TokenType::RBRACKET => "RBRACKET"@,
        TokenType::FUNCTION => "FUNCTION"@,
        TokenType::CLASS => "CLASS"@,
        TokenType::LET => "LET"@,
        TokenType::IF => "IF"@,
        TokenType::ELSE => "ELSE"@,
        TokenType::RETURN => "RETURN"@,
        TokenType::TRUE => "TRUE"@,
        TokenType::FALSE => "FALSE"@,
        TokenType::AND => "AND"@,
        TokenType::OR => "OR"@,
        TokenType::FOR => "FOR"@,
        TokenType::WHILE => "WHILE"@,
        TokenType::BREAK => "BREAK"@,
        TokenType::NULL => "NULL"@,
    }
}

impl TokenType {
    /// The kind's name as text.
    pub fn name(&self) -> (r: String)
        ensures
            r@ == kind_name(*self),
    {
        let s = match self {
            TokenType::ILLEGAL => "ILLEGAL",
            TokenType::EOF => "EOF",
            TokenType::IDENT => "IDENT",
            TokenType::NUMBER => "NUMBER",
            TokenType::STRING => "STRING",
            TokenType::ASSIGN => "ASSIGN",
            TokenType::PLUS => "PLUS",
            TokenType::MINUS => "MINUS",
            TokenType::ASTERISK => "ASTERISK",
            TokenType::SLASH => "SLASH",
            TokenType::EXCLAMATION => "EXCLAMATION",
            TokenType::GT => "GT",
            TokenType::LT => "LT",
            TokenType::GE => "GE",
            TokenType::LE => "LE",
            TokenType::CARET => "CARET",
            TokenType::EQ => "EQ",
            TokenType::NOT_EQ => "NOT_EQ",
            TokenType::COMMA => "COMMA",
            TokenType::SEMICOLON => "SEMICOLON",
            TokenType::COLON => "COLON",
            TokenType::DOT => "DOT",
            TokenType::LPAREN => "LPAREN",
            TokenType::RPAREN => "RPAREN",
            TokenType::LBRACE => "LBRACE",
            TokenType::RBRACE => "RBRACE",
            TokenType::LBRACKET => "LBRACKET",
            TokenType::RBRACKET => "RBRACKET",
            TokenType::FUNCTION => "FUNCTION",
            TokenType::CLASS => "CLASS",
            TokenType::LET => "LET",
            TokenType::IF => "IF",
            TokenType::ELSE => "ELSE",
            TokenType::RETURN => "RETURN",
            TokenType::TRUE => "TRUE",
            TokenType::FALSE => "FALSE",
            TokenType::AND => "AND",
            TokenType::OR => "OR",
            TokenType::FOR => "FOR",
            TokenType::WHILE => "WHILE",
            TokenType::BREAK => "BREAK",
            TokenType::NULL => "NULL",
        };
        String::from_str(s)
    }
}

/// What a token is, as plain values.
pub struct TokenView {
    pub kind: TokenType,
    pub lexeme: Seq<char>,
    pub line: nat,
}

/// A classified, positioned unit of source text. Immutable once made.
#[derive(Debug, Clone, PartialEq)]
pub struct Token {
    pub token_type: TokenType,
    pub lexeme: String,
    pub line: usize,
}

impl View for Token {
    type V = TokenView;

    open spec fn view(&self) -> TokenView {
        TokenView { kind: self.token_type, lexeme: self.lexeme@, line: self.line as nat }
    }
}

impl Token {
    pub fn new(token_type: TokenType, lexeme: String, line: usize) -> (r: Token)
        ensures
            r@ == (TokenView { kind: token_type, lexeme: lexeme@, line: line as nat }),
    {
        Token { token_type, lexeme, line }
    }

    /// A copy of this token, field for field.
    pub fn duplicate(&self) -> (r: Token)
        ensures
            r@ == self@,
    {
        Token { token_type: self.token_type, lexeme: self.lexeme.clone(), line: self.line }
    }

    /// The token as "KIND lexeme", the way it is shown to a user.
    pub fn describe(&self) -> (r: String)
        ensures
            r@ == kind_name(self.token_type) + " "@ + self.lexeme@,
    {
        let mut r = self.token_type.name();
        r.append(" ");
        r.append(self.lexeme.as_str());
        r
    }
}

/// The keyword table: the kind a word names, if it is a keyword.
pub open spec fn keyword_kind(w: Seq<char>) -> Option<TokenType> {
    if w == seq!['f', 'n'] {
        Some(TokenType::FUNCTION)
    } else if w == seq!['c', 'l', 'a', 's', 's'] {
        Some(TokenType::CLASS)
    } else if w == seq!['l', 'e', 't'] {
        Some(TokenType::LET)
    } else if w == seq!['i', 'f'] {
        Some(TokenType::IF)
    } else if w == seq!['e', 'l', 's', 'e'] {
        Some(TokenType::ELSE)
    } else if w == seq!['r', 'e', 't', 'u', 'r', 'n'] {
        Some(TokenType::RETURN)
    } else if w == seq!['t', 'r', 'u', 'e'] {
        Some(TokenType::TRUE)
    } else if w == seq!['f', 'a', 'l', 's', 'e'] {
        Some(TokenType::FALSE)
    } else if w == seq!['a', 'n', 'd'] {
        Some(TokenType::AND)
    } else if w == seq!['o', 'r'] {
        Some(TokenType::OR)
    } else if w == seq!['f', 'o', 'r'] {
        Some(TokenType::FOR)
    } else if w == seq!['w', 'h', 'i', 'l', 'e'] {
        Some(TokenType::WHILE)
    } else if w == seq!['b', 'r', 'e', 'a', 'k'] {
        Some(TokenType::BREAK)
    } else if w == seq!['n', 'u', 'l', 'l'] {
        Some(TokenType::NULL)
    } else {
        None
    }
}

/// The token for a word: of the keyword's kind if the keyword table has the
/// word, else an identifier. Either way the lexeme is the word itself.
pub open spec fn word_token(w: Seq<char>, line: nat) -> TokenView {
    match keyword_kind(w) {
        Some(k) => TokenView { kind: k, lexeme: w, line },
        None => TokenView { kind: TokenType::IDENT, lexeme: w, line },
    }
}

/// The characters of a text, in order.
pub fn chars_of(s: &str) -> (r: Vec<char>)
    ensures
        r@ == s@,
{
    let n = s.unicode_len();
    let mut r: Vec<char> = Vec::new();
    let mut i: usize = 0;
    while i < n
        invariant
            n == s@.len(),
            i <= n,
            r@ == s@.subrange(0, i as int),
        decreases n - i,
    {
        r.push(s.get_char(i));
        i = i + 1;
    }
    assert(r@ =~= s@);
    r
}

fn word_is(w: &Vec<char>, text: &[char]) -> (r: bool)
    ensures
        r == (w@ == text@),
{
    if w.len() != text.len() {
        return false;
    }
    let mut i: usize = 0;
    while i < w.len()
        invariant
            w@.len() == text@.len(),
            i <= w@.len(),
            w@.subrange(0, i as int) == text@.subrange(0, i as int),
        decreases w@.len() - i,
    {
        if w[i] != text[i] {
            return false;
        }
        assert(w@.subrange(0, i + 1) =~= w@.subrange(0, i as int).push(w@[i as int]));
        assert(text@.subrange(0, i + 1) =~= text@.subrange(0, i as int).push(text@[i as int]));
        i = i + 1;
    }
    assert(w@ =~= w@.subrange(0, i as int));
    assert(text@ =~= text@.subrange(0, i as int));
    true
}

/// Looks a word up in the keyword table.
pub fn keyword_of(w: &Vec<char>) -> (r: Option<TokenType>)
    ensures
        r == keyword_kind(w@),
{
    if word_is(w, &['f', 'n']) {
        Some(TokenType::FUNCTION)
    } else if word_is(w, &['c', 'l', 'a', 's', 's']) {
        Some(TokenType::CLASS)
    } else if word_is(w, &['l', 'e', 't']) {
        Some(TokenType::LET)
    } else if word_is(w, &['i', 'f']) {
        Some(TokenType::IF)
    } else if word_is(w, &['e', 'l', 's', 'e']) {
        Some(TokenType::ELSE)
    } else if word_is(w, &['r', 'e', 't', 'u', 'r', 'n']) {
        Some(TokenType::RETURN)
    } else if word_is(w, &['t', 'r', 'u', 'e']) {
        Some(TokenType::TRUE)
    } else if word_is(w, &['f', 'a', 'l', 's', 'e']) {
        Some(TokenType::FALSE)
    } else if word_is(w, &['a', 'n', 'd']) {
        Some(TokenType::AND)
    } else if word_is(w, &['o', 'r']) {
        Some(TokenType::OR)
    } else if word_is(w, &['f', 'o', 'r']) {
        Some(TokenType::FOR)
    } else if word_is(w, &['w', 'h', 'i', 'l', 'e']) {
        Some(TokenType::WHILE)
    } else if word_is(w, &['b', 'r', 'e', 'a', 'k']) {
        Some(TokenType::BREAK)
    } else if word_is(w, &['n', 'u', 'l', 'l']) {
        Some(TokenType::NULL)
    } else {
        None
    }
}

/// Classifies a word: a keyword token if the keyword table has it, else an
/// identifier token. The lexeme is the word verbatim.
pub fn loopkup_ident(token: &mut String, line: usize) -> (r: Token)
    ensures
        r@ == word_token(old(token)@, line as nat),
        final(token)@ == old(token)@,
{
    let w = chars_of(token.as_str());
    match keyword_of(&w) {
        Some(k) => Token::new(k, token.clone(), line),
        None => Token::new(TokenType::IDENT, token.clone(), line),
    }
}

} // verus!

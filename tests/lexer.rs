use compiler_core::lexer::Lexer;
use compiler_core::token::{loopkup_ident, Token, TokenType};

fn tok(kind: TokenType, lexeme: &str, line: usize) -> Token {
    Token::new(kind, lexeme.to_string(), line)
}

#[test]
fn keywords_test() {
    let mut lexer = Lexer::new("true false if else return let fn");
    let expects = [
        Token::new(TokenType::TRUE, "true".to_string(), 1),
        Token::new(TokenType::FALSE, "false".to_string(), 1),
        Token::new(TokenType::IF, "if".to_string(), 1),
        Token::new(TokenType::ELSE, "else".to_string(), 1),
        Token::new(TokenType::RETURN, "return".to_string(), 1),
        Token::new(TokenType::LET, "let".to_string(), 1),
        Token::new(TokenType::FUNCTION, "fn".to_string(), 1),
    ];
    for expect in expects {
        assert_eq!(lexer.next().unwrap(), expect);
    }
}

#[test]
fn special_character_test() {
    let mut lexer = Lexer::new("=+(){}[],;*/!<>^>= <= == !=");
    let expects = [
        Token::new(TokenType::ASSIGN, "=".to_string(), 1),
        Token::new(TokenType::PLUS, "+".to_string(), 1),
        Token::new(TokenType::LPAREN, "(".to_string(), 1),
        Token::new(TokenType::RPAREN, ")".to_string(), 1),
        Token::new(TokenType::LBRACE, "{".to_string(), 1),
        Token::new(TokenType::RBRACE, "}".to_string(), 1),
        Token::new(TokenType::LBRACKET, "[".to_string(), 1),
        Token::new(TokenType::RBRACKET, "]".to_string(), 1),
        Token::new(TokenType::COMMA, ",".to_string(), 1),
        Token::new(TokenType::SEMICOLON, ";".to_string(), 1),
        Token::new(TokenType::ASTERISK, "*".to_string(), 1),
        Token::new(TokenType::SLASH, "/".to_string(), 1),
        Token::new(TokenType::EXCLAMATION, "!".to_string(), 1),
        Token::new(TokenType::LT, "<".to_string(), 1),
        Token::new(TokenType::GT, ">".to_string(), 1),
        Token::new(TokenType::CARET, "^".to_string(), 1),
        Token::new(TokenType::GE, ">=".to_string(), 1),
        Token::new(TokenType::LE, "<=".to_string(), 1),
        Token::new(TokenType::EQ, "==".to_string(), 1),
        Token::new(TokenType::NOT_EQ, "!=".to_string(), 1),
    ];
    for expect in expects {
        assert_eq!(lexer.next().unwrap(), expect);
    }
}

#[test]
fn real_case_test() {
    let mut lexer = Lexer::new(
        "let five = 5;
        let ten = 10;
        let add = fn(x,y) {
            x + y;
        };

        if (ten != five) {
            return true;
        } else {
            return false;
        }",
    );
    let expects = [
        Token::new(TokenType::LET, "let".to_string(), 1),
        Token::new(TokenType::IDENT, "five".to_string(), 1),
        Token::new(TokenType::ASSIGN, "=".to_string(), 1),
        Token::new(TokenType::NUMBER, "5".to_string(), 1),
        Token::new(TokenType::SEMICOLON, ";".to_string(), 1),
        Token::new(TokenType::LET, "let".to_string(), 2),
        Token::new(TokenType::IDENT, "ten".to_string(), 2),
        Token::new(TokenType::ASSIGN, "=".to_string(), 2),
        Token::new(TokenType::NUMBER, "10".to_string(), 2),
        Token::new(TokenType::SEMICOLON, ";".to_string(), 2),
        Token::new(TokenType::LET, "let".to_string(), 3),
        Token::new(TokenType::IDENT, "add".to_string(), 3),
        Token::new(TokenType::ASSIGN, "=".to_string(), 3),
        Token::new(TokenType::FUNCTION, "fn".to_string(), 3),
        Token::new(TokenType::LPAREN, "(".to_string(), 3),
        Token::new(TokenType::IDENT, "x".to_string(), 3),
        Token::new(TokenType::COMMA, ",".to_string(), 3),
        Token::new(TokenType::IDENT, "y".to_string(), 3),
        Token::new(TokenType::RPAREN, ")".to_string(), 3),
        Token::new(TokenType::LBRACE, "{".to_string(), 3),
        Token::new(TokenType::IDENT, "x".to_string(), 4),
        Token::new(TokenType::PLUS, "+".to_string(), 4),
        Token::new(TokenType::IDENT, "y".to_string(), 4),
        Token::new(TokenType::SEMICOLON, ";".to_string(), 4),
        Token::new(TokenType::RBRACE, "}".to_string(), 5),
        Token::new(TokenType::SEMICOLON, ";".to_string(), 5),
        Token::new(TokenType::IF, "if".to_string(), 7),
        Token::new(TokenType::LPAREN, "(".to_string(), 7),
        Token::new(TokenType::IDENT, "ten".to_string(), 7),
        Token::new(TokenType::NOT_EQ, "!=".to_string(), 7),
        Token::new(TokenType::IDENT, "five".to_string(), 7),
        Token::new(TokenType::RPAREN, ")".to_string(), 7),
        Token::new(TokenType::LBRACE, "{".to_string(), 7),
        Token::new(TokenType::RETURN, "return".to_string(), 8),
        Token::new(TokenType::TRUE, "true".to_string(), 8),
        Token::new(TokenType::SEMICOLON, ";".to_string(), 8),
        Token::new(TokenType::RBRACE, "}".to_string(), 9),
        Token::new(TokenType::ELSE, "else".to_string(), 9),
        Token::new(TokenType::LBRACE, "{".to_string(), 9),
        Token::new(TokenType::RETURN, "return".to_string(), 10),
        Token::new(TokenType::FALSE, "false".to_string(), 10),
        Token::new(TokenType::SEMICOLON, ";".to_string(), 10),
        Token::new(TokenType::RBRACE, "}".to_string(), 11),
    ];
    println!("{:?}", expects);
    for expect in expects.iter() {
        println!("{:?}", *expect);
        assert_eq!(lexer.next().unwrap(), *expect);
    }
}

#[test]
fn each_operator_text_is_one_token() {
    let cases = [
        ("(", TokenType::LPAREN),
        (")", TokenType::RPAREN),
        ("{", TokenType::LBRACE),
        ("}", TokenType::RBRACE),
        ("[", TokenType::LBRACKET),
        ("]", TokenType::RBRACKET),
        (",", TokenType::COMMA),
        (";", TokenType::SEMICOLON),
        (":", TokenType::COLON),
        (".", TokenType::DOT),
        ("+", TokenType::PLUS),
        ("-", TokenType::MINUS),
        ("*", TokenType::ASTERISK),
        ("/", TokenType::SLASH),
        ("^", TokenType::CARET),
        ("!", TokenType::EXCLAMATION),
        ("=", TokenType::ASSIGN),
        ("<", TokenType::LT),
        (">", TokenType::GT),
        ("==", TokenType::EQ),
        ("!=", TokenType::NOT_EQ),
        ("<=", TokenType::LE),
        (">=", TokenType::GE),
    ];
    for (text, kind) in cases {
        assert_eq!(Lexer::new(text).tokens(), vec![tok(kind, text, 1)], "{}", text);
    }
}

#[test]
fn every_keyword_is_classified() {
    let cases = [
        ("fn", TokenType::FUNCTION, "FUNCTION"),
        ("class", TokenType::CLASS, "CLASS"),
        ("let", TokenType::LET, "LET"),
        ("if", TokenType::IF, "IF"),
        ("else", TokenType::ELSE, "ELSE"),
        ("return", TokenType::RETURN, "RETURN"),
        ("true", TokenType::TRUE, "TRUE"),
        ("false", TokenType::FALSE, "FALSE"),
        ("and", TokenType::AND, "AND"),
        ("or", TokenType::OR, "OR"),
        ("for", TokenType::FOR, "FOR"),
        ("while", TokenType::WHILE, "WHILE"),
        ("break", TokenType::BREAK, "BREAK"),
        ("null", TokenType::NULL, "NULL"),
    ];
    for (text, kind, name) in cases {
        assert_eq!(Lexer::new(text).tokens(), vec![tok(kind, text, 1)]);
        assert_eq!(kind.name(), name.to_string());
    }
}

#[test]
fn other_words_are_identifiers_verbatim() {
    let tokens = Lexer::new("foo Let whilex h\u{e9}llo").tokens();
    assert_eq!(
        tokens,
        vec![
            tok(TokenType::IDENT, "foo", 1),
            tok(TokenType::IDENT, "Let", 1),
            tok(TokenType::IDENT, "whilex", 1),
            tok(TokenType::IDENT, "h\u{e9}llo", 1),
        ]
    );
}

#[test]
fn words_stop_at_digits_and_underscores() {
    let tokens = Lexer::new("ab1_c").tokens();
    assert_eq!(
        tokens,
        vec![
            tok(TokenType::IDENT, "ab", 1),
            tok(TokenType::NUMBER, "1", 1),
            tok(TokenType::ILLEGAL, "_", 1),
            tok(TokenType::IDENT, "c", 1),
        ]
    );
}

#[test]
fn lookup_of_words() {
    let mut word = "while".to_string();
    assert_eq!(loopkup_ident(&mut word, 4), tok(TokenType::WHILE, "while", 4));
    assert_eq!(word, "while");
    let mut other = "whale".to_string();
    assert_eq!(loopkup_ident(&mut other, 2), tok(TokenType::IDENT, "whale", 2));
}

#[test]
fn lines_follow_newlines() {
    let tokens = Lexer::new("a\nb\n\n  c\r\n\td").tokens();
    assert_eq!(
        tokens,
        vec![
            tok(TokenType::IDENT, "a", 1),
            tok(TokenType::IDENT, "b", 2),
            tok(TokenType::IDENT, "c", 4),
            tok(TokenType::IDENT, "d", 5),
        ]
    );
}

#[test]
fn string_literals_count_their_newlines() {
    let tokens = Lexer::new("\"one\ntwo\" x\n\"open").tokens();
    assert_eq!(
        tokens,
        vec![
            tok(TokenType::STRING, "one\ntwo", 2),
            tok(TokenType::IDENT, "x", 2),
            tok(TokenType::ILLEGAL, "\"open", 3),
        ]
    );
}

#[test]
fn comments_yield_no_token() {
    let tokens = Lexer::new("1 // two + three\n3 / 4 //").tokens();
    assert_eq!(
        tokens,
        vec![
            tok(TokenType::NUMBER, "1", 1),
            tok(TokenType::NUMBER, "3", 2),
            tok(TokenType::SLASH, "/", 2),
            tok(TokenType::NUMBER, "4", 2),
        ]
    );
}

#[test]
fn numbers_take_digits_and_dots() {
    let tokens = Lexer::new("3.14 1.2.3 7. 1\u{bd}").tokens();
    assert_eq!(
        tokens,
        vec![
            tok(TokenType::NUMBER, "3.14", 1),
            tok(TokenType::NUMBER, "1.2.3", 1),
            tok(TokenType::NUMBER, "7.", 1),
            tok(TokenType::NUMBER, "1\u{bd}", 1),
        ]
    );
}

#[test]
fn unknown_characters_are_illegal() {
    let tokens = Lexer::new("@ # $").tokens();
    assert_eq!(
        tokens,
        vec![
            tok(TokenType::ILLEGAL, "@", 1),
            tok(TokenType::ILLEGAL, "#", 1),
            tok(TokenType::ILLEGAL, "$", 1),
        ]
    );
}

#[test]
fn spent_lexer_stays_spent() {
    let mut lexer = Lexer::new("x  \n ");
    assert_eq!(lexer.next(), Some(tok(TokenType::IDENT, "x", 1)));
    assert_eq!(lexer.next(), None);
    assert_eq!(lexer.next(), None);
    assert!(Lexer::new("").tokens().is_empty());
    assert!(Lexer::new(" \t// only a comment").tokens().is_empty());
}

#[test]
fn token_description() {
    assert_eq!(tok(TokenType::PLUS, "+", 1).describe(), "PLUS +");
    assert_eq!(tok(TokenType::NOT_EQ, "!=", 3).describe(), "NOT_EQ !=");
    assert_eq!(TokenType::EOF.name(), "EOF");
}

#[test]
fn unclosed_string_is_illegal() {
    let tokens = Lexer::new("x \"ab\ncd").tokens();
    assert_eq!(
        tokens,
        vec![tok(TokenType::IDENT, "x", 1), tok(TokenType::ILLEGAL, "\"ab\ncd", 2)]
    );
    assert_eq!(Lexer::new("\"\"").tokens(), vec![tok(TokenType::STRING, "", 1)]);
    assert_eq!(Lexer::new("\"").tokens(), vec![tok(TokenType::ILLEGAL, "\"", 1)]);
}

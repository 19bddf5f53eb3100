use xeno::lexer::{Lexer, Token};

fn lex(source: &str) -> Vec<Token> {
    Lexer::new(source).tokenize()
}

fn ident(name: &str) -> Token {
    Token::Ident(name.to_string())
}

#[test]
fn empty_source_is_only_eof() {
    assert_eq!(lex(""), vec![Token::Eof]);
}

#[test]
fn blank_source_is_only_eof() {
    assert_eq!(lex(" \t\r\n \u{a0}\u{2003}\u{3000}\u{85}"), vec![Token::Eof]);
}

#[test]
fn keywords_are_whole_words() {
    assert_eq!(
        lex("fn let return int fnx _let returns in Int"),
        vec![
            Token::Fn,
            Token::Let,
            Token::Return,
            Token::Int,
            ident("fnx"),
            ident("_let"),
            ident("returns"),
            ident("in"),
            ident("Int"),
            Token::Eof,
        ]
    );
}

#[test]
fn every_punctuation_mark() {
    assert_eq!(
        lex("(){}[],;:=."),
        vec![
            Token::LParen,
            Token::RParen,
            Token::LBrace,
            Token::RBrace,
            Token::LBracket,
            Token::RBracket,
            Token::Comma,
            Token::Semicolon,
            Token::Colon,
            Token::Equals,
            Token::Dot,
            Token::Eof,
        ]
    );
}

#[test]
fn int_is_never_joined_with_brackets() {
    assert_eq!(
        lex("int[]"),
        vec![Token::Int, Token::LBracket, Token::RBracket, Token::Eof]
    );
}

#[test]
fn integer_literals() {
    assert_eq!(
        lex("0 42 007 9223372036854775807"),
        vec![
            Token::IntLit(0),
            Token::IntLit(42),
            Token::IntLit(7),
            Token::IntLit(i64::MAX),
            Token::Eof,
        ]
    );
}

#[test]
fn literal_out_of_range_is_zero() {
    assert_eq!(lex("9223372036854775808"), vec![Token::IntLit(0), Token::Eof]);
    assert_eq!(
        lex("99999999999999999999999999 1"),
        vec![Token::IntLit(0), Token::IntLit(1), Token::Eof]
    );
}

#[test]
fn numeral_that_is_no_decimal_digit_is_zero() {
    // ARABIC-INDIC DIGIT THREE and VULGAR FRACTION ONE HALF are numeric.
    assert_eq!(lex("\u{663}"), vec![Token::IntLit(0), Token::Eof]);
    assert_eq!(lex("1\u{bd}2"), vec![Token::IntLit(0), Token::Eof]);
}

#[test]
fn digits_then_letters_are_two_tokens() {
    assert_eq!(lex("12ab"), vec![Token::IntLit(12), ident("ab"), Token::Eof]);
}

#[test]
fn identifiers_take_letters_digits_and_underscores() {
    assert_eq!(
        lex("a1_b _ __x9 \u{e9}t\u{e9}2"),
        vec![ident("a1_b"), ident("_"), ident("__x9"), ident("\u{e9}t\u{e9}2"), Token::Eof]
    );
}

#[test]
fn unknown_character_is_an_identifier_of_its_own() {
    assert_eq!(
        lex("a+b @ -1"),
        vec![
            ident("a"),
            ident("+"),
            ident("b"),
            ident("@"),
            ident("-"),
            Token::IntLit(1),
            Token::Eof,
        ]
    );
}

#[test]
fn white_space_separates_and_is_dropped() {
    assert_eq!(
        lex("  let\n\tx\u{2003}:\rint=5 ;  "),
        vec![
            Token::Let,
            ident("x"),
            Token::Colon,
            Token::Int,
            Token::Equals,
            Token::IntLit(5),
            Token::Semicolon,
            Token::Eof,
        ]
    );
}

#[test]
fn next_token_keeps_returning_eof() {
    let mut lexer = Lexer::new("x ");
    assert_eq!(lexer.next_token(), ident("x"));
    assert_eq!(lexer.next_token(), Token::Eof);
    assert_eq!(lexer.next_token(), Token::Eof);
    assert_eq!(lexer.tokenize(), vec![Token::Eof]);
}

#[test]
fn tokenize_continues_behind_next_token() {
    let mut lexer = Lexer::new("fn f ( )");
    assert_eq!(lexer.next_token(), Token::Fn);
    assert_eq!(
        lexer.tokenize(),
        vec![ident("f"), Token::LParen, Token::RParen, Token::Eof]
    );
}

#[test]
fn eof_is_last_and_only_last() {
    let sources = ["", "a", "fn f() { 1 }", "let a: int = 5;", "@ # $", " 1 2 3 "];
    for source in sources {
        let tokens = lex(source);
        assert!(!tokens.is_empty());
        assert_eq!(tokens[tokens.len() - 1], Token::Eof);
        for token in &tokens[..tokens.len() - 1] {
            assert_ne!(*token, Token::Eof);
        }
    }
}

#[test]
fn describe_is_the_debug_text() {
    let tokens = vec![
        Token::Fn,
        Token::Let,
        Token::Return,
        Token::Int,
        Token::IntArray,
        ident("x"),
        ident(""),
        ident("a\"b\\c\n\t'\u{e9}\u{0}\u{301}"),
        Token::IntLit(0),
        Token::IntLit(5),
        Token::IntLit(-17),
        Token::IntLit(1234567890),
        Token::IntLit(i64::MAX),
        Token::IntLit(i64::MIN),
        Token::LParen,
        Token::RParen,
        Token::LBrace,
        Token::RBrace,
        Token::LBracket,
        Token::RBracket,
        Token::Comma,
        Token::Semicolon,
        Token::Colon,
        Token::Equals,
        Token::Dot,
        Token::Eof,
    ];
    for token in &tokens {
        assert_eq!(token.describe(), format!("{:?}", token));
    }
}

#[test]
fn describe_quotes_the_text_of_an_identifier() {
    assert_eq!(ident("x").describe(), "Ident(\"x\")");
    assert_eq!(Token::IntLit(-5).describe(), "IntLit(-5)");
    assert_eq!(Token::Semicolon.describe(), "Semicolon");
}

#[test]
fn same_compares_kind_and_payload() {
    assert!(Token::Fn.same(&Token::Fn));
    assert!(!Token::Fn.same(&Token::Let));
    assert!(ident("a").same(&ident("a")));
    assert!(!ident("a").same(&ident("b")));
    assert!(Token::IntLit(3).same(&Token::IntLit(3)));
    assert!(!Token::IntLit(3).same(&Token::IntLit(4)));
    assert!(!Token::IntLit(3).same(&ident("3")));
    assert!(!Token::Int.same(&Token::IntArray));
}

#[test]
fn clone_of_a_token_is_equal() {
    let tokens = lex("fn f(a: int[]) { a[1] } let . = , ; 12");
    let copies: Vec<Token> = tokens.iter().map(|t| t.clone()).collect();
    assert_eq!(tokens, copies);
}

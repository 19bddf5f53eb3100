//! Lexical analysis: from source text to a sequence of tokens that ends in `Eof`.

use crate::text::{int_text, join, push_int, quote, quoted};
use vstd::prelude::*;
use vstd::string::*;

verus! {

/// One lexical unit.
#[derive(Debug, PartialEq)]
pub enum Token {
    Fn,
    Let,
    Return,
    Int,
    IntArray,
    Ident(String),
    IntLit(i64),
    LParen,
    RParen,
    LBrace,
    RBrace,
    LBracket,
    RBracket,
    Comma,
    Semicolon,
    Colon,
    Equals,
    Dot,
    Eof,
}

/// Model of [`Token`]: an identifier carries its text as a character sequence.
pub enum TokenModel {
    Fn,
    Let,
    Return,
    Int,
    IntArray,
    Ident(Seq<char>),
    IntLit(i64),
    LParen,
    RParen,
    LBrace,
    RBrace,
    LBracket,
    RBracket,
    Comma,
    Semicolon,
    Colon,
    Equals,
    Dot,
    Eof,
}

impl View for Token {
    type V = TokenModel;

    open spec fn view(&self) -> TokenModel {
        match self {
            Token::Fn => TokenModel::Fn,
            Token::Let => TokenModel::Let,
            Token::Return => TokenModel::Return,
            Token::Int => TokenModel::Int,
            Token::IntArray => TokenModel::IntArray,
            Token::Ident(s) => TokenModel::Ident(s@),
            Token::IntLit(n) => TokenModel::IntLit(*n),
            Token::LParen => TokenModel::LParen,
            Token::RParen => TokenModel::RParen,
            Token::LBrace => TokenModel::LBrace,
            Token::RBrace => TokenModel::RBrace,
            Token::LBracket => TokenModel::LBracket,
            Token::RBracket => TokenModel::RBracket,
            Token::Comma => TokenModel::Comma,
            Token::Semicolon => TokenModel::Semicolon,
            Token::Colon => TokenModel::Colon,
            Token::Equals => TokenModel::Equals,
            Token::Dot => TokenModel::Dot,
            Token::Eof => TokenModel::Eof,
        }
    }
}

impl Clone for Token {
    fn clone(&self) -> (r: Token)
        ensures
            r@ == self@,
    {
        match self {
            Token::Fn => Token::Fn,
            Token::Let => Token::Let,
            Token::Return => Token::Return,
            Token::Int => Token::Int,
            Token::IntArray => Token::IntArray,
            Token::Ident(s) => Token::Ident(s.clone()),
            Token::IntLit(n) => Token::IntLit(*n),
            Token::LParen => Token::LParen,
            Token::RParen => Token::RParen,
            Token::LBrace => Token::LBrace,
            Token::RBrace => Token::RBrace,
            Token::LBracket => Token::LBracket,
            Token::RBracket => Token::RBracket,
            Token::Comma => Token::Comma,
            Token::Semicolon => Token::Semicolon,
            Token::Colon => Token::Colon,
            Token::Equals => Token::Equals,
            Token::Dot => Token::Dot,
            Token::Eof => Token::Eof,
        }
    }
}

/// How a token is written in messages: the name of its kind, and in round
/// brackets the quoted text of an identifier or the value of a literal.
pub open spec fn token_text(token: TokenModel) -> Seq<char> {
    match token {
        TokenModel::Fn => "Fn"@,
        TokenModel::Let => "Let"@,
        TokenModel::Return => "Return"@,
        TokenModel::Int => "Int"@,
        TokenModel::IntArray => "IntArray"@,
        TokenModel::Ident(s) => "Ident("@ + quoted(s) + ")"@,
        TokenModel::IntLit(n) => "IntLit("@ + int_text(n as int) + ")"@,
        TokenModel::LParen => "LParen"@,
        TokenModel::RParen => "RParen"@,
        TokenModel::LBrace => "LBrace"@,
        TokenModel::RBrace => "RBrace"@,
        TokenModel::LBracket => "LBracket"@,
        TokenModel::RBracket => "RBracket"@,
        TokenModel::Comma => "Comma"@,
        TokenModel::Semicolon => "Semicolon"@,
        TokenModel::Colon => "Colon"@,
        TokenModel::Equals => "Equals"@,
        TokenModel::Dot => "Dot"@,
        TokenModel::Eof => "Eof"@,
    }
}

impl Token {
    /// The text that stands for this token in messages.
    pub fn describe(&self) -> (text: String)
        ensures
            text@ == token_text(self@),
    {
        match self {
            Token::Fn => String::from_str("Fn"),
            Token::Let => String::from_str("Let"),
            Token::Return => String::from_str("Return"),
            Token::Int => String::from_str("Int"),
            Token::IntArray => String::from_str("IntArray"),
            Token::Ident(s) => {
                let mut text = join("Ident(", quote(s.as_str()).as_str());
                text.append(")");
                text
            },
            Token::IntLit(n) => {
                let mut text = String::from_str("IntLit(");
                push_int(&mut text, *n);
                text.append(")");
                text
            },
            Token::LParen => String::from_str("LParen"),
            Token::RParen => String::from_str("RParen"),
            Token::LBrace => String::from_str("LBrace"),
            Token::RBrace => String::from_str("RBrace"),
            Token::LBracket => String::from_str("LBracket"),
            Token::RBracket => String::from_str("RBracket"),
            Token::Comma => String::from_str("Comma"),
            Token::Semicolon => String::from_str("Semicolon"),
            Token::Colon => String::from_str("Colon"),
            Token::Equals => String::from_str("Equals"),
            Token::Dot => String::from_str("Dot"),
            Token::Eof => String::from_str("Eof"),
        }
    }

    /// Whether two tokens are of the same kind and carry the same text or value.
    pub fn same(&self, other: &Token) -> (b: bool)
        ensures
            b == (self@ == other@),
    {
        match (self, other) {
            (Token::Fn, Token::Fn) => true,
            (Token::Let, Token::Let) => true,
            (Token::Return, Token::Return) => true,
            (Token::Int, Token::Int) => true,
            (Token::IntArray, Token::IntArray) => true,
            (Token::Ident(a), Token::Ident(b)) => *a == *b,
            (Token::IntLit(a), Token::IntLit(b)) => *a == *b,
            (Token::LParen, Token::LParen) => true,
            (Token::RParen, Token::RParen) => true,
            (Token::LBrace, Token::LBrace) => true,
            (Token::RBrace, Token::RBrace) => true,
            (Token::LBracket, Token::LBracket) => true,
            (Token::RBracket, Token::RBracket) => true,
            (Token::Comma, Token::Comma) => true,
            (Token::Semicolon, Token::Semicolon) => true,
            (Token::Colon, Token::Colon) => true,
            (Token::Equals, Token::Equals) => true,
            (Token::Dot, Token::Dot) => true,
            (Token::Eof, Token::Eof) => true,
            _ => false,
        }
    }
}

/// Whether `c` is white space in the sense of `char::is_whitespace`.
pub uninterp spec fn is_space(c: char) -> bool;

/// Whether `c` is a letter in the sense of `char::is_alphabetic`.
pub uninterp spec fn is_letter(c: char) -> bool;

/// Whether `c` is a numeral in the sense of `char::is_numeric`.
pub uninterp spec fn is_numeral(c: char) -> bool;

/// `char::is_whitespace`: the answer depends on the character alone and is
/// given the name [`is_space`].
pub assume_specification[ char::is_whitespace ](c: char) -> (b: bool)
    ensures
        b == is_space(c),
;

/// `char::is_alphabetic`: the answer depends on the character alone and is
/// given the name [`is_letter`].
pub assume_specification[ char::is_alphabetic ](c: char) -> (b: bool)
    ensures
        b == is_letter(c),
;

/// `char::is_numeric`: the answer depends on the character alone and is
/// given the name [`is_numeral`].
pub assume_specification[ char::is_numeric ](c: char) -> (b: bool)
    ensures
        b == is_numeral(c),
;

/// `char::is_alphanumeric`: true exactly of the characters that are
/// alphabetic or numeric.
pub assume_specification[ char::is_alphanumeric ](c: char) -> (b: bool)
    ensures
        b == (is_letter(c) || is_numeral(c)),
;

/// Whether `c` may continue an identifier.
pub open spec fn is_word_char(c: char) -> bool {
    is_letter(c) || is_numeral(c) || c == '_'
}

/// Whether `c` may start an identifier.
pub open spec fn is_word_start(c: char) -> bool {
    is_letter(c) || c == '_'
}

/// The first position at or after `pos` that holds no white space.
pub open spec fn skip_space(s: Seq<char>, pos: int) -> int
    decreases s.len() - pos,
{
    if 0 <= pos < s.len() && is_space(s[pos]) {
        skip_space(s, pos + 1)
    } else {
        pos
    }
}

/// The end of the longest run of identifier characters that starts at `pos`.
pub open spec fn word_end(s: Seq<char>, pos: int) -> int
    decreases s.len() - pos,
{
    if 0 <= pos < s.len() && is_word_char(s[pos]) {
        word_end(s, pos + 1)
    } else {
        pos
    }
}

/// The end of the longest run of numerals that starts at `pos`.
pub open spec fn number_end(s: Seq<char>, pos: int) -> int
    decreases s.len() - pos,
{
    if 0 <= pos < s.len() && is_numeral(s[pos]) {
        number_end(s, pos + 1)
    } else {
        pos
    }
}

/// Whether `c` is one of the ten digits `0` to `9`.
pub open spec fn is_decimal_digit(c: char) -> bool {
    '0' <= c <= '9'
}

/// The number that `digits` writes in base ten, or `None` where one of its
/// characters is not a digit `0` to `9`. The empty run writes zero.
pub open spec fn decimal_value(digits: Seq<char>) -> Option<nat>
    decreases digits.len(),
{
    if digits.len() == 0 {
        Some(0)
    } else {
        match decimal_value(digits.drop_last()) {
            Some(v) if is_decimal_digit(digits.last()) => Some(
                (10 * v + (digits.last() as nat - '0' as nat)) as nat,
            ),
            _ => None,
        }
    }
}

/// The value of an integer literal: what its digits write where that fits in
/// 64 signed bits, and zero otherwise.
pub open spec fn literal_value(digits: Seq<char>) -> i64 {
    match decimal_value(digits) {
        Some(v) if v <= i64::MAX => v as i64,
        _ => 0,
    }
}

/// The token that a whole word stands for: a keyword, or else an identifier.
pub open spec fn word_token(word: Seq<char>) -> TokenModel {
    if word == "fn"@ {
        TokenModel::Fn
    } else if word == "let"@ {
        TokenModel::Let
    } else if word == "return"@ {
        TokenModel::Return
    } else if word == "int"@ {
        TokenModel::Int
    } else {
        TokenModel::Ident(word)
    }
}

/// The token for a punctuation mark, if `c` is one.
pub open spec fn punctuation(c: char) -> Option<TokenModel> {
    if c == '(' {
        Some(TokenModel::LParen)
    } else if c == ')' {
        Some(TokenModel::RParen)
    } else if c == '{' {
        Some(TokenModel::LBrace)
    } else if c == '}' {
        Some(TokenModel::RBrace)
    } else if c == '[' {
        Some(TokenModel::LBracket)
    } else if c == ']' {
        Some(TokenModel::RBracket)
    } else if c == ',' {
        Some(TokenModel::Comma)
    } else if c == ';' {
        Some(TokenModel::Semicolon)
    } else if c == ':' {
        Some(TokenModel::Colon)
    } else if c == '=' {
        Some(TokenModel::Equals)
    } else if c == '.' {
        Some(TokenModel::Dot)
    } else {
        None
    }
}

/// The token that starts at `pos`, where no white space is skipped, and the
/// position just after it. At or past the end of `s` the token is `Eof` and
/// the position stays.
pub open spec fn token_at(s: Seq<char>, pos: int) -> (TokenModel, int) {
    if !(0 <= pos < s.len()) {
        (TokenModel::Eof, pos)
    } else if punctuation(s[pos]) is Some {
        (punctuation(s[pos])->0, pos + 1)
    } else if is_numeral(s[pos]) {
        (TokenModel::IntLit(literal_value(s.subrange(pos, number_end(s, pos)))), number_end(s, pos))
    } else if is_word_start(s[pos]) {
        (word_token(s.subrange(pos, word_end(s, pos))), word_end(s, pos))
    } else {
        (TokenModel::Ident(seq![s[pos]]), pos + 1)
    }
}

/// The next token at or after `pos`, white space skipped, and the position
/// just after it.
pub open spec fn scan(s: Seq<char>, pos: int) -> (TokenModel, int) {
    token_at(s, skip_space(s, pos))
}

/// All tokens of `s` from `pos` on. The last one, and no other, is `Eof`.
pub open spec fn tokens_from(s: Seq<char>, pos: int) -> Seq<TokenModel>
    decreases s.len() - pos,
    via tokens_from_decreases
{
    let (token, next) = scan(s, pos);
    if token is Eof {
        seq![token]
    } else {
        seq![token] + tokens_from(s, next)
    }
}

#[via_fn]
proof fn tokens_from_decreases(s: Seq<char>, pos: int) {
    if 0 <= pos <= s.len() {
        lemma_scan_advances(s, pos);
    }
}

/// The tokens of a whole source text.
pub open spec fn tokens_of(s: Seq<char>) -> Seq<TokenModel> {
    tokens_from(s, 0)
}

/// Skipping white space never moves backwards, stops inside the text, and
/// stops on a character that is no white space.
pub proof fn lemma_skip_space(s: Seq<char>, pos: int)
    requires
        0 <= pos <= s.len(),
    ensures
        pos <= skip_space(s, pos) <= s.len(),
        skip_space(s, pos) < s.len() ==> !is_space(s[skip_space(s, pos)]),
        forall|i: int| pos <= i < skip_space(s, pos) ==> is_space(#[trigger] s[i]),
    decreases s.len() - pos,
{
    if pos < s.len() && is_space(s[pos]) {
        lemma_skip_space(s, pos + 1);
    }
}

/// A run of identifier characters ends at or after its start, inside the text.
pub proof fn lemma_word_end(s: Seq<char>, pos: int)
    requires
        0 <= pos <= s.len(),
    ensures
        pos <= word_end(s, pos) <= s.len(),
        pos < s.len() && is_word_char(s[pos]) ==> pos < word_end(s, pos),
        word_end(s, pos) < s.len() ==> !is_word_char(s[word_end(s, pos)]),
        forall|i: int| pos <= i < word_end(s, pos) ==> is_word_char(#[trigger] s[i]),
    decreases s.len() - pos,
{
    if pos < s.len() && is_word_char(s[pos]) {
        lemma_word_end(s, pos + 1);
    }
}

/// A run of numerals ends at or after its start, inside the text.
pub proof fn lemma_number_end(s: Seq<char>, pos: int)
    requires
        0 <= pos <= s.len(),
    ensures
        pos <= number_end(s, pos) <= s.len(),
        pos < s.len() && is_numeral(s[pos]) ==> pos < number_end(s, pos),
        number_end(s, pos) < s.len() ==> !is_numeral(s[number_end(s, pos)]),
        forall|i: int| pos <= i < number_end(s, pos) ==> is_numeral(#[trigger] s[i]),
    decreases s.len() - pos,
{
    if pos < s.len() && is_numeral(s[pos]) {
        lemma_number_end(s, pos + 1);
    }
}

/// Every token but `Eof` takes at least one character, and no token ends
/// outside the text.
pub proof fn lemma_scan_advances(s: Seq<char>, pos: int)
    requires
        0 <= pos <= s.len(),
    ensures
        pos <= scan(s, pos).1 <= s.len(),
        !(scan(s, pos).0 is Eof) ==> pos < scan(s, pos).1,
        scan(s, pos).0 is Eof <==> skip_space(s, pos) == s.len(),
{
    lemma_skip_space(s, pos);
    let start = skip_space(s, pos);
    if start < s.len() {
        lemma_number_end(s, start);
        lemma_word_end(s, start);
    }
}

/// The tokens of a text end in `Eof`, and hold no `Eof` before that.
pub proof fn lemma_tokens_end_in_eof(s: Seq<char>, pos: int)
    requires
        0 <= pos <= s.len(),
    ensures
        tokens_from(s, pos).len() >= 1,
        tokens_from(s, pos).last() is Eof,
        forall|i: int|
            0 <= i < tokens_from(s, pos).len() - 1 ==> !(#[trigger] tokens_from(s, pos)[i] is Eof),
    decreases s.len() - pos,
{
    lemma_scan_advances(s, pos);
    let (token, next) = scan(s, pos);
    if !(token is Eof) {
        lemma_tokens_end_in_eof(s, next);
    }
}

/// A cursor over the characters of a source text.
pub struct Lexer {
    input: Vec<char>,
    pos: usize,
}

impl Lexer {
    /// The characters of the text.
    pub closed spec fn source(&self) -> Seq<char> {
        self.input@
    }

    /// How many characters have been consumed.
    pub closed spec fn position(&self) -> int {
        self.pos as int
    }

    /// The cursor stands inside the text or at its end.
    pub closed spec fn wf(&self) -> bool {
        self.pos <= self.input@.len()
    }

    /// A lexer at the start of `input`.
    pub fn new(input: &str) -> (lexer: Lexer)
        ensures
            lexer.wf(),
            lexer.source() == input@,
            lexer.position() == 0,
    {
        broadcast use vstd::string::axiom_spec_iter;

        let mut chars: Vec<char> = Vec::new();
        for c in it: input.chars()
            invariant
                chars@ == it.history(),
                it.seq() == input@,
        {
            chars.push(c);
        }
        Lexer { input: chars, pos: 0 }
    }

    fn current(&self) -> (c: Option<char>)
        ensures
            self.pos < self.input@.len() ==> c == Some(self.input@[self.pos as int]),
            self.pos >= self.input@.len() ==> c is None,
    {
        if self.pos < self.input.len() {
            Some(self.input[self.pos])
        } else {
            None
        }
    }

    fn advance(&mut self)
        requires
            old(self).pos < old(self).input@.len(),
        ensures
            final(self).input == old(self).input,
            final(self).pos == old(self).pos + 1,
    {
        assert(self.input@.len() == self.input.len());
        self.pos += 1;
    }

    fn skip_whitespace(&mut self)
        requires
            old(self).wf(),
        ensures
            final(self).wf(),
            final(self).input == old(self).input,
            final(self).pos == skip_space(old(self).input@, old(self).pos as int),
    {
        let ghost start = self.pos as int;
        loop
            invariant
                self.wf(),
                self.input == old(self).input,
                skip_space(self.input@, self.pos as int) == skip_space(self.input@, start),
            ensures
                self.wf(),
                self.input == old(self).input,
                self.pos == skip_space(self.input@, start),
            decreases self.input@.len() - self.pos,
        {
            match self.current() {
                Some(c) => {
                    if c.is_whitespace() {
                        self.advance();
                    } else {
                        break ;
                    }
                },
                None => {
                    break ;
                },
            }
        }
    }

    fn read_ident(&mut self) -> (ident: String)
        requires
            old(self).wf(),
        ensures
            final(self).wf(),
            final(self).input == old(self).input,
            final(self).pos == word_end(old(self).input@, old(self).pos as int),
            ident@ == old(self).input@.subrange(old(self).pos as int, final(self).pos as int),
    {
        let ghost start = self.pos as int;
        let mut ident = String::new();
        loop
            invariant
                self.wf(),
                self.input == old(self).input,
                0 <= start <= self.pos,
                word_end(self.input@, self.pos as int) == word_end(self.input@, start),
                ident@ == self.input@.subrange(start, self.pos as int),
            ensures
                self.wf(),
                self.input == old(self).input,
                0 <= start <= self.pos,
                self.pos == word_end(self.input@, start),
                ident@ == self.input@.subrange(start, self.pos as int),
            decreases self.input@.len() - self.pos,
        {
            match self.current() {
                Some(c) => {
                    if c.is_alphanumeric() || c == '_' {
                        ident.push(c);
                        self.advance();
                    } else {
                        break ;
                    }
                },
                None => {
                    break ;
                },
            }
        }
        ident
    }

    fn read_number(&mut self) -> (value: i64)
        requires
            old(self).wf(),
        ensures
            final(self).wf(),
            final(self).input == old(self).input,
            final(self).pos == number_end(old(self).input@, old(self).pos as int),
            value == literal_value(
                old(self).input@.subrange(old(self).pos as int, final(self).pos as int),
            ),
    {
        let ghost start = self.pos as int;
        // `None` once a character was no decimal digit or the value left the range.
        let mut acc: Option<i64> = Some(0);
        loop
            invariant
                self.wf(),
                self.input == old(self).input,
                0 <= start <= self.pos,
                number_end(self.input@, self.pos as int) == number_end(self.input@, start),
                acc == in_range(decimal_value(self.input@.subrange(start, self.pos as int))),
            ensures
                self.wf(),
                self.input == old(self).input,
                0 <= start <= self.pos,
                self.pos == number_end(self.input@, start),
                acc == in_range(decimal_value(self.input@.subrange(start, self.pos as int))),
            decreases self.input@.len() - self.pos,
        {
            match self.current() {
                Some(c) => {
                    if c.is_numeric() {
                        let ghost before = self.input@.subrange(start, self.pos as int);
                        self.advance();
                        let ghost now = self.input@.subrange(start, self.pos as int);
                        assert(now.drop_last() =~= before);
                        acc = push_digit(acc, c);
                    } else {
                        break ;
                    }
                },
                None => {
                    break ;
                },
            }
        }
        match acc {
            Some(v) => v,
            None => 0,
        }
    }

    /// Reads the next token, white space skipped. At the end of the text it
    /// returns `Eof`, and does so again on every later call.
    pub fn next_token(&mut self) -> (token: Token)
        requires
            old(self).wf(),
        ensures
            final(self).wf(),
            final(self).source() == old(self).source(),
            token@ == scan(old(self).source(), old(self).position()).0,
            final(self).position() == scan(old(self).source(), old(self).position()).1,
    {
        self.skip_whitespace();
        match self.current() {
            None => Token::Eof,
            Some(c) => {
                if c == '(' {
                    self.advance();
                    Token::LParen
                } else if c == ')' {
                    self.advance();
                    Token::RParen
                } else if c == '{' {
                    self.advance();
                    Token::LBrace
                } else if c == '}' {
                    self.advance();
                    Token::RBrace
                } else if c == '[' {
                    self.advance();
                    Token::LBracket
                } else if c == ']' {
                    self.advance();
                    Token::RBracket
                } else if c == ',' {
                    self.advance();
                    Token::Comma
                } else if c == ';' {
                    self.advance();
                    Token::Semicolon
                } else if c == ':' {
                    self.advance();
                    Token::Colon
                } else if c == '=' {
                    self.advance();
                    Token::Equals
                } else if c == '.' {
                    self.advance();
                    Token::Dot
                } else if c.is_numeric() {
                    Token::IntLit(self.read_number())
                } else if c.is_alphabetic() || c == '_' {
                    keyword_or_ident(self.read_ident())
                } else {
                    self.advance();
                    let mut text = String::new();
                    text.push(c);
                    Token::Ident(text)
                }
            },
        }
    }

    /// Reads all remaining tokens, up to and including the closing `Eof`.
    pub fn tokenize(&mut self) -> (tokens: Vec<Token>)
        requires
            old(self).wf(),
        ensures
            final(self).wf(),
            final(self).source() == old(self).source(),
            final(self).position() == final(self).source().len(),
            token_models(tokens@) == tokens_from(old(self).source(), old(self).position()),
            tokens@.len() >= 1,
            tokens@.last()@ is Eof,
    {
        let ghost start = self.pos as int;
        proof {
            lemma_tokens_end_in_eof(self.input@, start);
        }
        let mut tokens: Vec<Token> = Vec::new();
        loop
            invariant_except_break
                token_models(tokens@) + tokens_from(self.input@, self.pos as int) == tokens_from(
                    self.input@,
                    start,
                ),
            invariant
                self.wf(),
                self.input@ == old(self).input@,
                0 <= start <= self.pos,
            ensures
                self.pos == self.input@.len(),
                token_models(tokens@) == tokens_from(self.input@, start),
            decreases self.input@.len() - self.pos,
        {
            let ghost before = self.pos as int;
            let token = self.next_token();
            let done = matches!(token, Token::Eof);
            proof {
                lemma_scan_advances(self.input@, before);
                lemma_skip_space(self.input@, self.pos as int);
                if done {
                } else {
                }
            }
            tokens.push(token);
            if done {
                break ;
            }
        }
        tokens
    }
}

/// The models of a sequence of tokens, in order.
pub open spec fn token_models(tokens: Seq<Token>) -> Seq<TokenModel> {
    tokens.map_values(|t: Token| t@)
}

/// The keyword that `word` spells, or else the identifier `word`.
fn keyword_or_ident(word: String) -> (token: Token)
    ensures
        token@ == word_token(word@),
{
    if word == String::from_str("fn") {
        Token::Fn
    } else if word == String::from_str("let") {
        Token::Let
    } else if word == String::from_str("return") {
        Token::Return
    } else if word == String::from_str("int") {
        Token::Int
    } else {
        Token::Ident(word)
    }
}

/// A decimal value as far as it fits in 64 signed bits.
pub open spec fn in_range(value: Option<nat>) -> Option<i64> {
    match value {
        Some(v) if v <= i64::MAX => Some(v as i64),
        _ => None,
    }
}

/// The value of the digit `c`, if it is one of `0` to `9`.
fn digit_of(c: char) -> (d: Option<i64>)
    ensures
        is_decimal_digit(c) ==> d == Some((c as nat - '0' as nat) as i64),
        !is_decimal_digit(c) ==> d is None,
{
    if '0' <= c && c <= '9' {
        Some((c as u32 - '0' as u32) as i64)
    } else {
        None
    }
}

/// One step of reading a decimal number: `acc` holds the value so far, and
/// the result holds the value with `c` appended, where both fit.
fn push_digit(acc: Option<i64>, c: char) -> (next: Option<i64>)
    requires
        acc is Some ==> acc->0 >= 0,
    ensures
        next == match acc {
            Some(v) if is_decimal_digit(c) && 10 * v + (c as nat - '0' as nat) <= i64::MAX => Some(
                (10 * v + (c as nat - '0' as nat)) as i64,
            ),
            _ => None,
        },
{
    match (acc, digit_of(c)) {
        (Some(v), Some(d)) => {
            if v > (i64::MAX - d) / 10 {
                None
            } else {
                Some(10 * v + d)
            }
        },
        _ => None,
    }
}

} // verus!

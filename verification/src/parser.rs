//! The recursive-descent parser: from tokens to one function or one data
//! table, as [`crate::grammar`] defines them.

use crate::ast::{
    entry_models, DataDef, DataModel, Expr, ExprModel, FileContent, FileModel, Function,
    FunctionModel, Param, ParamModel, Stmt, StmtModel, Type,
};
use crate::grammar::{
    block_after, block_at, carry, data_at, done, entry_at, expect_at, expected_message, expr_at,
    fail, file_at, function_at, ident_at, items_at, let_at, list_at, moved_on, param_at,
    param_list_at, params_at, peek, postfix_at, primary_at, return_at, type_at, BlockModel, Step,
};
use crate::lexer::{token_models, tokens_of, Lexer, Token, TokenModel};
use crate::text::join;
use vstd::prelude::*;
use vstd::string::*;

verus! {

/// A cursor over a sequence of tokens.
pub struct Parser {
    tokens: Vec<Token>,
    pos: usize,
}

/// The message for a token that is not the one required.
fn expected_error(expected: &Token, found: &Token) -> (message: String)
    ensures
        message@ == expected_message(expected@, found@),
{
    let mut message = join("Expected ", expected.describe().as_str());
    message.append(", got ");
    message.append(found.describe().as_str());
    message
}

impl Parser {
    /// The tokens that this parser reads.
    pub closed spec fn input(&self) -> Seq<TokenModel> {
        token_models(self.tokens@)
    }

    /// How many tokens have been consumed.
    pub closed spec fn position(&self) -> int {
        self.pos as int
    }

    /// The cursor stands inside the tokens or at their end.
    pub closed spec fn wf(&self) -> bool {
        self.pos <= self.tokens.len()
    }

    /// A parser at the start of `tokens`.
    pub fn new(tokens: Vec<Token>) -> (parser: Parser)
        ensures
            parser.wf(),
            parser.input() == token_models(tokens@),
            parser.position() == 0,
    {
        Parser { tokens, pos: 0 }
    }

    fn current(&self) -> (token: &Token)
        ensures
            token@ == peek(self.input(), self.pos as int),
            self.pos >= self.tokens.len() ==> token@ is Eof,
    {
        if self.pos < self.tokens.len() {
            &self.tokens[self.pos]
        } else {
            &Token::Eof
        }
    }

    fn advance(&mut self)
        requires
            old(self).pos < old(self).tokens.len(),
        ensures
            final(self).tokens == old(self).tokens,
            final(self).pos == old(self).pos + 1,
    {
        self.pos += 1;
    }

    fn expect(&mut self, expected: Token) -> (r: Result<(), String>)
        requires
            old(self).wf(),
            !(expected@ is Eof),
        ensures
            final(self).wf(),
            final(self).tokens == old(self).tokens,
            final(self).pos == expect_at(old(self).input(), old(self).pos as int, expected@).next,
            match r {
                Ok(_) => expect_at(old(self).input(), old(self).pos as int, expected@).out is Ok,
                Err(m) => expect_at(old(self).input(), old(self).pos as int, expected@).out == Err::<
                    (),
                    Seq<char>,
                >(m@),
            },
    {
        if self.current().same(&expected) {
            self.advance();
            Ok(())
        } else {
            Err(expected_error(&expected, self.current()))
        }
    }

    fn ident(&mut self, message: &str) -> (r: Result<String, String>)
        requires
            old(self).wf(),
        ensures
            final(self).wf(),
            final(self).tokens == old(self).tokens,
            final(self).pos == ident_at(old(self).input(), old(self).pos as int, message@).next,
            match r {
                Ok(name) => ident_at(old(self).input(), old(self).pos as int, message@).out == Ok::<
                    Seq<char>,
                    Seq<char>,
                >(name@),
                Err(m) => ident_at(old(self).input(), old(self).pos as int, message@).out == Err::<
                    Seq<char>,
                    Seq<char>,
                >(m@),
            },
    {
        match self.current() {
            Token::Ident(s) => {
                let name = s.clone();
                self.advance();
                Ok(name)
            },
            _ => Err(String::from_str(message)),
        }
    }

    fn parse_type(&mut self) -> (r: Result<Type, String>)
        requires
            old(self).wf(),
        ensures
            final(self).wf(),
            final(self).tokens == old(self).tokens,
            final(self).pos == type_at(old(self).input(), old(self).pos as int).next,
            match r {
                Ok(ty) => type_at(old(self).input(), old(self).pos as int).out == Ok::<
                    Type,
                    Seq<char>,
                >(ty),
                Err(m) => type_at(old(self).input(), old(self).pos as int).out == Err::<
                    Type,
                    Seq<char>,
                >(m@),
            },
    {
        match self.current() {
            Token::Int => {
                self.advance();
                if let Token::LBracket = self.current() {
                    self.advance();
                    match self.expect(Token::RBracket) {
                        Ok(_) => Ok(Type::IntArray),
                        Err(m) => Err(m),
                    }
                } else {
                    Ok(Type::Int)
                }
            },
            found => Err(join("Expected type, got ", found.describe().as_str())),
        }
    }

    fn parse_expr(&mut self) -> (r: Result<Expr, String>)
        requires
            old(self).wf(),
        ensures
            final(self).wf(),
            final(self).tokens == old(self).tokens,
            final(self).pos == expr_at(old(self).input(), old(self).pos as int).next,
            match r {
                Ok(e) => expr_at(old(self).input(), old(self).pos as int).out == Ok::<
                    _,
                    Seq<char>,
                >(e@) && old(self).pos < final(self).pos,
                Err(m) => expr_at(old(self).input(), old(self).pos as int).out == Err::<
                    ExprModel,
                    _,
                >(m@),
            },
        decreases old(self).tokens.len() - old(self).pos, 2int,
    {
        self.parse_primary()
    }

    fn parse_primary(&mut self) -> (r: Result<Expr, String>)
        requires
            old(self).wf(),
        ensures
            final(self).wf(),
            final(self).tokens == old(self).tokens,
            final(self).pos == expr_at(old(self).input(), old(self).pos as int).next,
            match r {
                Ok(e) => expr_at(old(self).input(), old(self).pos as int).out == Ok::<
                    _,
                    Seq<char>,
                >(e@) && old(self).pos < final(self).pos,
                Err(m) => expr_at(old(self).input(), old(self).pos as int).out == Err::<
                    ExprModel,
                    _,
                >(m@),
            },
        decreases old(self).tokens.len() - old(self).pos, 1int,
    {
        let ghost tokens = self.input();
        let ghost start = self.pos as int;
        let mut expr = match self.current() {
            Token::IntLit(n) => {
                let n = *n;
                self.advance();
                Expr::Int(n)
            },
            Token::Dot => {
                self.advance();
                match self.ident("Expected field name after .") {
                    Ok(name) => Expr::DataRef(name),
                    Err(m) => {
                        return Err(m);
                    },
                }
            },
            Token::Ident(s) => {
                let name = s.clone();
                self.advance();
                Expr::Var(name)
            },
            Token::LBracket => {
                self.advance();
                let elements = if let Token::RBracket = self.current() {
                    Vec::new()
                } else {
                    match self.parse_list() {
                        Ok(items) => items,
                        Err(m) => {
                            return Err(m);
                        },
                    }
                };
                match self.expect(Token::RBracket) {
                    Ok(_) => {},
                    Err(m) => {
                        return Err(m);
                    },
                }
                assert(Expr::Array(elements)@ == ExprModel::Array(Expr::models(elements@)));
                Expr::Array(elements)
            },
            Token::LParen => {
                self.advance();
                let inner = match self.parse_expr() {
                    Ok(e) => e,
                    Err(m) => {
                        return Err(m);
                    },
                };
                match self.expect(Token::RParen) {
                    Ok(_) => {},
                    Err(m) => {
                        return Err(m);
                    },
                }
                inner
            },
            found => {
                return Err(join("Unexpected token: ", found.describe().as_str()));
            },
        };
        assert(primary_at(tokens, start) == done(self.pos as int, expr@));

        loop
            invariant
                self.wf(),
                self.tokens == old(self).tokens,
                tokens == self.input(),
                start == old(self).pos,
                start < self.pos,
                postfix_at(tokens, self.pos as int, expr@) == expr_at(tokens, start),
            ensures
                expr_at(tokens, start) == done(self.pos as int, expr@),
            decreases self.tokens.len() - self.pos,
        {
            match self.current() {
                Token::LParen => {
                    if let Expr::Var(name) = expr {
                        self.advance();
                        let args = match self.parse_args() {
                            Ok(args) => args,
                            Err(m) => {
                                return Err(m);
                            },
                        };
                        match self.expect(Token::RParen) {
                            Ok(_) => {},
                            Err(m) => {
                                return Err(m);
                            },
                        }
                        expr = Expr::Call { name, args };
                    } else {
                        return Err(String::from_str("Only identifiers can be called"));
                    }
                },
                Token::LBracket => {
                    self.advance();
                    let index = match self.parse_expr() {
                        Ok(e) => e,
                        Err(m) => {
                            return Err(m);
                        },
                    };
                    match self.expect(Token::RBracket) {
                        Ok(_) => {},
                        Err(m) => {
                            return Err(m);
                        },
                    }
                    expr = Expr::Index { target: Box::new(expr), index: Box::new(index) };
                },
                _ => {
                    break ;
                },
            }
        }

        Ok(expr)
    }

    /// A list of one or more expressions, separated by commas.
    fn parse_list(&mut self) -> (r: Result<Vec<Expr>, String>)
        requires
            old(self).wf(),
        ensures
            final(self).wf(),
            final(self).tokens == old(self).tokens,
            final(self).pos == list_at(old(self).input(), old(self).pos as int).next,
            match r {
                Ok(items) => list_at(old(self).input(), old(self).pos as int).out == Ok::<
                    _,
                    Seq<char>,
                >(Expr::models(items@)) && old(self).pos < final(self).pos,
                Err(m) => list_at(old(self).input(), old(self).pos as int).out == Err::<
                    Seq<ExprModel>,
                    _,
                >(m@),
            },
        decreases old(self).tokens.len() - old(self).pos, 3int,
    {
        let ghost tokens = self.input();
        let ghost start = self.pos as int;
        let mut items: Vec<Expr> = Vec::new();
        loop
            invariant_except_break
                list_at(tokens, start) == with_front(
                    Expr::models(items@),
                    list_at(tokens, self.pos as int),
                ),
            invariant
                self.wf(),
                self.tokens == old(self).tokens,
                tokens == self.input(),
                start == old(self).pos,
                start <= self.pos,
            ensures
                start < self.pos,
                list_at(tokens, start) == done(self.pos as int, Expr::models(items@)),
            decreases self.tokens.len() - self.pos,
        {
            let ghost earlier = items@;
            let item = match self.parse_expr() {
                Ok(e) => e,
                Err(m) => {
                    return Err(m);
                },
            };
            items.push(item);
            proof {
                assert(items@.drop_last() =~= earlier);
                let rest = list_at(tokens, self.pos as int + 1);
                if rest.out is Ok {
                    assert(Expr::models(items@) + rest.out->Ok_0 =~= Expr::models(earlier) + (
                    seq![item@] + rest.out->Ok_0));
                }
                assert(Expr::models(items@) =~= Expr::models(earlier) + seq![item@]);
            }
            if let Token::Comma = self.current() {
                self.advance();
            } else {
                break ;
            }
        }
        Ok(items)
    }

    fn parse_args(&mut self) -> (r: Result<Vec<Expr>, String>)
        requires
            old(self).wf(),
        ensures
            final(self).wf(),
            final(self).tokens == old(self).tokens,
            final(self).pos == items_at(
                old(self).input(),
                old(self).pos as int,
                TokenModel::RParen,
            ).next,
            match r {
                Ok(items) => items_at(
                    old(self).input(),
                    old(self).pos as int,
                    TokenModel::RParen,
                ).out == Ok::<_, Seq<char>>(Expr::models(items@))
                    && old(self).pos <= final(self).pos,
                Err(m) => items_at(
                    old(self).input(),
                    old(self).pos as int,
                    TokenModel::RParen,
                ).out == Err::<Seq<ExprModel>, _>(m@),
            },
        decreases old(self).tokens.len() - old(self).pos, 4int,
    {
        if let Token::RParen = self.current() {
            return Ok(Vec::new());
        }
        self.parse_list()
    }

    fn parse_let(&mut self) -> (r: Result<Stmt, String>)
        requires
            old(self).wf(),
        ensures
            final(self).wf(),
            final(self).tokens == old(self).tokens,
            final(self).pos == let_at(old(self).input(), old(self).pos as int).next,
            match r {
                Ok(stmt) => let_at(old(self).input(), old(self).pos as int).out == Ok::<
                    _,
                    Seq<char>,
                >(stmt@) && old(self).pos < final(self).pos,
                Err(m) => let_at(old(self).input(), old(self).pos as int).out == Err::<
                    StmtModel,
                    _,
                >(m@),
            },
    {
        match self.expect(Token::Let) {
            Ok(_) => {},
            Err(m) => {
                return Err(m);
            },
        }
        let name = match self.ident("Expected variable name") {
            Ok(name) => name,
            Err(m) => {
                return Err(m);
            },
        };
        match self.expect(Token::Colon) {
            Ok(_) => {},
            Err(m) => {
                return Err(m);
            },
        }
        let ty = match self.parse_type() {
            Ok(ty) => ty,
            Err(m) => {
                return Err(m);
            },
        };
        match self.expect(Token::Equals) {
            Ok(_) => {},
            Err(m) => {
                return Err(m);
            },
        }
        let value = match self.parse_expr() {
            Ok(value) => value,
            Err(m) => {
                return Err(m);
            },
        };
        match self.expect(Token::Semicolon) {
            Ok(_) => {},
            Err(m) => {
                return Err(m);
            },
        }
        Ok(Stmt::Let { name, ty, value })
    }

    fn parse_block(&mut self) -> (r: Result<(Vec<Stmt>, Option<Box<Expr>>), String>)
        requires
            old(self).wf(),
        ensures
            final(self).wf(),
            final(self).tokens == old(self).tokens,
            final(self).pos == block_at(old(self).input(), old(self).pos as int).next,
            match r {
                Ok(block) => block_at(old(self).input(), old(self).pos as int).out == Ok::<
                    _,
                    Seq<char>,
                >(block_model(block.0@, block.1)) && old(self).pos <= final(self).pos,
                Err(m) => block_at(old(self).input(), old(self).pos as int).out == Err::<
                    BlockModel,
                    _,
                >(m@),
            },
    {
        let ghost tokens = self.input();
        let ghost start = self.pos as int;
        let mut stmts: Vec<Stmt> = Vec::new();
        let mut return_expr: Option<Box<Expr>> = None;

        loop
            invariant_except_break
                return_expr is None,
                block_at(tokens, start) == block_with_front(
                    Stmt::models(stmts@),
                    block_at(tokens, self.pos as int),
                ),
            invariant
                self.wf(),
                self.tokens == old(self).tokens,
                tokens == self.input(),
                start == old(self).pos,
                start <= self.pos,
            ensures
                block_at(tokens, start) == done(self.pos as int, block_model(stmts@, return_expr)),
            decreases self.tokens.len() - self.pos,
        {
            let ghost earlier = stmts@;
            let stmt = match self.current() {
                Token::RBrace | Token::Eof => {
                    break ;
                },
                Token::Let => {
                    match self.parse_let() {
                        Ok(stmt) => stmt,
                        Err(m) => {
                            return Err(m);
                        },
                    }
                },
                Token::Return => {
                    self.advance();
                    let value = match self.parse_expr() {
                        Ok(value) => value,
                        Err(m) => {
                            return Err(m);
                        },
                    };
                    match self.expect(Token::Semicolon) {
                        Ok(_) => {},
                        Err(m) => {
                            return Err(m);
                        },
                    }
                    Stmt::Return(value)
                },
                _ => {
                    let value = match self.parse_expr() {
                        Ok(value) => value,
                        Err(m) => {
                            return Err(m);
                        },
                    };
                    if let Token::Semicolon = self.current() {
                        self.advance();
                        Stmt::ExprStmt(value)
                    } else {
                        return_expr = Some(Box::new(value));
                        break ;
                    }
                },
            };
            stmts.push(stmt);
            proof {
                let rest = block_at(tokens, self.pos as int);
                if rest.out is Ok {
                    assert(Stmt::models(stmts@) + rest.out->Ok_0.stmts =~= Stmt::models(earlier) + (
                    seq![stmt@] + rest.out->Ok_0.stmts));
                }
            }
        }

        Ok((stmts, return_expr))
    }

    fn parse_params(&mut self) -> (r: Result<Vec<Param>, String>)
        requires
            old(self).wf(),
        ensures
            final(self).wf(),
            final(self).tokens == old(self).tokens,
            final(self).pos == params_at(old(self).input(), old(self).pos as int).next,
            match r {
                Ok(params) => params_at(old(self).input(), old(self).pos as int).out == Ok::<
                    _,
                    Seq<char>,
                >(Param::models(params@)),
                Err(m) => params_at(old(self).input(), old(self).pos as int).out == Err::<
                    Seq<ParamModel>,
                    _,
                >(m@),
            },
    {
        let ghost tokens = self.input();
        let ghost start = self.pos as int;
        let mut params: Vec<Param> = Vec::new();
        assert(Param::models(params@) =~= Seq::empty());

        if let Token::RParen = self.current() {
            return Ok(params);
        }
        loop
            invariant_except_break
                param_list_at(tokens, start) == with_front(
                    Param::models(params@),
                    param_list_at(tokens, self.pos as int),
                ),
            invariant
                self.wf(),
                self.tokens == old(self).tokens,
                tokens == self.input(),
                start == old(self).pos,
                start <= self.pos,
                params_at(tokens, start) == param_list_at(tokens, start),
            ensures
                param_list_at(tokens, start) == done(self.pos as int, Param::models(params@)),
            decreases self.tokens.len() - self.pos,
        {
            let ghost earlier = params@;
            let name = match self.ident("Expected parameter name") {
                Ok(name) => name,
                Err(m) => {
                    return Err(m);
                },
            };
            match self.expect(Token::Colon) {
                Ok(_) => {},
                Err(m) => {
                    return Err(m);
                },
            }
            let ty = match self.parse_type() {
                Ok(ty) => ty,
                Err(m) => {
                    return Err(m);
                },
            };
            let param = Param { name, ty };
            params.push(param);
            proof {
                let rest = param_list_at(tokens, self.pos as int + 1);
                assert(Param::models(params@) =~= Param::models(earlier) + seq![param@]);
                if rest.out is Ok {
                    assert(Param::models(params@) + rest.out->Ok_0 =~= Param::models(earlier) + (
                    seq![param@] + rest.out->Ok_0));
                }
            }
            match self.current() {
                Token::Comma => {
                    self.advance();
                },
                _ => {
                    break ;
                },
            }
        }

        Ok(params)
    }

    fn parse_function(&mut self) -> (r: Result<Function, String>)
        requires
            old(self).wf(),
        ensures
            final(self).wf(),
            final(self).tokens == old(self).tokens,
            final(self).pos == function_at(old(self).input(), old(self).pos as int).next,
            match r {
                Ok(function) => function_at(old(self).input(), old(self).pos as int).out == Ok::<
                    _,
                    Seq<char>,
                >(function@),
                Err(m) => function_at(old(self).input(), old(self).pos as int).out == Err::<
                    FunctionModel,
                    _,
                >(m@),
            },
    {
        match self.expect(Token::Fn) {
            Ok(_) => {},
            Err(m) => {
                return Err(m);
            },
        }
        let name = match self.ident("Expected function name") {
            Ok(name) => name,
            Err(m) => {
                return Err(m);
            },
        };
        match self.expect(Token::LParen) {
            Ok(_) => {},
            Err(m) => {
                return Err(m);
            },
        }
        let params = match self.parse_params() {
            Ok(params) => params,
            Err(m) => {
                return Err(m);
            },
        };
        match self.expect(Token::RParen) {
            Ok(_) => {},
            Err(m) => {
                return Err(m);
            },
        }
        match self.expect(Token::LBrace) {
            Ok(_) => {},
            Err(m) => {
                return Err(m);
            },
        }
        let (stmts, return_expr) = match self.parse_block() {
            Ok(block) => block,
            Err(m) => {
                return Err(m);
            },
        };
        match self.expect(Token::RBrace) {
            Ok(_) => {},
            Err(m) => {
                return Err(m);
            },
        }
        Ok(Function { name, params, body: stmts, return_expr })
    }

    fn parse_data(&mut self) -> (r: Result<DataDef, String>)
        requires
            old(self).wf(),
        ensures
            final(self).wf(),
            final(self).tokens == old(self).tokens,
            final(self).pos == data_at(old(self).input(), old(self).pos as int).next,
            match r {
                Ok(data) => data_at(old(self).input(), old(self).pos as int).out == Ok::<
                    _,
                    Seq<char>,
                >(data@.entries),
                Err(m) => data_at(old(self).input(), old(self).pos as int).out == Err::<
                    Seq<(Seq<char>, i64)>,
                    _,
                >(m@),
            },
    {
        let ghost tokens = self.input();
        let ghost start = self.pos as int;
        let mut entries: Vec<(String, i64)> = Vec::new();

        loop
            invariant_except_break
                data_at(tokens, start) == with_front(
                    entry_models(entries@),
                    data_at(tokens, self.pos as int),
                ),
            invariant
                self.wf(),
                self.tokens == old(self).tokens,
                tokens == self.input(),
                start == old(self).pos,
                start <= self.pos,
            ensures
                data_at(tokens, start) == done(self.pos as int, entry_models(entries@)),
            decreases self.tokens.len() - self.pos,
        {
            let ghost earlier = entries@;
            if let Token::Let = self.current() {
                self.advance();
                let name = match self.ident("Expected variable name") {
                    Ok(name) => name,
                    Err(m) => {
                        return Err(m);
                    },
                };
                match self.expect(Token::Colon) {
                    Ok(_) => {},
                    Err(m) => {
                        return Err(m);
                    },
                }
                match self.expect(Token::Int) {
                    Ok(_) => {},
                    Err(m) => {
                        return Err(m);
                    },
                }
                match self.expect(Token::Equals) {
                    Ok(_) => {},
                    Err(m) => {
                        return Err(m);
                    },
                }
                let value = match self.current() {
                    Token::IntLit(n) => {
                        let v = *n;
                        self.advance();
                        v
                    },
                    _ => {
                        return Err(String::from_str("Expected integer value"));
                    },
                };
                match self.expect(Token::Semicolon) {
                    Ok(_) => {},
                    Err(m) => {
                        return Err(m);
                    },
                }
                let entry = (name, value);
                entries.push(entry);
                proof {
                    let rest = data_at(tokens, self.pos as int);
                    let model = (entry.0@, entry.1);
                    if rest.out is Ok {
                        assert(entry_models(entries@) + rest.out->Ok_0 =~= entry_models(earlier) + (
                        seq![model] + rest.out->Ok_0));
                    }
                }
            } else {
                break ;
            }
        }

        Ok(DataDef { entries })
    }

    /// Parses one source unit from the current position: a data table where
    /// `let` stands first, a function where `fn` does. Any other first token
    /// is a failure. Tokens behind the unit are left unread.
    pub fn parse_file(&mut self) -> (r: Result<FileContent, String>)
        requires
            old(self).wf(),
        ensures
            final(self).wf(),
            final(self).input() == old(self).input(),
            final(self).position() == file_at(old(self).input(), old(self).position()).next,
            match r {
                Ok(file) => file_at(old(self).input(), old(self).position()).out == Ok::<
                    _,
                    Seq<char>,
                >(file@),
                Err(m) => file_at(old(self).input(), old(self).position()).out == Err::<
                    FileModel,
                    _,
                >(m@),
            },
    {
        match self.current() {
            Token::Let => {
                match self.parse_data() {
                    Ok(data) => Ok(FileContent::Data(data)),
                    Err(m) => Err(m),
                }
            },
            Token::Fn => {
                match self.parse_function() {
                    Ok(function) => Ok(FileContent::Function(function)),
                    Err(m) => Err(m),
                }
            },
            found => Err(join("Expected fn or let, got ", found.describe().as_str())),
        }
    }
}

/// Parses a source text: its tokens, and from their start one function or
/// one data table.
pub fn parse(input: &str) -> (r: Result<FileContent, String>)
    ensures
        match r {
            Ok(file) => file_at(tokens_of(input@), 0).out == Ok::<_, Seq<char>>(file@),
            Err(m) => file_at(tokens_of(input@), 0).out == Err::<FileModel, _>(m@),
        },
{
    let mut lexer = Lexer::new(input);
    let tokens = lexer.tokenize();
    let mut parser = Parser::new(tokens);
    parser.parse_file()
}

/// The block that holds `stmts` and the trailing expression `trailing`.
pub open spec fn block_model(stmts: Seq<Stmt>, trailing: Option<Box<Expr>>) -> BlockModel {
    BlockModel {
        stmts: Stmt::models(stmts),
        trailing: match trailing {
            Some(e) => Some(e@),
            None => None,
        },
    }
}

/// `step` with the statements `front` set before those that it parsed.
pub open spec fn block_with_front(front: Seq<StmtModel>, step: Step<BlockModel>) -> Step<
    BlockModel,
> {
    match step.out {
        Ok(block) => done(
            step.next,
            BlockModel { stmts: front + block.stmts, trailing: block.trailing },
        ),
        Err(_) => step,
    }
}

/// `step` with `front` set before what it parsed.
pub open spec fn with_front<T>(front: Seq<T>, step: Step<Seq<T>>) -> Step<Seq<T>> {
    match step.out {
        Ok(items) => done(step.next, front + items),
        Err(_) => step,
    }
}

} // verus!

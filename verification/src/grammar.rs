//! The grammar of the language, as functions from a token sequence and a
//! position to the outcome of parsing there.
//!
//! Every function returns a [`Step`]: what was parsed, or the message of the
//! first defect, together with the position at which parsing stopped.
//! Positions at or past the end of the sequence read as `Eof`.
//!
//! Where a construct goes on behind an inner step, it asks that the step
//! [`moved_on`]; that is what makes the definitions well-founded. The lemmas
//! at the end show that every step that succeeds has done so.

use crate::ast::{DataModel, ExprModel, FileModel, FunctionModel, ParamModel, StmtModel, Type};
use crate::lexer::{is_space, lemma_skip_space, skip_space, token_text, tokens_of, TokenModel};
use vstd::prelude::*;

verus! {

/// The outcome of parsing one construct.
pub struct Step<T> {
    /// The position at which parsing stopped.
    pub next: int,
    /// What was parsed, or the message of the defect.
    pub out: Result<T, Seq<char>>,
}

/// The block of a function body: its statements and its trailing expression.
pub struct BlockModel {
    pub stmts: Seq<StmtModel>,
    pub trailing: Option<ExprModel>,
}

/// Success with `value`, stopping at `next`.
pub open spec fn done<T>(next: int, value: T) -> Step<T> {
    Step { next, out: Ok(value) }
}

/// Failure with `message`, stopping at `next`.
pub open spec fn fail<T>(next: int, message: Seq<char>) -> Step<T> {
    Step { next, out: Err(message) }
}

/// The failure of an inner step, handed on as the failure of the construct
/// around it.
pub open spec fn carry<A, B>(step: Step<A>) -> Step<B> {
    Step {
        next: step.next,
        out: Err(
            match step.out {
                Err(message) => message,
                Ok(_) => Seq::empty(),
            },
        ),
    }
}

/// Whether `step` succeeded and stopped after `pos`, inside `tokens`.
pub open spec fn moved_on<T>(tokens: Seq<TokenModel>, pos: int, step: Step<T>) -> bool {
    step.out is Ok && pos < step.next <= tokens.len()
}

/// The token at `pos`; `Eof` outside the sequence.
pub open spec fn peek(tokens: Seq<TokenModel>, pos: int) -> TokenModel {
    if 0 <= pos < tokens.len() {
        tokens[pos]
    } else {
        TokenModel::Eof
    }
}

/// The message for a token that is not the one required.
pub open spec fn expected_message(expected: TokenModel, found: TokenModel) -> Seq<char> {
    "Expected "@ + token_text(expected) + ", got "@ + token_text(found)
}

/// Requires the token `expected` at `pos` and steps over it.
pub open spec fn expect_at(tokens: Seq<TokenModel>, pos: int, expected: TokenModel) -> Step<()> {
    if peek(tokens, pos) == expected {
        done(pos + 1, ())
    } else {
        fail(pos, expected_message(expected, peek(tokens, pos)))
    }
}

/// Requires an identifier at `pos` and steps over it; `message` is the
/// failure where another token stands there.
pub open spec fn ident_at(tokens: Seq<TokenModel>, pos: int, message: Seq<char>) -> Step<
    Seq<char>,
> {
    match peek(tokens, pos) {
        TokenModel::Ident(name) => done(pos + 1, name),
        _ => fail(pos, message),
    }
}

/// `type := "int" ("[" "]")?`
pub open spec fn type_at(tokens: Seq<TokenModel>, pos: int) -> Step<Type> {
    match peek(tokens, pos) {
        TokenModel::Int => {
            if peek(tokens, pos + 1) is LBracket {
                if peek(tokens, pos + 2) is RBracket {
                    done(pos + 3, Type::IntArray)
                } else {
                    carry(expect_at(tokens, pos + 2, TokenModel::RBracket))
                }
            } else {
                done(pos + 1, Type::Int)
            }
        },
        found => fail(pos, "Expected type, got "@ + token_text(found)),
    }
}

/// `expr := primary postfix*`
pub open spec fn expr_at(tokens: Seq<TokenModel>, pos: int) -> Step<ExprModel>
    decreases tokens.len() - pos, 1int,
{
    let primary = primary_at(tokens, pos);
    if moved_on(tokens, pos, primary) {
        postfix_at(tokens, primary.next, primary.out->Ok_0)
    } else {
        carry(primary)
    }
}

/// `primary := INTLIT | "." IDENT | IDENT | "[" list? "]" | "(" expr ")"`
pub open spec fn primary_at(tokens: Seq<TokenModel>, pos: int) -> Step<ExprModel>
    decreases tokens.len() - pos, 0int,
{
    match peek(tokens, pos) {
        TokenModel::IntLit(n) => done(pos + 1, ExprModel::Int(n)),
        TokenModel::Dot => match peek(tokens, pos + 1) {
            TokenModel::Ident(name) => done(pos + 2, ExprModel::DataRef(name)),
            _ => fail(pos + 1, "Expected field name after ."@),
        },
        TokenModel::Ident(name) => done(pos + 1, ExprModel::Var(name)),
        TokenModel::LBracket => {
            let items = items_at(tokens, pos + 1, TokenModel::RBracket);
            if items.out is Ok {
                let close = expect_at(tokens, items.next, TokenModel::RBracket);
                if close.out is Ok {
                    done(close.next, ExprModel::Array(items.out->Ok_0))
                } else {
                    carry(close)
                }
            } else {
                carry(items)
            }
        },
        TokenModel::LParen => {
            let inner = expr_at(tokens, pos + 1);
            if inner.out is Ok {
                let close = expect_at(tokens, inner.next, TokenModel::RParen);
                if close.out is Ok {
                    done(close.next, inner.out->Ok_0)
                } else {
                    carry(close)
                }
            } else {
                carry(inner)
            }
        },
        found => fail(pos, "Unexpected token: "@ + token_text(found)),
    }
}

/// The expressions between brackets: none where `close` stands at `pos`,
/// else a list.
pub open spec fn items_at(tokens: Seq<TokenModel>, pos: int, close: TokenModel) -> Step<
    Seq<ExprModel>,
>
    decreases tokens.len() - pos, 3int,
{
    if peek(tokens, pos) == close {
        done(pos, Seq::empty())
    } else {
        list_at(tokens, pos)
    }
}

/// `list := expr ("," expr)*`, with no comma after the last expression.
pub open spec fn list_at(tokens: Seq<TokenModel>, pos: int) -> Step<Seq<ExprModel>>
    decreases tokens.len() - pos, 2int,
{
    let first = expr_at(tokens, pos);
    if !moved_on(tokens, pos, first) {
        carry(first)
    } else if peek(tokens, first.next) is Comma {
        let rest = list_at(tokens, first.next + 1);
        if rest.out is Ok {
            done(rest.next, seq![first.out->Ok_0] + rest.out->Ok_0)
        } else {
            carry(rest)
        }
    } else {
        done(first.next, seq![first.out->Ok_0])
    }
}

/// `postfix*` behind the expression `target`, which ended at `pos`:
/// `"(" list? ")"` makes a call of a bare name, `"[" expr "]"` an index
/// operation on anything.
pub open spec fn postfix_at(tokens: Seq<TokenModel>, pos: int, target: ExprModel) -> Step<ExprModel>
    decreases tokens.len() - pos, 0int,
{
    match peek(tokens, pos) {
        TokenModel::LParen => match target {
            ExprModel::Var(name) => {
                let args = items_at(tokens, pos + 1, TokenModel::RParen);
                if moved_on(tokens, pos, args) {
                    let close = expect_at(tokens, args.next, TokenModel::RParen);
                    if close.out is Ok {
                        postfix_at(tokens, close.next, ExprModel::Call { name, args: args.out->Ok_0 })
                    } else {
                        carry(close)
                    }
                } else {
                    carry(args)
                }
            },
            _ => fail(pos, "Only identifiers can be called"@),
        },
        TokenModel::LBracket => {
            let index = expr_at(tokens, pos + 1);
            if moved_on(tokens, pos, index) {
                let close = expect_at(tokens, index.next, TokenModel::RBracket);
                if close.out is Ok {
                    postfix_at(
                        tokens,
                        close.next,
                        ExprModel::Index {
                            target: Box::new(target),
                            index: Box::new(index.out->Ok_0),
                        },
                    )
                } else {
                    carry(close)
                }
            } else {
                carry(index)
            }
        },
        _ => done(pos, target),
    }
}

/// `letStmt := "let" IDENT ":" type "=" expr ";"`
pub open spec fn let_at(tokens: Seq<TokenModel>, pos: int) -> Step<StmtModel> {
    let keyword = expect_at(tokens, pos, TokenModel::Let);
    let name = ident_at(tokens, keyword.next, "Expected variable name"@);
    let colon = expect_at(tokens, name.next, TokenModel::Colon);
    let ty = type_at(tokens, colon.next);
    let equals = expect_at(tokens, ty.next, TokenModel::Equals);
    let value = expr_at(tokens, equals.next);
    let semicolon = expect_at(tokens, value.next, TokenModel::Semicolon);
    if keyword.out is Err {
        carry(keyword)
    } else if name.out is Err {
        carry(name)
    } else if colon.out is Err {
        carry(colon)
    } else if ty.out is Err {
        carry(ty)
    } else if equals.out is Err {
        carry(equals)
    } else if value.out is Err {
        carry(value)
    } else if semicolon.out is Err {
        carry(semicolon)
    } else {
        done(
            semicolon.next,
            StmtModel::Let { name: name.out->Ok_0, ty: ty.out->Ok_0, value: value.out->Ok_0 },
        )
    }
}

/// `returnStmt := "return" expr ";"`, with `return` at `pos`.
pub open spec fn return_at(tokens: Seq<TokenModel>, pos: int) -> Step<StmtModel> {
    let value = expr_at(tokens, pos + 1);
    let semicolon = expect_at(tokens, value.next, TokenModel::Semicolon);
    if value.out is Err {
        carry(value)
    } else if semicolon.out is Err {
        carry(semicolon)
    } else {
        done(semicolon.next, StmtModel::Return(value.out->Ok_0))
    }
}

/// The block `stmt` followed by `rest`.
pub open spec fn block_after(stmt: StmtModel, rest: Step<BlockModel>) -> Step<BlockModel> {
    match rest.out {
        Ok(block) => done(
            rest.next,
            BlockModel { stmts: seq![stmt] + block.stmts, trailing: block.trailing },
        ),
        Err(_) => rest,
    }
}

/// `block := stmt* trailingExpr?`, up to a closing brace or the end of the
/// tokens. A `return` statement does not end the block. An expression with
/// no semicolon behind it is the trailing expression and ends the block.
pub open spec fn block_at(tokens: Seq<TokenModel>, pos: int) -> Step<BlockModel>
    decreases tokens.len() - pos,
{
    match peek(tokens, pos) {
        TokenModel::RBrace | TokenModel::Eof => done(
            pos,
            BlockModel { stmts: Seq::empty(), trailing: None },
        ),
        TokenModel::Let => {
            let stmt = let_at(tokens, pos);
            if moved_on(tokens, pos, stmt) {
                block_after(stmt.out->Ok_0, block_at(tokens, stmt.next))
            } else {
                carry(stmt)
            }
        },
        TokenModel::Return => {
            let stmt = return_at(tokens, pos);
            if moved_on(tokens, pos, stmt) {
                block_after(stmt.out->Ok_0, block_at(tokens, stmt.next))
            } else {
                carry(stmt)
            }
        },
        _ => {
            let value = expr_at(tokens, pos);
            if !moved_on(tokens, pos, value) {
                carry(value)
            } else if peek(tokens, value.next) is Semicolon {
                block_after(
                    StmtModel::ExprStmt(value.out->Ok_0),
                    block_at(tokens, value.next + 1),
                )
            } else {
                done(
                    value.next,
                    BlockModel { stmts: Seq::empty(), trailing: Some(value.out->Ok_0) },
                )
            }
        },
    }
}

/// `param := IDENT ":" type`
pub open spec fn param_at(tokens: Seq<TokenModel>, pos: int) -> Step<ParamModel> {
    let name = ident_at(tokens, pos, "Expected parameter name"@);
    let colon = expect_at(tokens, name.next, TokenModel::Colon);
    let ty = type_at(tokens, colon.next);
    if name.out is Err {
        carry(name)
    } else if colon.out is Err {
        carry(colon)
    } else if ty.out is Err {
        carry(ty)
    } else {
        done(ty.next, ParamModel { name: name.out->Ok_0, ty: ty.out->Ok_0 })
    }
}

/// `params := param ("," param)*`, with no comma after the last parameter.
pub open spec fn param_list_at(tokens: Seq<TokenModel>, pos: int) -> Step<Seq<ParamModel>>
    decreases tokens.len() - pos,
{
    let first = param_at(tokens, pos);
    if !moved_on(tokens, pos, first) {
        carry(first)
    } else if peek(tokens, first.next) is Comma {
        let rest = param_list_at(tokens, first.next + 1);
        if rest.out is Ok {
            done(rest.next, seq![first.out->Ok_0] + rest.out->Ok_0)
        } else {
            carry(rest)
        }
    } else {
        done(first.next, seq![first.out->Ok_0])
    }
}

/// `params?`: none where a closing parenthesis stands at `pos`.
pub open spec fn params_at(tokens: Seq<TokenModel>, pos: int) -> Step<Seq<ParamModel>> {
    if peek(tokens, pos) is RParen {
        done(pos, Seq::empty())
    } else {
        param_list_at(tokens, pos)
    }
}

/// `function := "fn" IDENT "(" params? ")" "{" block "}"`
pub open spec fn function_at(tokens: Seq<TokenModel>, pos: int) -> Step<FunctionModel> {
    let keyword = expect_at(tokens, pos, TokenModel::Fn);
    let name = ident_at(tokens, keyword.next, "Expected function name"@);
    let open = expect_at(tokens, name.next, TokenModel::LParen);
    let params = params_at(tokens, open.next);
    let close = expect_at(tokens, params.next, TokenModel::RParen);
    let left = expect_at(tokens, close.next, TokenModel::LBrace);
    let block = block_at(tokens, left.next);
    let right = expect_at(tokens, block.next, TokenModel::RBrace);
    if keyword.out is Err {
        carry(keyword)
    } else if name.out is Err {
        carry(name)
    } else if open.out is Err {
        carry(open)
    } else if params.out is Err {
        carry(params)
    } else if close.out is Err {
        carry(close)
    } else if left.out is Err {
        carry(left)
    } else if block.out is Err {
        carry(block)
    } else if right.out is Err {
        carry(right)
    } else {
        done(
            right.next,
            FunctionModel {
                name: name.out->Ok_0,
                params: params.out->Ok_0,
                body: block.out->Ok_0.stmts,
                return_expr: block.out->Ok_0.trailing,
            },
        )
    }
}

/// One entry of a data table: `"let" IDENT ":" "int" "=" INTLIT ";"`, with
/// `let` at `pos`.
pub open spec fn entry_at(tokens: Seq<TokenModel>, pos: int) -> Step<(Seq<char>, i64)> {
    let name = ident_at(tokens, pos + 1, "Expected variable name"@);
    let colon = expect_at(tokens, name.next, TokenModel::Colon);
    let ty = expect_at(tokens, colon.next, TokenModel::Int);
    let equals = expect_at(tokens, ty.next, TokenModel::Equals);
    if name.out is Err {
        carry(name)
    } else if colon.out is Err {
        carry(colon)
    } else if ty.out is Err {
        carry(ty)
    } else if equals.out is Err {
        carry(equals)
    } else {
        match peek(tokens, equals.next) {
            TokenModel::IntLit(value) => {
                let semicolon = expect_at(tokens, equals.next + 1, TokenModel::Semicolon);
                if semicolon.out is Err {
                    carry(semicolon)
                } else {
                    done(semicolon.next, (name.out->Ok_0, value))
                }
            },
            _ => fail(equals.next, "Expected integer value"@),
        }
    }
}

/// `dataDef := entry*`: entries as long as `let` stands next. Any other
/// token ends the table without failure.
pub open spec fn data_at(tokens: Seq<TokenModel>, pos: int) -> Step<Seq<(Seq<char>, i64)>>
    decreases tokens.len() - pos,
{
    if peek(tokens, pos) is Let {
        let entry = entry_at(tokens, pos);
        if moved_on(tokens, pos, entry) {
            let rest = data_at(tokens, entry.next);
            if rest.out is Ok {
                done(rest.next, seq![entry.out->Ok_0] + rest.out->Ok_0)
            } else {
                carry(rest)
            }
        } else {
            carry(entry)
        }
    } else {
        done(pos, Seq::empty())
    }
}

/// `file := dataDef | function`, told apart by the first token.
pub open spec fn file_at(tokens: Seq<TokenModel>, pos: int) -> Step<FileModel> {
    match peek(tokens, pos) {
        TokenModel::Let => {
            let data = data_at(tokens, pos);
            if data.out is Ok {
                done(data.next, FileModel::Data(DataModel { entries: data.out->Ok_0 }))
            } else {
                carry(data)
            }
        },
        TokenModel::Fn => {
            let function = function_at(tokens, pos);
            if function.out is Ok {
                done(function.next, FileModel::Function(function.out->Ok_0))
            } else {
                carry(function)
            }
        },
        found => fail(pos, "Expected fn or let, got "@ + token_text(found)),
    }
}

/// A unit starts with `fn` or with `let`: at any other token parsing fails
/// on the spot, and names the token.
pub proof fn lemma_file_needs_fn_or_let(tokens: Seq<TokenModel>, pos: int)
    requires
        !(peek(tokens, pos) is Let),
        !(peek(tokens, pos) is Fn),
    ensures
        file_at(tokens, pos) == fail::<FileModel>(
            pos,
            "Expected fn or let, got "@ + token_text(peek(tokens, pos)),
        ),
{
}

/// A source text of white space alone, the empty text among them, has no
/// token but `Eof`, and is neither a function nor a data table.
pub proof fn lemma_blank_source_rejected(source: Seq<char>)
    requires
        forall|i: int| 0 <= i < source.len() ==> is_space(#[trigger] source[i]),
    ensures
        tokens_of(source) == seq![TokenModel::Eof],
        file_at(tokens_of(source), 0).out == Err::<FileModel, _>("Expected fn or let, got Eof"@),
{
    lemma_skip_space(source, 0);
    assert("Expected fn or let, got "@ + "Eof"@ =~= "Expected fn or let, got Eof"@) by {
        reveal_strlit("Expected fn or let, got ");
        reveal_strlit("Eof");
        reveal_strlit("Expected fn or let, got Eof");
    }
}

/// A primary expression that was parsed takes at least one token and ends
/// inside the tokens.
pub proof fn lemma_primary_moves(tokens: Seq<TokenModel>, pos: int)
    requires
        0 <= pos,
    ensures
        primary_at(tokens, pos).out is Ok ==> moved_on(tokens, pos, primary_at(tokens, pos)),
    decreases tokens.len() - pos, 0int,
{
    match peek(tokens, pos) {
        TokenModel::LBracket => {
            if peek(tokens, pos + 1) != TokenModel::RBracket {
                lemma_list_moves(tokens, pos + 1);
            }
        },
        TokenModel::LParen => {
            lemma_expr_moves(tokens, pos + 1);
        },
        _ => {},
    }
}

/// An expression that was parsed takes at least one token and ends inside
/// the tokens.
pub proof fn lemma_expr_moves(tokens: Seq<TokenModel>, pos: int)
    requires
        0 <= pos,
    ensures
        expr_at(tokens, pos).out is Ok ==> moved_on(tokens, pos, expr_at(tokens, pos)),
    decreases tokens.len() - pos, 1int,
{
    lemma_primary_moves(tokens, pos);
    let primary = primary_at(tokens, pos);
    if moved_on(tokens, pos, primary) {
        lemma_postfix_moves(tokens, primary.next, primary.out->Ok_0);
    }
}

/// A list of expressions that was parsed takes at least one token and ends
/// inside the tokens.
pub proof fn lemma_list_moves(tokens: Seq<TokenModel>, pos: int)
    requires
        0 <= pos,
    ensures
        list_at(tokens, pos).out is Ok ==> moved_on(tokens, pos, list_at(tokens, pos)),
    decreases tokens.len() - pos, 2int,
{
    lemma_expr_moves(tokens, pos);
    let first = expr_at(tokens, pos);
    if moved_on(tokens, pos, first) && peek(tokens, first.next) is Comma {
        lemma_list_moves(tokens, first.next + 1);
    }
}

/// Postfix operators that were parsed end at or behind their start, inside
/// the tokens.
pub proof fn lemma_postfix_moves(tokens: Seq<TokenModel>, pos: int, target: ExprModel)
    requires
        0 <= pos <= tokens.len(),
    ensures
        postfix_at(tokens, pos, target).out is Ok ==> pos <= postfix_at(tokens, pos, target).next
            <= tokens.len(),
    decreases tokens.len() - pos, 0int,
{
    match peek(tokens, pos) {
        TokenModel::LParen => match target {
            ExprModel::Var(name) => {
                if peek(tokens, pos + 1) != TokenModel::RParen {
                    lemma_list_moves(tokens, pos + 1);
                }
                let args = items_at(tokens, pos + 1, TokenModel::RParen);
                if moved_on(tokens, pos, args) {
                    let close = expect_at(tokens, args.next, TokenModel::RParen);
                    if close.out is Ok {
                        lemma_postfix_moves(
                            tokens,
                            close.next,
                            ExprModel::Call { name, args: args.out->Ok_0 },
                        );
                    }
                }
            },
            _ => {},
        },
        TokenModel::LBracket => {
            lemma_expr_moves(tokens, pos + 1);
            let index = expr_at(tokens, pos + 1);
            if moved_on(tokens, pos, index) {
                let close = expect_at(tokens, index.next, TokenModel::RBracket);
                if close.out is Ok {
                    lemma_postfix_moves(
                        tokens,
                        close.next,
                        ExprModel::Index {
                            target: Box::new(target),
                            index: Box::new(index.out->Ok_0),
                        },
                    );
                }
            }
        },
        _ => {},
    }
}

/// A statement, a parameter or a data entry that was parsed takes at least
/// one token and ends inside the tokens.
pub proof fn lemma_parts_move(tokens: Seq<TokenModel>, pos: int)
    requires
        0 <= pos,
    ensures
        let_at(tokens, pos).out is Ok ==> moved_on(tokens, pos, let_at(tokens, pos)),
        return_at(tokens, pos).out is Ok ==> moved_on(tokens, pos, return_at(tokens, pos)),
        param_at(tokens, pos).out is Ok ==> moved_on(tokens, pos, param_at(tokens, pos)),
        entry_at(tokens, pos).out is Ok ==> moved_on(tokens, pos, entry_at(tokens, pos)),
{
    lemma_expr_moves(tokens, pos + 1);
    let ty = type_at(tokens, pos + 3);
    if let_at(tokens, pos).out is Ok {
        lemma_expr_moves(tokens, ty.next + 1);
    }
}

} // verus!

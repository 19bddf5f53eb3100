//! What evaluation means: the environment as a mathematical value, and the
//! value of each expression, statement and function call in it.

use crate::ast::{ExprModel, FunctionModel, ParamModel, StmtModel};
use crate::text::decimal_text;
use vstd::prelude::*;

verus! {

/// A value at run time: an integer, or an array of values.
pub enum ValueModel {
    Int(i64),
    Array(Seq<ValueModel>),
}

/// One scope: the values bound to names.
pub type ScopeModel = Map<Seq<char>, ValueModel>;

/// Model of [`Runtime`]: the global bindings and the stack of local scopes,
/// the innermost scope last.
pub struct EnvModel {
    pub globals: ScopeModel,
    pub locals: Seq<ScopeModel>,
}

/// What `name` is bound to: in the innermost local scope that binds it, or
/// else in the globals.
pub open spec fn lookup(env: EnvModel, name: Seq<char>) -> Option<ValueModel>
    decreases env.locals.len(),
{
    if env.locals.len() == 0 {
        if env.globals.contains_key(name) {
            Some(env.globals[name])
        } else {
            None
        }
    } else if env.locals.last().contains_key(name) {
        Some(env.locals.last()[name])
    } else {
        lookup(EnvModel { globals: env.globals, locals: env.locals.drop_last() }, name)
    }
}

/// The environment after `name` is bound to `value`: in the innermost local
/// scope where there is one, else in the globals.
pub open spec fn bind(env: EnvModel, name: Seq<char>, value: ValueModel) -> EnvModel {
    if env.locals.len() == 0 {
        EnvModel { globals: env.globals.insert(name, value), locals: env.locals }
    } else {
        EnvModel {
            globals: env.globals,
            locals: env.locals.update(env.locals.len() - 1, env.locals.last().insert(name, value)),
        }
    }
}

/// The environment with a new, empty innermost scope.
pub open spec fn enter(env: EnvModel) -> EnvModel {
    EnvModel { globals: env.globals, locals: env.locals.push(Map::empty()) }
}

/// The environment without its innermost scope; unchanged where it has none.
pub open spec fn leave(env: EnvModel) -> EnvModel {
    if env.locals.len() == 0 {
        env
    } else {
        EnvModel { globals: env.globals, locals: env.locals.drop_last() }
    }
}

/// The position that the integer `index` names in an array: the integer
/// itself, read as 64 bits without sign.
pub open spec fn index_position(index: i64) -> nat {
    if index >= 0 {
        index as nat
    } else {
        (index + 0x1_0000_0000_0000_0000) as nat
    }
}

/// The element of `target` at `index`. Only an array can be indexed, only by
/// an integer, and only below its length.
pub open spec fn index_value(target: ValueModel, index: ValueModel) -> Result<
    ValueModel,
    Seq<char>,
> {
    match (target, index) {
        (ValueModel::Array(items), ValueModel::Int(i)) => {
            if index_position(i) < items.len() {
                Ok(items[index_position(i) as int])
            } else {
                Err("Array index out of bounds: "@ + decimal_text(index_position(i)))
            }
        },
        _ => Err("Array indexing requires array and int"@),
    }
}

/// The value of `expr` in `env`, or the message of the first failure.
/// Operands are evaluated from left to right. A call always fails.
pub open spec fn eval(env: EnvModel, expr: ExprModel) -> Result<ValueModel, Seq<char>>
    decreases expr,
{
    match expr {
        ExprModel::Int(n) => Ok(ValueModel::Int(n)),
        ExprModel::Array(items) => match eval_all(env, items) {
            Ok(values) => Ok(ValueModel::Array(values)),
            Err(m) => Err(m),
        },
        ExprModel::Var(name) => match lookup(env, name) {
            Some(value) => Ok(value),
            None => Err("Undefined variable: "@ + name),
        },
        ExprModel::DataRef(name) => match lookup(env, name) {
            Some(value) => Ok(value),
            None => Err("Undefined data field: "@ + name),
        },
        ExprModel::Call { name, args } => Err(
            "Function calls not yet supported in evaluation: "@ + name,
        ),
        ExprModel::Index { target, index } => match eval(env, *target) {
            Ok(array) => match eval(env, *index) {
                Ok(position) => index_value(array, position),
                Err(m) => Err(m),
            },
            Err(m) => Err(m),
        },
    }
}

/// The values of `items` in `env`, in order, or the failure of the first
/// item that fails.
pub open spec fn eval_all(env: EnvModel, items: Seq<ExprModel>) -> Result<
    Seq<ValueModel>,
    Seq<char>,
>
    decreases items,
{
    if items.len() == 0 {
        Ok(Seq::empty())
    } else {
        match eval_all(env, items.drop_last()) {
            Ok(values) => match eval(env, items.last()) {
                Ok(value) => Ok(values.push(value)),
                Err(m) => Err(m),
            },
            Err(m) => Err(m),
        }
    }
}

/// What a statement yields in `env`: the value of a `return`, nothing for a
/// `let` or an expression statement, or the failure of its expression.
pub open spec fn stmt_result(env: EnvModel, stmt: StmtModel) -> Result<
    Option<ValueModel>,
    Seq<char>,
> {
    match stmt {
        StmtModel::Let { name, ty, value } => match eval(env, value) {
            Ok(_) => Ok(None),
            Err(m) => Err(m),
        },
        StmtModel::ExprStmt(expr) => match eval(env, expr) {
            Ok(_) => Ok(None),
            Err(m) => Err(m),
        },
        StmtModel::Return(expr) => match eval(env, expr) {
            Ok(value) => Ok(Some(value)),
            Err(m) => Err(m),
        },
    }
}

/// The environment after a statement: a `let` whose expression has a value
/// binds its name to it; nothing else changes anything.
pub open spec fn stmt_env(env: EnvModel, stmt: StmtModel) -> EnvModel {
    match stmt {
        StmtModel::Let { name, ty, value } => match eval(env, value) {
            Ok(v) => bind(env, name, v),
            Err(_) => env,
        },
        _ => env,
    }
}

/// How the execution of a body ended.
pub struct BodyModel {
    /// The environment at that point.
    pub env: EnvModel,
    /// The value of the first `return` that ran, nothing where none did, or
    /// the first failure.
    pub out: Result<Option<ValueModel>, Seq<char>>,
}

/// Runs the statements of `body` from the one at `from` on, in order, up to
/// the first `return` or failure.
pub open spec fn run_body(env: EnvModel, body: Seq<StmtModel>, from: int) -> BodyModel
    decreases body.len() - from,
{
    if !(0 <= from < body.len()) {
        BodyModel { env, out: Ok(None) }
    } else {
        match stmt_result(env, body[from]) {
            Ok(None) => run_body(stmt_env(env, body[from]), body, from + 1),
            out => BodyModel { env, out },
        }
    }
}

/// The scope that holds the first `n` parameters bound to the first `n`
/// arguments, in order; a later binding of a name replaces an earlier one.
pub open spec fn param_scope(params: Seq<ParamModel>, args: Seq<ValueModel>, n: int) -> ScopeModel
    decreases n,
{
    if n <= 0 {
        Map::empty()
    } else {
        param_scope(params, args, n - 1).insert(params[n - 1].name, args[n - 1])
    }
}

/// The message for a call with the wrong number of arguments.
pub open spec fn arity_message(name: Seq<char>, expected: nat, got: nat) -> Seq<char> {
    "Function "@ + name + " expects "@ + decimal_text(expected) + " arguments, got "@
        + decimal_text(got)
}

/// The result of calling `function` with `args` in `env`.
///
/// The number of arguments must be that of the parameters. The body runs in
/// a new scope that binds the parameters. Where the function has a trailing
/// expression, its value in that scope is the result, whatever the body
/// returned; else the result is what the body returned, or zero.
pub open spec fn call(env: EnvModel, function: FunctionModel, args: Seq<ValueModel>) -> Result<
    ValueModel,
    Seq<char>,
> {
    if function.params.len() != args.len() {
        Err(arity_message(function.name, function.params.len(), args.len()))
    } else {
        let scope = param_scope(function.params, args, args.len() as int);
        let inner = EnvModel { globals: env.globals, locals: env.locals.push(scope) };
        let body = run_body(inner, function.body, 0);
        match body.out {
            Err(m) => Err(m),
            Ok(returned) => match function.return_expr {
                Some(expr) => eval(body.env, expr),
                None => match returned {
                    Some(value) => Ok(value),
                    None => Ok(ValueModel::Int(0)),
                },
            },
        }
    }
}

/// Where the first `n` items fail, all of them fail, and in the same way.
pub proof fn lemma_eval_all_fails(env: EnvModel, items: Seq<ExprModel>, n: int)
    requires
        0 <= n <= items.len(),
        eval_all(env, items.take(n)) is Err,
    ensures
        eval_all(env, items) == eval_all(env, items.take(n)),
    decreases items.len() - n,
{
    if n == items.len() {
        assert(items.take(n) =~= items);
    } else {
        assert(items.take(n + 1).drop_last() =~= items.take(n));
        lemma_eval_all_fails(env, items, n + 1);
    }
}

/// The environment after a call of `function` with `args` in `env`: the
/// scope of the call is closed again, whatever the outcome; with the wrong
/// number of arguments no scope is opened at all.
pub open spec fn call_env(env: EnvModel, function: FunctionModel, args: Seq<ValueModel>) -> EnvModel {
    if function.params.len() != args.len() {
        env
    } else {
        let scope = param_scope(function.params, args, args.len() as int);
        let inner = EnvModel { globals: env.globals, locals: env.locals.push(scope) };
        leave(run_body(inner, function.body, 0).env)
    }
}

/// Whether a call occurs anywhere in `expr`.
pub open spec fn contains_call(expr: ExprModel) -> bool
    decreases expr,
{
    match expr {
        ExprModel::Int(_) => false,
        ExprModel::Array(items) => any_contains_call(items),
        ExprModel::Var(_) => false,
        ExprModel::DataRef(_) => false,
        ExprModel::Call { name, args } => true,
        ExprModel::Index { target, index } => contains_call(*target) || contains_call(*index),
    }
}

/// Whether a call occurs anywhere in one of `items`.
pub open spec fn any_contains_call(items: Seq<ExprModel>) -> bool
    decreases items,
{
    items.len() > 0 && (any_contains_call(items.drop_last()) || contains_call(items.last()))
}

/// Whether `expr` is made of integer and array literals alone.
pub open spec fn is_literal(expr: ExprModel) -> bool
    decreases expr,
{
    match expr {
        ExprModel::Int(_) => true,
        ExprModel::Array(items) => all_literal(items),
        _ => false,
    }
}

/// Whether each of `items` is made of integer and array literals alone.
pub open spec fn all_literal(items: Seq<ExprModel>) -> bool
    decreases items,
{
    items.len() == 0 || (all_literal(items.drop_last()) && is_literal(items.last()))
}

/// The expression of a statement.
pub open spec fn stmt_expr(stmt: StmtModel) -> ExprModel {
    match stmt {
        StmtModel::Let { name, ty, value } => value,
        StmtModel::ExprStmt(expr) => expr,
        StmtModel::Return(expr) => expr,
    }
}

/// Whether every expression of `function` is made of literals alone.
pub open spec fn is_literal_function(function: FunctionModel) -> bool {
    &&& forall|i: int|
        0 <= i < function.body.len() ==> is_literal(stmt_expr(#[trigger] function.body[i]))
    &&& function.return_expr matches Some(expr) ==> is_literal(expr)
}

/// An expression that contains a call has no value, in any environment.
pub proof fn lemma_call_fails(env: EnvModel, expr: ExprModel)
    requires
        contains_call(expr),
    ensures
        eval(env, expr) is Err,
    decreases expr,
{
    match expr {
        ExprModel::Array(items) => {
            lemma_call_fails_in_items(env, items);
        },
        ExprModel::Index { target, index } => {
            if contains_call(*target) {
                lemma_call_fails(env, *target);
            } else {
                lemma_call_fails(env, *index);
            }
        },
        _ => {},
    }
}

/// A list of expressions of which one contains a call has no values, in any
/// environment.
pub proof fn lemma_call_fails_in_items(env: EnvModel, items: Seq<ExprModel>)
    requires
        any_contains_call(items),
    ensures
        eval_all(env, items) is Err,
    decreases items,
{
    if any_contains_call(items.drop_last()) {
        lemma_call_fails_in_items(env, items.drop_last());
    } else {
        lemma_call_fails(env, items.last());
    }
}

/// A statement whose expression contains a call fails, and binds nothing.
pub proof fn lemma_call_fails_in_stmt(env: EnvModel, stmt: StmtModel)
    requires
        contains_call(stmt_expr(stmt)),
    ensures
        stmt_result(env, stmt) is Err,
        stmt_env(env, stmt) == env,
{
    lemma_call_fails(env, stmt_expr(stmt));
}

/// An expression made of literals has a value, and the same one in every
/// environment.
pub proof fn lemma_literal_value(env: EnvModel, other: EnvModel, expr: ExprModel)
    requires
        is_literal(expr),
    ensures
        eval(env, expr) is Ok,
        eval(env, expr) == eval(other, expr),
    decreases expr,
{
    match expr {
        ExprModel::Array(items) => {
            lemma_literal_values(env, other, items);
        },
        _ => {},
    }
}

/// Expressions made of literals have values, and the same ones in every
/// environment.
pub proof fn lemma_literal_values(env: EnvModel, other: EnvModel, items: Seq<ExprModel>)
    requires
        all_literal(items),
    ensures
        eval_all(env, items) is Ok,
        eval_all(env, items) == eval_all(other, items),
    decreases items,
{
    if items.len() > 0 {
        lemma_literal_values(env, other, items.drop_last());
        lemma_literal_value(env, other, items.last());
    }
}

/// A body of statements made of literals runs without failure, and yields
/// the same in every environment.
pub proof fn lemma_literal_body(env: EnvModel, other: EnvModel, body: Seq<StmtModel>, from: int)
    requires
        0 <= from,
        forall|i: int| 0 <= i < body.len() ==> is_literal(stmt_expr(#[trigger] body[i])),
    ensures
        run_body(env, body, from).out is Ok,
        run_body(env, body, from).out == run_body(other, body, from).out,
    decreases body.len() - from,
{
    if from < body.len() {
        lemma_literal_value(env, other, stmt_expr(body[from]));
        lemma_literal_body(stmt_env(env, body[from]), stmt_env(other, body[from]), body, from + 1);
    }
}

/// A function made of literals alone, called with as many arguments as it
/// has parameters, has a result, and the same one whatever the environment
/// and whatever the arguments are.
pub proof fn lemma_literal_function(
    env: EnvModel,
    other: EnvModel,
    function: FunctionModel,
    args: Seq<ValueModel>,
    other_args: Seq<ValueModel>,
)
    requires
        is_literal_function(function),
        function.params.len() == args.len(),
        function.params.len() == other_args.len(),
    ensures
        call(env, function, args) is Ok,
        call(env, function, args) == call(other, function, other_args),
{
    let inner = EnvModel {
        globals: env.globals,
        locals: env.locals.push(param_scope(function.params, args, args.len() as int)),
    };
    let other_inner = EnvModel {
        globals: other.globals,
        locals: other.locals.push(
            param_scope(function.params, other_args, other_args.len() as int),
        ),
    };
    lemma_literal_body(inner, other_inner, function.body, 0);
    if function.return_expr is Some {
        lemma_literal_value(
            run_body(inner, function.body, 0).env,
            run_body(other_inner, function.body, 0).env,
            function.return_expr->0,
        );
    }
}

/// Statements change nothing but the innermost scope: the globals and the
/// outer scopes are after a body what they were before it.
pub proof fn lemma_body_frame(env: EnvModel, body: Seq<StmtModel>, from: int)
    requires
        0 <= from,
        env.locals.len() > 0,
    ensures
        run_body(env, body, from).env.globals == env.globals,
        run_body(env, body, from).env.locals.len() == env.locals.len(),
        run_body(env, body, from).env.locals.drop_last() == env.locals.drop_last(),
    decreases body.len() - from,
{
    if from < body.len() {
        let next = stmt_env(env, body[from]);
        lemma_body_frame(next, body, from + 1);
    }
}

/// A call leaves the environment as it found it: what its body bound is
/// not visible once the call has returned, whatever its outcome.
pub proof fn lemma_call_restores(env: EnvModel, function: FunctionModel, args: Seq<ValueModel>)
    ensures
        call_env(env, function, args) == env,
{
    if function.params.len() == args.len() {
        let scope = param_scope(function.params, args, args.len() as int);
        let inner = EnvModel { globals: env.globals, locals: env.locals.push(scope) };
        lemma_body_frame(inner, function.body, 0);
        assert(inner.locals.drop_last() =~= env.locals);
    }
}

/// Calling a function a second time, in the environment that the first call
/// left, gives what the first call gave.
pub proof fn lemma_call_repeatable(env: EnvModel, function: FunctionModel, args: Seq<ValueModel>)
    ensures
        call(call_env(env, function, args), function, args) == call(env, function, args),
{
    lemma_call_restores(env, function, args);
}

/// A name bound by `let` is visible to what follows: looking it up in the
/// environment after the statement gives the value of its expression.
pub proof fn lemma_let_is_visible(
    env: EnvModel,
    name: Seq<char>,
    ty: crate::ast::Type,
    value: ExprModel,
)
    requires
        eval(env, value) is Ok,
    ensures
        lookup(stmt_env(env, StmtModel::Let { name, ty, value }), name) == Some(
            eval(env, value)->Ok_0,
        ),
{
}

/// The trailing expression decides: where a function has one, the result of
/// a call whose body did not fail is the value of that expression in the
/// scope of the call, whatever the body returned.
pub proof fn lemma_trailing_expression_wins(
    env: EnvModel,
    function: FunctionModel,
    args: Seq<ValueModel>,
)
    requires
        function.params.len() == args.len(),
        function.return_expr is Some,
    ensures
        ({
            let scope = param_scope(function.params, args, args.len() as int);
            let inner = EnvModel { globals: env.globals, locals: env.locals.push(scope) };
            let body = run_body(inner, function.body, 0);
            body.out is Ok ==> call(env, function, args) == eval(body.env, function.return_expr->0)
        }),
{
}

} // verus!

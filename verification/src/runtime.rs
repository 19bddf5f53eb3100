//! The evaluator: an environment of global and local bindings, and the
//! evaluation of expressions, statements and functions against it.

use crate::ast::{lemma_expr_models, Expr, Function, Stmt};
use crate::semantics::{
    bind, call, call_env, enter, eval, eval_all, index_value, leave, lemma_call_restores, lemma_eval_all_fails, lookup,
    param_scope, run_body, stmt_env, stmt_result, BodyModel, EnvModel, ScopeModel, ValueModel,
};
use crate::text::{join, push_decimal};
use vstd::hash_map::StringHashMap;
use vstd::prelude::*;
use vstd::string::*;

verus! {

/// A value at run time.
#[derive(Debug, PartialEq)]
pub enum Value {
    Int(i64),
    Array(Vec<Value>),
}

impl Value {
    /// The model of this value, element by element.
    pub open spec fn model(self) -> ValueModel
        decreases self,
    {
        match self {
            Value::Int(n) => ValueModel::Int(n),
            Value::Array(items) => ValueModel::Array(Value::models(items@)),
        }
    }

    /// The models of a sequence of values, in order.
    pub open spec fn models(items: Seq<Value>) -> Seq<ValueModel>
        decreases items,
    {
        if items.len() == 0 {
            Seq::empty()
        } else {
            Value::models(items.drop_last()).push(items.last().model())
        }
    }
}

impl View for Value {
    type V = ValueModel;

    open spec fn view(&self) -> ValueModel {
        self.model()
    }
}

/// The models of a sequence of values stand at the same places as the
/// values themselves.
pub proof fn lemma_value_models(items: Seq<Value>)
    ensures
        Value::models(items).len() == items.len(),
        forall|i: int| 0 <= i < items.len() ==> (#[trigger] Value::models(items)[i]) == items[i]@,
    decreases items.len(),
{
    if items.len() > 0 {
        lemma_value_models(items.drop_last());
    }
}

impl Clone for Value {
    /// A deep copy: it shares nothing with `self`.
    fn clone(&self) -> (copy: Value)
        ensures
            copy@ == self@,
        decreases self,
    {
        match self {
            Value::Int(n) => Value::Int(*n),
            Value::Array(items) => {
                let mut copies: Vec<Value> = Vec::new();
                let mut i: usize = 0;
                while i < items.len()
                    invariant
                        i <= items.len(),
                        *self == Value::Array(*items),
                        copies@.len() == i,
                        Value::models(copies@) == Value::models(items@.take(i as int)),
                    decreases items.len() - i,
                {
                    let ghost earlier = copies@;
                    proof {
                        vstd::std_specs::vec::axiom_vec_index_decreases(*items, i as int);
                        assert(decreases_to!(*self => self->Array_0));
                    }
                    let copy = items[i].clone();
                    copies.push(copy);
                    proof {
                        assert(copies@.drop_last() =~= earlier);
                        assert(items@.take(i + 1).drop_last() =~= items@.take(i as int));
                    }
                    i += 1;
                }
                assert(items@.take(i as int) =~= items@);
                Value::Array(copies)
            },
        }
    }
}

/// The model of one scope.
pub open spec fn scope_model(scope: Map<Seq<char>, Value>) -> ScopeModel {
    scope.map_values(|v: Value| v@)
}

/// The models of a stack of scopes, in order.
pub open spec fn scope_models(scopes: Seq<StringHashMap<Value>>) -> Seq<ScopeModel> {
    scopes.map_values(|scope: StringHashMap<Value>| scope_model(scope@))
}

/// The environment of the evaluator.
pub struct Runtime {
    globals: StringHashMap<Value>,
    locals: Vec<StringHashMap<Value>>,
}

impl View for Runtime {
    type V = EnvModel;

    closed spec fn view(&self) -> EnvModel {
        EnvModel { globals: scope_model(self.globals@), locals: scope_models(self.locals@) }
    }
}

impl Runtime {
    /// An environment with no binding and no local scope.
    pub fn new() -> (runtime: Runtime)
        ensures
            runtime@ == (EnvModel { globals: Map::empty(), locals: Seq::empty() }),
    {
        let runtime = Runtime { globals: StringHashMap::new(), locals: Vec::new() };
        assert(runtime@.globals =~= Map::empty());
        assert(runtime@.locals =~= Seq::empty());
        runtime
    }

    /// Binds `name` to `value` in the globals.
    pub fn set_global(&mut self, name: String, value: Value)
        ensures
            final(self)@ == (EnvModel {
                globals: old(self)@.globals.insert(name@, value@),
                locals: old(self)@.locals,
            }),
    {
        self.globals.insert(name, value);
        assert(final(self)@.globals =~= old(self)@.globals.insert(name@, value@));
    }

    /// Opens a new innermost scope.
    pub fn push_scope(&mut self)
        ensures
            final(self)@ == enter(old(self)@),
    {
        self.locals.push(StringHashMap::new());
        assert(final(self)@.locals =~= old(self)@.locals.push(Map::empty())) by {
            assert(scope_model(Map::<Seq<char>, Value>::empty()) =~= Map::empty());
        }
    }

    /// Closes the innermost scope, if there is one.
    pub fn pop_scope(&mut self)
        ensures
            final(self)@ == leave(old(self)@),
    {
        self.locals.pop();
        proof {
            if old(self).locals@.len() > 0 {
                assert(final(self)@.locals =~= old(self)@.locals.drop_last());
            }
        }
    }

    /// A copy of what `name` is bound to: in the innermost local scope that
    /// binds it, or else in the globals.
    pub fn get_var(&self, name: &str) -> (found: Option<Value>)
        ensures
            match found {
                Some(value) => lookup(self@, name@) == Some(value@),
                None => lookup(self@, name@) is None,
            },
    {
        let mut i = self.locals.len();
        assert(self@.locals.take(i as int) =~= self@.locals);
        while i > 0
            invariant
                i <= self.locals.len(),
                lookup(self@, name@) == lookup(
                    EnvModel { globals: self@.globals, locals: self@.locals.take(i as int) },
                    name@,
                ),
            decreases i,
        {
            i -= 1;
            proof {
                let upto = self@.locals.take(i + 1);
                assert(upto.drop_last() =~= self@.locals.take(i as int));
            }
            match self.locals[i].get(name) {
                Some(value) => {
                    return Some(value.clone());
                },
                None => {},
            }
        }
        match self.globals.get(name) {
            Some(value) => Some(value.clone()),
            None => None,
        }
    }

    /// Binds `name` to `value` in the innermost local scope where there is
    /// one, else in the globals.
    pub fn set_var(&mut self, name: String, value: Value)
        ensures
            final(self)@ == bind(old(self)@, name@, value@),
    {
        match self.locals.pop() {
            Some(scope) => {
                let mut scope = scope;
                scope.insert(name, value);
                self.locals.push(scope);
                proof {
                    let before = old(self)@.locals;
                    assert(scope_model(scope@) =~= before.last().insert(name@, value@));
                    assert(final(self)@.locals =~= before.update(
                        before.len() - 1,
                        before.last().insert(name@, value@),
                    ));
                }
            },
            None => {
                self.globals.insert(name, value);
                assert(final(self)@.globals =~= old(self)@.globals.insert(name@, value@));
            },
        }
    }

    /// Evaluates `expr`. The environment is left as it was.
    pub fn eval_expr(&mut self, expr: &Expr) -> (r: Result<Value, String>)
        ensures
            final(self)@ == old(self)@,
            match r {
                Ok(value) => eval(old(self)@, expr@) == Ok::<_, Seq<char>>(value@),
                Err(m) => eval(old(self)@, expr@) == Err::<ValueModel, _>(m@),
            },
        decreases expr,
    {
        match expr {
            Expr::Int(n) => Ok(Value::Int(*n)),
            Expr::Array(exprs) => {
                let ghost items = Expr::models(exprs@);
                let mut values: Vec<Value> = Vec::new();
                let mut i: usize = 0;
                proof {
                    lemma_expr_models(exprs@);
                }
                while i < exprs.len()
                    invariant
                        i <= exprs.len(),
                        *expr == Expr::Array(*exprs),
                        items == Expr::models(exprs@),
                        items.len() == exprs.len(),
                        self@ == old(self)@,
                        eval_all(self@, items.take(i as int)) == Ok::<_, Seq<char>>(
                            Value::models(values@),
                        ),
                    decreases exprs.len() - i,
                {
                    let ghost earlier = values@;
                    proof {
                        vstd::std_specs::vec::axiom_vec_index_decreases(*exprs, i as int);
                        lemma_expr_models(exprs@);
                        assert(items.take(i + 1).drop_last() =~= items.take(i as int));
                    }
                    match self.eval_expr(&exprs[i]) {
                        Ok(value) => {
                            values.push(value);
                            assert(values@.drop_last() =~= earlier);
                        },
                        Err(m) => {
                            proof {
                                lemma_eval_all_fails(self@, items, i + 1);
                            }
                            return Err(m);
                        },
                    }
                    i += 1;
                }
                assert(items.take(i as int) =~= items);
                Ok(Value::Array(values))
            },
            Expr::Var(name) => {
                match self.get_var(name.as_str()) {
                    Some(value) => Ok(value),
                    None => Err(join("Undefined variable: ", name.as_str())),
                }
            },
            Expr::DataRef(name) => {
                match self.get_var(name.as_str()) {
                    Some(value) => Ok(value),
                    None => Err(join("Undefined data field: ", name.as_str())),
                }
            },
            Expr::Call { name, args } => {
                Err(join("Function calls not yet supported in evaluation: ", name.as_str()))
            },
            Expr::Index { target, index } => {
                let target_val = match self.eval_expr(target) {
                    Ok(value) => value,
                    Err(m) => {
                        return Err(m);
                    },
                };
                let index_val = match self.eval_expr(index) {
                    Ok(value) => value,
                    Err(m) => {
                        return Err(m);
                    },
                };
                index_into(&target_val, &index_val)
            },
        }
    }

    /// Runs one statement. A `let` binds its name in the innermost scope; a
    /// `return` hands its value back; a failure changes nothing.
    pub fn eval_stmt(&mut self, stmt: &Stmt) -> (r: Result<Option<Value>, String>)
        ensures
            final(self)@ == stmt_env(old(self)@, stmt@),
            match r {
                Ok(Some(value)) => stmt_result(old(self)@, stmt@) == Ok::<_, Seq<char>>(
                    Some(value@),
                ),
                Ok(None) => stmt_result(old(self)@, stmt@) == Ok::<Option<ValueModel>, Seq<char>>(
                    None,
                ),
                Err(m) => stmt_result(old(self)@, stmt@) == Err::<Option<ValueModel>, _>(m@),
            },
    {
        match stmt {
            Stmt::Let { name, ty: _, value } => {
                let val = match self.eval_expr(value) {
                    Ok(val) => val,
                    Err(m) => {
                        return Err(m);
                    },
                };
                self.set_var(name.clone(), val);
                Ok(None)
            },
            Stmt::ExprStmt(expr) => {
                match self.eval_expr(expr) {
                    Ok(_) => Ok(None),
                    Err(m) => Err(m),
                }
            },
            Stmt::Return(expr) => {
                match self.eval_expr(expr) {
                    Ok(val) => Ok(Some(val)),
                    Err(m) => Err(m),
                }
            },
        }
    }

    /// Calls `func` with `args`. The environment is afterwards what it was
    /// before, whatever the outcome: the scope of the call is gone.
    pub fn eval_function(&mut self, func: &Function, args: Vec<Value>) -> (r: Result<
        Value,
        String,
    >)
        ensures
            final(self)@ == old(self)@,
            final(self)@ == call_env(old(self)@, func@, Value::models(args@)),
            match r {
                Ok(value) => call(old(self)@, func@, Value::models(args@)) == Ok::<_, Seq<char>>(
                    value@,
                ),
                Err(m) => call(old(self)@, func@, Value::models(args@)) == Err::<ValueModel, _>(
                    m@,
                ),
            },
    {
        let ghost env = self@;
        let ghost function = func@;
        let ghost values = Value::models(args@);
        proof {
            lemma_value_models(args@);
            lemma_call_restores(env, function, values);
        }
        if func.params.len() != args.len() {
            let mut message = join("Function ", func.name.as_str());
            message.append(" expects ");
            push_decimal(&mut message, func.params.len() as u64);
            message.append(" arguments, got ");
            push_decimal(&mut message, args.len() as u64);
            return Err(message);
        }
        self.push_scope();

        let mut i: usize = 0;
        while i < func.params.len()
            invariant
                i <= func.params.len(),
                func.params.len() == args.len(),
                function == func@,
                values == Value::models(args@),
                values.len() == args.len(),
                forall|k: int| 0 <= k < args.len() ==> (#[trigger] values[k]) == args@[k]@,
                self@ == (EnvModel {
                    globals: env.globals,
                    locals: env.locals.push(param_scope(function.params, values, i as int)),
                }),
            decreases func.params.len() - i,
        {
            self.set_var(func.params[i].name.clone(), args[i].clone());
            proof {
                assert(self@.locals =~= env.locals.push(
                    param_scope(function.params, values, i + 1),
                ));
            }
            i += 1;
        }

        let ghost inner = self@;
        let mut returned: Option<Value> = None;
        let mut at: usize = 0;
        while at < func.body.len()
            invariant_except_break
                returned is None,
                run_body(inner, function.body, 0) == run_body(self@, function.body, at as int),
            invariant
                at <= func.body.len(),
                function == func@,
                env == old(self)@,
                values == Value::models(args@),
                function.params.len() == values.len(),
                inner == (EnvModel {
                    globals: env.globals,
                    locals: env.locals.push(
                        param_scope(function.params, values, values.len() as int),
                    ),
                }),
                self@.globals == env.globals,
                self@.locals.len() == env.locals.len() + 1,
                self@.locals.drop_last() == env.locals,
            ensures
                run_body(inner, function.body, 0) == (BodyModel {
                    env: self@,
                    out: Ok(
                        match returned {
                            Some(value) => Some(value@),
                            None => None,
                        },
                    ),
                }),
            decreases func.body.len() - at,
        {
            match self.eval_stmt(&func.body[at]) {
                Ok(Some(value)) => {
                    returned = Some(value);
                    break ;
                },
                Ok(None) => {
                },
                Err(m) => {
                    self.pop_scope();
                    return Err(m);
                },
            }
            at += 1;
        }

        let result = match &func.return_expr {
            Some(expr) => {
                match self.eval_expr(expr) {
                    Ok(value) => value,
                    Err(m) => {
                        self.pop_scope();
                        return Err(m);
                    },
                }
            },
            None => match returned {
                Some(value) => value,
                None => Value::Int(0),
            },
        };
        self.pop_scope();
        Ok(result)
    }
}

/// The element of `target` at `index`, as [`index_value`] defines it.
fn index_into(target: &Value, index: &Value) -> (r: Result<Value, String>)
    ensures
        match r {
            Ok(value) => index_value(target@, index@) == Ok::<_, Seq<char>>(value@),
            Err(m) => index_value(target@, index@) == Err::<ValueModel, _>(m@),
        },
{
    match (target, index) {
        (Value::Array(items), Value::Int(i)) => {
            let position: u64 = if *i >= 0 {
                *i as u64
            } else {
                ((*i - i64::MIN) as u64) + 0x8000_0000_0000_0000u64
            };
            proof {
                lemma_value_models(items@);
            }
            if position < items.len() as u64 {
                Ok(items[position as usize].clone())
            } else {
                let mut message = String::from_str("Array index out of bounds: ");
                push_decimal(&mut message, position);
                Err(message)
            }
        },
        _ => Err(String::from_str("Array indexing requires array and int")),
    }
}

} // verus!

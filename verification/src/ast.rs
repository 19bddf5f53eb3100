//! The syntax tree of the language, and the mathematical model of each node.

use vstd::prelude::*;

verus! {

/// The declared type of a parameter or of a `let` binding.
#[derive(Debug, Clone, Copy, PartialEq, Eq, Structural)]
pub enum Type {
    Int,
    IntArray,
}

/// A function parameter: a name with its declared type.
#[derive(Debug, PartialEq)]
pub struct Param {
    pub name: String,
    pub ty: Type,
}

/// An expression.
#[derive(Debug, PartialEq)]
pub enum Expr {
    Int(i64),
    Array(Vec<Expr>),
    Var(String),
    DataRef(String),
    Call { name: String, args: Vec<Expr> },
    Index { target: Box<Expr>, index: Box<Expr> },
}

/// A statement of a function body.
#[derive(Debug, PartialEq)]
pub enum Stmt {
    Let { name: String, ty: Type, value: Expr },
    ExprStmt(Expr),
    Return(Expr),
}

/// A function definition.
#[derive(Debug, PartialEq)]
pub struct Function {
    pub name: String,
    pub params: Vec<Param>,
    pub body: Vec<Stmt>,
    pub return_expr: Option<Box<Expr>>,
}

/// A table of named integer constants.
#[derive(Debug, PartialEq)]
pub struct DataDef {
    pub entries: Vec<(String, i64)>,
}

/// What one source unit holds: a function or a data table.
#[derive(Debug, PartialEq)]
pub enum FileContent {
    Function(Function),
    Data(DataDef),
}

/// Model of [`Param`].
pub struct ParamModel {
    pub name: Seq<char>,
    pub ty: Type,
}

/// Model of [`Expr`]: names are character sequences, children are sequences of models.
pub enum ExprModel {
    Int(i64),
    Array(Seq<ExprModel>),
    Var(Seq<char>),
    DataRef(Seq<char>),
    Call { name: Seq<char>, args: Seq<ExprModel> },
    Index { target: Box<ExprModel>, index: Box<ExprModel> },
}

/// Model of [`Stmt`].
pub enum StmtModel {
    Let { name: Seq<char>, ty: Type, value: ExprModel },
    ExprStmt(ExprModel),
    Return(ExprModel),
}

/// Model of [`Function`].
pub struct FunctionModel {
    pub name: Seq<char>,
    pub params: Seq<ParamModel>,
    pub body: Seq<StmtModel>,
    pub return_expr: Option<ExprModel>,
}

/// Model of [`DataDef`].
pub struct DataModel {
    pub entries: Seq<(Seq<char>, i64)>,
}

/// Model of [`FileContent`].
pub enum FileModel {
    Function(FunctionModel),
    Data(DataModel),
}

impl Param {
    /// The models of a sequence of parameters, in order.
    pub open spec fn models(params: Seq<Param>) -> Seq<ParamModel> {
        params.map_values(|p: Param| p@)
    }
}

impl Stmt {
    /// The models of a sequence of statements, in order.
    pub open spec fn models(stmts: Seq<Stmt>) -> Seq<StmtModel> {
        stmts.map_values(|s: Stmt| s@)
    }
}

/// The models of the entries of a data table, in order.
pub open spec fn entry_models(entries: Seq<(String, i64)>) -> Seq<(Seq<char>, i64)> {
    entries.map_values(|e: (String, i64)| (e.0@, e.1))
}

impl View for Param {
    type V = ParamModel;

    open spec fn view(&self) -> ParamModel {
        ParamModel { name: self.name@, ty: self.ty }
    }
}

impl Expr {
    /// The model of this expression, node by node.
    pub open spec fn model(self) -> ExprModel
        decreases self,
    {
        match self {
            Expr::Int(n) => ExprModel::Int(n),
            Expr::Array(items) => ExprModel::Array(Expr::models(items@)),
            Expr::Var(name) => ExprModel::Var(name@),
            Expr::DataRef(name) => ExprModel::DataRef(name@),
            Expr::Call { name, args } => ExprModel::Call { name: name@, args: Expr::models(args@) },
            Expr::Index { target, index } => ExprModel::Index {
                target: Box::new((*target).model()),
                index: Box::new((*index).model()),
            },
        }
    }

    /// The models of a sequence of expressions, in order.
    pub open spec fn models(items: Seq<Expr>) -> Seq<ExprModel>
        decreases items,
    {
        if items.len() == 0 {
            Seq::empty()
        } else {
            Expr::models(items.drop_last()).push(items.last().model())
        }
    }
}

/// The models of a sequence of expressions stand at the same places as the
/// expressions themselves.
pub proof fn lemma_expr_models(items: Seq<Expr>)
    ensures
        Expr::models(items).len() == items.len(),
        forall|i: int| 0 <= i < items.len() ==> (#[trigger] Expr::models(items)[i]) == items[i]@,
    decreases items.len(),
{
    if items.len() > 0 {
        lemma_expr_models(items.drop_last());
    }
}

impl View for Expr {
    type V = ExprModel;

    open spec fn view(&self) -> ExprModel {
        self.model()
    }
}

impl View for Stmt {
    type V = StmtModel;

    open spec fn view(&self) -> StmtModel {
        match self {
            Stmt::Let { name, ty, value } => StmtModel::Let { name: name@, ty: *ty, value: value@ },
            Stmt::ExprStmt(e) => StmtModel::ExprStmt(e@),
            Stmt::Return(e) => StmtModel::Return(e@),
        }
    }
}

impl View for Function {
    type V = FunctionModel;

    open spec fn view(&self) -> FunctionModel {
        FunctionModel {
            name: self.name@,
            params: Param::models(self.params@),
            body: Stmt::models(self.body@),
            return_expr: match self.return_expr {
                Some(e) => Some(e@),
                None => None,
            },
        }
    }
}

impl View for DataDef {
    type V = DataModel;

    open spec fn view(&self) -> DataModel {
        DataModel { entries: entry_models(self.entries@) }
    }
}

impl View for FileContent {
    type V = FileModel;

    open spec fn view(&self) -> FileModel {
        match self {
            FileContent::Function(f) => FileModel::Function(f@),
            FileContent::Data(d) => FileModel::Data(d@),
        }
    }
}

impl Clone for Param {
    fn clone(&self) -> (copy: Param)
        ensures
            copy@ == self@,
    {
        Param { name: self.name.clone(), ty: self.ty }
    }
}

/// Copies of `items`, in order.
fn clone_exprs(items: &Vec<Expr>) -> (copies: Vec<Expr>)
    ensures
        Expr::models(copies@) == Expr::models(items@),
    decreases items,
{
    let mut copies: Vec<Expr> = Vec::new();
    let mut i: usize = 0;
    while i < items.len()
        invariant
            i <= items.len(),
            Expr::models(copies@) == Expr::models(items@.take(i as int)),
        decreases items.len() - i,
    {
        let ghost earlier = copies@;
        proof {
            vstd::std_specs::vec::axiom_vec_index_decreases(*items, i as int);
        }
        let copy = items[i].clone();
        copies.push(copy);
        proof {
            assert(copies@.drop_last() =~= earlier);
            assert(items@.take(i + 1).drop_last() =~= items@.take(i as int));
        }
        i += 1;
    }
    assert(items@.take(i as int) =~= items@);
    copies
}

impl Clone for Expr {
    fn clone(&self) -> (copy: Expr)
        ensures
            copy@ == self@,
        decreases self,
    {
        match self {
            Expr::Int(n) => Expr::Int(*n),
            Expr::Array(items) => Expr::Array(clone_exprs(items)),
            Expr::Var(name) => Expr::Var(name.clone()),
            Expr::DataRef(name) => Expr::DataRef(name.clone()),
            Expr::Call { name, args } => Expr::Call { name: name.clone(), args: clone_exprs(args) },
            Expr::Index { target, index } => Expr::Index {
                target: Box::new((**target).clone()),
                index: Box::new((**index).clone()),
            },
        }
    }
}

impl Clone for Stmt {
    fn clone(&self) -> (copy: Stmt)
        ensures
            copy@ == self@,
    {
        match self {
            Stmt::Let { name, ty, value } => Stmt::Let {
                name: name.clone(),
                ty: *ty,
                value: value.clone(),
            },
            Stmt::ExprStmt(expr) => Stmt::ExprStmt(expr.clone()),
            Stmt::Return(expr) => Stmt::Return(expr.clone()),
        }
    }
}

impl Clone for Function {
    fn clone(&self) -> (copy: Function)
        ensures
            copy@ == self@,
    {
        let mut params: Vec<Param> = Vec::new();
        let mut i: usize = 0;
        while i < self.params.len()
            invariant
                i <= self.params.len(),
                params@.len() == i,
                forall|j: int| 0 <= j < i ==> (#[trigger] params@[j])@ == self.params@[j]@,
            decreases self.params.len() - i,
        {
            params.push(self.params[i].clone());
            i += 1;
        }
        assert(Param::models(params@) =~= Param::models(self.params@));
        let mut body: Vec<Stmt> = Vec::new();
        let mut k: usize = 0;
        while k < self.body.len()
            invariant
                k <= self.body.len(),
                body@.len() == k,
                forall|j: int| 0 <= j < k ==> (#[trigger] body@[j])@ == self.body@[j]@,
            decreases self.body.len() - k,
        {
            body.push(self.body[k].clone());
            k += 1;
        }
        assert(Stmt::models(body@) =~= Stmt::models(self.body@));
        let return_expr = match &self.return_expr {
            Some(expr) => Some(Box::new((**expr).clone())),
            None => None,
        };
        Function { name: self.name.clone(), params, body, return_expr }
    }
}

impl Clone for DataDef {
    fn clone(&self) -> (copy: DataDef)
        ensures
            copy@ == self@,
    {
        let mut entries: Vec<(String, i64)> = Vec::new();
        let mut i: usize = 0;
        while i < self.entries.len()
            invariant
                i <= self.entries.len(),
                entries@.len() == i,
                forall|j: int|
                    0 <= j < i ==> (#[trigger] entries@[j]).0@ == self.entries@[j].0@
                        && entries@[j].1 == self.entries@[j].1,
            decreases self.entries.len() - i,
        {
            entries.push((self.entries[i].0.clone(), self.entries[i].1));
            i += 1;
        }
        assert(entry_models(entries@) =~= entry_models(self.entries@));
        DataDef { entries }
    }
}

impl Clone for FileContent {
    fn clone(&self) -> (copy: FileContent)
        ensures
            copy@ == self@,
    {
        match self {
            FileContent::Function(function) => FileContent::Function(function.clone()),
            FileContent::Data(data) => FileContent::Data(data.clone()),
        }
    }
}

} // verus!

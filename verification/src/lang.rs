//! The language tree: values, reaches, expressions, statements, together
//! with their mathematical models and view functions.
use vstd::prelude::*;

verus! {

broadcast use vstd::seq::axiom_seq_index_decreases, vstd::std_specs::vec::axiom_vec_decreases_to_view, vstd::seq::axiom_seq_subrange_decreases;

// ---------------------------------------------------------------------------
// Executable tree
// ---------------------------------------------------------------------------

/// How an index after `.` is written: a field name or a number literal.
#[derive(Debug)]
pub enum Index {
    Ident(String),
    NumLit(i32),
}

/// An index position before resolution: either already an index, or an
/// expression still to be evaluated.
#[derive(Debug)]
pub enum IntoIndex {
    Index(Index),
    Expr(Box<Expr>),
}

/// A source of a value: literal, variable, grouped expression, or a
/// composite literal.
#[derive(Debug)]
pub enum Reach {
    ArrayLiteral(Vec<Expr>),
    ObjectLiteral(Vec<(String, Expr)>),
    Value(Value),
    Expr(Box<Expr>),
    Named(String),
}

/// An expression of the language.
#[derive(Debug)]
pub enum Expr {
    Reach(Reach),
    Block(Block),
    /// Reaching into an object, array or string, as in `person.name`.
    Index(Reach, IntoIndex),
    Cmp(Reach, Reach),
    Gt(Reach, Reach),
    Lt(Reach, Reach),
    Or(Reach, Reach),
    And(Reach, Reach),
    Conditional { condition: Reach, if_true: Reach, if_false: Reach },
    Add(Reach, Reach),
    Sub(Reach, Reach),
    /// Calls the reached function with at most one argument.
    CallFn { f: Reach, args: Option<Reach> },
}

/// A statement of the language.
#[derive(Debug)]
pub enum Statement {
    /// Assigns to the nearest enclosing binding of the name.
    ModifyVariable(String, Expr),
    /// Declares a binding in the current scope.
    SetVariable(String, Expr),
    /// Ends the enclosing block with the expression's value. No surface
    /// syntax produces it; it exists for embedders.
    Return(Expr),
    /// Evaluates the expression; its value is the block's value when it is
    /// the last statement of the block, and is discarded otherwise.
    Expr(Expr),
    /// Runs the block until a break signal is raised inside it.
    Loop(Block),
    Break,
    LoopFor { v_name: String, iter: Expr, block: Block },
    /// Debug statement: writes an environment dump to the host.
    DumpContext,
    /// Debug statement: waits for one line of host input.
    Pause,
}

/// A brace-delimited statement sequence.
#[derive(Debug)]
pub struct Block(pub Vec<Statement>);

/// A function literal: at most one argument name, and a body block.
#[derive(Debug)]
pub struct Function {
    pub arg_name: Option<String>,
    pub block: Block,
}

/// A value of the language as it appears in the tree.
#[derive(Debug)]
pub enum Value {
    Bool(bool),
    Int(i32),
    Str(String),
    Array(Vec<Value>),
    Function(Function),
    Object(Vec<(String, Value)>),
    Nil,
}

// ---------------------------------------------------------------------------
// Models
// ---------------------------------------------------------------------------

/// Model of [`Index`].
pub enum IndexM {
    Ident(Seq<char>),
    NumLit(i32),
}

/// Model of [`IntoIndex`].
pub enum IntoIndexM {
    Index(IndexM),
    Expr(Box<ExprM>),
}

/// Model of [`Reach`].
pub enum ReachM {
    ArrayLiteral(Seq<ExprM>),
    ObjectLiteral(Seq<(Seq<char>, ExprM)>),
    Value(ValueM),
    Expr(Box<ExprM>),
    Named(Seq<char>),
}

/// Model of [`Expr`].
pub enum ExprM {
    Reach(ReachM),
    Block(Seq<StmtM>),
    Index(ReachM, IntoIndexM),
    Cmp(ReachM, ReachM),
    Gt(ReachM, ReachM),
    Lt(ReachM, ReachM),
    Or(ReachM, ReachM),
    And(ReachM, ReachM),
    Conditional { condition: ReachM, if_true: ReachM, if_false: ReachM },
    Add(ReachM, ReachM),
    Sub(ReachM, ReachM),
    CallFn { f: ReachM, args: Option<ReachM> },
}

/// Model of [`Statement`].
pub enum StmtM {
    ModifyVariable(Seq<char>, ExprM),
    SetVariable(Seq<char>, ExprM),
    Return(ExprM),
    Expr(ExprM),
    Loop(Seq<StmtM>),
    Break,
    LoopFor { v_name: Seq<char>, iter: ExprM, block: Seq<StmtM> },
    DumpContext,
    Pause,
}

/// Model of [`Function`].
pub struct FnM {
    pub arg_name: Option<Seq<char>>,
    pub block: Seq<StmtM>,
}

/// Model of [`Value`].
pub enum ValueM {
    Bool(bool),
    Int(i32),
    Str(Seq<char>),
    Array(Seq<ValueM>),
    Function(FnM),
    Object(Seq<(Seq<char>, ValueM)>),
    Nil,
}

// ---------------------------------------------------------------------------
// Views
// ---------------------------------------------------------------------------

pub open spec fn view_index(i: Index) -> IndexM {
    match i {
        Index::Ident(s) => IndexM::Ident(s@),
        Index::NumLit(n) => IndexM::NumLit(n),
    }
}

pub open spec fn view_opt_name(o: Option<String>) -> Option<Seq<char>> {
    match o {
        Option::Some(s) => Option::Some(s@),
        Option::None => Option::None,
    }
}

pub open spec fn view_into_index(i: IntoIndex) -> IntoIndexM
    decreases i,
{
    match i {
        IntoIndex::Index(ix) => IntoIndexM::Index(view_index(ix)),
        IntoIndex::Expr(e) => IntoIndexM::Expr(Box::new(view_expr(*e))),
    }
}

pub open spec fn view_reach(r: Reach) -> ReachM
    decreases r,
{
    match r {
        Reach::ArrayLiteral(es) => ReachM::ArrayLiteral(view_exprs(es@)),
        Reach::ObjectLiteral(ps) => ReachM::ObjectLiteral(view_expr_pairs(ps@)),
        Reach::Value(v) => ReachM::Value(view_value(v)),
        Reach::Expr(e) => ReachM::Expr(Box::new(view_expr(*e))),
        Reach::Named(s) => ReachM::Named(s@),
    }
}

pub open spec fn view_expr(e: Expr) -> ExprM
    decreases e,
{
    match e {
        Expr::Reach(r) => ExprM::Reach(view_reach(r)),
        Expr::Block(b) => ExprM::Block(view_stmts(b.0@)),
        Expr::Index(r, i) => ExprM::Index(view_reach(r), view_into_index(i)),
        Expr::Cmp(a, b) => ExprM::Cmp(view_reach(a), view_reach(b)),
        Expr::Gt(a, b) => ExprM::Gt(view_reach(a), view_reach(b)),
        Expr::Lt(a, b) => ExprM::Lt(view_reach(a), view_reach(b)),
        Expr::Or(a, b) => ExprM::Or(view_reach(a), view_reach(b)),
        Expr::And(a, b) => ExprM::And(view_reach(a), view_reach(b)),
        Expr::Conditional { condition, if_true, if_false } => ExprM::Conditional {
            condition: view_reach(condition),
            if_true: view_reach(if_true),
            if_false: view_reach(if_false),
        },
        Expr::Add(a, b) => ExprM::Add(view_reach(a), view_reach(b)),
        Expr::Sub(a, b) => ExprM::Sub(view_reach(a), view_reach(b)),
        Expr::CallFn { f, args } => ExprM::CallFn {
            f: view_reach(f),
            args: match args {
                Option::Some(a) => Option::Some(view_reach(a)),
                Option::None => Option::None,
            },
        },
    }
}

pub open spec fn view_stmt(s: Statement) -> StmtM
    decreases s,
{
    match s {
        Statement::ModifyVariable(n, e) => StmtM::ModifyVariable(n@, view_expr(e)),
        Statement::SetVariable(n, e) => StmtM::SetVariable(n@, view_expr(e)),
        Statement::Return(e) => StmtM::Return(view_expr(e)),
        Statement::Expr(e) => StmtM::Expr(view_expr(e)),
        Statement::Loop(b) => StmtM::Loop(view_stmts(b.0@)),
        Statement::Break => StmtM::Break,
        Statement::LoopFor { v_name, iter, block } => StmtM::LoopFor {
            v_name: v_name@,
            iter: view_expr(iter),
            block: view_stmts(block.0@),
        },
        Statement::DumpContext => StmtM::DumpContext,
        Statement::Pause => StmtM::Pause,
    }
}

pub open spec fn view_fn(f: Function) -> FnM
    decreases f,
{
    FnM { arg_name: view_opt_name(f.arg_name), block: view_stmts(f.block.0@) }
}

pub open spec fn view_value(v: Value) -> ValueM
    decreases v,
{
    match v {
        Value::Bool(b) => ValueM::Bool(b),
        Value::Int(n) => ValueM::Int(n),
        Value::Str(s) => ValueM::Str(s@),
        Value::Array(vs) => ValueM::Array(view_values(vs@)),
        Value::Function(f) => ValueM::Function(view_fn(f)),
        Value::Object(ps) => ValueM::Object(view_value_pairs(ps@)),
        Value::Nil => ValueM::Nil,
    }
}

pub open spec fn view_exprs(s: Seq<Expr>) -> Seq<ExprM>
    decreases s,
{
    if s.len() == 0 {
        Seq::empty()
    } else {
        seq![view_expr(s[0])] + view_exprs(s.drop_first())
    }
}

pub open spec fn view_expr_pairs(s: Seq<(String, Expr)>) -> Seq<(Seq<char>, ExprM)>
    decreases s,
{
    if s.len() == 0 {
        Seq::empty()
    } else {
        seq![(s[0].0@, view_expr(s[0].1))] + view_expr_pairs(s.drop_first())
    }
}

pub open spec fn view_stmts(s: Seq<Statement>) -> Seq<StmtM>
    decreases s,
{
    if s.len() == 0 {
        Seq::empty()
    } else {
        seq![view_stmt(s[0])] + view_stmts(s.drop_first())
    }
}

pub open spec fn view_values(s: Seq<Value>) -> Seq<ValueM>
    decreases s,
{
    if s.len() == 0 {
        Seq::empty()
    } else {
        seq![view_value(s[0])] + view_values(s.drop_first())
    }
}

pub open spec fn view_value_pairs(s: Seq<(String, Value)>) -> Seq<(Seq<char>, ValueM)>
    decreases s,
{
    if s.len() == 0 {
        Seq::empty()
    } else {
        seq![(s[0].0@, view_value(s[0].1))] + view_value_pairs(s.drop_first())
    }
}

// View trait impls, for the `@` notation.

impl View for Index {
    type V = IndexM;

    open spec fn view(&self) -> IndexM {
        view_index(*self)
    }
}

impl View for IntoIndex {
    type V = IntoIndexM;

    open spec fn view(&self) -> IntoIndexM {
        view_into_index(*self)
    }
}

impl View for Reach {
    type V = ReachM;

    open spec fn view(&self) -> ReachM {
        view_reach(*self)
    }
}

impl View for Expr {
    type V = ExprM;

    open spec fn view(&self) -> ExprM {
        view_expr(*self)
    }
}

impl View for Statement {
    type V = StmtM;

    open spec fn view(&self) -> StmtM {
        view_stmt(*self)
    }
}

impl View for Block {
    type V = Seq<StmtM>;

    open spec fn view(&self) -> Seq<StmtM> {
        view_stmts(self.0@)
    }
}

impl View for Function {
    type V = FnM;

    open spec fn view(&self) -> FnM {
        view_fn(*self)
    }
}

impl View for Value {
    type V = ValueM;

    open spec fn view(&self) -> ValueM {
        view_value(*self)
    }
}

// Length and index lemmas for the sequence views.

pub broadcast proof fn lemma_view_exprs_len(s: Seq<Expr>)
    ensures
        #[trigger] view_exprs(s).len() == s.len(),
    decreases s.len(),
{
    if s.len() > 0 {
        lemma_view_exprs_len(s.drop_first());
    }
}

pub broadcast proof fn lemma_view_exprs_index(s: Seq<Expr>, i: int)
    requires
        0 <= i < s.len(),
    ensures
        #[trigger] view_exprs(s)[i] == view_expr(s[i]),
    decreases s.len(),
{
    lemma_view_exprs_len(s);
    if i > 0 {
        lemma_view_exprs_index(s.drop_first(), i - 1);
    }
}

pub broadcast proof fn lemma_view_expr_pairs_len(s: Seq<(String, Expr)>)
    ensures
        #[trigger] view_expr_pairs(s).len() == s.len(),
    decreases s.len(),
{
    if s.len() > 0 {
        lemma_view_expr_pairs_len(s.drop_first());
    }
}

pub broadcast proof fn lemma_view_expr_pairs_index(s: Seq<(String, Expr)>, i: int)
    requires
        0 <= i < s.len(),
    ensures
        #[trigger] view_expr_pairs(s)[i] == (s[i].0@, view_expr(s[i].1)),
    decreases s.len(),
{
    lemma_view_expr_pairs_len(s);
    if i > 0 {
        lemma_view_expr_pairs_index(s.drop_first(), i - 1);
    }
}

pub broadcast proof fn lemma_view_stmts_len(s: Seq<Statement>)
    ensures
        #[trigger] view_stmts(s).len() == s.len(),
    decreases s.len(),
{
    if s.len() > 0 {
        lemma_view_stmts_len(s.drop_first());
    }
}

pub broadcast proof fn lemma_view_stmts_index(s: Seq<Statement>, i: int)
    requires
        0 <= i < s.len(),
    ensures
        #[trigger] view_stmts(s)[i] == view_stmt(s[i]),
    decreases s.len(),
{
    lemma_view_stmts_len(s);
    if i > 0 {
        lemma_view_stmts_index(s.drop_first(), i - 1);
    }
}

pub broadcast proof fn lemma_view_values_len(s: Seq<Value>)
    ensures
        #[trigger] view_values(s).len() == s.len(),
    decreases s.len(),
{
    if s.len() > 0 {
        lemma_view_values_len(s.drop_first());
    }
}

pub broadcast proof fn lemma_view_values_index(s: Seq<Value>, i: int)
    requires
        0 <= i < s.len(),
    ensures
        #[trigger] view_values(s)[i] == view_value(s[i]),
    decreases s.len(),
{
    lemma_view_values_len(s);
    if i > 0 {
        lemma_view_values_index(s.drop_first(), i - 1);
    }
}

pub broadcast proof fn lemma_view_value_pairs_len(s: Seq<(String, Value)>)
    ensures
        #[trigger] view_value_pairs(s).len() == s.len(),
    decreases s.len(),
{
    if s.len() > 0 {
        lemma_view_value_pairs_len(s.drop_first());
    }
}

pub broadcast proof fn lemma_view_value_pairs_index(s: Seq<(String, Value)>, i: int)
    requires
        0 <= i < s.len(),
    ensures
        #[trigger] view_value_pairs(s)[i] == (s[i].0@, view_value(s[i].1)),
    decreases s.len(),
{
    lemma_view_value_pairs_len(s);
    if i > 0 {
        lemma_view_value_pairs_index(s.drop_first(), i - 1);
    }
}

/// One group naming all the view lemmas, for `broadcast use`.
pub broadcast group group_view_lemmas {
    lemma_view_exprs_len,
    lemma_view_exprs_index,
    lemma_view_expr_pairs_len,
    lemma_view_expr_pairs_index,
    lemma_view_stmts_len,
    lemma_view_stmts_index,
    lemma_view_values_len,
    lemma_view_values_index,
    lemma_view_value_pairs_len,
    lemma_view_value_pairs_index,
}

// ---------------------------------------------------------------------------
// Reach / expression conversions
// ---------------------------------------------------------------------------

/// Model of [`Expr::into_reach`].
pub open spec fn sp_into_reach(e: ExprM) -> ReachM {
    match e {
        ExprM::Reach(r) => r,
        e => ReachM::Expr(Box::new(e)),
    }
}

/// Model of [`Reach::into_expr`].
pub open spec fn sp_into_expr(r: ReachM) -> ExprM {
    match r {
        ReachM::Expr(e) => *e,
        r => ExprM::Reach(r),
    }
}

impl Expr {
    /// Wraps the expression as a reach, flattening one `Reach` layer.
    pub fn into_reach(self) -> (r: Reach)
        ensures
            r@ == sp_into_reach(self@),
    {
        match self {
            Expr::Reach(r) => r,
            e => Reach::Expr(Box::new(e)),
        }
    }
}

impl Reach {
    /// Lifts the reach to an expression, flattening one `Expr` layer.
    pub fn into_expr(self) -> (e: Expr)
        ensures
            e@ == sp_into_expr(self@),
    {
        match self {
            Reach::Expr(e) => *e,
            r => Expr::Reach(r),
        }
    }
}

/// A host callable at the tree level: a stable identifier and a display
/// name, with the behaviour left to the embedder.
#[derive(Debug)]
pub struct DynBuiltin {
    pub id: u64,
    pub name: String,
}

impl DynBuiltin {
    pub fn id(&self) -> (r: u64)
        ensures
            r == self.id,
    {
        self.id
    }

    pub fn name(&self) -> (r: &String)
        ensures
            r@ == self.name@,
    {
        &self.name
    }
}

/// Hands out tree-level host callables with unique, increasing ids.
pub struct DynBuiltinBuilder {
    pub id: u64,
}

impl DynBuiltinBuilder {
    /// A builder starting at id zero.
    pub fn new() -> (r: DynBuiltinBuilder)
        ensures
            r.id == 0,
    {
        DynBuiltinBuilder { id: 0 }
    }

    /// The next host callable, under the given display name.
    pub fn new_dyn(&mut self, name: String) -> (r: DynBuiltin)
        requires
            old(self).id < u64::MAX,
        ensures
            r.id == old(self).id,
            r.name@ == name@,
            final(self).id == old(self).id + 1,
    {
        let b = DynBuiltin { id: self.id, name };
        self.id = self.id + 1;
        b
    }
}

} // verus!


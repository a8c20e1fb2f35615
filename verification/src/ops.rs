//! Deep copies of tree values and the operator tables on language values.
use vstd::prelude::*;

use crate::lang::{
    lemma_view_values_len, lemma_view_values_index, lemma_view_value_pairs_len,
    lemma_view_value_pairs_index, lemma_view_stmts_len, lemma_view_stmts_index,
    lemma_view_exprs_len, lemma_view_exprs_index, lemma_view_expr_pairs_len,
    lemma_view_expr_pairs_index,
    Block, Expr, Function, Index, IntoIndex, Reach, Statement, Value, ExprM, FnM, IndexM,
    IntoIndexM, ReachM, StmtM, ValueM, view_expr, view_exprs, view_expr_pairs, view_fn,
    view_index, view_into_index, view_opt_name, view_reach, view_stmt, view_stmts, view_value,
    view_values, view_value_pairs,
};
use crate::num::{i32_to_string, sp_i32_str};

verus! {

broadcast use vstd::seq::axiom_seq_index_decreases, vstd::std_specs::vec::axiom_vec_decreases_to_view, vstd::seq::axiom_seq_subrange_decreases, crate::lang::group_view_lemmas;

// ---------------------------------------------------------------------------
// Deep copies
// ---------------------------------------------------------------------------

pub fn index_clone(i: &Index) -> (r: Index)
    ensures
        r@ == i@,
{
    match i {
        Index::Ident(s) => Index::Ident(s.clone()),
        Index::NumLit(n) => Index::NumLit(*n),
    }
}

pub fn into_index_clone(i: &IntoIndex) -> (r: IntoIndex)
    ensures
        r@ == i@,
    decreases i,
{
    match i {
        IntoIndex::Index(ix) => IntoIndex::Index(index_clone(ix)),
        IntoIndex::Expr(e) => IntoIndex::Expr(Box::new(expr_clone(&**e))),
    }
}

#[verifier::loop_isolation(false)]
pub fn reach_clone(r: &Reach) -> (res: Reach)
    ensures
        res@ == r@,
    decreases r,
{
    match r {
        Reach::ArrayLiteral(es) => {
            let mut out: Vec<Expr> = Vec::new();
            let mut k: usize = 0;
            while k < es.len()
                invariant
                    0 <= k <= es.len(),
                    out@.len() == k,
                    forall|j: int| 0 <= j < k ==> view_expr(out@[j]) == view_expr(es@[j]),
                decreases es.len() - k,
            {
                out.push(expr_clone(&es[k]));
                k = k + 1;
            }
            assert(view_exprs(out@) =~= view_exprs(es@));
            Reach::ArrayLiteral(out)
        },
        Reach::ObjectLiteral(ps) => {
            let mut out: Vec<(String, Expr)> = Vec::new();
            let mut k: usize = 0;
            while k < ps.len()
                invariant
                    0 <= k <= ps.len(),
                    out@.len() == k,
                    forall|j: int|
                        0 <= j < k ==> (#[trigger] out@[j]).0@ == ps@[j].0@ && view_expr(
                            out@[j].1,
                        ) == view_expr(ps@[j].1),
                decreases ps.len() - k,
            {
                let name = ps[k].0.clone();
                let e = expr_clone(&ps[k].1);
                out.push((name, e));
                k = k + 1;
            }
            assert(view_expr_pairs(out@) =~= view_expr_pairs(ps@));
            Reach::ObjectLiteral(out)
        },
        Reach::Value(v) => Reach::Value(value_clone(v)),
        Reach::Expr(e) => Reach::Expr(Box::new(expr_clone(&**e))),
        Reach::Named(s) => Reach::Named(s.clone()),
    }
}

pub fn expr_clone(e: &Expr) -> (r: Expr)
    ensures
        r@ == e@,
    decreases e,
{
    match e {
        Expr::Reach(r0) => Expr::Reach(reach_clone(r0)),
        Expr::Block(b) => Expr::Block(block_clone(b)),
        Expr::Index(r0, i) => Expr::Index(reach_clone(r0), into_index_clone(i)),
        Expr::Cmp(a, b) => Expr::Cmp(reach_clone(a), reach_clone(b)),
        Expr::Gt(a, b) => Expr::Gt(reach_clone(a), reach_clone(b)),
        Expr::Lt(a, b) => Expr::Lt(reach_clone(a), reach_clone(b)),
        Expr::Or(a, b) => Expr::Or(reach_clone(a), reach_clone(b)),
        Expr::And(a, b) => Expr::And(reach_clone(a), reach_clone(b)),
        Expr::Conditional { condition, if_true, if_false } => Expr::Conditional {
            condition: reach_clone(condition),
            if_true: reach_clone(if_true),
            if_false: reach_clone(if_false),
        },
        Expr::Add(a, b) => Expr::Add(reach_clone(a), reach_clone(b)),
        Expr::Sub(a, b) => Expr::Sub(reach_clone(a), reach_clone(b)),
        Expr::CallFn { f, args } => Expr::CallFn {
            f: reach_clone(f),
            args: match args {
                Option::Some(a) => Option::Some(reach_clone(a)),
                Option::None => Option::None,
            },
        },
    }
}

pub fn stmt_clone(s: &Statement) -> (r: Statement)
    ensures
        r@ == s@,
    decreases s,
{
    match s {
        Statement::ModifyVariable(n, e) => Statement::ModifyVariable(n.clone(), expr_clone(e)),
        Statement::SetVariable(n, e) => Statement::SetVariable(n.clone(), expr_clone(e)),
        Statement::Return(e) => Statement::Return(expr_clone(e)),
        Statement::Expr(e) => Statement::Expr(expr_clone(e)),
        Statement::Loop(b) => Statement::Loop(block_clone(b)),
        Statement::Break => Statement::Break,
        Statement::LoopFor { v_name, iter, block } => Statement::LoopFor {
            v_name: v_name.clone(),
            iter: expr_clone(iter),
            block: block_clone(block),
        },
        Statement::DumpContext => Statement::DumpContext,
        Statement::Pause => Statement::Pause,
    }
}

pub fn block_clone(b: &Block) -> (r: Block)
    ensures
        r@ == b@,
    decreases b,
{
    let mut out: Vec<Statement> = Vec::new();
    let mut k: usize = 0;
    while k < b.0.len()
        invariant
            0 <= k <= b.0.len(),
            out@.len() == k,
            forall|j: int| 0 <= j < k ==> view_stmt(out@[j]) == view_stmt(b.0@[j]),
        decreases b.0.len() - k,
    {
        out.push(stmt_clone(&b.0[k]));
        k = k + 1;
    }
    assert(view_stmts(out@) =~= view_stmts(b.0@));
    Block(out)
}

pub fn fn_clone(f: &Function) -> (r: Function)
    ensures
        r@ == f@,
    decreases f,
{
    Function {
        arg_name: match &f.arg_name {
            Option::Some(s) => Option::Some(s.clone()),
            Option::None => Option::None,
        },
        block: block_clone(&f.block),
    }
}

/// Deep-copies a vector of values.
#[verifier::loop_isolation(false)]
pub fn clone_value_vec(vs: &Vec<Value>) -> (r: Vec<Value>)
    ensures
        view_values(r@) == view_values(vs@),
{
    let mut out: Vec<Value> = Vec::new();
    let mut k: usize = 0;
    while k < vs.len()
        invariant
            0 <= k <= vs.len(),
            out@.len() == k,
            forall|j: int| 0 <= j < k ==> view_value(out@[j]) == view_value(vs@[j]),
        decreases vs.len() - k,
    {
        out.push(value_clone(&vs[k]));
        k = k + 1;
    }
    assert(view_values(out@) =~= view_values(vs@));
    out
}

#[verifier::loop_isolation(false)]
pub fn value_clone(v: &Value) -> (r: Value)
    ensures
        r@ == v@,
    decreases v,
{
    match v {
        Value::Bool(b) => Value::Bool(*b),
        Value::Int(n) => Value::Int(*n),
        Value::Str(s) => Value::Str(s.clone()),
        Value::Array(vs) => {
            let mut out: Vec<Value> = Vec::new();
            let mut k: usize = 0;
            while k < vs.len()
                invariant
                    0 <= k <= vs.len(),
                    out@.len() == k,
                    forall|j: int| 0 <= j < k ==> view_value(out@[j]) == view_value(vs@[j]),
                decreases vs.len() - k,
            {
                out.push(value_clone(&vs[k]));
                k = k + 1;
            }
            assert(view_values(out@) =~= view_values(vs@));
            Value::Array(out)
        },
        Value::Function(f) => Value::Function(fn_clone(f)),
        Value::Object(ps) => {
            let mut out: Vec<(String, Value)> = Vec::new();
            let mut k: usize = 0;
            while k < ps.len()
                invariant
                    0 <= k <= ps.len(),
                    out@.len() == k,
                    forall|j: int|
                        0 <= j < k ==> (#[trigger] out@[j]).0@ == ps@[j].0@ && view_value(
                            out@[j].1,
                        ) == view_value(ps@[j].1),
                decreases ps.len() - k,
            {
                let name = ps[k].0.clone();
                let val = value_clone(&ps[k].1);
                out.push((name, val));
                k = k + 1;
            }
            assert(view_value_pairs(out@) =~= view_value_pairs(ps@));
            Value::Object(out)
        },
        Value::Nil => Value::Nil,
    }
}

// ---------------------------------------------------------------------------
// Association lists
// ---------------------------------------------------------------------------

/// Looks a key up in an association list; the first entry with the key
/// wins (a frame or object never binds a key twice).
pub open spec fn sp_assoc_get<V>(s: Seq<(Seq<char>, V)>, k: Seq<char>) -> Option<V>
    decreases s.len(),
{
    if s.len() == 0 {
        Option::None
    } else if s[0].0 == k {
        Option::Some(s[0].1)
    } else {
        sp_assoc_get(s.drop_first(), k)
    }
}

/// Binds a key in an association list: replaces the entry with that key
/// in place, or appends a new entry at the end.
pub open spec fn sp_assoc_set<V>(s: Seq<(Seq<char>, V)>, k: Seq<char>, v: V) -> Seq<
    (Seq<char>, V),
>
    decreases s.len(),
{
    if s.len() == 0 {
        seq![(k, v)]
    } else if s[0].0 == k {
        seq![(k, v)] + s.drop_first()
    } else {
        seq![s[0]] + sp_assoc_set(s.drop_first(), k, v)
    }
}

pub broadcast proof fn lemma_assoc_set_get<V>(s: Seq<(Seq<char>, V)>, k: Seq<char>, v: V)
    ensures
        #[trigger] sp_assoc_get(sp_assoc_set(s, k, v), k) == Option::Some(v),
        sp_assoc_set(s, k, v).len() == if sp_assoc_get(s, k) is Some {
            s.len() as int
        } else {
            s.len() + 1int
        },
    decreases s.len(),
{
    if s.len() == 0 {
        assert(sp_assoc_set(s, k, v) == seq![(k, v)]);
    } else if s[0].0 == k {
        let s2 = seq![(k, v)] + s.drop_first();
        assert(sp_assoc_set(s, k, v) == s2);
        assert(s2[0] == (k, v));
    } else {
        lemma_assoc_set_get(s.drop_first(), k, v);
        let s2 = seq![s[0]] + sp_assoc_set(s.drop_first(), k, v);
        assert(sp_assoc_set(s, k, v) == s2);
        assert(s2[0] == s[0]);
        assert(s2.drop_first() =~= sp_assoc_set(s.drop_first(), k, v));
    }
}

// ---------------------------------------------------------------------------
// Value operations
// ---------------------------------------------------------------------------

/// Truthiness: `true` and any nonzero integer; everything else is false.
pub open spec fn sp_value_is_true(v: ValueM) -> bool {
    match v {
        ValueM::Bool(b) => b,
        ValueM::Int(n) => n != 0,
        _ => false,
    }
}

/// The key an index stringifies to: field names stay, numbers render in
/// decimal.
pub open spec fn sp_index_str(i: IndexM) -> Seq<char> {
    match i {
        IndexM::Ident(s) => s,
        IndexM::NumLit(n) => sp_i32_str(n),
    }
}

/// Indexing a tree value: objects by stringified key, arrays by position
/// (out of range or negative gives `Nil`); anything else has no index.
pub open spec fn sp_value_index(v: ValueM, i: IndexM) -> Option<ValueM> {
    match v {
        ValueM::Object(ps) => sp_assoc_get(ps, sp_index_str(i)),
        ValueM::Array(vs) => match i {
            IndexM::NumLit(n) => Option::Some(
                if 0 <= n < vs.len() {
                    vs[n as int]
                } else {
                    ValueM::Nil
                },
            ),
            _ => Option::None,
        },
        _ => Option::None,
    }
}

/// The addition table: integers add (wrapping), strings and arrays
/// concatenate, `Nil` is the identity on either side; all else is an error.
pub open spec fn sp_value_add(a: ValueM, b: ValueM) -> Option<ValueM> {
    match (a, b) {
        (ValueM::Int(x), ValueM::Int(y)) => Option::Some(ValueM::Int(x.wrapping_add(y))),
        (ValueM::Str(x), ValueM::Str(y)) => Option::Some(ValueM::Str(x + y)),
        (ValueM::Array(x), ValueM::Array(y)) => Option::Some(ValueM::Array(x + y)),
        (x, ValueM::Nil) => Option::Some(x),
        (ValueM::Nil, y) => Option::Some(y),
        _ => Option::None,
    }
}

/// The subtraction table: integers subtract (wrapping); `Nil` on the left
/// acts as zero, on the right as identity; all else is an error.
pub open spec fn sp_value_sub(a: ValueM, b: ValueM) -> Option<ValueM> {
    match (a, b) {
        (ValueM::Int(x), ValueM::Int(y)) => Option::Some(ValueM::Int(x.wrapping_sub(y))),
        (ValueM::Nil, ValueM::Int(y)) => Option::Some(ValueM::Int((0i32).wrapping_sub(y))),
        (ValueM::Nil, ValueM::Nil) => Option::Some(ValueM::Int(0)),
        (ValueM::Nil, _) => Option::None,
        (x, ValueM::Nil) => Option::Some(x),
        _ => Option::None,
    }
}

/// Greater-than: integer comparison; `Nil` is below everything but itself.
pub open spec fn sp_value_gt(a: ValueM, b: ValueM) -> Option<ValueM> {
    match (a, b) {
        (ValueM::Int(x), ValueM::Int(y)) => Option::Some(ValueM::Bool(x > y)),
        (ValueM::Nil, _) => Option::Some(ValueM::Bool(false)),
        (_, ValueM::Nil) => Option::Some(ValueM::Bool(true)),
        _ => Option::None,
    }
}

/// Less-than: integer comparison; `Nil` is below everything but itself.
pub open spec fn sp_value_lt(a: ValueM, b: ValueM) -> Option<ValueM> {
    match (a, b) {
        (ValueM::Int(x), ValueM::Int(y)) => Option::Some(ValueM::Bool(x < y)),
        (ValueM::Nil, ValueM::Nil) => Option::Some(ValueM::Bool(false)),
        (ValueM::Nil, _) => Option::Some(ValueM::Bool(true)),
        (_, ValueM::Nil) => Option::Some(ValueM::Bool(false)),
        _ => Option::None,
    }
}

/// Structural equality of tree values; objects compare as maps (every key
/// of one side is bound on the other to an equal value, and sizes agree).
pub open spec fn sp_value_eq(a: ValueM, b: ValueM) -> bool
    decreases a,
{
    match (a, b) {
        (ValueM::Bool(x), ValueM::Bool(y)) => x == y,
        (ValueM::Int(x), ValueM::Int(y)) => x == y,
        (ValueM::Str(x), ValueM::Str(y)) => x == y,
        (ValueM::Array(x), ValueM::Array(y)) => x.len() == y.len() && sp_values_eq(x, y),
        (ValueM::Function(f), ValueM::Function(g)) => f == g,
        (ValueM::Object(x), ValueM::Object(y)) => x.len() == y.len() && sp_value_entries_eq(x, y),
        (ValueM::Nil, ValueM::Nil) => true,
        _ => false,
    }
}

pub open spec fn sp_values_eq(x: Seq<ValueM>, y: Seq<ValueM>) -> bool
    decreases x,
{
    if x.len() == 0 || y.len() == 0 {
        x.len() == 0 && y.len() == 0
    } else {
        sp_value_eq(x[0], y[0]) && sp_values_eq(x.drop_first(), y.drop_first())
    }
}

/// Does the entry have a matching binding (same key, equal value) in `y`?
pub open spec fn sp_entry_matches(y: Seq<(Seq<char>, ValueM)>, e: (Seq<char>, ValueM)) -> bool
    decreases e,
{
    match sp_assoc_get(y, e.0) {
        Option::Some(v2) => sp_value_eq(e.1, v2),
        Option::None => false,
    }
}

pub open spec fn sp_value_entries_eq(
    x: Seq<(Seq<char>, ValueM)>,
    y: Seq<(Seq<char>, ValueM)>,
) -> bool
    decreases x,
{
    if x.len() == 0 {
        true
    } else {
        sp_entry_matches(y, x[0]) && sp_value_entries_eq(x.drop_first(), y)
    }
}

pub open spec fn view_opt_value(o: Option<Value>) -> Option<ValueM> {
    match o {
        Option::Some(v) => Option::Some(view_value(v)),
        Option::None => Option::None,
    }
}

impl Index {
    /// The key this index denotes: the name, or the number in decimal.
    pub fn into_str(self) -> (r: String)
        ensures
            r@ == sp_index_str(self@),
    {
        match self {
            Index::Ident(name) => name,
            Index::NumLit(num) => i32_to_string(num),
        }
    }
}

/// Looks a key up in an association list of values, latest entry first.
pub fn assoc_get_value<'a>(ps: &'a Vec<(String, Value)>, k: &str) -> (r: Option<&'a Value>)
    ensures
        match r {
            Option::Some(v) => sp_assoc_get(view_value_pairs(ps@), k@) == Option::Some(v@),
            Option::None => sp_assoc_get(view_value_pairs(ps@), k@) is None,
        },
{
    proof {
        lemma_view_value_pairs_len(ps@);
        assert(view_value_pairs(ps@).skip(0int) =~= view_value_pairs(ps@));
    }
    let mut i: usize = 0;
    while i < ps.len()
        invariant
            0 <= i <= ps.len(),
            sp_assoc_get(view_value_pairs(ps@), k@) == sp_assoc_get(
                view_value_pairs(ps@).skip(i as int),
                k@,
            ),
        decreases ps.len() - i,
    {
        proof {
            lemma_view_value_pairs_len(ps@);
            lemma_view_value_pairs_index(ps@, i as int);
            assert(view_value_pairs(ps@).skip(i as int)[0] == view_value_pairs(ps@)[i as int]);
            assert(view_value_pairs(ps@).skip(i as int).drop_first() =~= view_value_pairs(
                ps@,
            ).skip(i + 1));
        }
        if crate::num::str_eq(ps[i].0.as_str(), k) {
            return Option::Some(&ps[i].1);
        }
        i = i + 1;
    }
    assert(view_value_pairs(ps@).skip(ps@.len() as int) =~= Seq::<(Seq<char>, ValueM)>::empty());
    Option::None
}

impl Value {
    /// Truthiness test: `true`, or a nonzero integer.
    pub fn is_true(&self) -> (r: bool)
        ensures
            r == sp_value_is_true(self@),
    {
        match self {
            Value::Bool(b) => *b,
            Value::Int(n) => *n != 0,
            _ => false,
        }
    }

    /// Indexes the value, as the indexing table states.
    pub fn index(&self, i: &Index) -> (r: Option<Value>)
        ensures
            view_opt_value(r) == sp_value_index(self@, i@),
    {
        match (self, i) {
            (Value::Object(ps), i) => {
                let key = index_clone(i).into_str();
                match assoc_get_value(ps, key.as_str()) {
                    Option::Some(v) => Option::Some(value_clone(v)),
                    Option::None => Option::None,
                }
            },
            (Value::Array(vs), Index::NumLit(n)) => {
                proof {
                    lemma_view_values_len(vs@);
                }
                if *n >= 0 && (*n as usize) < vs.len() {
                    proof {
                        lemma_view_values_index(vs@, *n as int);
                    }
                    Option::Some(value_clone(&vs[*n as usize]))
                } else {
                    Option::Some(Value::Nil)
                }
            },
            _ => Option::None,
        }
    }

    /// Adds two values, as the addition table states.
    pub fn add(&self, rhs: &Value) -> (r: Option<Value>)
        ensures
            view_opt_value(r) == sp_value_add(self@, rhs@),
    {
        match (self, rhs) {
            (Value::Int(a), Value::Int(b)) => Option::Some(Value::Int(a.wrapping_add(*b))),
            (Value::Str(a), Value::Str(b)) => {
                let joined = a.clone().concat(b.as_str());
                Option::Some(Value::Str(joined))
            },
            (Value::Array(a), Value::Array(b)) => {
                let mut xs = clone_value_vec(a);
                let mut ys = clone_value_vec(b);
                let ghost xs0 = xs@;
                let ghost ys0 = ys@;
                xs.append(&mut ys);
                proof {
                    lemma_view_values_concat(xs0, ys0);
                    assert(xs@ == xs0 + ys0);
                }
                Option::Some(Value::Array(xs))
            },
            (x, Value::Nil) => Option::Some(value_clone(x)),
            (Value::Nil, y) => Option::Some(value_clone(y)),
            _ => Option::None,
        }
    }

    /// Subtracts two values, as the subtraction table states.
    pub fn sub(&self, rhs: &Value) -> (r: Option<Value>)
        ensures
            view_opt_value(r) == sp_value_sub(self@, rhs@),
    {
        match (self, rhs) {
            (Value::Int(a), Value::Int(b)) => Option::Some(Value::Int(a.wrapping_sub(*b))),
            (Value::Nil, Value::Int(b)) => Option::Some(Value::Int((0i32).wrapping_sub(*b))),
            (Value::Nil, Value::Nil) => Option::Some(Value::Int(0)),
            (Value::Nil, _) => Option::None,
            (x, Value::Nil) => Option::Some(value_clone(x)),
            _ => Option::None,
        }
    }

    /// Greater-than on values, as the comparison table states.
    pub fn gt(&self, rhs: &Value) -> (r: Option<Value>)
        ensures
            view_opt_value(r) == sp_value_gt(self@, rhs@),
    {
        match (self, rhs) {
            (Value::Int(a), Value::Int(b)) => Option::Some(Value::Bool(*a > *b)),
            (Value::Nil, _) => Option::Some(Value::Bool(false)),
            (_, Value::Nil) => Option::Some(Value::Bool(true)),
            _ => Option::None,
        }
    }

    /// Less-than on values, as the comparison table states.
    pub fn lt(&self, rhs: &Value) -> (r: Option<Value>)
        ensures
            view_opt_value(r) == sp_value_lt(self@, rhs@),
    {
        match (self, rhs) {
            (Value::Int(a), Value::Int(b)) => Option::Some(Value::Bool(*a < *b)),
            (Value::Nil, Value::Nil) => Option::Some(Value::Bool(false)),
            (Value::Nil, _) => Option::Some(Value::Bool(true)),
            (_, Value::Nil) => Option::Some(Value::Bool(false)),
            _ => Option::None,
        }
    }

    /// Structural equality, with objects compared as maps.
    #[verifier::loop_isolation(false)]
    pub fn custom_eq(&self, rhs: &Value) -> (r: bool)
        ensures
            r == sp_value_eq(self@, rhs@),
        decreases self,
    {
        match (self, rhs) {
            (Value::Bool(a), Value::Bool(b)) => *a == *b,
            (Value::Int(a), Value::Int(b)) => *a == *b,
            (Value::Str(a), Value::Str(b)) => crate::num::str_eq(a.as_str(), b.as_str()),
            (Value::Array(xs), Value::Array(ys)) => {
                proof {
                    lemma_view_values_len(xs@);
                    lemma_view_values_len(ys@);
                    lemma_values_eq_pointwise(view_values(xs@), view_values(ys@));
                }
                if xs.len() != ys.len() {
                    return false;
                }
                let mut k: usize = 0;
                while k < xs.len()
                    invariant
                        0 <= k <= xs@.len(),
                        xs@.len() == ys@.len(),
                        forall|j: int|
                            0 <= j < k ==> sp_value_eq(
                                view_values(xs@)[j],
                                #[trigger] view_values(ys@)[j],
                            ),
                    decreases xs@.len() - k,
                {
                    if !xs[k].custom_eq(&ys[k]) {
                        proof {
                            lemma_view_values_index(xs@, k as int);
                            lemma_view_values_index(ys@, k as int);
                        }
                        return false;
                    }
                    proof {
                        lemma_view_values_index(xs@, k as int);
                        lemma_view_values_index(ys@, k as int);
                    }
                    k = k + 1;
                }
                true
            },
            (Value::Function(f), Value::Function(g)) => fn_eq(f, g),
            (Value::Object(xs), Value::Object(ys)) => {
                proof {
                    lemma_view_value_pairs_len(xs@);
                    lemma_view_value_pairs_len(ys@);
                    lemma_value_entries_eq_pointwise(view_value_pairs(xs@), view_value_pairs(ys@));
                }
                if xs.len() != ys.len() {
                    return false;
                }
                let mut k: usize = 0;
                while k < xs.len()
                    invariant
                        0 <= k <= xs@.len(),
                        xs@.len() == ys@.len(),
                        forall|j: int|
                            0 <= j < k ==> (match sp_assoc_get(
                                view_value_pairs(ys@),
                                (#[trigger] view_value_pairs(xs@)[j]).0,
                            ) {
                                Option::Some(v2) => sp_value_eq(view_value_pairs(xs@)[j].1, v2),
                                Option::None => false,
                            }),
                    decreases xs@.len() - k,
                {
                    proof {
                        lemma_view_value_pairs_index(xs@, k as int);
                    }
                    match assoc_get_value(ys, xs[k].0.as_str()) {
                        Option::Some(v2) => {
                            if !xs[k].1.custom_eq(v2) {
                                return false;
                            }
                        },
                        Option::None => {
                            return false;
                        },
                    }
                    k = k + 1;
                }
                true
            },
            (Value::Nil, Value::Nil) => true,
            _ => false,
        }
    }
}

/// Structural equality of two function literals.
pub fn fn_eq(f: &Function, g: &Function) -> (r: bool)
    ensures
        r == (f@ == g@),
    decreases f,
{
    let names_eq = match (&f.arg_name, &g.arg_name) {
        (Option::Some(a), Option::Some(b)) => crate::num::str_eq(a.as_str(), b.as_str()),
        (Option::None, Option::None) => true,
        _ => false,
    };
    if !names_eq {
        return false;
    }
    let r = blocks_eq(&f.block, &g.block);
    proof {
        if r {
            assert(f@ =~= g@) by {
                assert(view_opt_name(f.arg_name) == view_opt_name(g.arg_name));
            }
        }
    }
    r
}

/// Structural equality of two blocks.
fn blocks_eq(a: &Block, b: &Block) -> (r: bool)
    ensures
        r == (a@ == b@),
    decreases a,
{
    stmt_seq_eq(&a.0, &b.0)
}

#[verifier::loop_isolation(false)]
fn stmt_seq_eq(a: &Vec<Statement>, b: &Vec<Statement>) -> (r: bool)
    ensures
        r == (view_stmts(a@) == view_stmts(b@)),
    decreases a,
{
    proof {
        lemma_view_stmts_len(a@);
        lemma_view_stmts_len(b@);
    }
    if a.len() != b.len() {
        return false;
    }
    let mut k: usize = 0;
    while k < a.len()
        invariant
            0 <= k <= a@.len(),
            a@.len() == b@.len(),
            forall|j: int| 0 <= j < k ==> view_stmt(a@[j]) == view_stmt(#[trigger] b@[j]),
        decreases a@.len() - k,
    {
        if !stmts_structural_eq(&a[k], &b[k]) {
            proof {
                lemma_view_stmts_index(a@, k as int);
                lemma_view_stmts_index(b@, k as int);
            }
            return false;
        }
        k = k + 1;
    }
    assert(view_stmts(a@) =~= view_stmts(b@));
    true
}

fn exprs_structural_eq(a: &Expr, b: &Expr) -> (r: bool)
    ensures
        r == (a@ == b@),
    decreases a,
{
    match (a, b) {
        (Expr::Reach(x), Expr::Reach(y)) => reaches_structural_eq(x, y),
        (Expr::Block(x), Expr::Block(y)) => blocks_eq(x, y),
        (Expr::Index(x, i), Expr::Index(y, j)) => {
            let rs = reaches_structural_eq(x, y);
            if !rs {
                return false;
            }
            match (i, j) {
                (IntoIndex::Index(Index::Ident(p)), IntoIndex::Index(Index::Ident(q))) => {
                    crate::num::str_eq(p.as_str(), q.as_str())
                },
                (IntoIndex::Index(Index::NumLit(p)), IntoIndex::Index(Index::NumLit(q))) => *p
                    == *q,
                (IntoIndex::Expr(p), IntoIndex::Expr(q)) => exprs_structural_eq(&**p, &**q),
                _ => false,
            }
        },
        (Expr::Cmp(x1, x2), Expr::Cmp(y1, y2)) => reaches_structural_eq(x1, y1)
            && reaches_structural_eq(x2, y2),
        (Expr::Gt(x1, x2), Expr::Gt(y1, y2)) => reaches_structural_eq(x1, y1)
            && reaches_structural_eq(x2, y2),
        (Expr::Lt(x1, x2), Expr::Lt(y1, y2)) => reaches_structural_eq(x1, y1)
            && reaches_structural_eq(x2, y2),
        (Expr::Or(x1, x2), Expr::Or(y1, y2)) => reaches_structural_eq(x1, y1)
            && reaches_structural_eq(x2, y2),
        (Expr::And(x1, x2), Expr::And(y1, y2)) => reaches_structural_eq(x1, y1)
            && reaches_structural_eq(x2, y2),
        (
            Expr::Conditional { condition: c1, if_true: t1, if_false: f1 },
            Expr::Conditional { condition: c2, if_true: t2, if_false: f2 },
        ) => reaches_structural_eq(c1, c2) && reaches_structural_eq(t1, t2)
            && reaches_structural_eq(f1, f2),
        (Expr::Add(x1, x2), Expr::Add(y1, y2)) => reaches_structural_eq(x1, y1)
            && reaches_structural_eq(x2, y2),
        (Expr::Sub(x1, x2), Expr::Sub(y1, y2)) => reaches_structural_eq(x1, y1)
            && reaches_structural_eq(x2, y2),
        (Expr::CallFn { f: f1, args: a1 }, Expr::CallFn { f: f2, args: a2 }) => {
            let fs = reaches_structural_eq(f1, f2);
            if !fs {
                return false;
            }
            match (a1, a2) {
                (Option::Some(x), Option::Some(y)) => reaches_structural_eq(x, y),
                (Option::None, Option::None) => true,
                _ => false,
            }
        },
        _ => false,
    }
}

fn stmts_structural_eq(a: &Statement, b: &Statement) -> (r: bool)
    ensures
        r == (a@ == b@),
    decreases a,
{
    match (a, b) {
        (Statement::ModifyVariable(n1, e1), Statement::ModifyVariable(n2, e2)) => {
            crate::num::str_eq(n1.as_str(), n2.as_str()) && exprs_structural_eq(e1, e2)
        },
        (Statement::SetVariable(n1, e1), Statement::SetVariable(n2, e2)) => {
            crate::num::str_eq(n1.as_str(), n2.as_str()) && exprs_structural_eq(e1, e2)
        },
        (Statement::Return(e1), Statement::Return(e2)) => exprs_structural_eq(e1, e2),
        (Statement::Expr(e1), Statement::Expr(e2)) => exprs_structural_eq(e1, e2),
        (Statement::Loop(b1), Statement::Loop(b2)) => blocks_eq(b1, b2),
        (Statement::Break, Statement::Break) => true,
        (
            Statement::LoopFor { v_name: n1, iter: i1, block: b1 },
            Statement::LoopFor { v_name: n2, iter: i2, block: b2 },
        ) => crate::num::str_eq(n1.as_str(), n2.as_str()) && exprs_structural_eq(i1, i2)
            && blocks_eq(b1, b2),
        (Statement::DumpContext, Statement::DumpContext) => true,
        (Statement::Pause, Statement::Pause) => true,
        _ => false,
    }
}

#[verifier::loop_isolation(false)]
fn reaches_structural_eq(a: &Reach, b: &Reach) -> (r: bool)
    ensures
        r == (a@ == b@),
    decreases a,
{
    match (a, b) {
        (Reach::ArrayLiteral(xs), Reach::ArrayLiteral(ys)) => {
            proof {
                lemma_view_exprs_len(xs@);
                lemma_view_exprs_len(ys@);
            }
            if xs.len() != ys.len() {
                return false;
            }
            let mut k: usize = 0;
            while k < xs.len()
                invariant
                    0 <= k <= xs@.len(),
                    xs@.len() == ys@.len(),
                    forall|j: int| 0 <= j < k ==> view_expr(xs@[j]) == view_expr(#[trigger] ys@[j]),
                decreases xs@.len() - k,
            {
                if !exprs_structural_eq(&xs[k], &ys[k]) {
                    proof {
                        lemma_view_exprs_index(xs@, k as int);
                        lemma_view_exprs_index(ys@, k as int);
                    }
                    return false;
                }
                k = k + 1;
            }
            assert(view_exprs(xs@) =~= view_exprs(ys@));
            true
        },
        (Reach::ObjectLiteral(xs), Reach::ObjectLiteral(ys)) => {
            proof {
                lemma_view_expr_pairs_len(xs@);
                lemma_view_expr_pairs_len(ys@);
            }
            if xs.len() != ys.len() {
                return false;
            }
            let mut k: usize = 0;
            while k < xs.len()
                invariant
                    0 <= k <= xs@.len(),
                    xs@.len() == ys@.len(),
                    forall|j: int|
                        0 <= j < k ==> (#[trigger] xs@[j]).0@ == ys@[j].0@ && view_expr(xs@[j].1)
                            == view_expr(ys@[j].1),
                decreases xs@.len() - k,
            {
                proof {
                    lemma_view_expr_pairs_index(xs@, k as int);
                    lemma_view_expr_pairs_index(ys@, k as int);
                }
                if !crate::num::str_eq(xs[k].0.as_str(), ys[k].0.as_str()) {
                    return false;
                }
                if !exprs_structural_eq(&xs[k].1, &ys[k].1) {
                    return false;
                }
                k = k + 1;
            }
            assert(view_expr_pairs(xs@) =~= view_expr_pairs(ys@));
            true
        },
        (Reach::Value(x), Reach::Value(y)) => values_structural_eq(x, y),
        (Reach::Expr(x), Reach::Expr(y)) => exprs_structural_eq(&**x, &**y),
        (Reach::Named(x), Reach::Named(y)) => crate::num::str_eq(x.as_str(), y.as_str()),
        _ => false,
    }
}

/// Structural equality of tree values, order of object entries included.
#[verifier::loop_isolation(false)]
fn values_structural_eq(a: &Value, b: &Value) -> (r: bool)
    ensures
        r == (a@ == b@),
    decreases a,
{
    match (a, b) {
        (Value::Bool(x), Value::Bool(y)) => *x == *y,
        (Value::Int(x), Value::Int(y)) => *x == *y,
        (Value::Str(x), Value::Str(y)) => crate::num::str_eq(x.as_str(), y.as_str()),
        (Value::Array(xs), Value::Array(ys)) => {
            proof {
                lemma_view_values_len(xs@);
                lemma_view_values_len(ys@);
            }
            if xs.len() != ys.len() {
                return false;
            }
            let mut k: usize = 0;
            while k < xs.len()
                invariant
                    0 <= k <= xs@.len(),
                    xs@.len() == ys@.len(),
                    forall|j: int|
                        0 <= j < k ==> view_value(xs@[j]) == view_value(#[trigger] ys@[j]),
                decreases xs@.len() - k,
            {
                if !values_structural_eq(&xs[k], &ys[k]) {
                    proof {
                        lemma_view_values_index(xs@, k as int);
                        lemma_view_values_index(ys@, k as int);
                    }
                    return false;
                }
                k = k + 1;
            }
            assert(view_values(xs@) =~= view_values(ys@));
            true
        },
        (Value::Function(f), Value::Function(g)) => fn_eq(f, g),
        (Value::Object(xs), Value::Object(ys)) => {
            proof {
                lemma_view_value_pairs_len(xs@);
                lemma_view_value_pairs_len(ys@);
            }
            if xs.len() != ys.len() {
                return false;
            }
            let mut k: usize = 0;
            while k < xs.len()
                invariant
                    0 <= k <= xs@.len(),
                    xs@.len() == ys@.len(),
                    forall|j: int|
                        0 <= j < k ==> (#[trigger] xs@[j]).0@ == ys@[j].0@ && view_value(xs@[j].1)
                            == view_value(ys@[j].1),
                decreases xs@.len() - k,
            {
                proof {
                    lemma_view_value_pairs_index(xs@, k as int);
                    lemma_view_value_pairs_index(ys@, k as int);
                }
                if !crate::num::str_eq(xs[k].0.as_str(), ys[k].0.as_str()) {
                    return false;
                }
                if !values_structural_eq(&xs[k].1, &ys[k].1) {
                    return false;
                }
                k = k + 1;
            }
            assert(view_value_pairs(xs@) =~= view_value_pairs(ys@));
            true
        },
        (Value::Nil, Value::Nil) => true,
        _ => false,
    }
}

pub proof fn lemma_values_eq_pointwise(x: Seq<ValueM>, y: Seq<ValueM>)
    ensures
        sp_values_eq(x, y) == (x.len() == y.len() && forall|i: int|
            0 <= i < x.len() ==> sp_value_eq(x[i], #[trigger] y[i])),
    decreases x.len(),
{
    if x.len() > 0 && y.len() > 0 {
        lemma_values_eq_pointwise(x.drop_first(), y.drop_first());
        if sp_values_eq(x, y) {
            assert forall|i: int| 0 <= i < x.len() implies sp_value_eq(x[i], #[trigger] y[i]) by {
                if i > 0 {
                    assert(x.drop_first()[i - 1] == x[i]);
                    assert(y.drop_first()[i - 1] == y[i]);
                    assert(sp_value_eq(x.drop_first()[i - 1], y.drop_first()[i - 1]));
                }
            }
        }
        if x.len() == y.len() && (forall|i: int|
            0 <= i < x.len() ==> sp_value_eq(x[i], #[trigger] y[i])) {
            assert forall|i: int|
                0 <= i < x.drop_first().len() implies sp_value_eq(
                x.drop_first()[i],
                #[trigger] y.drop_first()[i],
            ) by {
                assert(x.drop_first()[i] == x[i + 1]);
                assert(y.drop_first()[i] == y[i + 1]);
                assert(sp_value_eq(x[i + 1], y[i + 1]));
            }
            assert(sp_values_eq(x.drop_first(), y.drop_first()));
            assert(sp_value_eq(x[0], y[0]));
        }
    }
}

pub proof fn lemma_value_entries_eq_pointwise(
    x: Seq<(Seq<char>, ValueM)>,
    y: Seq<(Seq<char>, ValueM)>,
)
    ensures
        sp_value_entries_eq(x, y) == (forall|i: int|
            0 <= i < x.len() ==> sp_entry_matches(y, #[trigger] x[i])),
    decreases x.len(),
{
    if x.len() > 0 {
        lemma_value_entries_eq_pointwise(x.drop_first(), y);
        if sp_value_entries_eq(x, y) {
            assert forall|i: int| 0 <= i < x.len() implies sp_entry_matches(y, #[trigger] x[i]) by {
                if i > 0 {
                    assert(x.drop_first()[i - 1] == x[i]);
                    assert(sp_entry_matches(y, x.drop_first()[i - 1]));
                }
            }
        }
        if forall|i: int| 0 <= i < x.len() ==> sp_entry_matches(y, #[trigger] x[i]) {
            assert forall|i: int|
                0 <= i < x.drop_first().len() implies sp_entry_matches(
                y,
                #[trigger] x.drop_first()[i],
            ) by {
                assert(x.drop_first()[i] == x[i + 1]);
                assert(sp_entry_matches(y, x[i + 1]));
            }
            assert(sp_value_entries_eq(x.drop_first(), y));
            assert(sp_entry_matches(y, x[0]));
        }
    }
}

pub proof fn lemma_view_values_concat(a: Seq<Value>, b: Seq<Value>)
    ensures
        view_values(a + b) == view_values(a) + view_values(b),
    decreases a.len(),
{
    lemma_view_values_len(a + b);
    lemma_view_values_len(a);
    lemma_view_values_len(b);
    assert(view_values(a + b) =~= view_values(a) + view_values(b));
}

} // verus!

//! The functional semantics of the language: a fuel-bounded big-step
//! evaluator over the mathematical models, which the executable
//! interpreter is proved to follow.
//!
//! The machine state is the arena of scope frames; an environment is a
//! list of frame ids, newest last. Every evaluation step costs one unit
//! of fuel; running out of fuel is the distinguished error `OutOfFuel`.
//! A call into a host callable makes everything after it unknown: the
//! outcome `Host` says so, and the interpreter's contracts promise
//! nothing past that point.
use vstd::prelude::*;

use crate::lang::{ExprM, FnM, IndexM, IntoIndexM, ReachM, StmtM, ValueM};
use crate::ops::{sp_assoc_get, sp_assoc_set};
use crate::values::{
    IValueM, sp_ivalue_add, sp_ivalue_eq, sp_ivalue_gt, sp_ivalue_index, sp_ivalue_is_true,
    sp_ivalue_lt, sp_ivalue_sub,
};

verus! {

/// One scope frame: bindings from name to runtime value, newest binding
/// of a name last.
pub type FrameM = Seq<(Seq<char>, IValueM)>;

/// The arena of all frames the machine has created.
pub type StM = Seq<FrameM>;

/// Whether a failed variable access was a read or an assignment.
pub enum AccessKindM {
    Access,
    Modify,
}

/// Model of the interpreter's runtime errors.
pub enum ErrM {
    Runtime(Seq<char>),
    VariableDoesntExist(Seq<char>, AccessKindM),
    InvalidAddition { a: IValueM, b: IValueM },
    InvalidSubtraction { a: IValueM, b: IValueM },
    InvalidGt { a: IValueM, b: IValueM },
    InvalidLt { a: IValueM, b: IValueM },
    InvalidIndex { a: IValueM, i: IndexM },
    NotAFunction(IValueM),
    MissingArg(Seq<char>),
    InvalidExprFromIntoIndex(IValueM),
    Break,
    ForNotAnObject(IValueM),
    ForNotAnIterator(IValueM),
    ForNextIsntAClosure(IValueM),
    OutOfFuel,
}

/// Outcome of evaluating one construct.
pub enum OutM {
    Val(IValueM),
    Fail(ErrM),
    /// A host callable was invoked: what follows depends on the host.
    Host,
}

/// Outcome of evaluating a list of expressions.
pub enum ListOutM {
    Vals(Seq<IValueM>),
    Fail(ErrM),
    Host,
}

/// Outcome of evaluating an object literal's entries.
pub enum ObjOutM {
    Entries(FrameM),
    Fail(ErrM),
    Host,
}

/// Outcome of resolving an index position.
pub enum IdxOutM {
    Idx(IndexM),
    Fail(ErrM),
    Host,
}

// ---------------------------------------------------------------------------
// The environment
// ---------------------------------------------------------------------------

/// Reads a variable, walking the environment newest frame first. A frame
/// id outside the arena binds nothing.
pub open spec fn sp_get_var(st: StM, env: Seq<usize>, name: Seq<char>) -> Option<IValueM>
    decreases env.len(),
{
    if env.len() == 0 {
        Option::None
    } else {
        let id = env.last();
        if (id as nat) < st.len() {
            match sp_assoc_get(st[id as int], name) {
                Option::Some(v) => Option::Some(v),
                Option::None => sp_get_var(st, env.drop_last(), name),
            }
        } else {
            sp_get_var(st, env.drop_last(), name)
        }
    }
}

/// Assigns to the innermost frame that already binds the name; yields the
/// new arena and the previous value, or nothing when the name is unbound.
pub open spec fn sp_modify_var(st: StM, env: Seq<usize>, name: Seq<char>, v: IValueM) -> (
    StM,
    Option<IValueM>,
)
    decreases env.len(),
{
    if env.len() == 0 {
        (st, Option::None)
    } else {
        let id = env.last();
        if (id as nat) < st.len() && sp_assoc_get(st[id as int], name) is Some {
            (
                st.update(id as int, sp_assoc_set(st[id as int], name, v)),
                sp_assoc_get(st[id as int], name),
            )
        } else {
            sp_modify_var(st, env.drop_last(), name, v)
        }
    }
}

/// Declares a binding in the newest frame of the environment. An
/// environment that names no frame of the arena leaves it unchanged.
pub open spec fn sp_set_var(st: StM, env: Seq<usize>, name: Seq<char>, v: IValueM) -> StM {
    if env.len() > 0 && (env.last() as nat) < st.len() {
        st.update(env.last() as int, sp_assoc_set(st[env.last() as int], name, v))
    } else {
        st
    }
}

/// Pushes a window: a fresh empty frame in the arena, appended to the
/// environment.
pub open spec fn sp_push(st: StM, env: Seq<usize>) -> (StM, Seq<usize>) {
    (st.push(Seq::empty()), env.push(st.len() as usize))
}

// ---------------------------------------------------------------------------
// Promoting tree values to runtime values
// ---------------------------------------------------------------------------

/// Converts a tree value into a runtime value: arrays and objects convert
/// element-wise, and a function literal becomes a closure over a window
/// pushed on the current environment.
pub open spec fn sp_from_safe(st: StM, env: Seq<usize>, v: ValueM) -> (StM, IValueM)
    decreases v,
{
    match v {
        ValueM::Array(vs) => {
            let (st2, rs) = sp_from_safe_seq(st, env, vs);
            (st2, IValueM::Array(rs))
        },
        ValueM::Object(ps) => {
            let (st2, rs) = sp_from_safe_pairs(st, env, ps);
            (st2, IValueM::Object(rs))
        },
        ValueM::Function(f) => {
            let (st2, env2) = sp_push(st, env);
            (st2, IValueM::Closure(env2, f))
        },
        rest => (st, IValueM::Value(rest)),
    }
}

pub open spec fn sp_from_safe_seq(st: StM, env: Seq<usize>, vs: Seq<ValueM>) -> (
    StM,
    Seq<IValueM>,
)
    decreases vs,
{
    if vs.len() == 0 {
        (st, Seq::empty())
    } else {
        let (st1, r0) = sp_from_safe(st, env, vs[0]);
        let (st2, rest) = sp_from_safe_seq(st1, env, vs.drop_first());
        (st2, seq![r0] + rest)
    }
}

pub open spec fn sp_from_safe_pairs(st: StM, env: Seq<usize>, ps: Seq<(Seq<char>, ValueM)>) -> (
    StM,
    Seq<(Seq<char>, IValueM)>,
)
    decreases ps,
{
    if ps.len() == 0 {
        (st, Seq::empty())
    } else {
        let (st1, r0) = sp_from_safe(st, env, ps[0].1);
        let (st2, rest) = sp_from_safe_pairs(st1, env, ps.drop_first());
        (st2, seq![(ps[0].0, r0)] + rest)
    }
}

// ---------------------------------------------------------------------------
// Evaluation
// ---------------------------------------------------------------------------

/// Evaluates a reach: where a value comes from.
pub open spec fn sp_reach(st: StM, env: Seq<usize>, r: ReachM, fuel: nat) -> (StM, OutM)
    decreases fuel, 1int,
{
    if fuel == 0 {
        (st, OutM::Fail(ErrM::OutOfFuel))
    } else {
        match r {
            ReachM::Value(v) => {
                let (st2, rv) = sp_from_safe(st, env, v);
                (st2, OutM::Val(rv))
            },
            ReachM::Expr(e) => sp_expr(st, env, *e, (fuel - 1) as nat),
            ReachM::Named(n) => match sp_get_var(st, env, n) {
                Option::Some(v) => (st, OutM::Val(v)),
                Option::None => (
                    st,
                    OutM::Fail(ErrM::VariableDoesntExist(n, AccessKindM::Access)),
                ),
            },
            ReachM::ArrayLiteral(es) => match sp_eval_list(st, env, es, (fuel - 1) as nat) {
                (st2, ListOutM::Vals(vs)) => (st2, OutM::Val(IValueM::Array(vs))),
                (st2, ListOutM::Fail(e)) => (st2, OutM::Fail(e)),
                (st2, ListOutM::Host) => (st2, OutM::Host),
            },
            ReachM::ObjectLiteral(ps) => match sp_eval_obj(
                st,
                env,
                ps,
                Seq::empty(),
                (fuel - 1) as nat,
            ) {
                (st2, ObjOutM::Entries(entries)) => (st2, OutM::Val(IValueM::Object(entries))),
                (st2, ObjOutM::Fail(e)) => (st2, OutM::Fail(e)),
                (st2, ObjOutM::Host) => (st2, OutM::Host),
            },
        }
    }
}

/// Evaluates the expressions of an array literal, left to right.
pub open spec fn sp_eval_list(st: StM, env: Seq<usize>, es: Seq<ExprM>, fuel: nat) -> (
    StM,
    ListOutM,
)
    decreases fuel, 1int,
{
    if fuel == 0 {
        (st, ListOutM::Fail(ErrM::OutOfFuel))
    } else if es.len() == 0 {
        (st, ListOutM::Vals(Seq::empty()))
    } else {
        match sp_expr(st, env, es[0], (fuel - 1) as nat) {
            (st1, OutM::Val(v)) => match sp_eval_list(st1, env, es.drop_first(), (fuel - 1) as nat) {
                (st2, ListOutM::Vals(rest)) => (st2, ListOutM::Vals(seq![v] + rest)),
                (st2, other) => (st2, other),
            },
            (st1, OutM::Fail(e)) => (st1, ListOutM::Fail(e)),
            (st1, OutM::Host) => (st1, ListOutM::Host),
        }
    }
}

/// Evaluates the entries of an object literal in source order; a repeated
/// key keeps its place and takes the latest value.
pub open spec fn sp_eval_obj(
    st: StM,
    env: Seq<usize>,
    ps: Seq<(Seq<char>, ExprM)>,
    acc: FrameM,
    fuel: nat,
) -> (StM, ObjOutM)
    decreases fuel, 1int,
{
    if fuel == 0 {
        (st, ObjOutM::Fail(ErrM::OutOfFuel))
    } else if ps.len() == 0 {
        (st, ObjOutM::Entries(acc))
    } else {
        match sp_expr(st, env, ps[0].1, (fuel - 1) as nat) {
            (st1, OutM::Val(v)) => sp_eval_obj(
                st1,
                env,
                ps.drop_first(),
                sp_assoc_set(acc, ps[0].0, v),
                (fuel - 1) as nat,
            ),
            (st1, OutM::Fail(e)) => (st1, ObjOutM::Fail(e)),
            (st1, OutM::Host) => (st1, ObjOutM::Host),
        }
    }
}

/// Resolves an index position: either it is already an index, or its
/// expression must yield an integer or a string.
pub open spec fn sp_resolve_index(st: StM, env: Seq<usize>, ii: IntoIndexM, fuel: nat) -> (
    StM,
    IdxOutM,
)
    decreases fuel, 1int,
{
    if fuel == 0 {
        (st, IdxOutM::Fail(ErrM::OutOfFuel))
    } else {
        match ii {
            IntoIndexM::Index(i) => (st, IdxOutM::Idx(i)),
            IntoIndexM::Expr(e) => match sp_expr(st, env, *e, (fuel - 1) as nat) {
                (st1, OutM::Val(v)) => match v {
                    IValueM::Value(ValueM::Int(n)) => (st1, IdxOutM::Idx(IndexM::NumLit(n))),
                    IValueM::Value(ValueM::Str(s)) => (st1, IdxOutM::Idx(IndexM::Ident(s))),
                    other => (st1, IdxOutM::Fail(ErrM::InvalidExprFromIntoIndex(other))),
                },
                (st1, OutM::Fail(e)) => (st1, IdxOutM::Fail(e)),
                (st1, OutM::Host) => (st1, IdxOutM::Host),
            },
        }
    }
}

/// Evaluates an expression.
pub open spec fn sp_expr(st: StM, env: Seq<usize>, e: ExprM, fuel: nat) -> (StM, OutM)
    decreases fuel, 2int,
{
    if fuel == 0 {
        (st, OutM::Fail(ErrM::OutOfFuel))
    } else {
        let f1 = (fuel - 1) as nat;
        match e {
            ExprM::Reach(r) => sp_reach(st, env, r, f1),
            ExprM::Block(stmts) => {
                let (st1, env1) = sp_push(st, env);
                sp_stmts(st1, env1, stmts, 0, f1)
            },
            ExprM::Index(r, ii) => match sp_reach(st, env, r, f1) {
                (st1, OutM::Val(a)) => match sp_resolve_index(st1, env, ii, f1) {
                    (st2, IdxOutM::Idx(i)) => match sp_ivalue_index(a, i) {
                        Option::Some(v) => (st2, OutM::Val(v)),
                        Option::None => (st2, OutM::Fail(ErrM::InvalidIndex { a, i })),
                    },
                    (st2, IdxOutM::Fail(err)) => (st2, OutM::Fail(err)),
                    (st2, IdxOutM::Host) => (st2, OutM::Host),
                },
                other => other,
            },
            ExprM::Add(ra, rb) => match sp_reach(st, env, ra, f1) {
                (st1, OutM::Val(a)) => match sp_reach(st1, env, rb, f1) {
                    (st2, OutM::Val(b)) => match sp_ivalue_add(a, b) {
                        Option::Some(v) => (st2, OutM::Val(v)),
                        Option::None => (st2, OutM::Fail(ErrM::InvalidAddition { a, b })),
                    },
                    other => other,
                },
                other => other,
            },
            ExprM::Sub(ra, rb) => match sp_reach(st, env, ra, f1) {
                (st1, OutM::Val(a)) => match sp_reach(st1, env, rb, f1) {
                    (st2, OutM::Val(b)) => match sp_ivalue_sub(a, b) {
                        Option::Some(v) => (st2, OutM::Val(v)),
                        Option::None => (st2, OutM::Fail(ErrM::InvalidSubtraction { a, b })),
                    },
                    other => other,
                },
                other => other,
            },
            ExprM::Gt(ra, rb) => match sp_reach(st, env, ra, f1) {
                (st1, OutM::Val(a)) => match sp_reach(st1, env, rb, f1) {
                    (st2, OutM::Val(b)) => match sp_ivalue_gt(a, b) {
                        Option::Some(v) => (st2, OutM::Val(v)),
                        Option::None => (st2, OutM::Fail(ErrM::InvalidGt { a, b })),
                    },
                    other => other,
                },
                other => other,
            },
            ExprM::Lt(ra, rb) => match sp_reach(st, env, ra, f1) {
                (st1, OutM::Val(a)) => match sp_reach(st1, env, rb, f1) {
                    (st2, OutM::Val(b)) => match sp_ivalue_lt(a, b) {
                        Option::Some(v) => (st2, OutM::Val(v)),
                        Option::None => (st2, OutM::Fail(ErrM::InvalidLt { a, b })),
                    },
                    other => other,
                },
                other => other,
            },
            ExprM::Cmp(ra, rb) => match sp_reach(st, env, ra, f1) {
                (st1, OutM::Val(a)) => match sp_reach(st1, env, rb, f1) {
                    (st2, OutM::Val(b)) => (
                        st2,
                        OutM::Val(IValueM::Value(ValueM::Bool(sp_ivalue_eq(a, b)))),
                    ),
                    other => other,
                },
                other => other,
            },
            ExprM::Or(ra, rb) => match sp_reach(st, env, ra, f1) {
                (st1, OutM::Val(a)) => match sp_reach(st1, env, rb, f1) {
                    (st2, OutM::Val(b)) => (
                        st2,
                        OutM::Val(
                            IValueM::Value(
                                ValueM::Bool(sp_ivalue_is_true(a) || sp_ivalue_is_true(b)),
                            ),
                        ),
                    ),
                    other => other,
                },
                other => other,
            },
            ExprM::And(ra, rb) => match sp_reach(st, env, ra, f1) {
                (st1, OutM::Val(a)) => match sp_reach(st1, env, rb, f1) {
                    (st2, OutM::Val(b)) => (
                        st2,
                        OutM::Val(
                            IValueM::Value(
                                ValueM::Bool(sp_ivalue_is_true(a) && sp_ivalue_is_true(b)),
                            ),
                        ),
                    ),
                    other => other,
                },
                other => other,
            },
            ExprM::Conditional { condition, if_true, if_false } => match sp_reach(
                st,
                env,
                condition,
                f1,
            ) {
                (st1, OutM::Val(c)) => {
                    if sp_ivalue_is_true(c) {
                        sp_reach(st1, env, if_true, f1)
                    } else {
                        sp_reach(st1, env, if_false, f1)
                    }
                },
                other => other,
            },
            ExprM::CallFn { f, args } => match sp_reach(st, env, f, f1) {
                (st1, OutM::Val(fv)) => sp_call_value(st1, env, fv, args, f1),
                other => other,
            },
        }
    }
}

/// Calls an evaluated callee: a closure runs over its captured frames, a
/// plain function literal over the caller's environment, a host callable
/// makes the rest unknown; anything else is not a function. The argument
/// reach is evaluated only when the callee is callable.
pub open spec fn sp_call_value(
    st: StM,
    env: Seq<usize>,
    fv: IValueM,
    args: Option<ReachM>,
    fuel: nat,
) -> (StM, OutM)
    decreases fuel, 1int,
{
    if fuel == 0 {
        (st, OutM::Fail(ErrM::OutOfFuel))
    } else {
        let f1 = (fuel - 1) as nat;
        match fv {
            IValueM::Value(ValueM::Function(f)) => match sp_eval_args(st, env, args, f1) {
                (st1, ListOutM::Vals(vs)) => sp_call_fn(
                    st1,
                    env,
                    f,
                    if vs.len() > 0 {
                        Option::Some(vs[0])
                    } else {
                        Option::None
                    },
                    f1,
                ),
                (st1, ListOutM::Fail(e)) => (st1, OutM::Fail(e)),
                (st1, ListOutM::Host) => (st1, OutM::Host),
            },
            IValueM::Closure(cenv, f) => match sp_eval_args(st, env, args, f1) {
                (st1, ListOutM::Vals(vs)) => sp_call_fn(
                    st1,
                    cenv,
                    f,
                    if vs.len() > 0 {
                        Option::Some(vs[0])
                    } else {
                        Option::None
                    },
                    f1,
                ),
                (st1, ListOutM::Fail(e)) => (st1, OutM::Fail(e)),
                (st1, ListOutM::Host) => (st1, OutM::Host),
            },
            IValueM::BuiltinFn(_, _) => match sp_eval_args(st, env, args, f1) {
                (st1, ListOutM::Vals(_)) => (st1, OutM::Host),
                (st1, ListOutM::Fail(e)) => (st1, OutM::Fail(e)),
                (st1, ListOutM::Host) => (st1, OutM::Host),
            },
            other => (st, OutM::Fail(ErrM::NotAFunction(other))),
        }
    }
}

/// Evaluates the optional argument reach of a call.
pub open spec fn sp_eval_args(st: StM, env: Seq<usize>, args: Option<ReachM>, fuel: nat) -> (
    StM,
    ListOutM,
)
    decreases fuel, 0int,
{
    if fuel == 0 {
        (st, ListOutM::Fail(ErrM::OutOfFuel))
    } else {
        match args {
            Option::None => (st, ListOutM::Vals(Seq::empty())),
            Option::Some(r) => match sp_reach(st, env, r, (fuel - 1) as nat) {
                (st1, OutM::Val(v)) => (st1, ListOutM::Vals(seq![v])),
                (st1, OutM::Fail(e)) => (st1, ListOutM::Fail(e)),
                (st1, OutM::Host) => (st1, ListOutM::Host),
            },
        }
    }
}

/// Runs a function body: a window is pushed on the base environment, the
/// argument (if the function names one) is bound in it, and the block
/// runs there. A named argument without a value is an error.
pub open spec fn sp_call_fn(
    st: StM,
    base_env: Seq<usize>,
    f: FnM,
    arg: Option<IValueM>,
    fuel: nat,
) -> (StM, OutM)
    decreases fuel, 1int,
{
    if fuel == 0 {
        (st, OutM::Fail(ErrM::OutOfFuel))
    } else {
        let (st1, env1) = sp_push(st, base_env);
        match (f.arg_name, arg) {
            (Option::Some(n), Option::Some(v)) => sp_stmts(
                sp_set_var(st1, env1, n, v),
                env1,
                f.block,
                0,
                (fuel - 1) as nat,
            ),
            (Option::Some(n), Option::None) => (st1, OutM::Fail(ErrM::MissingArg(n))),
            (Option::None, _) => sp_stmts(st1, env1, f.block, 0, (fuel - 1) as nat),
        }
    }
}

/// Runs the statements of a block from position `i` in the given
/// environment. The block's value is the value of its last statement when
/// that is an expression statement, and `Nil` otherwise.
pub open spec fn sp_stmts(st: StM, env: Seq<usize>, stmts: Seq<StmtM>, i: int, fuel: nat) -> (
    StM,
    OutM,
)
    decreases fuel, 0int,
{
    if fuel == 0 {
        (st, OutM::Fail(ErrM::OutOfFuel))
    } else if i < 0 || i >= stmts.len() {
        (st, OutM::Val(IValueM::Value(ValueM::Nil)))
    } else {
        let f1 = (fuel - 1) as nat;
        match stmts[i] {
            StmtM::SetVariable(n, e) => match sp_expr(st, env, e, f1) {
                (st1, OutM::Val(v)) => sp_stmts(sp_set_var(st1, env, n, v), env, stmts, i + 1, f1),
                other => other,
            },
            StmtM::ModifyVariable(n, e) => match sp_expr(st, env, e, f1) {
                (st1, OutM::Val(v)) => {
                    let (st2, prev) = sp_modify_var(st1, env, n, v);
                    if prev is Some {
                        sp_stmts(st2, env, stmts, i + 1, f1)
                    } else {
                        (st2, OutM::Fail(ErrM::VariableDoesntExist(n, AccessKindM::Modify)))
                    }
                },
                other => other,
            },
            StmtM::Expr(e) => match sp_expr(st, env, e, f1) {
                (st1, OutM::Val(v)) => {
                    if i == stmts.len() - 1 {
                        (st1, OutM::Val(v))
                    } else {
                        sp_stmts(st1, env, stmts, i + 1, f1)
                    }
                },
                other => other,
            },
            StmtM::Return(e) => sp_expr(st, env, e, f1),
            StmtM::Break => (st, OutM::Fail(ErrM::Break)),
            StmtM::Loop(b) => match sp_loop(st, env, b, f1) {
                (st1, OutM::Val(_)) => sp_stmts(st1, env, stmts, i + 1, f1),
                other => other,
            },
            StmtM::LoopFor { v_name, iter, block } => match sp_for(
                st,
                env,
                v_name,
                iter,
                block,
                f1,
            ) {
                (st1, OutM::Val(_)) => sp_stmts(st1, env, stmts, i + 1, f1),
                other => other,
            },
            StmtM::DumpContext => sp_stmts(st, env, stmts, i + 1, f1),
            StmtM::Pause => sp_stmts(st, env, stmts, i + 1, f1),
        }
    }
}

/// Runs a loop: the block is evaluated in a fresh window each iteration
/// until it raises the break signal, which the loop catches.
pub open spec fn sp_loop(st: StM, env: Seq<usize>, b: Seq<StmtM>, fuel: nat) -> (StM, OutM)
    decreases fuel, 1int,
{
    if fuel == 0 {
        (st, OutM::Fail(ErrM::OutOfFuel))
    } else {
        let (st1, env1) = sp_push(st, env);
        match sp_stmts(st1, env1, b, 0, (fuel - 1) as nat) {
            (st2, OutM::Val(_)) => sp_loop(st2, env, b, (fuel - 1) as nat),
            (st2, OutM::Fail(ErrM::Break)) => (st2, OutM::Val(IValueM::Value(ValueM::Nil))),
            other => other,
        }
    }
}

/// Runs a for-each statement: one window is pushed for the body, the
/// variable declared in it, and the iterated expression evaluated in the
/// outer environment. An array iterates its elements; an object must bind
/// `next` to a closure, which is called until it yields `Nil`.
pub open spec fn sp_for(
    st: StM,
    env: Seq<usize>,
    name: Seq<char>,
    iter: ExprM,
    block: Seq<StmtM>,
    fuel: nat,
) -> (StM, OutM)
    decreases fuel, 1int,
{
    if fuel == 0 {
        (st, OutM::Fail(ErrM::OutOfFuel))
    } else {
        let f1 = (fuel - 1) as nat;
        let (st1, envb) = sp_push(st, env);
        let st2 = sp_set_var(st1, envb, name, IValueM::Value(ValueM::Nil));
        match sp_expr(st2, env, iter, f1) {
            (st3, OutM::Val(IValueM::Array(vs))) => sp_for_arr(st3, envb, name, vs, 0, block, f1),
            (st3, OutM::Val(IValueM::Object(ps))) => match sp_assoc_get(ps, "next"@) {
                Option::Some(IValueM::Closure(cenv, f)) => sp_for_iter(
                    st3,
                    envb,
                    name,
                    cenv,
                    f,
                    block,
                    f1,
                ),
                Option::Some(other) => (st3, OutM::Fail(ErrM::ForNextIsntAClosure(other))),
                Option::None => (st3, OutM::Fail(ErrM::ForNotAnIterator(IValueM::Object(ps)))),
            },
            (st3, OutM::Val(other)) => (st3, OutM::Fail(ErrM::ForNotAnObject(other))),
            other => other,
        }
    }
}

/// Iterates an array in a for-each: each element is assigned to the
/// variable and the body runs in the for window; the break signal stops
/// the iteration.
pub open spec fn sp_for_arr(
    st: StM,
    envb: Seq<usize>,
    name: Seq<char>,
    vs: Seq<IValueM>,
    j: int,
    block: Seq<StmtM>,
    fuel: nat,
) -> (StM, OutM)
    decreases fuel, 1int,
{
    if fuel == 0 {
        (st, OutM::Fail(ErrM::OutOfFuel))
    } else if j < 0 || j >= vs.len() {
        (st, OutM::Val(IValueM::Value(ValueM::Nil)))
    } else {
        let f1 = (fuel - 1) as nat;
        let (st1, prev) = sp_modify_var(st, envb, name, vs[j]);
        if prev is Some {
            match sp_stmts(st1, envb, block, 0, f1) {
                (st2, OutM::Val(_)) => sp_for_arr(st2, envb, name, vs, j + 1, block, f1),
                (st2, OutM::Fail(ErrM::Break)) => (st2, OutM::Val(IValueM::Value(ValueM::Nil))),
                other => other,
            }
        } else {
            (st1, OutM::Fail(ErrM::VariableDoesntExist(name, AccessKindM::Modify)))
        }
    }
}

/// Iterates an object iterator in a for-each: the `next` closure is
/// called with no argument until it yields `Nil`; each other value is
/// assigned to the variable and the body runs. The break signal stops the
/// iteration.
pub open spec fn sp_for_iter(
    st: StM,
    envb: Seq<usize>,
    name: Seq<char>,
    cenv: Seq<usize>,
    f: FnM,
    block: Seq<StmtM>,
    fuel: nat,
) -> (StM, OutM)
    decreases fuel, 2int,
{
    if fuel == 0 {
        (st, OutM::Fail(ErrM::OutOfFuel))
    } else {
        let f1 = (fuel - 1) as nat;
        match sp_call_fn(st, cenv, f, Option::None, f1) {
            (st1, OutM::Val(IValueM::Value(ValueM::Nil))) => (
                st1,
                OutM::Val(IValueM::Value(ValueM::Nil)),
            ),
            (st1, OutM::Val(v)) => {
                let (st2, prev) = sp_modify_var(st1, envb, name, v);
                if prev is Some {
                    match sp_stmts(st2, envb, block, 0, f1) {
                        (st3, OutM::Val(_)) => sp_for_iter(st3, envb, name, cenv, f, block, f1),
                        (st3, OutM::Fail(ErrM::Break)) => (
                            st3,
                            OutM::Val(IValueM::Value(ValueM::Nil)),
                        ),
                        other => other,
                    }
                } else {
                    (st2, OutM::Fail(ErrM::VariableDoesntExist(name, AccessKindM::Modify)))
                }
            },
            other => other,
        }
    }
}

/// Runs a whole program in the root environment.
pub open spec fn sp_exec(st: StM, stmts: Seq<StmtM>, fuel: nat) -> (StM, OutM) {
    sp_stmts(st, seq![0usize], stmts, 0, fuel)
}

} // verus!

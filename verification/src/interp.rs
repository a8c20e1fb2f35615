//! The executable interpreter: a scope-frame arena with environments as
//! frame-id lists, proved to follow the functional semantics.
use vstd::prelude::*;

use crate::lang::{
    Block, Expr, ExprM, Function, Index, IntoIndex, Reach, ReachM, Statement, Value, ValueM,
    view_exprs, view_expr_pairs, view_index, view_reach, view_stmts, view_values,
    view_value_pairs,
};
use crate::num::str_eq;
use crate::ops::{sp_assoc_get, sp_assoc_set};
use crate::semantics::{
    AccessKindM, ErrM, FrameM, IdxOutM, ListOutM, ObjOutM, OutM, StM, sp_call_fn, sp_call_value,
    sp_eval_args, sp_eval_list, sp_eval_obj, sp_expr, sp_for, sp_for_arr, sp_for_iter,
    sp_from_safe, sp_from_safe_pairs, sp_from_safe_seq, sp_get_var, sp_loop, sp_modify_var,
    sp_push, sp_reach, sp_resolve_index, sp_set_var, sp_stmts,
};
use crate::values::{
    BuiltinFn, Closure, IValue, IValueM, clone_ids, ivalue_clone, lemma_view_ivalue_pairs_index,
    lemma_view_ivalue_pairs_len, view_ivalue, view_ivalue_pairs, view_ivalues,
};

verus! {

broadcast use vstd::seq::axiom_seq_index_decreases, vstd::std_specs::vec::axiom_vec_decreases_to_view, vstd::seq::axiom_seq_subrange_decreases, crate::lang::group_view_lemmas, crate::values::group_ivalue_view_lemmas;

/// Whether a failed variable access was a read or an assignment.
#[derive(Debug, Clone, Copy, PartialEq, Eq, Structural)]
pub enum VariableAccessType {
    Access,
    Modify,
}

/// A runtime error of the interpreter. The break signal travels as the
/// `Break` variant until a loop statement catches it.
#[derive(Debug)]
pub enum RunError {
    Runtime(String),
    VariableDoesntExist(String, VariableAccessType),
    InvalidAddition { a: IValue, b: IValue },
    InvalidSubtraction { a: IValue, b: IValue },
    InvalidGt { a: IValue, b: IValue },
    InvalidLt { a: IValue, b: IValue },
    InvalidIndex { a: IValue, i: Index },
    NotAFunction(IValue),
    MissingArg(String),
    InvalidExprFromIntoIndex(IValue),
    Break,
    ForNotAnObject(IValue),
    ForNotAnIterator(IValue),
    ForNextIsntAClosure(IValue),
    OutOfFuel,
}

pub open spec fn view_access_kind(k: VariableAccessType) -> AccessKindM {
    match k {
        VariableAccessType::Access => AccessKindM::Access,
        VariableAccessType::Modify => AccessKindM::Modify,
    }
}

pub open spec fn view_run_error(e: RunError) -> ErrM {
    match e {
        RunError::Runtime(s) => ErrM::Runtime(s@),
        RunError::VariableDoesntExist(n, k) => ErrM::VariableDoesntExist(n@, view_access_kind(k)),
        RunError::InvalidAddition { a, b } => ErrM::InvalidAddition { a: a@, b: b@ },
        RunError::InvalidSubtraction { a, b } => ErrM::InvalidSubtraction { a: a@, b: b@ },
        RunError::InvalidGt { a, b } => ErrM::InvalidGt { a: a@, b: b@ },
        RunError::InvalidLt { a, b } => ErrM::InvalidLt { a: a@, b: b@ },
        RunError::InvalidIndex { a, i } => ErrM::InvalidIndex { a: a@, i: view_index(i) },
        RunError::NotAFunction(v) => ErrM::NotAFunction(v@),
        RunError::MissingArg(n) => ErrM::MissingArg(n@),
        RunError::InvalidExprFromIntoIndex(v) => ErrM::InvalidExprFromIntoIndex(v@),
        RunError::Break => ErrM::Break,
        RunError::ForNotAnObject(v) => ErrM::ForNotAnObject(v@),
        RunError::ForNotAnIterator(v) => ErrM::ForNotAnIterator(v@),
        RunError::ForNextIsntAClosure(v) => ErrM::ForNextIsntAClosure(v@),
        RunError::OutOfFuel => ErrM::OutOfFuel,
    }
}

impl View for RunError {
    type V = ErrM;

    open spec fn view(&self) -> ErrM {
        view_run_error(*self)
    }
}

/// One scope frame: bindings from name to value, newest binding last.
pub type Frame = Vec<(String, IValue)>;

/// What the interpreter needs from its embedder: the behaviour of host
/// callables, the sink for environment dumps, and the pause on debug
/// statements. The interpreter promises nothing about what a host call
/// returns; its contracts stop at the first host call.
pub trait Host {
    /// Invokes the host callable with the given stable id and display
    /// name on one argument.
    fn call_builtin(&mut self, id: u64, name: &String, arg: IValue) -> Result<IValue, RunError>;

    /// Receives a textual dump of the environment's frames.
    fn dump_context(&mut self, ctx: &Context, env: &Vec<usize>);

    /// Waits for the embedder, as the pause debug statement asks.
    fn pause(&mut self);
}

/// A host that answers every builtin with `Nil` and drops dumps: for
/// running programs that never leave the core language.
pub struct NullHost;

impl Host for NullHost {
    fn call_builtin(&mut self, id: u64, name: &String, arg: IValue) -> Result<IValue, RunError> {
        Result::Ok(IValue::nil())
    }

    fn dump_context(&mut self, ctx: &Context, env: &Vec<usize>) {
    }

    fn pause(&mut self) {
    }
}

/// The interpreter's machine: the arena of every scope frame created so
/// far. Environments name frames by their position here; frames are never
/// removed, so a closure's captured frames stay live.
pub struct Context {
    pub frames: Vec<Frame>,
}

pub open spec fn view_frames(s: Seq<Frame>) -> Seq<FrameM>
    decreases s,
{
    if s.len() == 0 {
        Seq::empty()
    } else {
        seq![view_ivalue_pairs(s[0]@)] + view_frames(s.drop_first())
    }
}

pub broadcast proof fn lemma_view_frames_len(s: Seq<Frame>)
    ensures
        #[trigger] view_frames(s).len() == s.len(),
    decreases s.len(),
{
    if s.len() > 0 {
        lemma_view_frames_len(s.drop_first());
    }
}

pub broadcast proof fn lemma_view_frames_index(s: Seq<Frame>, i: int)
    requires
        0 <= i < s.len(),
    ensures
        #[trigger] view_frames(s)[i] == view_ivalue_pairs(s[i]@),
    decreases s.len(),
{
    lemma_view_frames_len(s);
    if i > 0 {
        lemma_view_frames_index(s.drop_first(), i - 1);
    }
}

impl View for Context {
    type V = StM;

    open spec fn view(&self) -> StM {
        view_frames(self.frames@)
    }
}

// ---------------------------------------------------------------------------
// Association-list update
// ---------------------------------------------------------------------------

proof fn lemma_assoc_set_at<V>(s: Seq<(Seq<char>, V)>, k: Seq<char>, v: V, idx: int)
    requires
        0 <= idx < s.len(),
        s[idx].0 == k,
        forall|j: int| 0 <= j < idx ==> (#[trigger] s[j]).0 != k,
    ensures
        sp_assoc_set(s, k, v) == s.update(idx, (k, v)),
        sp_assoc_get(s, k) == Option::Some(s[idx].1),
    decreases s.len(),
{
    if idx == 0 {
        assert(s[0].0 == k);
        assert(seq![(k, v)] + s.drop_first() =~= s.update(0, (k, v)));
    } else {
        assert(s[0].0 != k);
        assert(forall|j: int|
            0 <= j < idx - 1 ==> (#[trigger] s.drop_first()[j]).0 != k);
        assert(s.drop_first()[idx - 1] == s[idx]);
        lemma_assoc_set_at(s.drop_first(), k, v, idx - 1);
        assert(seq![s[0]] + s.drop_first().update(idx - 1, (k, v)) =~= s.update(idx, (k, v)));
    }
}

proof fn lemma_assoc_no_key<V>(s: Seq<(Seq<char>, V)>, k: Seq<char>, v: V)
    requires
        forall|j: int| 0 <= j < s.len() ==> (#[trigger] s[j]).0 != k,
    ensures
        sp_assoc_set(s, k, v) == s.push((k, v)),
        sp_assoc_get(s, k) is None,
    decreases s.len(),
{
    if s.len() == 0 {
        assert(seq![(k, v)] =~= s.push((k, v)));
    } else {
        assert(s[0].0 != k);
        assert(forall|j: int|
            0 <= j < s.len() - 1 ==> (#[trigger] s.drop_first()[j]).0 != k);
        lemma_assoc_no_key(s.drop_first(), k, v);
        assert(seq![s[0]] + s.drop_first().push((k, v)) =~= s.push((k, v)));
    }
}

/// Binds a name in one frame: replaces the entry with that name in place,
/// or appends a new entry. Yields the previous value, if any.
#[verifier::loop_isolation(false)]
fn frame_set(frame: &mut Frame, name: String, val: IValue) -> (prev: Option<IValue>)
    ensures
        view_ivalue_pairs(final(frame)@) == sp_assoc_set(
            view_ivalue_pairs(old(frame)@),
            name@,
            val@,
        ),
        match prev {
            Option::Some(p) => sp_assoc_get(view_ivalue_pairs(old(frame)@), name@)
                == Option::Some(p@),
            Option::None => sp_assoc_get(view_ivalue_pairs(old(frame)@), name@) is None,
        },
{
    let ghost s0 = view_ivalue_pairs(frame@);
    let ghost nm = name@;
    let ghost vv = val@;
    proof {
        lemma_view_ivalue_pairs_len(frame@);
    }
    let mut i: usize = 0;
    while i < frame.len()
        invariant
            0 <= i <= frame@.len(),
            frame@ == old(frame)@,
            forall|j: int| 0 <= j < i ==> (#[trigger] s0[j]).0 != nm,
        decreases frame@.len() - i,
    {
        proof {
            lemma_view_ivalue_pairs_index(frame@, i as int);
        }
        if str_eq(frame[i].0.as_str(), name.as_str()) {
            let prev = ivalue_clone(&frame[i].1);
            proof {
                lemma_assoc_set_at(s0, nm, vv, i as int);
            }
            frame[i] = (name, val);
            proof {
                lemma_view_ivalue_pairs_len(frame@);
                assert(view_ivalue_pairs(frame@) =~= s0.update(i as int, (nm, vv))) by {
                    assert forall|j: int| 0 <= j < frame@.len() implies view_ivalue_pairs(
                        frame@,
                    )[j] == s0.update(i as int, (nm, vv))[j] by {
                        lemma_view_ivalue_pairs_index(frame@, j);
                        lemma_view_ivalue_pairs_index(old(frame)@, j);
                    }
                }
            }
            return Option::Some(prev);
        }
        i = i + 1;
    }
    proof {
        lemma_assoc_no_key(s0, nm, vv);
    }
    frame.push((name, val));
    proof {
        lemma_view_ivalue_pairs_len(frame@);
        assert(view_ivalue_pairs(frame@) =~= s0.push((nm, vv))) by {
            assert forall|j: int| 0 <= j < frame@.len() implies view_ivalue_pairs(frame@)[j]
                == s0.push((nm, vv))[j] by {
                lemma_view_ivalue_pairs_index(frame@, j);
                if j < frame@.len() - 1 {
                    lemma_view_ivalue_pairs_index(old(frame)@, j);
                }
            }
        }
    }
    Option::None
}

impl Context {
    /// Binds a name in one frame of the arena, replacing or appending the
    /// entry; yields the previous value, if any.
    fn update_frame(&mut self, id: usize, name: String, val: IValue) -> (prev: Option<IValue>)
        requires
            (id as nat) < old(self)@.len(),
        ensures
            final(self)@ == old(self)@.update(
                id as int,
                sp_assoc_set(old(self)@[id as int], name@, val@),
            ),
            match prev {
                Option::Some(p) => sp_assoc_get(old(self)@[id as int], name@) == Option::Some(p@),
                Option::None => sp_assoc_get(old(self)@[id as int], name@) is None,
            },
    {
        let ghost nm = name@;
        let ghost vv = val@;
        proof {
            lemma_view_frames_len(self.frames@);
            lemma_view_frames_index(self.frames@, id as int);
        }
        let frame = &mut self.frames[id];
        let prev = frame_set(frame, name, val);
        proof {
            lemma_view_frames_len(self.frames@);
            assert(self@ =~= old(self)@.update(
                id as int,
                sp_assoc_set(old(self)@[id as int], nm, vv),
            )) by {
                assert forall|j: int| 0 <= j < self.frames@.len() implies self@[j] == old(
                    self,
                )@.update(id as int, sp_assoc_set(old(self)@[id as int], nm, vv))[j] by {
                    lemma_view_frames_index(self.frames@, j);
                    if j != id {
                        lemma_view_frames_index(old(self).frames@, j);
                    }
                }
            }
        }
        prev
    }

    /// A fresh machine whose root frame holds the given bindings.
    pub fn new(vars: Vec<(String, IValue)>) -> (r: Context)
        ensures
            r@ == seq![view_ivalue_pairs(vars@)],
    {
        let ghost pairs = view_ivalue_pairs(vars@);
        let mut frames: Vec<Frame> = Vec::new();
        frames.push(vars);
        let r = Context { frames };
        proof {
            lemma_view_frames_len(r.frames@);
            lemma_view_frames_index(r.frames@, 0int);
            assert(r@ =~= seq![pairs]);
        }
        r
    }

    /// The root environment: the root frame alone.
    pub fn root_env(&self) -> (r: Vec<usize>)
        ensures
            r@ == seq![0usize],
    {
        let mut r: Vec<usize> = Vec::new();
        r.push(0);
        assert(r@ =~= seq![0usize]);
        r
    }

    /// Pushes a window: a fresh empty frame in the arena, appended to the
    /// environment.
    pub fn push_window(&mut self, env: &Vec<usize>) -> (r: Vec<usize>)
        ensures
            (final(self)@, r@) == sp_push(old(self)@, env@),
    {
        proof {
            lemma_view_frames_len(self.frames@);
        }
        let mut r = clone_ids(env);
        r.push(self.frames.len());
        self.frames.push(Vec::new());
        proof {
            lemma_view_frames_len(self.frames@);
            assert(self@ =~= old(self)@.push(Seq::empty())) by {
                assert forall|j: int| 0 <= j < self.frames@.len() implies self@[j] == old(
                    self,
                )@.push(Seq::<(Seq<char>, IValueM)>::empty())[j] by {
                    lemma_view_frames_index(self.frames@, j);
                    if j < self.frames@.len() - 1 {
                        lemma_view_frames_index(old(self).frames@, j);
                    } else {
                        assert(view_ivalue_pairs(self.frames@[j]@) =~= Seq::<(
                            Seq<char>,
                            IValueM,
                        )>::empty());
                    }
                }
            }
        }
        r
    }

    /// Reads a variable, walking the environment newest frame first; an
    /// unbound name is an access error.
    #[verifier::loop_isolation(false)]
    pub fn get_variable(&self, env: &Vec<usize>, name: &str) -> (r: Result<IValue, RunError>)
        ensures
            match sp_get_var(self@, env@, name@) {
                Option::Some(v) => r is Ok && match r {
                    Result::Ok(x) => x@ == v,
                    _ => false,
                },
                Option::None => match r {
                    Result::Err(e) => e@ == ErrM::VariableDoesntExist(
                        name@,
                        AccessKindM::Access,
                    ),
                    _ => false,
                },
            },
    {
        proof {
            lemma_view_frames_len(self.frames@);
            assert(env@.take(env@.len() as int) =~= env@);
        }
        let mut i: usize = env.len();
        while i > 0
            invariant
                0 <= i <= env@.len(),
                sp_get_var(self@, env@, name@) == sp_get_var(self@, env@.take(i as int), name@),
            decreases i,
        {
            i = i - 1;
            proof {
                assert(env@.take(i + 1).last() == env@[i as int]);
                assert(env@.take(i + 1).drop_last() =~= env@.take(i as int));
            }
            let id = env[i];
            if id < self.frames.len() {
                proof {
                    lemma_view_frames_index(self.frames@, id as int);
                }
                match crate::values::assoc_get_ivalue(&self.frames[id], name) {
                    Option::Some(v) => {
                        return Result::Ok(ivalue_clone(v));
                    },
                    Option::None => {
                    },
                }
            }
        }
        assert(env@.take(0int) =~= Seq::<usize>::empty());
        Result::Err(RunError::VariableDoesntExist(name.to_owned(), VariableAccessType::Access))
    }

    /// Assigns to the innermost frame that already binds the name; yields
    /// the previous value, or a modify error when the name is unbound.
    #[verifier::loop_isolation(false)]
    pub fn modify_variable(&mut self, env: &Vec<usize>, name: &str, val: IValue) -> (r: Result<
        IValue,
        RunError,
    >)
        ensures
            ({
                let (st2, prev) = sp_modify_var(old(self)@, env@, name@, val@);
                final(self)@ == st2 && match r {
                    Result::Ok(p) => prev == Option::Some(p@),
                    Result::Err(e) => prev is None && e@ == ErrM::VariableDoesntExist(
                        name@,
                        AccessKindM::Modify,
                    ),
                }
            }),
    {
        let ghost nm = name@;
        let ghost vv = val@;
        proof {
            lemma_view_frames_len(self.frames@);
            assert(env@.take(env@.len() as int) =~= env@);
        }
        let mut i: usize = env.len();
        while i > 0
            invariant
                0 <= i <= env@.len(),
                self@ == old(self)@,
                self.frames@.len() == old(self).frames@.len(),
                vv == val@,
                sp_modify_var(old(self)@, env@, nm, vv) == sp_modify_var(
                    old(self)@,
                    env@.take(i as int),
                    nm,
                    vv,
                ),
            decreases i,
        {
            i = i - 1;
            proof {
                assert(env@.take(i + 1).last() == env@[i as int]);
                assert(env@.take(i + 1).drop_last() =~= env@.take(i as int));
            }
            let id = env[i];
            if id < self.frames.len() {
                proof {
                    lemma_view_frames_index(self.frames@, id as int);
                }
                let found = match crate::values::assoc_get_ivalue(&self.frames[id], name) {
                    Option::Some(_) => true,
                    Option::None => false,
                };
                if found {
                    let prev = self.update_frame(id, name.to_owned(), val);
                    match prev {
                        Option::Some(p) => {
                            return Result::Ok(p);
                        },
                        Option::None => {
                            proof {
                                assert(false);
                            }
                            return Result::Err(RunError::VariableDoesntExist(
                                name.to_owned(),
                                VariableAccessType::Modify,
                            ));
                        },
                    }
                }
            }
        }
        assert(env@.take(0int) =~= Seq::<usize>::empty());
        Result::Err(RunError::VariableDoesntExist(name.to_owned(), VariableAccessType::Modify))
    }

    /// Declares a binding in the newest frame of the environment.
    pub fn set_variable(&mut self, env: &Vec<usize>, name: String, val: IValue)
        ensures
            final(self)@ == sp_set_var(old(self)@, env@, name@, val@),
    {
        proof {
            lemma_view_frames_len(self.frames@);
        }
        if env.len() == 0 {
            return;
        }
        let id = env[env.len() - 1];
        proof {
            assert(env@[env@.len() - 1] == env@.last());
        }
        if id >= self.frames.len() {
            return;
        }
        self.update_frame(id, name, val);
    }

    /// Converts a tree value into a runtime value over the given
    /// environment, promoting function literals to closures.
    pub fn from_safe(&mut self, env: &Vec<usize>, v: &Value) -> (r: IValue)
        ensures
            ({
                let (st2, rv) = sp_from_safe(old(self)@, env@, v@);
                final(self)@ == st2 && r@ == rv
            }),
        decreases v, 0int,
    {
        match v {
            Value::Bool(b) => IValue::Value(Value::Bool(*b)),
            Value::Int(n) => IValue::Value(Value::Int(*n)),
            Value::Str(s) => IValue::Value(Value::Str(s.clone())),
            Value::Nil => IValue::Value(Value::Nil),
            Value::Function(f) => {
                let env2 = self.push_window(env);
                IValue::Closure(Closure { env: env2, f: crate::ops::fn_clone(f) })
            },
            Value::Array(vs) => {
                proof {
                    assert(view_values(vs@).skip(0int) =~= view_values(vs@));
                }
                let rs = self.from_safe_slice(env, vs, 0);
                IValue::Array(rs)
            },
            Value::Object(ps) => {
                proof {
                    assert(view_value_pairs(ps@).skip(0int) =~= view_value_pairs(ps@));
                }
                let rs = self.from_safe_pairs_slice(env, ps, 0);
                IValue::Object(rs)
            },
        }
    }

    fn from_safe_slice(&mut self, env: &Vec<usize>, vs: &Vec<Value>, i: usize) -> (r: Vec<IValue>)
        requires
            i <= vs@.len(),
        ensures
            ({
                let (st2, rvs) = sp_from_safe_seq(old(self)@, env@, view_values(vs@).skip(i as int));
                final(self)@ == st2 && view_ivalues(r@) == rvs
            }),
        decreases vs, vs@.len() - i,
    {
        if i == vs.len() {
            let r: Vec<IValue> = Vec::new();
            assert(view_values(vs@).skip(i as int) =~= Seq::<ValueM>::empty());
            assert(view_ivalues(r@) =~= Seq::<IValueM>::empty());
            r
        } else {
            proof {
                crate::lang::lemma_view_values_index(vs@, i as int);
                assert(view_values(vs@).skip(i as int)[0] == view_values(vs@)[i as int]);
                assert(view_values(vs@).skip(i as int).drop_first() =~= view_values(vs@).skip(
                    i + 1,
                ));
            }
            let v0 = self.from_safe(env, &vs[i]);
            let rest = self.from_safe_slice(env, vs, i + 1);
            let ghost v0m = v0@;
            let mut out: Vec<IValue> = Vec::new();
            out.push(v0);
            let mut rest = rest;
            out.append(&mut rest);
            proof {
                lemma_view_ivalues_concat(out@);
            }
            out
        }
    }

    fn from_safe_pairs_slice(
        &mut self,
        env: &Vec<usize>,
        ps: &Vec<(String, Value)>,
        i: usize,
    ) -> (r: Vec<(String, IValue)>)
        requires
            i <= ps@.len(),
        ensures
            ({
                let (st2, rvs) = sp_from_safe_pairs(
                    old(self)@,
                    env@,
                    view_value_pairs(ps@).skip(i as int),
                );
                final(self)@ == st2 && view_ivalue_pairs(r@) == rvs
            }),
        decreases ps, ps@.len() - i,
    {
        if i == ps.len() {
            let r: Vec<(String, IValue)> = Vec::new();
            assert(view_value_pairs(ps@).skip(i as int) =~= Seq::<(Seq<char>, ValueM)>::empty());
            assert(view_ivalue_pairs(r@) =~= Seq::<(Seq<char>, IValueM)>::empty());
            r
        } else {
            proof {
                crate::lang::lemma_view_value_pairs_index(ps@, i as int);
                assert(view_value_pairs(ps@).skip(i as int)[0] == view_value_pairs(
                    ps@,
                )[i as int]);
                assert(view_value_pairs(ps@).skip(i as int).drop_first() =~= view_value_pairs(
                    ps@,
                ).skip(i + 1));
            }
            let name = ps[i].0.clone();
            let v0 = self.from_safe(env, &ps[i].1);
            let rest = self.from_safe_pairs_slice(env, ps, i + 1);
            let mut out: Vec<(String, IValue)> = Vec::new();
            out.push((name, v0));
            let mut rest = rest;
            out.append(&mut rest);
            proof {
                lemma_view_ivalue_pairs_concat(out@);
            }
            out
        }
    }
}

proof fn lemma_view_ivalues_concat(s: Seq<IValue>)
    requires
        s.len() >= 1,
    ensures
        view_ivalues(s) == seq![view_ivalue(s[0])] + view_ivalues(s.drop_first()),
{
}

proof fn lemma_view_ivalue_pairs_concat(s: Seq<(String, IValue)>)
    requires
        s.len() >= 1,
    ensures
        view_ivalue_pairs(s) == seq![(s[0].0@, view_ivalue(s[0].1))] + view_ivalue_pairs(
            s.drop_first(),
        ),
{
}

} // verus!

verus! {

/// The model of an optional argument reach.
pub open spec fn view_opt_reach(o: Option<Reach>) -> Option<ReachM> {
    match o {
        Option::Some(r) => Option::Some(view_reach(r)),
        Option::None => Option::None,
    }
}

/// Does the runtime result correspond to the semantic outcome? A `Host`
/// outcome constrains nothing.
pub open spec fn res_matches(r: Result<IValue, RunError>, out: OutM) -> bool {
    match out {
        OutM::Val(v) => match r {
            Result::Ok(x) => x@ == v,
            _ => false,
        },
        OutM::Fail(e) => match r {
            Result::Err(x) => x@ == e,
            _ => false,
        },
        OutM::Host => true,
    }
}

/// The object the registered host callables are exposed as.
pub open spec fn sp_builtins_entries(bs: Seq<(u64, Seq<char>)>) -> Seq<(Seq<char>, IValueM)> {
    Seq::new(bs.len(), |i: int| (bs[i].1, IValueM::BuiltinFn(bs[i].0, bs[i].1)))
}

impl Context {
    /// Exposes the host callables as an object bound to `builtins` in the
    /// root frame.
    pub fn builtins(&mut self, bs: Vec<BuiltinFn>)
        ensures
            final(self)@ == sp_set_var(
                old(self)@,
                seq![0usize],
                "builtins"@,
                IValueM::Object(sp_builtins_entries(bs@.map_values(|b: BuiltinFn| b@))),
            ),
    {
        let ghost bsm = bs@.map_values(|b: BuiltinFn| b@);
        let mut entries: Vec<(String, IValue)> = Vec::new();
        let mut k: usize = 0;
        while k < bs.len()
            invariant
                0 <= k <= bs@.len(),
                bsm == bs@.map_values(|b: BuiltinFn| b@),
                entries@.len() == k,
                forall|j: int|
                    0 <= j < k ==> (#[trigger] entries@[j]).0@ == bs@[j].name@ && entries@[j].1@
                        == IValueM::BuiltinFn(bs@[j].id, bs@[j].name@),
            decreases bs@.len() - k,
        {
            let b = crate::values::builtin_clone(&bs[k]);
            let name = b.name.clone();
            entries.push((name, IValue::BuiltinFn(b)));
            k = k + 1;
        }
        proof {
            assert(view_ivalue_pairs(entries@) =~= sp_builtins_entries(bsm)) by {
                lemma_view_ivalue_pairs_len(entries@);
                assert forall|j: int| 0 <= j < entries@.len() implies view_ivalue_pairs(
                    entries@,
                )[j] == sp_builtins_entries(bsm)[j] by {
                    lemma_view_ivalue_pairs_index(entries@, j);
                }
            }
        }
        let env = self.root_env();
        self.set_variable(&env, "builtins".to_owned(), IValue::Object(entries));
    }

    /// Evaluates a reach.
    pub fn resolve_reach<H: Host>(
        &mut self,
        host: &mut H,
        env: &Vec<usize>,
        r: &Reach,
        fuel: u64,
    ) -> (res: Result<IValue, RunError>)
        ensures
            ({
                let (st2, out) = sp_reach(old(self)@, env@, r@, fuel as nat);
                !(out is Host) ==> final(self)@ == st2 && res_matches(res, out)
            }),
        decreases fuel, 1int,
    {
        if fuel == 0 {
            return Result::Err(RunError::OutOfFuel);
        }
        match r {
            Reach::Value(v) => Result::Ok(self.from_safe(env, v)),
            Reach::Expr(e) => self.resolve_expr(host, env, &**e, fuel - 1),
            Reach::Named(n) => self.get_variable(env, n.as_str()),
            Reach::ArrayLiteral(es) => {
                proof {
                    assert(view_exprs(es@).skip(0int) =~= view_exprs(es@));
                }
                match self.resolve_list(host, env, es, 0, fuel - 1) {
                    Result::Ok(vs) => Result::Ok(IValue::Array(vs)),
                    Result::Err(e) => Result::Err(e),
                }
            },
            Reach::ObjectLiteral(ps) => {
                let acc: Vec<(String, IValue)> = Vec::new();
                proof {
                    assert(view_expr_pairs(ps@).skip(0int) =~= view_expr_pairs(ps@));
                    assert(view_ivalue_pairs(acc@) =~= Seq::<(Seq<char>, IValueM)>::empty());
                }
                match self.resolve_obj(host, env, ps, 0, acc, fuel - 1) {
                    Result::Ok(entries) => Result::Ok(IValue::Object(entries)),
                    Result::Err(e) => Result::Err(e),
                }
            },
        }
    }

    /// Evaluates the expressions of an array literal from position `i`.
    fn resolve_list<H: Host>(
        &mut self,
        host: &mut H,
        env: &Vec<usize>,
        es: &Vec<Expr>,
        i: usize,
        fuel: u64,
    ) -> (res: Result<Vec<IValue>, RunError>)
        requires
            i <= es@.len(),
        ensures
            ({
                let (st2, out) = sp_eval_list(
                    old(self)@,
                    env@,
                    view_exprs(es@).skip(i as int),
                    fuel as nat,
                );
                !(out is Host) ==> final(self)@ == st2 && match out {
                    ListOutM::Vals(vs) => match res {
                        Result::Ok(xs) => view_ivalues(xs@) == vs,
                        _ => false,
                    },
                    ListOutM::Fail(e) => match res {
                        Result::Err(x) => x@ == e,
                        _ => false,
                    },
                    ListOutM::Host => true,
                }
            }),
        decreases fuel, 1int,
    {
        if fuel == 0 {
            return Result::Err(RunError::OutOfFuel);
        }
        if i == es.len() {
            let r: Vec<IValue> = Vec::new();
            assert(view_exprs(es@).skip(i as int) =~= Seq::<ExprM>::empty());
            assert(view_ivalues(r@) =~= Seq::<IValueM>::empty());
            return Result::Ok(r);
        }
        proof {
            crate::lang::lemma_view_exprs_index(es@, i as int);
            assert(view_exprs(es@).skip(i as int)[0] == view_exprs(es@)[i as int]);
            assert(view_exprs(es@).skip(i as int).drop_first() =~= view_exprs(es@).skip(i + 1));
        }
        let v0 = match self.resolve_expr(host, env, &es[i], fuel - 1) {
            Result::Ok(v) => v,
            Result::Err(e) => {
                return Result::Err(e);
            },
        };
        let rest = match self.resolve_list(host, env, es, i + 1, fuel - 1) {
            Result::Ok(vs) => vs,
            Result::Err(e) => {
                return Result::Err(e);
            },
        };
        let ghost v0m = v0@;
        let mut out: Vec<IValue> = Vec::new();
        out.push(v0);
        let mut rest = rest;
        out.append(&mut rest);
        proof {
            assert(view_ivalues(out@) == seq![v0m] + view_ivalues(out@.drop_first()));
        }
        Result::Ok(out)
    }

    /// Evaluates the entries of an object literal from position `i` onto
    /// the accumulated entries.
    fn resolve_obj<H: Host>(
        &mut self,
        host: &mut H,
        env: &Vec<usize>,
        ps: &Vec<(String, Expr)>,
        i: usize,
        acc: Vec<(String, IValue)>,
        fuel: u64,
    ) -> (res: Result<Vec<(String, IValue)>, RunError>)
        requires
            i <= ps@.len(),
        ensures
            ({
                let (st2, out) = sp_eval_obj(
                    old(self)@,
                    env@,
                    view_expr_pairs(ps@).skip(i as int),
                    view_ivalue_pairs(acc@),
                    fuel as nat,
                );
                !(out is Host) ==> final(self)@ == st2 && match out {
                    ObjOutM::Entries(entries) => match res {
                        Result::Ok(xs) => view_ivalue_pairs(xs@) == entries,
                        _ => false,
                    },
                    ObjOutM::Fail(e) => match res {
                        Result::Err(x) => x@ == e,
                        _ => false,
                    },
                    ObjOutM::Host => true,
                }
            }),
        decreases fuel, 1int,
    {
        if fuel == 0 {
            return Result::Err(RunError::OutOfFuel);
        }
        if i == ps.len() {
            assert(view_expr_pairs(ps@).skip(i as int) =~= Seq::<(Seq<char>, ExprM)>::empty());
            return Result::Ok(acc);
        }
        proof {
            crate::lang::lemma_view_expr_pairs_index(ps@, i as int);
            assert(view_expr_pairs(ps@).skip(i as int)[0] == view_expr_pairs(ps@)[i as int]);
            assert(view_expr_pairs(ps@).skip(i as int).drop_first() =~= view_expr_pairs(ps@).skip(
                i + 1,
            ));
        }
        let v = match self.resolve_expr(host, env, &ps[i].1, fuel - 1) {
            Result::Ok(v) => v,
            Result::Err(e) => {
                return Result::Err(e);
            },
        };
        let mut acc = acc;
        frame_set(&mut acc, ps[i].0.clone(), v);
        self.resolve_obj(host, env, ps, i + 1, acc, fuel - 1)
    }

    /// Resolves an index position.
    pub fn resolve_index<H: Host>(
        &mut self,
        host: &mut H,
        env: &Vec<usize>,
        ii: &IntoIndex,
        fuel: u64,
    ) -> (res: Result<Index, RunError>)
        ensures
            ({
                let (st2, out) = sp_resolve_index(old(self)@, env@, ii@, fuel as nat);
                !(out is Host) ==> final(self)@ == st2 && match out {
                    IdxOutM::Idx(ix) => match res {
                        Result::Ok(x) => x@ == ix,
                        _ => false,
                    },
                    IdxOutM::Fail(e) => match res {
                        Result::Err(x) => x@ == e,
                        _ => false,
                    },
                    IdxOutM::Host => true,
                }
            }),
        decreases fuel, 1int,
    {
        if fuel == 0 {
            return Result::Err(RunError::OutOfFuel);
        }
        match ii {
            IntoIndex::Index(ix) => Result::Ok(crate::ops::index_clone(ix)),
            IntoIndex::Expr(e) => {
                let v = match self.resolve_expr(host, env, &**e, fuel - 1) {
                    Result::Ok(v) => v,
                    Result::Err(e) => {
                        return Result::Err(e);
                    },
                };
                match v {
                    IValue::Value(Value::Int(n)) => Result::Ok(Index::NumLit(n)),
                    IValue::Value(Value::Str(s)) => Result::Ok(Index::Ident(s)),
                    other => Result::Err(RunError::InvalidExprFromIntoIndex(other)),
                }
            },
        }
    }

    /// Evaluates an expression.
    pub fn resolve_expr<H: Host>(
        &mut self,
        host: &mut H,
        env: &Vec<usize>,
        e: &Expr,
        fuel: u64,
    ) -> (res: Result<IValue, RunError>)
        ensures
            ({
                let (st2, out) = sp_expr(old(self)@, env@, e@, fuel as nat);
                !(out is Host) ==> final(self)@ == st2 && res_matches(res, out)
            }),
        decreases fuel, 2int,
    {
        if fuel == 0 {
            return Result::Err(RunError::OutOfFuel);
        }
        match e {
            Expr::Reach(r) => self.resolve_reach(host, env, r, fuel - 1),
            Expr::Block(b) => {
                let env1 = self.push_window(env);
                self.resolve_stmts(host, &env1, &b.0, 0, fuel - 1)
            },
            Expr::Index(r, ii) => {
                let a = match self.resolve_reach(host, env, r, fuel - 1) {
                    Result::Ok(v) => v,
                    Result::Err(err) => {
                        return Result::Err(err);
                    },
                };
                let ix = match self.resolve_index(host, env, ii, fuel - 1) {
                    Result::Ok(ix) => ix,
                    Result::Err(err) => {
                        return Result::Err(err);
                    },
                };
                match a.index(&ix) {
                    Option::Some(v) => Result::Ok(v),
                    Option::None => Result::Err(RunError::InvalidIndex { a, i: ix }),
                }
            },
            Expr::Add(ra, rb) => {
                let a = match self.resolve_reach(host, env, ra, fuel - 1) {
                    Result::Ok(v) => v,
                    Result::Err(err) => {
                        return Result::Err(err);
                    },
                };
                let b = match self.resolve_reach(host, env, rb, fuel - 1) {
                    Result::Ok(v) => v,
                    Result::Err(err) => {
                        return Result::Err(err);
                    },
                };
                match a.add(&b) {
                    Option::Some(v) => Result::Ok(v),
                    Option::None => Result::Err(RunError::InvalidAddition { a, b }),
                }
            },
            Expr::Sub(ra, rb) => {
                let a = match self.resolve_reach(host, env, ra, fuel - 1) {
                    Result::Ok(v) => v,
                    Result::Err(err) => {
                        return Result::Err(err);
                    },
                };
                let b = match self.resolve_reach(host, env, rb, fuel - 1) {
                    Result::Ok(v) => v,
                    Result::Err(err) => {
                        return Result::Err(err);
                    },
                };
                match a.sub(&b) {
                    Option::Some(v) => Result::Ok(v),
                    Option::None => Result::Err(RunError::InvalidSubtraction { a, b }),
                }
            },
            Expr::Gt(ra, rb) => {
                let a = match self.resolve_reach(host, env, ra, fuel - 1) {
                    Result::Ok(v) => v,
                    Result::Err(err) => {
                        return Result::Err(err);
                    },
                };
                let b = match self.resolve_reach(host, env, rb, fuel - 1) {
                    Result::Ok(v) => v,
                    Result::Err(err) => {
                        return Result::Err(err);
                    },
                };
                match a.gt(&b) {
                    Option::Some(v) => Result::Ok(v),
                    Option::None => Result::Err(RunError::InvalidGt { a, b }),
                }
            },
            Expr::Lt(ra, rb) => {
                let a = match self.resolve_reach(host, env, ra, fuel - 1) {
                    Result::Ok(v) => v,
                    Result::Err(err) => {
                        return Result::Err(err);
                    },
                };
                let b = match self.resolve_reach(host, env, rb, fuel - 1) {
                    Result::Ok(v) => v,
                    Result::Err(err) => {
                        return Result::Err(err);
                    },
                };
                match a.lt(&b) {
                    Option::Some(v) => Result::Ok(v),
                    Option::None => Result::Err(RunError::InvalidLt { a, b }),
                }
            },
            Expr::Cmp(ra, rb) => {
                let a = match self.resolve_reach(host, env, ra, fuel - 1) {
                    Result::Ok(v) => v,
                    Result::Err(err) => {
                        return Result::Err(err);
                    },
                };
                let b = match self.resolve_reach(host, env, rb, fuel - 1) {
                    Result::Ok(v) => v,
                    Result::Err(err) => {
                        return Result::Err(err);
                    },
                };
                Result::Ok(IValue::of_bool(a.custom_eq(&b)))
            },
            Expr::Or(ra, rb) => {
                let a = match self.resolve_reach(host, env, ra, fuel - 1) {
                    Result::Ok(v) => v,
                    Result::Err(err) => {
                        return Result::Err(err);
                    },
                };
                let b = match self.resolve_reach(host, env, rb, fuel - 1) {
                    Result::Ok(v) => v,
                    Result::Err(err) => {
                        return Result::Err(err);
                    },
                };
                Result::Ok(IValue::of_bool(a.is_true() || b.is_true()))
            },
            Expr::And(ra, rb) => {
                let a = match self.resolve_reach(host, env, ra, fuel - 1) {
                    Result::Ok(v) => v,
                    Result::Err(err) => {
                        return Result::Err(err);
                    },
                };
                let b = match self.resolve_reach(host, env, rb, fuel - 1) {
                    Result::Ok(v) => v,
                    Result::Err(err) => {
                        return Result::Err(err);
                    },
                };
                Result::Ok(IValue::of_bool(a.is_true() && b.is_true()))
            },
            Expr::Conditional { condition, if_true, if_false } => {
                let c = match self.resolve_reach(host, env, condition, fuel - 1) {
                    Result::Ok(v) => v,
                    Result::Err(err) => {
                        return Result::Err(err);
                    },
                };
                if c.is_true() {
                    self.resolve_reach(host, env, if_true, fuel - 1)
                } else {
                    self.resolve_reach(host, env, if_false, fuel - 1)
                }
            },
            Expr::CallFn { f, args } => {
                let fv = match self.resolve_reach(host, env, f, fuel - 1) {
                    Result::Ok(v) => v,
                    Result::Err(err) => {
                        return Result::Err(err);
                    },
                };
                self.call_value(host, env, fv, args, fuel - 1)
            },
        }
    }

    /// Evaluates the optional argument reach of a call.
    fn resolve_args<H: Host>(
        &mut self,
        host: &mut H,
        env: &Vec<usize>,
        args: &Option<Reach>,
        fuel: u64,
    ) -> (res: Result<Option<IValue>, RunError>)
        ensures
            ({
                let (st2, out) = sp_eval_args(old(self)@, env@, view_opt_reach(*args), fuel as nat);
                !(out is Host) ==> final(self)@ == st2 && match out {
                    ListOutM::Vals(vs) => match res {
                        Result::Ok(Option::Some(v)) => vs.len() == 1 && v@ == vs[0],
                        Result::Ok(Option::None) => vs.len() == 0,
                        _ => false,
                    },
                    ListOutM::Fail(e) => match res {
                        Result::Err(x) => x@ == e,
                        _ => false,
                    },
                    ListOutM::Host => true,
                }
            }),
        decreases fuel, 0int,
    {
        if fuel == 0 {
            return Result::Err(RunError::OutOfFuel);
        }
        match args {
            Option::None => Result::Ok(Option::None),
            Option::Some(r) => match self.resolve_reach(host, env, r, fuel - 1) {
                Result::Ok(v) => Result::Ok(Option::Some(v)),
                Result::Err(e) => Result::Err(e),
            },
        }
    }

    /// Calls an evaluated callee on an optional argument reach.
    fn call_value<H: Host>(
        &mut self,
        host: &mut H,
        env: &Vec<usize>,
        fv: IValue,
        args: &Option<Reach>,
        fuel: u64,
    ) -> (res: Result<IValue, RunError>)
        ensures
            ({
                let (st2, out) = sp_call_value(old(self)@, env@, fv@, view_opt_reach(*args), fuel as nat);
                !(out is Host) ==> final(self)@ == st2 && res_matches(res, out)
            }),
        decreases fuel, 1int,
    {
        if fuel == 0 {
            return Result::Err(RunError::OutOfFuel);
        }
        match fv {
            IValue::Value(Value::Function(f)) => {
                let a = match self.resolve_args(host, env, args, fuel - 1) {
                    Result::Ok(a) => a,
                    Result::Err(e) => {
                        return Result::Err(e);
                    },
                };
                self.call_fn(host, env, &f, a, fuel - 1)
            },
            IValue::Closure(c) => {
                let a = match self.resolve_args(host, env, args, fuel - 1) {
                    Result::Ok(a) => a,
                    Result::Err(e) => {
                        return Result::Err(e);
                    },
                };
                self.call_fn(host, &c.env, &c.f, a, fuel - 1)
            },
            IValue::BuiltinFn(b) => {
                let a = match self.resolve_args(host, env, args, fuel - 1) {
                    Result::Ok(a) => a,
                    Result::Err(e) => {
                        return Result::Err(e);
                    },
                };
                let arg = match a {
                    Option::Some(v) => v,
                    Option::None => IValue::nil(),
                };
                host.call_builtin(b.id(), b.name(), arg)
            },
            other => Result::Err(RunError::NotAFunction(other)),
        }
    }

    /// Runs a function body over a fresh window on the base environment,
    /// with the argument bound when the function names one.
    pub fn call_fn<H: Host>(
        &mut self,
        host: &mut H,
        base_env: &Vec<usize>,
        f: &Function,
        arg: Option<IValue>,
        fuel: u64,
    ) -> (res: Result<IValue, RunError>)
        ensures
            ({
                let (st2, out) = sp_call_fn(
                    old(self)@,
                    base_env@,
                    f@,
                    crate::values::view_opt_ivalue(arg),
                    fuel as nat,
                );
                !(out is Host) ==> final(self)@ == st2 && res_matches(res, out)
            }),
        decreases fuel, 1int,
    {
        if fuel == 0 {
            return Result::Err(RunError::OutOfFuel);
        }
        let env1 = self.push_window(base_env);
        match (&f.arg_name, arg) {
            (Option::Some(n), Option::Some(v)) => {
                self.set_variable(&env1, n.clone(), v);
                self.resolve_stmts(host, &env1, &f.block.0, 0, fuel - 1)
            },
            (Option::Some(n), Option::None) => Result::Err(RunError::MissingArg(n.clone())),
            (Option::None, _) => self.resolve_stmts(host, &env1, &f.block.0, 0, fuel - 1),
        }
    }

    /// Runs the statements of a block from position `i` in the given
    /// environment.
    fn resolve_stmts<H: Host>(
        &mut self,
        host: &mut H,
        env: &Vec<usize>,
        stmts: &Vec<Statement>,
        i: usize,
        fuel: u64,
    ) -> (res: Result<IValue, RunError>)
        requires
            i <= stmts@.len(),
        ensures
            ({
                let (st2, out) = sp_stmts(
                    old(self)@,
                    env@,
                    view_stmts(stmts@),
                    i as int,
                    fuel as nat,
                );
                !(out is Host) ==> final(self)@ == st2 && res_matches(res, out)
            }),
        decreases fuel, 0int,
    {
        if fuel == 0 {
            return Result::Err(RunError::OutOfFuel);
        }
        proof {
            crate::lang::lemma_view_stmts_len(stmts@);
        }
        if i == stmts.len() {
            return Result::Ok(IValue::nil());
        }
        proof {
            crate::lang::lemma_view_stmts_index(stmts@, i as int);
        }
        match &stmts[i] {
            Statement::SetVariable(n, e) => {
                let v = match self.resolve_expr(host, env, e, fuel - 1) {
                    Result::Ok(v) => v,
                    Result::Err(err) => {
                        return Result::Err(err);
                    },
                };
                self.set_variable(env, n.clone(), v);
                self.resolve_stmts(host, env, stmts, i + 1, fuel - 1)
            },
            Statement::ModifyVariable(n, e) => {
                let v = match self.resolve_expr(host, env, e, fuel - 1) {
                    Result::Ok(v) => v,
                    Result::Err(err) => {
                        return Result::Err(err);
                    },
                };
                match self.modify_variable(env, n.as_str(), v) {
                    Result::Ok(_) => self.resolve_stmts(host, env, stmts, i + 1, fuel - 1),
                    Result::Err(err) => Result::Err(err),
                }
            },
            Statement::Expr(e) => {
                let v = match self.resolve_expr(host, env, e, fuel - 1) {
                    Result::Ok(v) => v,
                    Result::Err(err) => {
                        return Result::Err(err);
                    },
                };
                if i == stmts.len() - 1 {
                    Result::Ok(v)
                } else {
                    self.resolve_stmts(host, env, stmts, i + 1, fuel - 1)
                }
            },
            Statement::Return(e) => self.resolve_expr(host, env, e, fuel - 1),
            Statement::Break => Result::Err(RunError::Break),
            Statement::Loop(b) => {
                match self.run_loop(host, env, &b.0, fuel - 1) {
                    Result::Ok(_) => self.resolve_stmts(host, env, stmts, i + 1, fuel - 1),
                    Result::Err(err) => Result::Err(err),
                }
            },
            Statement::LoopFor { v_name, iter, block } => {
                match self.run_for(host, env, v_name.as_str(), iter, &block.0, fuel - 1) {
                    Result::Ok(_) => self.resolve_stmts(host, env, stmts, i + 1, fuel - 1),
                    Result::Err(err) => Result::Err(err),
                }
            },
            Statement::DumpContext => {
                host.dump_context(&*self, env);
                self.resolve_stmts(host, env, stmts, i + 1, fuel - 1)
            },
            Statement::Pause => {
                host.pause();
                self.resolve_stmts(host, env, stmts, i + 1, fuel - 1)
            },
        }
    }

    /// Runs the statements of a block in the given environment; the
    /// block's value is the value of its last expression statement.
    pub fn resolve_block<H: Host>(
        &mut self,
        host: &mut H,
        env: &Vec<usize>,
        block: &Block,
        fuel: u64,
    ) -> (res: Result<IValue, RunError>)
        ensures
            ({
                let (st2, out) = sp_stmts(old(self)@, env@, block@, 0, fuel as nat);
                !(out is Host) ==> final(self)@ == st2 && res_matches(res, out)
            }),
    {
        self.resolve_stmts(host, env, &block.0, 0, fuel)
    }

    /// Runs a loop statement: the block in a fresh window each iteration,
    /// until the break signal.
    fn run_loop<H: Host>(
        &mut self,
        host: &mut H,
        env: &Vec<usize>,
        b: &Vec<Statement>,
        fuel: u64,
    ) -> (res: Result<IValue, RunError>)
        ensures
            ({
                let (st2, out) = sp_loop(old(self)@, env@, view_stmts(b@), fuel as nat);
                !(out is Host) ==> final(self)@ == st2 && res_matches(res, out)
            }),
        decreases fuel, 1int,
    {
        if fuel == 0 {
            return Result::Err(RunError::OutOfFuel);
        }
        let env1 = self.push_window(env);
        match self.resolve_stmts(host, &env1, b, 0, fuel - 1) {
            Result::Ok(_) => self.run_loop(host, env, b, fuel - 1),
            Result::Err(RunError::Break) => Result::Ok(IValue::nil()),
            Result::Err(err) => Result::Err(err),
        }
    }

    /// Runs a for-each statement.
    fn run_for<H: Host>(
        &mut self,
        host: &mut H,
        env: &Vec<usize>,
        name: &str,
        iter: &Expr,
        block: &Vec<Statement>,
        fuel: u64,
    ) -> (res: Result<IValue, RunError>)
        ensures
            ({
                let (st2, out) = sp_for(
                    old(self)@,
                    env@,
                    name@,
                    iter@,
                    view_stmts(block@),
                    fuel as nat,
                );
                !(out is Host) ==> final(self)@ == st2 && res_matches(res, out)
            }),
        decreases fuel, 1int,
    {
        if fuel == 0 {
            return Result::Err(RunError::OutOfFuel);
        }
        let envb = self.push_window(env);
        self.set_variable(&envb, name.to_owned(), IValue::nil());
        let it = match self.resolve_expr(host, env, iter, fuel - 1) {
            Result::Ok(v) => v,
            Result::Err(err) => {
                return Result::Err(err);
            },
        };
        match it {
            IValue::Array(vs) => self.run_for_arr(host, &envb, name, &vs, 0, block, fuel - 1),
            IValue::Object(ps) => {
                let next = match crate::values::assoc_get_ivalue(&ps, "next") {
                    Option::Some(v) => Option::Some(ivalue_clone(v)),
                    Option::None => Option::None,
                };
                match next {
                    Option::Some(IValue::Closure(c)) => {
                        self.run_for_iter(host, &envb, name, &c.env, &c.f, block, fuel - 1)
                    },
                    Option::Some(other) => Result::Err(RunError::ForNextIsntAClosure(other)),
                    Option::None => Result::Err(RunError::ForNotAnIterator(IValue::Object(ps))),
                }
            },
            other => Result::Err(RunError::ForNotAnObject(other)),
        }
    }

    /// Iterates an array in a for-each from position `j`.
    fn run_for_arr<H: Host>(
        &mut self,
        host: &mut H,
        envb: &Vec<usize>,
        name: &str,
        vs: &Vec<IValue>,
        j: usize,
        block: &Vec<Statement>,
        fuel: u64,
    ) -> (res: Result<IValue, RunError>)
        requires
            j <= vs@.len(),
        ensures
            ({
                let (st2, out) = sp_for_arr(
                    old(self)@,
                    envb@,
                    name@,
                    view_ivalues(vs@),
                    j as int,
                    view_stmts(block@),
                    fuel as nat,
                );
                !(out is Host) ==> final(self)@ == st2 && res_matches(res, out)
            }),
        decreases fuel, 1int,
    {
        if fuel == 0 {
            return Result::Err(RunError::OutOfFuel);
        }
        proof {
            crate::values::lemma_view_ivalues_len(vs@);
        }
        if j == vs.len() {
            return Result::Ok(IValue::nil());
        }
        proof {
            crate::values::lemma_view_ivalues_index(vs@, j as int);
        }
        let v = ivalue_clone(&vs[j]);
        match self.modify_variable(envb, name, v) {
            Result::Ok(_) => {
            },
            Result::Err(err) => {
                return Result::Err(err);
            },
        }
        match self.resolve_stmts(host, envb, block, 0, fuel - 1) {
            Result::Ok(_) => self.run_for_arr(host, envb, name, vs, j + 1, block, fuel - 1),
            Result::Err(RunError::Break) => Result::Ok(IValue::nil()),
            Result::Err(err) => Result::Err(err),
        }
    }

    /// Iterates an object iterator in a for-each: its `next` closure is
    /// called until it yields `Nil`.
    fn run_for_iter<H: Host>(
        &mut self,
        host: &mut H,
        envb: &Vec<usize>,
        name: &str,
        cenv: &Vec<usize>,
        f: &Function,
        block: &Vec<Statement>,
        fuel: u64,
    ) -> (res: Result<IValue, RunError>)
        ensures
            ({
                let (st2, out) = sp_for_iter(
                    old(self)@,
                    envb@,
                    name@,
                    cenv@,
                    f@,
                    view_stmts(block@),
                    fuel as nat,
                );
                !(out is Host) ==> final(self)@ == st2 && res_matches(res, out)
            }),
        decreases fuel, 2int,
    {
        if fuel == 0 {
            return Result::Err(RunError::OutOfFuel);
        }
        let next = match self.call_fn(host, cenv, f, Option::None, fuel - 1) {
            Result::Ok(v) => v,
            Result::Err(err) => {
                return Result::Err(err);
            },
        };
        match next {
            IValue::Value(Value::Nil) => Result::Ok(IValue::nil()),
            v => {
                match self.modify_variable(envb, name, v) {
                    Result::Ok(_) => {
                    },
                    Result::Err(err) => {
                        return Result::Err(err);
                    },
                }
                match self.resolve_stmts(host, envb, block, 0, fuel - 1) {
                    Result::Ok(_) => self.run_for_iter(host, envb, name, cenv, f, block, fuel - 1),
                    Result::Err(RunError::Break) => Result::Ok(IValue::nil()),
                    Result::Err(err) => Result::Err(err),
                }
            },
        }
    }

    /// Runs a whole program in the root environment; the result is the
    /// value of the last statement.
    pub fn exec<H: Host>(&mut self, host: &mut H, block: &Block, fuel: u64) -> (res: Result<
        IValue,
        RunError,
    >)
        ensures
            ({
                let (st2, out) = crate::semantics::sp_exec(old(self)@, block@, fuel as nat);
                !(out is Host) ==> final(self)@ == st2 && res_matches(res, out)
            }),
    {
        let env = self.root_env();
        self.resolve_stmts(host, &env, &block.0, 0, fuel)
    }
}

} // verus!



verus! {

impl Closure {
    /// Calls the closure over its captured frames: the machine runs the
    /// function body in a fresh window on the captured environment.
    pub fn call<H: Host>(
        &self,
        ctx: &mut Context,
        host: &mut H,
        arg: Option<IValue>,
        fuel: u64,
    ) -> (res: Result<IValue, RunError>)
        ensures
            ({
                let (st2, out) = sp_call_fn(
                    old(ctx)@,
                    self.env@,
                    self.f@,
                    crate::values::view_opt_ivalue(arg),
                    fuel as nat,
                );
                !(out is Host) ==> final(ctx)@ == st2 && res_matches(res, out)
            }),
    {
        ctx.call_fn(host, &self.env, &self.f, arg, fuel)
    }
}

} // verus!

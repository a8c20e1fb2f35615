//! Runtime values of the interpreter: tree values plus runtime-only
//! composites, closures and host callables.
use vstd::prelude::*;

use crate::lang::{Function, FnM, Value, ValueM, view_fn, view_value};
use crate::ops::{
    fn_clone, fn_eq, sp_assoc_get, sp_index_str, sp_value_add, sp_value_eq, sp_value_gt,
    sp_value_index, sp_value_is_true, sp_value_lt, sp_value_sub, value_clone,
};
use crate::lang::{Index, IndexM};

verus! {

broadcast use vstd::seq::axiom_seq_index_decreases, vstd::std_specs::vec::axiom_vec_decreases_to_view, vstd::seq::axiom_seq_subrange_decreases;

/// A host-provided callable: a stable identifier and a display name. The
/// behaviour itself lives with the host, which the interpreter reaches
/// through the [`crate::interp::Host`] trait.
#[derive(Debug)]
pub struct BuiltinFn {
    pub id: u64,
    pub name: String,
}

/// A function paired with the environment captured when it became a
/// runtime value: a list of scope-frame ids in the interpreter's arena.
#[derive(Debug)]
pub struct Closure {
    pub env: Vec<usize>,
    pub f: Function,
}

/// A runtime value.
#[derive(Debug)]
pub enum IValue {
    Value(Value),
    Object(Vec<(String, IValue)>),
    Array(Vec<IValue>),
    BuiltinFn(BuiltinFn),
    Closure(Closure),
}

/// Model of [`IValue`].
pub enum IValueM {
    Value(ValueM),
    Object(Seq<(Seq<char>, IValueM)>),
    Array(Seq<IValueM>),
    BuiltinFn(u64, Seq<char>),
    Closure(Seq<usize>, FnM),
}

pub open spec fn view_ivalue(v: IValue) -> IValueM
    decreases v,
{
    match v {
        IValue::Value(x) => IValueM::Value(view_value(x)),
        IValue::Object(ps) => IValueM::Object(view_ivalue_pairs(ps@)),
        IValue::Array(vs) => IValueM::Array(view_ivalues(vs@)),
        IValue::BuiltinFn(b) => IValueM::BuiltinFn(b.id, b.name@),
        IValue::Closure(c) => IValueM::Closure(c.env@, view_fn(c.f)),
    }
}

pub open spec fn view_ivalues(s: Seq<IValue>) -> Seq<IValueM>
    decreases s,
{
    if s.len() == 0 {
        Seq::empty()
    } else {
        seq![view_ivalue(s[0])] + view_ivalues(s.drop_first())
    }
}

pub open spec fn view_ivalue_pairs(s: Seq<(String, IValue)>) -> Seq<(Seq<char>, IValueM)>
    decreases s,
{
    if s.len() == 0 {
        Seq::empty()
    } else {
        seq![(s[0].0@, view_ivalue(s[0].1))] + view_ivalue_pairs(s.drop_first())
    }
}

impl View for IValue {
    type V = IValueM;

    open spec fn view(&self) -> IValueM {
        view_ivalue(*self)
    }
}

pub broadcast proof fn lemma_view_ivalues_len(s: Seq<IValue>)
    ensures
        #[trigger] view_ivalues(s).len() == s.len(),
    decreases s.len(),
{
    if s.len() > 0 {
        lemma_view_ivalues_len(s.drop_first());
    }
}

pub broadcast proof fn lemma_view_ivalues_index(s: Seq<IValue>, i: int)
    requires
        0 <= i < s.len(),
    ensures
        #[trigger] view_ivalues(s)[i] == view_ivalue(s[i]),
    decreases s.len(),
{
    lemma_view_ivalues_len(s);
    if i > 0 {
        lemma_view_ivalues_index(s.drop_first(), i - 1);
    }
}

pub broadcast proof fn lemma_view_ivalue_pairs_len(s: Seq<(String, IValue)>)
    ensures
        #[trigger] view_ivalue_pairs(s).len() == s.len(),
    decreases s.len(),
{
    if s.len() > 0 {
        lemma_view_ivalue_pairs_len(s.drop_first());
    }
}

pub broadcast proof fn lemma_view_ivalue_pairs_index(s: Seq<(String, IValue)>, i: int)
    requires
        0 <= i < s.len(),
    ensures
        #[trigger] view_ivalue_pairs(s)[i] == (s[i].0@, view_ivalue(s[i].1)),
    decreases s.len(),
{
    lemma_view_ivalue_pairs_len(s);
    if i > 0 {
        lemma_view_ivalue_pairs_index(s.drop_first(), i - 1);
    }
}

/// One group naming the runtime-value view lemmas, for `broadcast use`.
pub broadcast group group_ivalue_view_lemmas {
    lemma_view_ivalues_len,
    lemma_view_ivalues_index,
    lemma_view_ivalue_pairs_len,
    lemma_view_ivalue_pairs_index,
}

impl BuiltinFn {
    /// Builds a host callable record from its stable id and display name.
    pub fn new(id: u64, name: String) -> (r: BuiltinFn)
        ensures
            r.id == id,
            r.name@ == name@,
    {
        BuiltinFn { id, name }
    }

    pub fn id(&self) -> (r: u64)
        ensures
            r == self.id,
    {
        self.id
    }

    pub fn name(&self) -> (r: &String)
        ensures
            r@ == self.name@,
    {
        &self.name
    }
}

impl Closure {
    pub fn f(&self) -> (r: &Function)
        ensures
            r@ == self.f@,
    {
        &self.f
    }
}

// ---------------------------------------------------------------------------
// Model operations
// ---------------------------------------------------------------------------

/// Truthiness of a runtime value: only plain tree values can be true.
pub open spec fn sp_ivalue_is_true(v: IValueM) -> bool {
    match v {
        IValueM::Value(x) => sp_value_is_true(x),
        _ => false,
    }
}

/// The length a value reports through the virtual `len` field: element
/// count of arrays, character count of strings, entry count of objects.
pub open spec fn sp_ivalue_len(v: IValueM) -> Option<int> {
    match v {
        IValueM::Array(vs) => Option::Some(vs.len() as int),
        IValueM::Object(ps) => Option::Some(ps.len() as int),
        IValueM::Value(ValueM::Array(vs)) => Option::Some(vs.len() as int),
        IValueM::Value(ValueM::Str(s)) => Option::Some(s.len() as int),
        IValueM::Value(ValueM::Object(ps)) => Option::Some(ps.len() as int),
        _ => Option::None,
    }
}

/// A length clamped into an i32, as the `len` field reports it.
pub open spec fn sp_len_i32(n: int) -> i32 {
    if n > i32::MAX {
        i32::MAX
    } else {
        n as i32
    }
}

/// Indexing a runtime value: tree values index as values, runtime objects
/// by key, runtime arrays by position; on top of that, the identifier
/// `len` reads the length of anything that has one.
pub open spec fn sp_ivalue_index(v: IValueM, i: IndexM) -> Option<IValueM> {
    let base = match v {
        IValueM::Value(x) => match sp_value_index(x, i) {
            Option::Some(r) => Option::Some(IValueM::Value(r)),
            Option::None => Option::None,
        },
        IValueM::Object(ps) => sp_assoc_get(ps, sp_index_str(i)),
        IValueM::Array(vs) => match i {
            IndexM::NumLit(n) => Option::Some(
                if 0 <= n < vs.len() {
                    vs[n as int]
                } else {
                    IValueM::Value(ValueM::Nil)
                },
            ),
            _ => Option::None,
        },
        _ => Option::None,
    };
    if base is Some {
        base
    } else {
        match i {
            IndexM::Ident(name) => if name == "len"@ {
                match sp_ivalue_len(v) {
                    Option::Some(l) => Option::Some(IValueM::Value(ValueM::Int(sp_len_i32(l)))),
                    Option::None => Option::None,
                }
            } else {
                Option::None
            },
            _ => Option::None,
        }
    }
}

/// Addition on runtime values: plain tree values add as the value table
/// states, runtime arrays concatenate, and the empty value is the
/// identity on either side.
pub open spec fn sp_ivalue_add(a: IValueM, b: IValueM) -> Option<IValueM> {
    match (a, b) {
        (IValueM::Value(x), IValueM::Value(y)) => match sp_value_add(x, y) {
            Option::Some(r) => Option::Some(IValueM::Value(r)),
            Option::None => Option::None,
        },
        (IValueM::Array(x), IValueM::Array(y)) => Option::Some(IValueM::Array(x + y)),
        (x, IValueM::Value(ValueM::Nil)) => Option::Some(x),
        (IValueM::Value(ValueM::Nil), y) => Option::Some(y),
        _ => Option::None,
    }
}

/// Subtraction on runtime values: plain tree values subtract as the value
/// table states; the empty value on the right is the identity.
pub open spec fn sp_ivalue_sub(a: IValueM, b: IValueM) -> Option<IValueM> {
    match (a, b) {
        (IValueM::Value(x), IValueM::Value(y)) => match sp_value_sub(x, y) {
            Option::Some(r) => Option::Some(IValueM::Value(r)),
            Option::None => Option::None,
        },
        (x, IValueM::Value(ValueM::Nil)) => Option::Some(x),
        _ => Option::None,
    }
}

/// Greater-than on runtime values: plain tree values compare as the value
/// table states; the empty value is below every other value.
pub open spec fn sp_ivalue_gt(a: IValueM, b: IValueM) -> Option<IValueM> {
    match (a, b) {
        (IValueM::Value(x), IValueM::Value(y)) => match sp_value_gt(x, y) {
            Option::Some(r) => Option::Some(IValueM::Value(r)),
            Option::None => Option::None,
        },
        (IValueM::Value(ValueM::Nil), _) => Option::Some(IValueM::Value(ValueM::Bool(false))),
        (_, IValueM::Value(ValueM::Nil)) => Option::Some(IValueM::Value(ValueM::Bool(true))),
        _ => Option::None,
    }
}

/// Less-than on runtime values: plain tree values compare as the value
/// table states; the empty value is below every other value.
pub open spec fn sp_ivalue_lt(a: IValueM, b: IValueM) -> Option<IValueM> {
    match (a, b) {
        (IValueM::Value(x), IValueM::Value(y)) => match sp_value_lt(x, y) {
            Option::Some(r) => Option::Some(IValueM::Value(r)),
            Option::None => Option::None,
        },
        (IValueM::Value(ValueM::Nil), _) => Option::Some(IValueM::Value(ValueM::Bool(true))),
        (_, IValueM::Value(ValueM::Nil)) => Option::Some(IValueM::Value(ValueM::Bool(false))),
        _ => Option::None,
    }
}

/// Does the entry have a matching binding (same key, equal value) in `y`?
pub open spec fn sp_ientry_matches(y: Seq<(Seq<char>, IValueM)>, e: (Seq<char>, IValueM)) -> bool
    decreases e,
{
    match sp_assoc_get(y, e.0) {
        Option::Some(v2) => sp_ivalue_eq(e.1, v2),
        Option::None => false,
    }
}

pub open spec fn sp_ivalue_entries_eq(
    x: Seq<(Seq<char>, IValueM)>,
    y: Seq<(Seq<char>, IValueM)>,
) -> bool
    decreases x,
{
    if x.len() == 0 {
        true
    } else {
        sp_ientry_matches(y, x[0]) && sp_ivalue_entries_eq(x.drop_first(), y)
    }
}

pub open spec fn sp_ivalues_eq(x: Seq<IValueM>, y: Seq<IValueM>) -> bool
    decreases x,
{
    if x.len() == 0 || y.len() == 0 {
        x.len() == 0 && y.len() == 0
    } else {
        sp_ivalue_eq(x[0], y[0]) && sp_ivalues_eq(x.drop_first(), y.drop_first())
    }
}

/// Equality of runtime values: tree values compare structurally, runtime
/// objects compare as maps, arrays element-wise; host callables by id and
/// name, closures by captured frames and function.
pub open spec fn sp_ivalue_eq(a: IValueM, b: IValueM) -> bool
    decreases a,
{
    match (a, b) {
        (IValueM::Value(x), IValueM::Value(y)) => sp_value_eq(x, y),
        (IValueM::Object(x), IValueM::Object(y)) => x.len() == y.len() && sp_ivalue_entries_eq(
            x,
            y,
        ),
        (IValueM::Array(x), IValueM::Array(y)) => x.len() == y.len() && sp_ivalues_eq(x, y),
        (IValueM::BuiltinFn(i1, n1), IValueM::BuiltinFn(i2, n2)) => i1 == i2 && n1 == n2,
        (IValueM::Closure(e1, f1), IValueM::Closure(e2, f2)) => e1 == e2 && f1 == f2,
        _ => false,
    }
}

pub proof fn lemma_ivalues_eq_pointwise(x: Seq<IValueM>, y: Seq<IValueM>)
    ensures
        sp_ivalues_eq(x, y) == (x.len() == y.len() && forall|i: int|
            0 <= i < x.len() ==> sp_ivalue_eq(x[i], #[trigger] y[i])),
    decreases x.len(),
{
    if x.len() > 0 && y.len() > 0 {
        lemma_ivalues_eq_pointwise(x.drop_first(), y.drop_first());
        if sp_ivalues_eq(x, y) {
            assert forall|i: int| 0 <= i < x.len() implies sp_ivalue_eq(x[i], #[trigger] y[i]) by {
                if i > 0 {
                    assert(x.drop_first()[i - 1] == x[i]);
                    assert(y.drop_first()[i - 1] == y[i]);
                    assert(sp_ivalue_eq(x.drop_first()[i - 1], y.drop_first()[i - 1]));
                }
            }
        }
        if x.len() == y.len() && (forall|i: int|
            0 <= i < x.len() ==> sp_ivalue_eq(x[i], #[trigger] y[i])) {
            assert forall|i: int|
                0 <= i < x.drop_first().len() implies sp_ivalue_eq(
                x.drop_first()[i],
                #[trigger] y.drop_first()[i],
            ) by {
                assert(x.drop_first()[i] == x[i + 1]);
                assert(y.drop_first()[i] == y[i + 1]);
                assert(sp_ivalue_eq(x[i + 1], y[i + 1]));
            }
            assert(sp_ivalues_eq(x.drop_first(), y.drop_first()));
            assert(sp_ivalue_eq(x[0], y[0]));
        }
    }
}

pub proof fn lemma_ivalue_entries_eq_pointwise(
    x: Seq<(Seq<char>, IValueM)>,
    y: Seq<(Seq<char>, IValueM)>,
)
    ensures
        sp_ivalue_entries_eq(x, y) == (forall|i: int|
            0 <= i < x.len() ==> sp_ientry_matches(y, #[trigger] x[i])),
    decreases x.len(),
{
    if x.len() > 0 {
        lemma_ivalue_entries_eq_pointwise(x.drop_first(), y);
        if sp_ivalue_entries_eq(x, y) {
            assert forall|i: int| 0 <= i < x.len() implies sp_ientry_matches(
                y,
                #[trigger] x[i],
            ) by {
                if i > 0 {
                    assert(x.drop_first()[i - 1] == x[i]);
                    assert(sp_ientry_matches(y, x.drop_first()[i - 1]));
                }
            }
        }
        if forall|i: int| 0 <= i < x.len() ==> sp_ientry_matches(y, #[trigger] x[i]) {
            assert forall|i: int|
                0 <= i < x.drop_first().len() implies sp_ientry_matches(
                y,
                #[trigger] x.drop_first()[i],
            ) by {
                assert(x.drop_first()[i] == x[i + 1]);
                assert(sp_ientry_matches(y, x[i + 1]));
            }
            assert(sp_ivalue_entries_eq(x.drop_first(), y));
            assert(sp_ientry_matches(y, x[0]));
        }
    }
}

// ---------------------------------------------------------------------------
// Executable operations
// ---------------------------------------------------------------------------

pub open spec fn view_opt_ivalue(o: Option<IValue>) -> Option<IValueM> {
    match o {
        Option::Some(v) => Option::Some(view_ivalue(v)),
        Option::None => Option::None,
    }
}

/// Deep-copies a list of frame ids.
pub fn clone_ids(v: &Vec<usize>) -> (r: Vec<usize>)
    ensures
        r@ == v@,
{
    let mut out: Vec<usize> = Vec::new();
    let mut k: usize = 0;
    while k < v.len()
        invariant
            0 <= k <= v.len(),
            out@ == v@.take(k as int),
        decreases v.len() - k,
    {
        out.push(v[k]);
        assert(out@ =~= v@.take(k + 1));
        k = k + 1;
    }
    assert(v@.take(v@.len() as int) =~= v@);
    out
}

pub fn builtin_clone(b: &BuiltinFn) -> (r: BuiltinFn)
    ensures
        r@ == b@,
{
    BuiltinFn { id: b.id, name: b.name.clone() }
}

impl View for BuiltinFn {
    type V = (u64, Seq<char>);

    open spec fn view(&self) -> (u64, Seq<char>) {
        (self.id, self.name@)
    }
}

pub fn closure_clone(c: &Closure) -> (r: Closure)
    ensures
        r.env@ == c.env@,
        r.f@ == c.f@,
{
    Closure { env: clone_ids(&c.env), f: fn_clone(&c.f) }
}

/// Deep-copies a vector of runtime values.
#[verifier::loop_isolation(false)]
pub fn clone_ivalue_vec(vs: &Vec<IValue>) -> (r: Vec<IValue>)
    ensures
        view_ivalues(r@) == view_ivalues(vs@),
{
    let mut out: Vec<IValue> = Vec::new();
    let mut k: usize = 0;
    while k < vs.len()
        invariant
            0 <= k <= vs.len(),
            out@.len() == k,
            forall|j: int| 0 <= j < k ==> view_ivalue(out@[j]) == view_ivalue(vs@[j]),
        decreases vs.len() - k,
    {
        out.push(ivalue_clone(&vs[k]));
        k = k + 1;
    }
    proof {
        lemma_view_ivalues_len(out@);
        lemma_view_ivalues_len(vs@);
        assert(view_ivalues(out@) =~= view_ivalues(vs@)) by {
            assert forall|j: int| 0 <= j < vs@.len() implies view_ivalues(out@)[j] == view_ivalues(
                vs@,
            )[j] by {
                lemma_view_ivalues_index(out@, j);
                lemma_view_ivalues_index(vs@, j);
            }
        }
    }
    out
}

pub proof fn lemma_view_ivalues_concat(a: Seq<IValue>, b: Seq<IValue>)
    ensures
        view_ivalues(a + b) == view_ivalues(a) + view_ivalues(b),
    decreases a.len(),
{
    lemma_view_ivalues_len(a + b);
    lemma_view_ivalues_len(a);
    lemma_view_ivalues_len(b);
    assert(view_ivalues(a + b) =~= view_ivalues(a) + view_ivalues(b)) by {
        assert forall|j: int| 0 <= j < a.len() + b.len() implies view_ivalues(a + b)[j] == (
        view_ivalues(a) + view_ivalues(b))[j] by {
            lemma_view_ivalues_index(a + b, j);
            if j < a.len() {
                lemma_view_ivalues_index(a, j);
                assert((a + b)[j] == a[j]);
            } else {
                lemma_view_ivalues_index(b, j - a.len());
                assert((a + b)[j] == b[j - a.len()]);
            }
        }
    }
}

/// Deep-copies a runtime value.
#[verifier::loop_isolation(false)]
pub fn ivalue_clone(v: &IValue) -> (r: IValue)
    ensures
        r@ == v@,
    decreases v,
{
    match v {
        IValue::Value(x) => IValue::Value(value_clone(x)),
        IValue::Object(ps) => {
            let mut out: Vec<(String, IValue)> = Vec::new();
            let mut k: usize = 0;
            while k < ps.len()
                invariant
                    0 <= k <= ps.len(),
                    out@.len() == k,
                    forall|j: int|
                        0 <= j < k ==> (#[trigger] out@[j]).0@ == ps@[j].0@ && view_ivalue(
                            out@[j].1,
                        ) == view_ivalue(ps@[j].1),
                decreases ps.len() - k,
            {
                let name = ps[k].0.clone();
                let val = ivalue_clone(&ps[k].1);
                out.push((name, val));
                k = k + 1;
            }
            assert(view_ivalue_pairs(out@) =~= view_ivalue_pairs(ps@)) by {
                lemma_view_ivalue_pairs_len(out@);
                lemma_view_ivalue_pairs_len(ps@);
                assert forall|j: int| 0 <= j < ps@.len() implies view_ivalue_pairs(out@)[j]
                    == view_ivalue_pairs(ps@)[j] by {
                    lemma_view_ivalue_pairs_index(out@, j);
                    lemma_view_ivalue_pairs_index(ps@, j);
                }
            }
            IValue::Object(out)
        },
        IValue::Array(vs) => {
            let mut out: Vec<IValue> = Vec::new();
            let mut k: usize = 0;
            while k < vs.len()
                invariant
                    0 <= k <= vs.len(),
                    out@.len() == k,
                    forall|j: int| 0 <= j < k ==> view_ivalue(out@[j]) == view_ivalue(vs@[j]),
                decreases vs.len() - k,
            {
                out.push(ivalue_clone(&vs[k]));
                k = k + 1;
            }
            assert(view_ivalues(out@) =~= view_ivalues(vs@)) by {
                lemma_view_ivalues_len(out@);
                lemma_view_ivalues_len(vs@);
                assert forall|j: int| 0 <= j < vs@.len() implies view_ivalues(out@)[j]
                    == view_ivalues(vs@)[j] by {
                    lemma_view_ivalues_index(out@, j);
                    lemma_view_ivalues_index(vs@, j);
                }
            }
            IValue::Array(out)
        },
        IValue::BuiltinFn(b) => IValue::BuiltinFn(builtin_clone(b)),
        IValue::Closure(c) => IValue::Closure(closure_clone(c)),
    }
}

/// Looks a key up in an association list of runtime values, latest entry
/// first.
pub fn assoc_get_ivalue<'a>(ps: &'a Vec<(String, IValue)>, k: &str) -> (r: Option<&'a IValue>)
    ensures
        match r {
            Option::Some(v) => sp_assoc_get(view_ivalue_pairs(ps@), k@) == Option::Some(v@),
            Option::None => sp_assoc_get(view_ivalue_pairs(ps@), k@) is None,
        },
{
    proof {
        lemma_view_ivalue_pairs_len(ps@);
        assert(view_ivalue_pairs(ps@).skip(0int) =~= view_ivalue_pairs(ps@));
    }
    let mut i: usize = 0;
    while i < ps.len()
        invariant
            0 <= i <= ps.len(),
            sp_assoc_get(view_ivalue_pairs(ps@), k@) == sp_assoc_get(
                view_ivalue_pairs(ps@).skip(i as int),
                k@,
            ),
        decreases ps.len() - i,
    {
        proof {
            lemma_view_ivalue_pairs_len(ps@);
            lemma_view_ivalue_pairs_index(ps@, i as int);
            assert(view_ivalue_pairs(ps@).skip(i as int)[0] == view_ivalue_pairs(ps@)[i as int]);
            assert(view_ivalue_pairs(ps@).skip(i as int).drop_first() =~= view_ivalue_pairs(
                ps@,
            ).skip(i + 1));
        }
        if crate::num::str_eq(ps[i].0.as_str(), k) {
            return Option::Some(&ps[i].1);
        }
        i = i + 1;
    }
    assert(view_ivalue_pairs(ps@).skip(ps@.len() as int) =~= Seq::<(Seq<char>, IValueM)>::empty());
    Option::None
}

impl IValue {
    /// Wraps a boolean.
    pub fn of_bool(val: bool) -> (r: IValue)
        ensures
            r@ == IValueM::Value(ValueM::Bool(val)),
    {
        IValue::Value(Value::Bool(val))
    }

    /// Wraps an integer.
    pub fn of_i32(val: i32) -> (r: IValue)
        ensures
            r@ == IValueM::Value(ValueM::Int(val)),
    {
        IValue::Value(Value::Int(val))
    }

    /// Wraps a string.
    pub fn of_string(val: String) -> (r: IValue)
        ensures
            r@ == IValueM::Value(ValueM::Str(val@)),
    {
        IValue::Value(Value::Str(val))
    }

    /// Wraps a function literal.
    pub fn of_function(val: Function) -> (r: IValue)
        ensures
            r@ == IValueM::Value(ValueM::Function(val@)),
    {
        IValue::Value(Value::Function(val))
    }

    /// The distinguished empty value.
    pub fn nil() -> (r: IValue)
        ensures
            r@ == IValueM::Value(ValueM::Nil),
    {
        IValue::Value(Value::Nil)
    }

    /// Truthiness test on a runtime value.
    pub fn is_true(&self) -> (r: bool)
        ensures
            r == sp_ivalue_is_true(self@),
    {
        match self {
            IValue::Value(v) => v.is_true(),
            _ => false,
        }
    }

    /// Adds two runtime values, as the addition table states.
    pub fn add(&self, rhs: &IValue) -> (r: Option<IValue>)
        ensures
            view_opt_ivalue(r) == sp_ivalue_add(self@, rhs@),
    {
        match (self, rhs) {
            (IValue::Value(a), IValue::Value(b)) => match a.add(b) {
                Option::Some(v) => Option::Some(IValue::Value(v)),
                Option::None => Option::None,
            },
            (IValue::Array(a), IValue::Array(b)) => {
                let mut xs = clone_ivalue_vec(a);
                let mut ys = clone_ivalue_vec(b);
                let ghost xs0 = xs@;
                let ghost ys0 = ys@;
                xs.append(&mut ys);
                proof {
                    lemma_view_ivalues_concat(xs0, ys0);
                    assert(xs@ == xs0 + ys0);
                }
                Option::Some(IValue::Array(xs))
            },
            (x, IValue::Value(Value::Nil)) => Option::Some(ivalue_clone(x)),
            (IValue::Value(Value::Nil), y) => Option::Some(ivalue_clone(y)),
            _ => Option::None,
        }
    }

    /// Subtracts two runtime values, as the subtraction table states.
    pub fn sub(&self, rhs: &IValue) -> (r: Option<IValue>)
        ensures
            view_opt_ivalue(r) == sp_ivalue_sub(self@, rhs@),
    {
        match (self, rhs) {
            (IValue::Value(a), IValue::Value(b)) => match a.sub(b) {
                Option::Some(v) => Option::Some(IValue::Value(v)),
                Option::None => Option::None,
            },
            (x, IValue::Value(Value::Nil)) => Option::Some(ivalue_clone(x)),
            _ => Option::None,
        }
    }

    /// Greater-than on runtime values, as the comparison table states.
    pub fn gt(&self, rhs: &IValue) -> (r: Option<IValue>)
        ensures
            view_opt_ivalue(r) == sp_ivalue_gt(self@, rhs@),
    {
        match (self, rhs) {
            (IValue::Value(a), IValue::Value(b)) => match a.gt(b) {
                Option::Some(v) => Option::Some(IValue::Value(v)),
                Option::None => Option::None,
            },
            (IValue::Value(Value::Nil), _) => Option::Some(IValue::of_bool(false)),
            (_, IValue::Value(Value::Nil)) => Option::Some(IValue::of_bool(true)),
            _ => Option::None,
        }
    }

    /// Less-than on runtime values, as the comparison table states.
    pub fn lt(&self, rhs: &IValue) -> (r: Option<IValue>)
        ensures
            view_opt_ivalue(r) == sp_ivalue_lt(self@, rhs@),
    {
        match (self, rhs) {
            (IValue::Value(a), IValue::Value(b)) => match a.lt(b) {
                Option::Some(v) => Option::Some(IValue::Value(v)),
                Option::None => Option::None,
            },
            (IValue::Value(Value::Nil), _) => Option::Some(IValue::of_bool(true)),
            (_, IValue::Value(Value::Nil)) => Option::Some(IValue::of_bool(false)),
            _ => Option::None,
        }
    }

    /// Equality on runtime values, as the equality table states.
    #[verifier::loop_isolation(false)]
    pub fn custom_eq(&self, rhs: &IValue) -> (r: bool)
        ensures
            r == sp_ivalue_eq(self@, rhs@),
        decreases self,
    {
        match (self, rhs) {
            (IValue::Value(a), IValue::Value(b)) => a.custom_eq(b),
            (IValue::Object(xs), IValue::Object(ys)) => {
                proof {
                    lemma_view_ivalue_pairs_len(xs@);
                    lemma_view_ivalue_pairs_len(ys@);
                    lemma_ivalue_entries_eq_pointwise(
                        view_ivalue_pairs(xs@),
                        view_ivalue_pairs(ys@),
                    );
                }
                if xs.len() != ys.len() {
                    return false;
                }
                let mut k: usize = 0;
                while k < xs.len()
                    invariant
                        0 <= k <= xs@.len(),
                        xs@.len() == ys@.len(),
                        forall|j: int|
                            0 <= j < k ==> sp_ientry_matches(
                                view_ivalue_pairs(ys@),
                                #[trigger] view_ivalue_pairs(xs@)[j],
                            ),
                    decreases xs@.len() - k,
                {
                    proof {
                        lemma_view_ivalue_pairs_index(xs@, k as int);
                    }
                    match assoc_get_ivalue(ys, xs[k].0.as_str()) {
                        Option::Some(v2) => {
                            if !xs[k].1.custom_eq(v2) {
                                return false;
                            }
                        },
                        Option::None => {
                            return false;
                        },
                    }
                    k = k + 1;
                }
                true
            },
            (IValue::Array(xs), IValue::Array(ys)) => {
                proof {
                    lemma_view_ivalues_len(xs@);
                    lemma_view_ivalues_len(ys@);
                    lemma_ivalues_eq_pointwise(view_ivalues(xs@), view_ivalues(ys@));
                }
                if xs.len() != ys.len() {
                    return false;
                }
                let mut k: usize = 0;
                while k < xs.len()
                    invariant
                        0 <= k <= xs@.len(),
                        xs@.len() == ys@.len(),
                        forall|j: int|
                            0 <= j < k ==> sp_ivalue_eq(
                                view_ivalues(xs@)[j],
                                #[trigger] view_ivalues(ys@)[j],
                            ),
                    decreases xs@.len() - k,
                {
                    proof {
                        lemma_view_ivalues_index(xs@, k as int);
                        lemma_view_ivalues_index(ys@, k as int);
                    }
                    if !xs[k].custom_eq(&ys[k]) {
                        return false;
                    }
                    k = k + 1;
                }
                true
            },
            (IValue::BuiltinFn(b1), IValue::BuiltinFn(b2)) => {
                b1.id == b2.id && crate::num::str_eq(b1.name.as_str(), b2.name.as_str())
            },
            (IValue::Closure(c1), IValue::Closure(c2)) => {
                if c1.env.len() != c2.env.len() {
                    return false;
                }
                let mut k: usize = 0;
                while k < c1.env.len()
                    invariant
                        0 <= k <= c1.env@.len(),
                        c1.env@.len() == c2.env@.len(),
                        forall|j: int| 0 <= j < k ==> c1.env@[j] == c2.env@[j],
                    decreases c1.env@.len() - k,
                {
                    if c1.env[k] != c2.env[k] {
                        return false;
                    }
                    k = k + 1;
                }
                assert(c1.env@ =~= c2.env@);
                fn_eq(&c1.f, &c2.f)
            },
            _ => false,
        }
    }

    /// Indexes a runtime value, with the virtual `len` field on top of the
    /// value's own entries.
    pub fn index(&self, i: &Index) -> (r: Option<IValue>)
        ensures
            view_opt_ivalue(r) == sp_ivalue_index(self@, i@),
    {
        let base: Option<IValue> = match (self, i) {
            (IValue::Value(v), i) => match v.index(i) {
                Option::Some(x) => Option::Some(IValue::Value(x)),
                Option::None => Option::None,
            },
            (IValue::Object(ps), i) => {
                let key = crate::ops::index_clone(i).into_str();
                match assoc_get_ivalue(ps, key.as_str()) {
                    Option::Some(v) => Option::Some(ivalue_clone(v)),
                    Option::None => Option::None,
                }
            },
            (IValue::Array(vs), Index::NumLit(n)) => {
                proof {
                    lemma_view_ivalues_len(vs@);
                }
                if *n >= 0 && (*n as usize) < vs.len() {
                    proof {
                        lemma_view_ivalues_index(vs@, *n as int);
                    }
                    Option::Some(ivalue_clone(&vs[*n as usize]))
                } else {
                    Option::Some(IValue::Value(Value::Nil))
                }
            },
            _ => Option::None,
        };
        match base {
            Option::Some(v) => Option::Some(v),
            Option::None => {
                match i {
                    Index::Ident(name) => {
                        if crate::num::str_eq(name.as_str(), "len") {
                            proof {
                                reveal_strlit("len");
                            }
                            match self.length() {
                                Option::Some(l) => Option::Some(
                                    IValue::Value(Value::Int(l)),
                                ),
                                Option::None => Option::None,
                            }
                        } else {
                            proof {
                                reveal_strlit("len");
                            }
                            Option::None
                        }
                    },
                    _ => Option::None,
                }
            },
        }
    }

    /// The length of the value, clamped into an i32, when it has one.
    pub fn length(&self) -> (r: Option<i32>)
        ensures
            r == match sp_ivalue_len(self@) {
                Option::Some(l) => Option::Some(sp_len_i32(l)),
                Option::None => Option::<i32>::None,
            },
    {
        let l: usize = match self {
            IValue::Array(vs) => {
                proof {
                    lemma_view_ivalues_len(vs@);
                }
                vs.len()
            },
            IValue::Object(ps) => {
                proof {
                    lemma_view_ivalue_pairs_len(ps@);
                }
                ps.len()
            },
            IValue::Value(Value::Array(vs)) => {
                proof {
                    crate::lang::lemma_view_values_len(vs@);
                }
                vs.len()
            },
            IValue::Value(Value::Str(s)) => s.as_str().unicode_len(),
            IValue::Value(Value::Object(ps)) => {
                proof {
                    crate::lang::lemma_view_value_pairs_len(ps@);
                }
                ps.len()
            },
            _ => {
                return Option::None;
            },
        };
        if l > i32::MAX as usize {
            Option::Some(i32::MAX)
        } else {
            Option::Some(l as i32)
        }
    }
}

/// Hands out host callables with unique, increasing stable ids; the
/// behaviour behind an id lives with the host.
pub struct BuiltinBuilder {
    pub id: u64,
}

impl BuiltinBuilder {
    /// A builder starting at id zero.
    pub fn new() -> (r: BuiltinBuilder)
        ensures
            r.id == 0,
    {
        BuiltinBuilder { id: 0 }
    }

    /// The next host callable, under the given display name.
    pub fn new_fn(&mut self, name: String) -> (r: BuiltinFn)
        requires
            old(self).id < u64::MAX,
        ensures
            r.id == old(self).id,
            r.name@ == name@,
            final(self).id == old(self).id + 1,
    {
        let b = BuiltinFn { id: self.id, name };
        self.id = self.id + 1;
        b
    }
}

} // verus!


//! Laws of the language, proved over the functional semantics: how the
//! layered environment behaves under declaration, assignment and windows,
//! that shadowing is scoped, that closures keep live handles to their
//! frames, what the virtual `len` field reports, and how the break signal
//! is contained.
use vstd::prelude::*;

use crate::lang::{ExprM, FnM, IndexM, ReachM, StmtM, ValueM};
use crate::ops::{lemma_assoc_set_get, sp_assoc_get};
use crate::semantics::{
    ErrM, OutM, StM, sp_call_fn, sp_exec, sp_expr, sp_get_var, sp_loop, sp_modify_var, sp_push,
    sp_reach, sp_set_var, sp_stmts,
};
use crate::scan::{sp_find_char, sp_is_space, sp_token_letters, sp_word_end};
use crate::tokens::{TokenM, TokenizeErrorM, sp_tokenize};
use crate::values::{IValueM, sp_ivalue_index, sp_len_i32};

verus! {

/// Are all the environment's frame ids inside the arena?
pub open spec fn env_in(env: Seq<usize>, st: StM) -> bool {
    forall|i: int| 0 <= i < env.len() ==> ((#[trigger] env[i]) as nat) < st.len()
}

/// Declaring a binding makes it the one that reading finds.
pub proof fn lemma_set_then_get(st: StM, env: Seq<usize>, n: Seq<char>, v: IValueM)
    requires
        env.len() > 0,
        (env.last() as nat) < st.len(),
    ensures
        sp_get_var(sp_set_var(st, env, n, v), env, n) == Option::Some(v),
        sp_set_var(st, env, n, v).len() == st.len(),
{
    lemma_assoc_set_get(st[env.last() as int], n, v);
}

/// Reading through a window that does not bind the name falls through to
/// the frames below it.
pub proof fn lemma_get_through_window(st: StM, env: Seq<usize>, k: usize, n: Seq<char>)
    requires
        (k as nat) < st.len() ==> sp_assoc_get(st[k as int], n) is None,
    ensures
        sp_get_var(st, env.push(k), n) == sp_get_var(st, env, n),
{
    assert(env.push(k).drop_last() =~= env);
}

/// Reading depends only on the frames the environment names.
pub proof fn lemma_get_same_frames(st1: StM, st2: StM, env: Seq<usize>, n: Seq<char>)
    requires
        forall|i: int|
            0 <= i < env.len() ==> ((#[trigger] env[i]) as nat) < st1.len() && (env[i] as nat)
                < st2.len() && st2[env[i] as int] == st1[env[i] as int],
    ensures
        sp_get_var(st2, env, n) == sp_get_var(st1, env, n),
    decreases env.len(),
{
    if env.len() > 0 {
        assert(forall|i: int|
            0 <= i < env.len() - 1 ==> (#[trigger] env.drop_last()[i]) == env[i]);
        lemma_get_same_frames(st1, st2, env.drop_last(), n);
        assert(env[env.len() - 1] == env.last());
    }
}

/// Assigning rebinds the innermost frame that holds the name: afterwards
/// reading sees the new value, the arena keeps its size, and every frame
/// that did not bind the name is untouched.
pub proof fn lemma_modify_then_get(st: StM, env: Seq<usize>, n: Seq<char>, v: IValueM)
    requires
        sp_get_var(st, env, n) is Some,
    ensures
        ({
            let (st2, prev) = sp_modify_var(st, env, n, v);
            &&& prev == sp_get_var(st, env, n)
            &&& st2.len() == st.len()
            &&& sp_get_var(st2, env, n) == Option::Some(v)
            &&& forall|j: int|
                0 <= j < st.len() && sp_assoc_get(#[trigger] st[j], n) is None ==> st2[j] == st[j]
        }),
    decreases env.len(),
{
    let id = env.last();
    if (id as nat) < st.len() && sp_assoc_get(st[id as int], n) is Some {
        lemma_assoc_set_get(st[id as int], n, v);
    } else {
        lemma_modify_then_get(st, env.drop_last(), n, v);
        let (st2, _prev) = sp_modify_var(st, env.drop_last(), n, v);
        if env.len() > 0 && (id as nat) < st.len() {
            assert(st2[id as int] == st[id as int]);
        }
    }
}

/// Assigning through a window that does not bind the name assigns below
/// it.
pub proof fn lemma_modify_through_window(
    st: StM,
    env: Seq<usize>,
    k: usize,
    n: Seq<char>,
    v: IValueM,
)
    requires
        (k as nat) < st.len() ==> sp_assoc_get(st[k as int], n) is None,
    ensures
        sp_modify_var(st, env.push(k), n, v) == sp_modify_var(st, env, n, v),
{
    assert(env.push(k).drop_last() =~= env);
}

/// Shadowing: after `let x = a` an inner scope's `let x = b` hides the
/// outer binding while the scope lasts, and the outer binding still holds
/// `a` once the scope is left.
pub proof fn lemma_shadowing(st: StM, env: Seq<usize>, n: Seq<char>, a: IValueM, b: IValueM)
    requires
        env.len() > 0,
        env_in(env, st),
        st.len() <= usize::MAX,
    ensures
        ({
            let st1 = sp_set_var(st, env, n, a);
            let (st2, env2) = sp_push(st1, env);
            let st3 = sp_set_var(st2, env2, n, b);
            &&& sp_get_var(st3, env2, n) == Option::Some(b)
            &&& sp_get_var(st3, env, n) == Option::Some(a)
        }),
{
    let st1 = sp_set_var(st, env, n, a);
    let (st2, env2) = sp_push(st1, env);
    let st3 = sp_set_var(st2, env2, n, b);
    lemma_set_then_get(st, env, n, a);
    assert(env2.last() == st1.len());
    lemma_assoc_set_get(st2[st1.len() as int], n, b);
    assert(sp_get_var(st3, env2, n) == Option::Some(b));
    assert forall|i: int|
        0 <= i < env.len() implies ((#[trigger] env[i]) as nat) < st1.len() && (env[i] as nat)
        < st3.len() && st3[env[i] as int] == st1[env[i] as int] by {
        assert((env[i] as nat) < st.len());
    }
    lemma_get_same_frames(st1, st3, env, n);
}

/// The virtual `len` field: every array reports its element count, every
/// string its character count, and every object its entry count, unless
/// the object itself binds `len`.
pub proof fn lemma_len_field(v: IValueM)
    ensures
        v matches IValueM::Array(vs) ==> sp_ivalue_index(v, IndexM::Ident("len"@))
            == Option::Some(IValueM::Value(ValueM::Int(sp_len_i32(vs.len() as int)))),
        v matches IValueM::Value(ValueM::Array(vs)) ==> sp_ivalue_index(
            v,
            IndexM::Ident("len"@),
        ) == Option::Some(IValueM::Value(ValueM::Int(sp_len_i32(vs.len() as int)))),
        v matches IValueM::Value(ValueM::Str(s)) ==> sp_ivalue_index(v, IndexM::Ident("len"@))
            == Option::Some(IValueM::Value(ValueM::Int(sp_len_i32(s.len() as int)))),
        v matches IValueM::Object(ps) ==> (sp_assoc_get(ps, "len"@) is None ==> sp_ivalue_index(
            v,
            IndexM::Ident("len"@),
        ) == Option::Some(IValueM::Value(ValueM::Int(sp_len_i32(ps.len() as int))))),
        v matches IValueM::Value(ValueM::Object(ps)) ==> (sp_assoc_get(ps, "len"@) is None
            ==> sp_ivalue_index(v, IndexM::Ident("len"@)) == Option::Some(
            IValueM::Value(ValueM::Int(sp_len_i32(ps.len() as int))),
        )),
{
}

/// Break containment, first half: a loop whose body breaks at once ends
/// normally, with the loop catching the signal.
pub proof fn lemma_loop_break_terminates(st: StM, env: Seq<usize>, fuel: nat)
    requires
        fuel >= 8,
    ensures
        ({
            let program = seq![StmtM::Loop(seq![StmtM::Break])];
            let (st2, out) = sp_stmts(st, env, program, 0, fuel)
            ;
            out == OutM::Val(IValueM::Value(ValueM::Nil))
        }),
{
    let program = seq![StmtM::Loop(seq![StmtM::Break])];
    reveal_with_fuel(crate::semantics::sp_stmts, 4);
    reveal_with_fuel(crate::semantics::sp_loop, 4);
    let f1 = (fuel - 1) as nat;
    let (st1, env1) = sp_push(st, env);
    assert(sp_stmts(st1, env1, seq![StmtM::Break], 0, (f1 - 1) as nat) == (
        st1,
        OutM::Fail(ErrM::Break),
    ));
    assert(sp_loop(st, env, seq![StmtM::Break], f1) == (st1, OutM::Val(IValueM::Value(ValueM::Nil))));
}

/// Break containment, second half: a break outside any loop surfaces as
/// the break error at the program's top level.
pub proof fn lemma_break_uncaught(st: StM, fuel: nat)
    requires
        fuel >= 1,
    ensures
        sp_exec(st, seq![StmtM::Break], fuel) == (st, OutM::Fail(ErrM::Break)),
{
}

/// The body of a counter closure: `n = n + 1; n`.
pub open spec fn counter_body(n: Seq<char>) -> Seq<StmtM> {
    seq![
        StmtM::ModifyVariable(n, ExprM::Add(ReachM::Named(n), ReachM::Value(ValueM::Int(1)))),
        StmtM::Expr(ExprM::Reach(ReachM::Named(n))),
    ]
}

/// One call of a counter closure over its captured frames: the call reads
/// the binding through the captured environment, increments it in place,
/// and yields the new value; the binding stays incremented afterwards.
pub proof fn lemma_counter_call(st: StM, cenv: Seq<usize>, n: Seq<char>, v: i32, fuel: nat)
    requires
        fuel >= 16,
        st.len() + 8 <= usize::MAX,
        sp_get_var(st, cenv, n) == Option::Some(IValueM::Value(ValueM::Int(v))),
        env_in(cenv, st),
    ensures
        ({
            let f = FnM { arg_name: Option::None, block: counter_body(n) };
            let (st2, out) = sp_call_fn(st, cenv, f, Option::None, fuel);
            &&& out == OutM::Val(IValueM::Value(ValueM::Int(v.wrapping_add(1))))
            &&& sp_get_var(st2, cenv, n) == Option::Some(
                IValueM::Value(ValueM::Int(v.wrapping_add(1))),
            )
            &&& st2.len() == st.len() + 1
            &&& env_in(cenv, st2)
        }),
{
    reveal_with_fuel(crate::semantics::sp_stmts, 6);
    reveal_with_fuel(crate::semantics::sp_expr, 6);
    reveal_with_fuel(crate::semantics::sp_reach, 6);
    reveal_with_fuel(crate::semantics::sp_call_fn, 4);
    reveal_with_fuel(crate::semantics::sp_get_var, 4);
    reveal_with_fuel(crate::semantics::sp_modify_var, 4);
    let f = FnM { arg_name: Option::None, block: counter_body(n) };
    let body = counter_body(n);
    let (st1, env1) = sp_push(st, cenv);
    let w = st.len() as usize;
    assert(st1[w as int] =~= Seq::<(Seq<char>, IValueM)>::empty());
    assert(sp_assoc_get(st1[w as int], n) is None);

    // the window hides nothing: reading still finds the captured binding
    assert forall|i: int|
        0 <= i < cenv.len() implies ((#[trigger] cenv[i]) as nat) < st.len() && (cenv[i] as nat)
        < st1.len() && st1[cenv[i] as int] == st[cenv[i] as int] by {}
    lemma_get_same_frames(st, st1, cenv, n);
    lemma_get_through_window(st1, cenv, w, n);
    assert(sp_get_var(st1, env1, n) == Option::Some(IValueM::Value(ValueM::Int(v))));

    // the first statement: n = n + 1
    let inc = v.wrapping_add(1);
    assert(crate::values::sp_ivalue_add(
        IValueM::Value(ValueM::Int(v)),
        IValueM::Value(ValueM::Int(1)),
    ) == Option::Some(IValueM::Value(ValueM::Int(inc))));
    lemma_modify_through_window(st1, cenv, w, n, IValueM::Value(ValueM::Int(inc)));
    lemma_modify_then_get(st1, cenv, n, IValueM::Value(ValueM::Int(inc)));
    let (st2, prev) = sp_modify_var(st1, env1, n, IValueM::Value(ValueM::Int(inc)));
    assert(prev is Some);
    assert(sp_get_var(st2, cenv, n) == Option::Some(IValueM::Value(ValueM::Int(inc))));
    assert(st2[w as int] == st1[w as int]);
    lemma_get_through_window(st2, cenv, w, n);
    assert(sp_get_var(st2, env1, n) == Option::Some(IValueM::Value(ValueM::Int(inc))));

    // the second statement: the block's value is the new binding
    assert(body[1] == StmtM::Expr(ExprM::Reach(ReachM::Named(n))));
    assert(sp_call_fn(st, cenv, f, Option::None, fuel) == (
        st2,
        OutM::Val(IValueM::Value(ValueM::Int(inc))),
    ));
}

/// Closure capture: a closure created in a scope that has since ended
/// still reads and writes the same binding; calling the counter twice
/// increments the captured binding twice.
pub proof fn lemma_closure_capture(st: StM, cenv: Seq<usize>, n: Seq<char>, v: i32, fuel: nat)
    requires
        fuel >= 16,
        st.len() + 16 <= usize::MAX,
        sp_get_var(st, cenv, n) == Option::Some(IValueM::Value(ValueM::Int(v))),
        env_in(cenv, st),
    ensures
        ({
            let f = FnM { arg_name: Option::None, block: counter_body(n) };
            let (st2, out1) = sp_call_fn(st, cenv, f, Option::None, fuel);
            let (st3, out2) = sp_call_fn(st2, cenv, f, Option::None, fuel);
            &&& out1 == OutM::Val(IValueM::Value(ValueM::Int(v.wrapping_add(1))))
            &&& out2 == OutM::Val(IValueM::Value(ValueM::Int(v.wrapping_add(1).wrapping_add(1))))
            &&& sp_get_var(st3, cenv, n) == Option::Some(
                IValueM::Value(ValueM::Int(v.wrapping_add(1).wrapping_add(1))),
            )
        }),
{
    lemma_counter_call(st, cenv, n, v, fuel);
    let f = FnM { arg_name: Option::None, block: counter_body(n) };
    let (st2, out1) = sp_call_fn(st, cenv, f, Option::None, fuel);
    lemma_counter_call(st2, cenv, n, v.wrapping_add(1), fuel);
}

// ---------------------------------------------------------------------------
// Tokenize round trip
// ---------------------------------------------------------------------------

/// One token written back as source text. Bracket groups render as
/// nothing here: the round-trip law below is stated for flat sequences.
pub open spec fn sp_token_text(t: TokenM) -> Seq<char> {
    match t {
        TokenM::Let => seq!['l', 'e', 't'],
        TokenM::Fn => seq!['f', 'n'],
        TokenM::If => seq!['i', 'f'],
        TokenM::Else => seq!['e', 'l', 's', 'e'],
        TokenM::Loop => seq!['l', 'o', 'o', 'p'],
        TokenM::Break => seq!['b', 'r', 'e', 'a', 'k'],
        TokenM::For => seq!['f', 'o', 'r'],
        TokenM::In => seq!['i', 'n'],
        TokenM::Or => seq!['|', '|'],
        TokenM::And => seq!['&', '&'],
        TokenM::Dot => seq!['.'],
        TokenM::Colon => seq![':'],
        TokenM::Eq => seq!['='],
        TokenM::Plus => seq!['+'],
        TokenM::Minus => seq!['-'],
        TokenM::Gt => seq!['>'],
        TokenM::Lt => seq!['<'],
        TokenM::Ident(w) => w,
        TokenM::NumLit(w) => w,
        TokenM::StrLit(w) => seq!['"'] + w + seq!['"'],
        TokenM::Parens(_) => Seq::empty(),
        TokenM::Curly(_) => Seq::empty(),
        TokenM::Brackets(_) => Seq::empty(),
    }
}

/// A token sequence written back as source, one space after each token.
pub open spec fn sp_render(ts: Seq<TokenM>) -> Seq<char>
    decreases ts.len(),
{
    if ts.len() == 0 {
        Seq::empty()
    } else {
        sp_token_text(ts[0]) + seq![' '] + sp_render(ts.drop_first())
    }
}

/// May the character stand inside a scanned word?
pub open spec fn word_char(c: char) -> bool {
    !sp_is_space(c) && sp_token_letters(c) is None
}

/// Does the scanner read the token as a whole word?
pub open spec fn is_word_token(t: TokenM) -> bool {
    match t {
        TokenM::Dot => false,
        TokenM::Colon => false,
        TokenM::Eq => false,
        TokenM::Plus => false,
        TokenM::Minus => false,
        TokenM::Gt => false,
        TokenM::Lt => false,
        TokenM::StrLit(_) => false,
        TokenM::Parens(_) => false,
        TokenM::Curly(_) => false,
        TokenM::Brackets(_) => false,
        _ => true,
    }
}

/// Can the token be written back so that scanning recovers it? Word
/// tokens must be nonempty words of word characters that classify back to
/// themselves; string literals must not hold a quote; bracket groups are
/// left out of this law.
pub open spec fn wf_flat_token(t: TokenM) -> bool {
    if is_word_token(t) {
        let p = sp_token_text(t);
        &&& p.len() > 0
        &&& forall|k: int| 0 <= k < p.len() ==> word_char(#[trigger] p[k])
        &&& crate::tokens::sp_classify(p) == t
    } else {
        match t {
            TokenM::StrLit(w) => forall|k: int| 0 <= k < w.len() ==> (#[trigger] w[k]) != '"',
            TokenM::Parens(_) => false,
            TokenM::Curly(_) => false,
            TokenM::Brackets(_) => false,
            _ => true,
        }
    }
}

/// The word scan stops exactly at the first non-word character.
proof fn lemma_word_end_at(s: Seq<char>, i: int, j: int)
    requires
        0 <= i <= j < s.len(),
        forall|k: int| i <= k < j ==> word_char(#[trigger] s[k]),
        !word_char(s[j]),
    ensures
        sp_word_end(s, i) == j,
    decreases j - i,
{
    if i < j {
        lemma_word_end_at(s, i + 1, j);
    }
}

/// The character search finds exactly the first occurrence.
proof fn lemma_find_char_at(s: Seq<char>, i: int, j: int, c: char)
    requires
        0 <= i <= j < s.len(),
        s[j] == c,
        forall|k: int| i <= k < j ==> (#[trigger] s[k]) != c,
    ensures
        sp_find_char(s, i, c) == Option::Some(j),
    decreases j - i,
{
    if i < j {
        lemma_find_char_at(s, i + 1, j, c);
    }
}

/// Scanning recovers a rendered flat token sequence standing as the tail
/// of a source.
proof fn lemma_retokenize_at(s: Seq<char>, i: int, ts: Seq<TokenM>)
    requires
        0 <= i <= s.len(),
        s.skip(i) == sp_render(ts),
        forall|k: int| 0 <= k < ts.len() ==> wf_flat_token(#[trigger] ts[k]),
    ensures
        sp_tokenize(s, i) == Result::<Seq<TokenM>, TokenizeErrorM>::Ok(ts),
    decreases ts.len(),
{
    if ts.len() == 0 {
        assert(s.skip(i).len() == 0);
        assert(ts =~= Seq::<TokenM>::empty());
    } else {
        let t = ts[0];
        let p = sp_token_text(t);
        let rest = ts.drop_first();
        let tail = sp_render(rest);
        assert(s.skip(i) == p + seq![' '] + tail);
        assert(s.len() - i == p.len() + 1 + tail.len());
        assert forall|k: int| i <= k < i + p.len() implies s[k] == p[k - i] by {
            assert(s.skip(i)[k - i] == s[k]);
            assert((p + seq![' '] + tail)[k - i] == p[k - i]);
        }
        assert(s[i + p.len()] == ' ') by {
            assert(s.skip(i)[p.len() as int] == s[i + p.len()]);
        }
        let after = i + p.len() + 1;
        assert(s.skip(after) =~= tail) by {
            assert forall|k: int| 0 <= k < tail.len() implies s.skip(after)[k] == tail[k] by {
                assert(s.skip(i)[p.len() + 1 + k] == s[after + k]);
                assert((p + seq![' '] + tail)[p.len() + 1 + k] == tail[k]);
            }
        }
        assert forall|k: int| 0 <= k < rest.len() implies wf_flat_token(#[trigger] rest[k]) by {
            assert(rest[k] == ts[k + 1]);
        }
        lemma_retokenize_at(s, after, rest);
        assert(ts =~= seq![t] + rest);
        if is_word_token(t) {
            let c = s[i];
            assert(c == p[0]);
            assert(word_char(c));
            assert forall|k: int| i <= k < i + p.len() implies word_char(#[trigger] s[k]) by {
                assert(s[k] == p[k - i]);
            }
            lemma_word_end_at(s, i, i + p.len());
            assert(s.subrange(i, i + p.len()) =~= p);
            assert(sp_tokenize(s, i) == crate::tokens::sp_tokenize_cons(t, s, i + p.len()));
            assert(sp_tokenize(s, i + p.len()) == sp_tokenize(s, after));
        } else {
            match t {
                TokenM::StrLit(w) => {
                    assert(p[0] == '"');
                    assert(s[i] == '"');
                    let close = i + 1 + w.len();
                    assert forall|k: int| i + 1 <= k < close implies (#[trigger] s[k]) != '"' by {
                        assert(s[k] == p[k - i]);
                        assert(p[k - i] == w[k - i - 1]);
                    }
                    assert(p[p.len() - 1] == '"');
                    assert(s[close] == p[p.len() - 1]);
                    lemma_find_char_at(s, i + 1, close, '"');
                    assert(s.subrange(i + 1, close) =~= w);
                    assert(sp_tokenize(s, i) == crate::tokens::sp_tokenize_cons(
                        TokenM::StrLit(w),
                        s,
                        close + 1,
                    ));
                    assert(sp_tokenize(s, close + 1) == sp_tokenize(s, after));
                },
                _ => {
                    assert(p.len() == 1);
                    assert(sp_tokenize(s, i) == crate::tokens::sp_tokenize_cons(t, s, i + 1));
                    assert(sp_tokenize(s, i + 1) == sp_tokenize(s, after));
                },
            }
        }
    }
}

/// Tokenize round trip: a token sequence without bracket groups, written
/// back as source, tokenizes to the same sequence.
pub proof fn lemma_tokenize_render_roundtrip(ts: Seq<TokenM>)
    requires
        forall|k: int| 0 <= k < ts.len() ==> wf_flat_token(#[trigger] ts[k]),
    ensures
        sp_tokenize(sp_render(ts), 0) == Result::<Seq<TokenM>, TokenizeErrorM>::Ok(ts),
{
    let s = sp_render(ts);
    assert(s.skip(0) =~= s);
    lemma_retokenize_at(s, 0, ts);
}

} // verus!



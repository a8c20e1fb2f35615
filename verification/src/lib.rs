//! A small dynamically-typed scripting language: a tokenizer, a
//! recursive-descent parser, and a tree-walking interpreter with lexical
//! closures, verified against a functional semantics.
use vstd::prelude::*;

pub mod interp;
pub mod lang;
pub mod laws;
pub mod num;
pub mod ops;
pub mod parser;
pub mod scan;
pub mod semantics;
pub mod tokens;
pub mod values;

verus! {

/// What running a source can fail with: a parse-time error or a runtime
/// error.
#[derive(Debug)]
pub enum EvalError {
    Parse(parser::Error),
    Run(interp::RunError),
}

/// Parses and runs a source string over a fresh machine with an empty
/// root scope, within the given fuel.
pub fn eval<H: interp::Host>(src: &str, host: &mut H, fuel: u64) -> (r: Result<
    values::IValue,
    EvalError,
>)
    ensures
        match parser::sp_parse(src@) {
            Result::Err(pe) => r matches Result::Err(EvalError::Parse(e)) && e@ == pe,
            Result::Ok(sts) => ({
                let (st2, out) = semantics::sp_exec(
                    seq![Seq::<(Seq<char>, values::IValueM)>::empty()],
                    sts,
                    fuel as nat,
                );
                !(out is Host) ==> match out {
                    semantics::OutM::Val(v) => r matches Result::Ok(x) && x@ == v,
                    semantics::OutM::Fail(e) => r matches Result::Err(EvalError::Run(x)) && x@
                        == e,
                    semantics::OutM::Host => true,
                }
            }),
        },
{
    let program = match parser::parse(src) {
        Result::Ok(sts) => sts,
        Result::Err(e) => {
            return Result::Err(EvalError::Parse(e));
        },
    };
    let mut ctx = interp::Context::new(Vec::new());
    proof {
        assert(ctx@ =~= seq![Seq::<(Seq<char>, values::IValueM)>::empty()]) by {
            assert(crate::values::view_ivalue_pairs(Seq::<(String, values::IValue)>::empty())
                =~= Seq::<(Seq<char>, values::IValueM)>::empty());
        }
    }
    match ctx.exec(host, &lang::Block(program), fuel) {
        Result::Ok(v) => Result::Ok(v),
        Result::Err(e) => Result::Err(EvalError::Run(e)),
    }
}

} // verus!


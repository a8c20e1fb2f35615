//! Syntactic analysis: recursive descent over tokens with one-token
//! lookahead, Pratt-style left expansion for binary and postfix
//! operators, and the statement preprocessor.
//!
//! The descent is fuel-bounded: every step costs one unit, and the entry
//! point supplies fuel far above what any token stream can use, so the
//! distinguished error `TooDeep` never surfaces for real input.
use vstd::prelude::*;

use crate::lang::{
    Block, Expr, ExprM, Function, Index, IntoIndex, IntoIndexM, Reach, ReachM, Statement, StmtM,
    Value, ValueM, sp_into_expr, sp_into_reach, view_expr, view_stmt, view_stmts,
};
use crate::num::{sp_parse_i32, str_eq};
use crate::tokens::{Token, TokenM, TokenizeError, TokenizeErrorM, view_token, view_tokens};

verus! {

broadcast use vstd::seq::axiom_seq_index_decreases, vstd::std_specs::vec::axiom_vec_decreases_to_view, vstd::seq::axiom_seq_subrange_decreases, crate::tokens::group_token_view_lemmas, crate::lang::group_view_lemmas;

/// A parse-time error.
#[derive(Debug)]
pub enum Error {
    /// The tokenizer failed before parsing began.
    Tokenize(TokenizeError),
    /// An inner error, enriched with one line of context.
    Context { context: String, err: Box<Error> },
    EOFExpr,
    EOFStatement,
    EOFReach,
    ExpectedVariableName,
    ExpectedEqLet,
    /// A number literal that fits no 32-bit integer; carries the word.
    InvalidNumLit(String),
    InvalidFirstReach(Token),
    ExpectedFnDeclParens,
    ExpectedBlock,
    ExpectedIdentGot(Token),
    /// A function literal declared more than one argument.
    TooManyFnArgs,
    InvalidIndex,
    ExpectedIdentFor(Option<Token>),
    ExpectedInFor(Option<Token>),
    ExpectedIdentObj,
    ExpectedColonObj(Option<Token>),
    /// The descent went past its fuel; no real token stream reaches this.
    TooDeep,
}

/// Model of [`Error`].
pub enum ErrorM {
    Tokenize(TokenizeErrorM),
    Context(Seq<char>, Box<ErrorM>),
    EOFExpr,
    EOFStatement,
    EOFReach,
    ExpectedVariableName,
    ExpectedEqLet,
    InvalidNumLit(Seq<char>),
    InvalidFirstReach(TokenM),
    ExpectedFnDeclParens,
    ExpectedBlock,
    ExpectedIdentGot(TokenM),
    TooManyFnArgs,
    InvalidIndex,
    ExpectedIdentFor(Option<TokenM>),
    ExpectedInFor(Option<TokenM>),
    ExpectedIdentObj,
    ExpectedColonObj(Option<TokenM>),
    TooDeep,
}

pub open spec fn view_opt_token(o: Option<Token>) -> Option<TokenM> {
    match o {
        Option::Some(t) => Option::Some(view_token(t)),
        Option::None => Option::None,
    }
}

pub open spec fn view_error(e: Error) -> ErrorM
    decreases e,
{
    match e {
        Error::Tokenize(t) => ErrorM::Tokenize(crate::tokens::view_tokenize_error(t)),
        Error::Context { context, err } => ErrorM::Context(
            context@,
            Box::new(view_error(*err)),
        ),
        Error::EOFExpr => ErrorM::EOFExpr,
        Error::EOFStatement => ErrorM::EOFStatement,
        Error::EOFReach => ErrorM::EOFReach,
        Error::ExpectedVariableName => ErrorM::ExpectedVariableName,
        Error::ExpectedEqLet => ErrorM::ExpectedEqLet,
        Error::InvalidNumLit(s) => ErrorM::InvalidNumLit(s@),
        Error::InvalidFirstReach(t) => ErrorM::InvalidFirstReach(view_token(t)),
        Error::ExpectedFnDeclParens => ErrorM::ExpectedFnDeclParens,
        Error::ExpectedBlock => ErrorM::ExpectedBlock,
        Error::ExpectedIdentGot(t) => ErrorM::ExpectedIdentGot(view_token(t)),
        Error::TooManyFnArgs => ErrorM::TooManyFnArgs,
        Error::InvalidIndex => ErrorM::InvalidIndex,
        Error::ExpectedIdentFor(t) => ErrorM::ExpectedIdentFor(view_opt_token(t)),
        Error::ExpectedInFor(t) => ErrorM::ExpectedInFor(view_opt_token(t)),
        Error::ExpectedIdentObj => ErrorM::ExpectedIdentObj,
        Error::ExpectedColonObj(t) => ErrorM::ExpectedColonObj(view_opt_token(t)),
        Error::TooDeep => ErrorM::TooDeep,
    }
}

impl View for Error {
    type V = ErrorM;

    open spec fn view(&self) -> ErrorM {
        view_error(*self)
    }
}

impl Error {
    /// Wraps the error in one line of context.
    pub fn with_context(self, context: String) -> (r: Error)
        ensures
            r@ == ErrorM::Context(context@, Box::new(self@)),
    {
        Error::Context { context, err: Box::new(self) }
    }
}

/// The token at a position, if the position is in range.
pub open spec fn sp_peek(toks: Seq<TokenM>, pos: int) -> Option<TokenM> {
    if 0 <= pos < toks.len() {
        Option::Some(toks[pos])
    } else {
        Option::None
    }
}

// ---------------------------------------------------------------------------
// The grammar, as a specification
// ---------------------------------------------------------------------------

/// Reads a reach: an identifier (or object literal), a literal, an array
/// literal, a function literal, or a parenthesized expression.
pub open spec fn sp_read_reach(toks: Seq<TokenM>, pos: int, fuel: nat) -> Result<
    (ReachM, int),
    ErrorM,
>
    decreases fuel,
{
    if fuel == 0 {
        Result::Err(ErrorM::TooDeep)
    } else {
        let f1 = (fuel - 1) as nat;
        match sp_peek(toks, pos) {
            Option::None => Result::Err(ErrorM::EOFReach),
            Option::Some(t) => match t {
                TokenM::Ident(name) => {
                    if name == "obj"@ && sp_peek(toks, pos + 1) matches Option::Some(
                        TokenM::Curly(_),
                    ) {
                        match sp_peek(toks, pos + 1) {
                            Option::Some(TokenM::Curly(map)) => match sp_object(map, 0, f1) {
                                Result::Ok(entries) => Result::Ok(
                                    (ReachM::ObjectLiteral(entries), pos + 2),
                                ),
                                Result::Err(e) => Result::Err(e),
                            },
                            _ => Result::Err(ErrorM::EOFReach),
                        }
                    } else {
                        Result::Ok((ReachM::Named(name), pos + 1))
                    }
                },
                TokenM::StrLit(s) => Result::Ok((ReachM::Value(ValueM::Str(s)), pos + 1)),
                TokenM::NumLit(s) => match sp_parse_i32(s) {
                    Option::Some(n) => Result::Ok((ReachM::Value(ValueM::Int(n)), pos + 1)),
                    Option::None => Result::Err(ErrorM::InvalidNumLit(s)),
                },
                TokenM::Brackets(b) => match sp_cse(b, 0, f1) {
                    Result::Ok(es) => Result::Ok((ReachM::ArrayLiteral(es), pos + 1)),
                    Result::Err(e) => Result::Err(
                        ErrorM::Context(
                            "while parsing expressions inside an array literal"@,
                            Box::new(e),
                        ),
                    ),
                },
                TokenM::Fn => match sp_peek(toks, pos + 1) {
                    Option::Some(TokenM::Parens(ps)) => {
                        if ps.len() == 0 {
                            match sp_read_block(toks, pos + 2, f1) {
                                Result::Ok((b, p2)) => Result::Ok(
                                    (
                                        ReachM::Value(
                                            ValueM::Function(
                                                crate::lang::FnM {
                                                    arg_name: Option::None,
                                                    block: b,
                                                },
                                            ),
                                        ),
                                        p2,
                                    ),
                                ),
                                Result::Err(e) => Result::Err(e),
                            }
                        } else if ps.len() > 1 {
                            Result::Err(ErrorM::TooManyFnArgs)
                        } else {
                            match ps[0] {
                                TokenM::Ident(n) => match sp_read_block(toks, pos + 2, f1) {
                                    Result::Ok((b, p2)) => Result::Ok(
                                        (
                                            ReachM::Value(
                                                ValueM::Function(
                                                    crate::lang::FnM {
                                                        arg_name: Option::Some(n),
                                                        block: b,
                                                    },
                                                ),
                                            ),
                                            p2,
                                        ),
                                    ),
                                    Result::Err(e) => Result::Err(e),
                                },
                                other => Result::Err(ErrorM::ExpectedIdentGot(other)),
                            }
                        }
                    },
                    _ => Result::Err(ErrorM::ExpectedFnDeclParens),
                },
                TokenM::Parens(inner) => match sp_read_expr(inner, 0, f1) {
                    Result::Ok((e, _)) => Result::Ok((ReachM::Expr(Box::new(e)), pos + 1)),
                    Result::Err(e) => Result::Err(
                        ErrorM::Context(
                            "while reading inside parentheses (reading a reach that's an expr in disguise)"@,
                            Box::new(e),
                        ),
                    ),
                },
                other => Result::Err(ErrorM::InvalidFirstReach(other)),
            },
        }
    }
}

/// Expands an expression leftward: while the next token is an operator,
/// the expression so far becomes the left operand of a larger one.
pub open spec fn sp_expand(toks: Seq<TokenM>, pos: int, e: ExprM, fuel: nat) -> Result<
    (ExprM, int),
    ErrorM,
>
    decreases fuel,
{
    if fuel == 0 {
        Result::Err(ErrorM::TooDeep)
    } else {
        let f1 = (fuel - 1) as nat;
        match sp_peek(toks, pos) {
            Option::Some(TokenM::Plus) => match sp_read_expr(toks, pos + 1, f1) {
                Result::Ok((b, p2)) => sp_expand(
                    toks,
                    p2,
                    ExprM::Add(sp_into_reach(e), sp_into_reach(b)),
                    f1,
                ),
                Result::Err(err) => Result::Err(err),
            },
            Option::Some(TokenM::Minus) => match sp_read_expr(toks, pos + 1, f1) {
                Result::Ok((b, p2)) => sp_expand(
                    toks,
                    p2,
                    ExprM::Sub(sp_into_reach(e), sp_into_reach(b)),
                    f1,
                ),
                Result::Err(err) => Result::Err(err),
            },
            Option::Some(TokenM::Dot) => match sp_read_reach(toks, pos + 1, f1) {
                Result::Ok((b, p2)) => match b {
                    ReachM::Named(name) => sp_expand(
                        toks,
                        p2,
                        ExprM::Index(
                            sp_into_reach(e),
                            IntoIndexM::Index(crate::lang::IndexM::Ident(name)),
                        ),
                        f1,
                    ),
                    ReachM::Value(ValueM::Int(n)) => sp_expand(
                        toks,
                        p2,
                        ExprM::Index(
                            sp_into_reach(e),
                            IntoIndexM::Index(crate::lang::IndexM::NumLit(n)),
                        ),
                        f1,
                    ),
                    ReachM::ArrayLiteral(arr) => {
                        if arr.len() == 1 {
                            sp_expand(
                                toks,
                                p2,
                                ExprM::Index(
                                    sp_into_reach(e),
                                    IntoIndexM::Expr(Box::new(arr[0])),
                                ),
                                f1,
                            )
                        } else {
                            Result::Err(ErrorM::InvalidIndex)
                        }
                    },
                    _ => Result::Err(ErrorM::InvalidIndex),
                },
                Result::Err(err) => Result::Err(
                    ErrorM::Context(
                        "while reading right-hand side of . indexing access"@,
                        Box::new(err),
                    ),
                ),
            },
            Option::Some(TokenM::Eq) => {
                if sp_peek(toks, pos + 1) == Option::Some(TokenM::Eq) {
                    match sp_read_expr(toks, pos + 2, f1) {
                        Result::Ok((b, p2)) => sp_expand(
                            toks,
                            p2,
                            ExprM::Cmp(sp_into_reach(e), sp_into_reach(b)),
                            f1,
                        ),
                        Result::Err(err) => Result::Err(
                            ErrorM::Context(
                                "while reading right side of equality check"@,
                                Box::new(err),
                            ),
                        ),
                    }
                } else {
                    Result::Ok((e, pos))
                }
            },
            Option::Some(TokenM::Gt) => match sp_read_expr(toks, pos + 1, f1) {
                Result::Ok((b, p2)) => sp_expand(
                    toks,
                    p2,
                    ExprM::Gt(sp_into_reach(e), sp_into_reach(b)),
                    f1,
                ),
                Result::Err(err) => Result::Err(
                    ErrorM::Context(
                        "while reading right side of greater than check"@,
                        Box::new(err),
                    ),
                ),
            },
            Option::Some(TokenM::Lt) => match sp_read_expr(toks, pos + 1, f1) {
                Result::Ok((b, p2)) => sp_expand(
                    toks,
                    p2,
                    ExprM::Lt(sp_into_reach(e), sp_into_reach(b)),
                    f1,
                ),
                Result::Err(err) => Result::Err(
                    ErrorM::Context(
                        "while reading right side of less than check"@,
                        Box::new(err),
                    ),
                ),
            },
            Option::Some(TokenM::Or) => match sp_read_expr(toks, pos + 1, f1) {
                Result::Ok((b, p2)) => sp_expand(
                    toks,
                    p2,
                    ExprM::Or(sp_into_reach(e), sp_into_reach(b)),
                    f1,
                ),
                Result::Err(err) => Result::Err(
                    ErrorM::Context(
                        "while reading right side of boolean or expression"@,
                        Box::new(err),
                    ),
                ),
            },
            Option::Some(TokenM::And) => match sp_read_expr(toks, pos + 1, f1) {
                Result::Ok((b, p2)) => sp_expand(
                    toks,
                    p2,
                    ExprM::And(sp_into_reach(e), sp_into_reach(b)),
                    f1,
                ),
                Result::Err(err) => Result::Err(
                    ErrorM::Context(
                        "while reading right side of boolean and operation"@,
                        Box::new(err),
                    ),
                ),
            },
            Option::Some(TokenM::Parens(l)) => {
                if l.len() > 0 {
                    match sp_read_expr(l, 0, f1) {
                        Result::Ok((a, _)) => sp_expand(
                            toks,
                            pos + 1,
                            ExprM::CallFn {
                                f: sp_into_reach(e),
                                args: Option::Some(sp_into_reach(a)),
                            },
                            f1,
                        ),
                        Result::Err(err) => Result::Err(err),
                    }
                } else {
                    sp_expand(
                        toks,
                        pos + 1,
                        ExprM::CallFn { f: sp_into_reach(e), args: Option::None },
                        f1,
                    )
                }
            },
            _ => Result::Ok((e, pos)),
        }
    }
}

/// Reads an expression: an `if` form, or a reach expanded leftward.
pub open spec fn sp_read_expr(toks: Seq<TokenM>, pos: int, fuel: nat) -> Result<
    (ExprM, int),
    ErrorM,
>
    decreases fuel,
{
    if fuel == 0 {
        Result::Err(ErrorM::TooDeep)
    } else {
        let f1 = (fuel - 1) as nat;
        if sp_peek(toks, pos) == Option::Some(TokenM::If) {
            match sp_read_expr(toks, pos + 1, f1) {
                Result::Ok((cond, p1)) => match sp_read_block(toks, p1, f1) {
                    Result::Ok((if_true, p2)) => {
                        if sp_peek(toks, p2) == Option::Some(TokenM::Else) {
                            match sp_read_block(toks, p2 + 1, f1) {
                                Result::Ok((if_false, p3)) => sp_expand(
                                    toks,
                                    p3,
                                    ExprM::Conditional {
                                        condition: ReachM::Expr(Box::new(cond)),
                                        if_true: ReachM::Expr(Box::new(ExprM::Block(if_true))),
                                        if_false: ReachM::Expr(
                                            Box::new(ExprM::Block(if_false)),
                                        ),
                                    },
                                    f1,
                                ),
                                Result::Err(e) => Result::Err(
                                    ErrorM::Context(
                                        "while reading else branch in if statement"@,
                                        Box::new(e),
                                    ),
                                ),
                            }
                        } else {
                            sp_expand(
                                toks,
                                p2,
                                ExprM::Conditional {
                                    condition: ReachM::Expr(Box::new(cond)),
                                    if_true: ReachM::Expr(Box::new(ExprM::Block(if_true))),
                                    if_false: ReachM::Value(ValueM::Nil),
                                },
                                f1,
                            )
                        }
                    },
                    Result::Err(e) => Result::Err(
                        ErrorM::Context(
                            "while reading if true branch in if statement"@,
                            Box::new(e),
                        ),
                    ),
                },
                Result::Err(e) => Result::Err(
                    ErrorM::Context(
                        "while reading condition in if statement"@,
                        Box::new(e),
                    ),
                ),
            }
        } else {
            match sp_read_reach(toks, pos, f1) {
                Result::Ok((r, p1)) => sp_expand(toks, p1, sp_into_expr(r), f1),
                Result::Err(e) => Result::Err(e),
            }
        }
    }
}

/// Reads a statement.
pub open spec fn sp_read_stmt(toks: Seq<TokenM>, pos: int, fuel: nat) -> Result<
    (StmtM, int),
    ErrorM,
>
    decreases fuel,
{
    if fuel == 0 {
        Result::Err(ErrorM::TooDeep)
    } else {
        let f1 = (fuel - 1) as nat;
        match sp_peek(toks, pos) {
            Option::None => Result::Err(ErrorM::EOFStatement),
            Option::Some(TokenM::Let) => match sp_peek(toks, pos + 1) {
                Option::Some(TokenM::Ident(name)) => match sp_peek(toks, pos + 2) {
                    Option::Some(TokenM::Eq) => match sp_read_expr(toks, pos + 3, f1) {
                        Result::Ok((e, p)) => Result::Ok((StmtM::SetVariable(name, e), p)),
                        Result::Err(e) => Result::Err(
                            ErrorM::Context(
                                "while declaring variable "@ + name,
                                Box::new(e),
                            ),
                        ),
                    },
                    _ => Result::Err(ErrorM::ExpectedEqLet),
                },
                _ => Result::Err(ErrorM::ExpectedVariableName),
            },
            Option::Some(TokenM::Loop) => match sp_read_block(toks, pos + 1, f1) {
                Result::Ok((b, p)) => Result::Ok((StmtM::Loop(b), p)),
                Result::Err(e) => Result::Err(
                    ErrorM::Context("while reading loop block"@, Box::new(e)),
                ),
            },
            Option::Some(TokenM::Break) => Result::Ok((StmtM::Break, pos + 1)),
            Option::Some(TokenM::For) => match sp_peek(toks, pos + 1) {
                Option::None => Result::Err(ErrorM::ExpectedIdentFor(Option::None)),
                Option::Some(TokenM::Ident(name)) => match sp_peek(toks, pos + 2) {
                    Option::None => Result::Err(ErrorM::ExpectedInFor(Option::None)),
                    Option::Some(TokenM::In) => match sp_read_expr(toks, pos + 3, f1) {
                        Result::Ok((iter, p1)) => match sp_read_block(toks, p1, f1) {
                            Result::Ok((b, p2)) => Result::Ok(
                                (StmtM::LoopFor { v_name: name, iter, block: b }, p2),
                            ),
                            Result::Err(e) => Result::Err(
                                ErrorM::Context(
                                    "in a for loop that uses variable name \""@ + name + "\""@,
                                    Box::new(e),
                                ),
                            ),
                        },
                        Result::Err(e) => Result::Err(
                            ErrorM::Context(
                                "as iterator in for loop with variable name \""@ + name + "\""@,
                                Box::new(e),
                            ),
                        ),
                    },
                    Option::Some(other) => Result::Err(
                        ErrorM::ExpectedInFor(Option::Some(other)),
                    ),
                },
                Option::Some(other) => Result::Err(
                    ErrorM::ExpectedIdentFor(Option::Some(other)),
                ),
            },
            Option::Some(_) => match sp_read_expr(toks, pos, f1) {
                Result::Ok((e, p1)) => match e {
                    ExprM::Reach(ReachM::Named(name)) => {
                        if sp_peek(toks, p1) == Option::Some(TokenM::Eq) {
                            match sp_read_expr(toks, p1 + 1, f1) {
                                Result::Ok((rhs, p2)) => Result::Ok(
                                    (StmtM::ModifyVariable(name, rhs), p2),
                                ),
                                Result::Err(err) => Result::Err(err),
                            }
                        } else {
                            Result::Ok((StmtM::Expr(ExprM::Reach(ReachM::Named(name))), p1))
                        }
                    },
                    other => Result::Ok((StmtM::Expr(other), p1)),
                },
                Result::Err(e) => Result::Err(
                    ErrorM::Context(
                        "while reading an expr in a statement"@,
                        Box::new(e),
                    ),
                ),
            },
        }
    }
}

/// Reads a block: a curly group parsed as statements and preprocessed.
pub open spec fn sp_read_block(toks: Seq<TokenM>, pos: int, fuel: nat) -> Result<
    (Seq<StmtM>, int),
    ErrorM,
>
    decreases fuel,
{
    if fuel == 0 {
        Result::Err(ErrorM::TooDeep)
    } else {
        match sp_peek(toks, pos) {
            Option::Some(TokenM::Curly(inner)) => match sp_stmts_until(
                inner,
                0,
                (fuel - 1) as nat,
            ) {
                Result::Ok(sts) => Result::Ok((sp_preproc(sts), pos + 1)),
                Result::Err(e) => Result::Err(e),
            },
            _ => Result::Err(ErrorM::ExpectedBlock),
        }
    }
}

/// Reads statements until the end of the tokens.
pub open spec fn sp_stmts_until(toks: Seq<TokenM>, pos: int, fuel: nat) -> Result<
    Seq<StmtM>,
    ErrorM,
>
    decreases fuel,
{
    if fuel == 0 {
        Result::Err(ErrorM::TooDeep)
    } else {
        match sp_read_stmt(toks, pos, (fuel - 1) as nat) {
            Result::Err(ErrorM::EOFStatement) => Result::Ok(Seq::empty()),
            Result::Err(e) => Result::Err(e),
            Result::Ok((s, p1)) => match sp_stmts_until(toks, p1, (fuel - 1) as nat) {
                Result::Ok(rest) => Result::Ok(seq![s] + rest),
                Result::Err(e) => Result::Err(e),
            },
        }
    }
}

/// Reads adjacent expressions until the end of the tokens, as an array
/// literal holds them.
pub open spec fn sp_cse(toks: Seq<TokenM>, pos: int, fuel: nat) -> Result<Seq<ExprM>, ErrorM>
    decreases fuel,
{
    if fuel == 0 {
        Result::Err(ErrorM::TooDeep)
    } else {
        match sp_read_expr(toks, pos, (fuel - 1) as nat) {
            Result::Err(ErrorM::EOFExpr) => Result::Ok(Seq::empty()),
            Result::Err(ErrorM::EOFReach) => Result::Ok(Seq::empty()),
            Result::Err(e) => Result::Err(e),
            Result::Ok((e, p1)) => match sp_cse(toks, p1, (fuel - 1) as nat) {
                Result::Ok(rest) => Result::Ok(seq![e] + rest),
                Result::Err(err) => Result::Err(err),
            },
        }
    }
}

/// Reads the `key: value` entries of an object literal until the end of
/// the tokens.
pub open spec fn sp_object(toks: Seq<TokenM>, pos: int, fuel: nat) -> Result<
    Seq<(Seq<char>, ExprM)>,
    ErrorM,
>
    decreases fuel,
{
    if fuel == 0 {
        Result::Err(ErrorM::TooDeep)
    } else {
        let f1 = (fuel - 1) as nat;
        match sp_peek(toks, pos) {
            Option::None => Result::Ok(Seq::empty()),
            Option::Some(t) => {
                let key = match t {
                    TokenM::Ident(n) => Option::Some(n),
                    TokenM::StrLit(n) => Option::Some(n),
                    TokenM::NumLit(n) => Option::Some(n),
                    _ => Option::None,
                };
                match key {
                    Option::None => Result::Err(ErrorM::ExpectedIdentObj),
                    Option::Some(k) => match sp_peek(toks, pos + 1) {
                        Option::Some(TokenM::Colon) => match sp_read_expr(toks, pos + 2, f1) {
                            Result::Ok((v, p2)) => match sp_object(toks, p2, f1) {
                                Result::Ok(rest) => Result::Ok(seq![(k, v)] + rest),
                                Result::Err(e) => Result::Err(e),
                            },
                            Result::Err(e) => Result::Err(
                                ErrorM::Context(
                                    "while parsing an object literal"@,
                                    Box::new(e),
                                ),
                            ),
                        },
                        Option::None => Result::Err(ErrorM::ExpectedColonObj(Option::None)),
                        Option::Some(other) => Result::Err(
                            ErrorM::ExpectedColonObj(Option::Some(other)),
                        ),
                    },
                }
            },
        }
    }
}

// ---------------------------------------------------------------------------
// Preprocessor
// ---------------------------------------------------------------------------

/// Rewrites one statement: a bare string literal statement `"__pause"` or
/// `"__dump_ctx"` becomes the corresponding debug statement.
pub open spec fn sp_preproc_stmt(s: StmtM) -> StmtM {
    match s {
        StmtM::Expr(ExprM::Reach(ReachM::Value(ValueM::Str(w)))) => {
            if w == "__pause"@ {
                StmtM::Pause
            } else if w == "__dump_ctx"@ {
                StmtM::DumpContext
            } else {
                s
            }
        },
        _ => s,
    }
}

/// Rewrites a statement stream, statement by statement.
pub open spec fn sp_preproc(sts: Seq<StmtM>) -> Seq<StmtM> {
    Seq::new(sts.len(), |i: int| sp_preproc_stmt(sts[i]))
}

/// The fuel the parser entry points supply: far above what a token stream
/// of the source's length can use.
pub open spec fn sp_parse_fuel(n: nat) -> nat {
    if 16 * n + 64 <= u64::MAX {
        16 * n + 64
    } else {
        u64::MAX as nat
    }
}

/// What parsing a whole source yields: its tokens read as statements
/// until exhaustion, then preprocessed.
pub open spec fn sp_parse(s: Seq<char>) -> Result<Seq<StmtM>, ErrorM> {
    match crate::tokens::sp_tokenize(s, 0) {
        Result::Err(te) => Result::Err(ErrorM::Tokenize(te)),
        Result::Ok(toks) => match sp_stmts_until(toks, 0, sp_parse_fuel(s.len())) {
            Result::Ok(sts) => Result::Ok(sp_preproc(sts)),
            Result::Err(e) => Result::Err(e),
        },
    }
}

// ---------------------------------------------------------------------------
// The parser, executable
// ---------------------------------------------------------------------------

/// The token at a position, if any.
fn peek<'a>(toks: &'a Vec<Token>, pos: usize) -> (r: Option<&'a Token>)
    ensures
        match r {
            Option::Some(t) => sp_peek(view_tokens(toks@), pos as int) == Option::Some(t@)
                && pos < toks@.len(),
            Option::None => sp_peek(view_tokens(toks@), pos as int) is None && pos >= toks@.len(),
        },
{
    proof {
        crate::tokens::lemma_view_tokens_len(toks@);
    }
    if pos < toks.len() {
        proof {
            crate::tokens::lemma_view_tokens_index(toks@, pos as int);
        }
        Option::Some(&toks[pos])
    } else {
        Option::None
    }
}

/// Reads a reach.
#[verifier::rlimit(80)]
fn read_reach_at(toks: &Vec<Token>, pos: usize, fuel: u64) -> (r: Result<(Reach, usize), Error>)
    requires
        pos <= toks@.len(),
    ensures
        match r {
            Result::Ok((x, p)) => sp_read_reach(view_tokens(toks@), pos as int, fuel as nat)
                == Result::<(ReachM, int), ErrorM>::Ok((x@, p as int)) && p <= toks@.len(),
            Result::Err(e) => sp_read_reach(view_tokens(toks@), pos as int, fuel as nat)
                == Result::<(ReachM, int), ErrorM>::Err(e@),
        },
    decreases fuel, 0int,
{
    if fuel == 0 {
        return Result::Err(Error::TooDeep);
    }
    proof {
        vstd::std_specs::vec::axiom_spec_len(toks);
        reveal_with_fuel(crate::lang::view_stmt, 6);
        reveal_with_fuel(crate::lang::view_expr, 6);
        reveal_with_fuel(crate::lang::view_reach, 6);
        reveal_with_fuel(crate::lang::view_value, 6);
    }
    match peek(toks, pos) {
        Option::None => Result::Err(Error::EOFReach),
        Option::Some(t) => match t {
            Token::Ident(name) => {
                let is_obj = str_eq(name.as_str(), "obj");
                let mut curly: Option<&Vec<Token>> = Option::None;
                if is_obj {
                    match peek(toks, pos + 1) {
                        Option::Some(Token::Curly(map)) => {
                            curly = Option::Some(map);
                        },
                        _ => {
                        },
                    }
                }
                match curly {
                    Option::Some(map) => {
                        match object_at(map, 0, fuel - 1) {
                            Result::Ok(entries) => Result::Ok(
                                (Reach::ObjectLiteral(entries), pos + 2),
                            ),
                            Result::Err(e) => Result::Err(e),
                        }
                    },
                    Option::None => Result::Ok((Reach::Named(name.clone()), pos + 1)),
                }
            },
            Token::StrLit(s) => Result::Ok((Reach::Value(Value::Str(s.clone())), pos + 1)),
            Token::NumLit(s) => match crate::num::parse_i32_digits(s.as_str()) {
                Option::Some(n) => Result::Ok((Reach::Value(Value::Int(n)), pos + 1)),
                Option::None => Result::Err(Error::InvalidNumLit(s.clone())),
            },
            Token::Brackets(b) => match cse_at(b, 0, fuel - 1) {
                Result::Ok(es) => Result::Ok((Reach::ArrayLiteral(es), pos + 1)),
                Result::Err(e) => Result::Err(
                    e.with_context(
                        ("while parsing expressions inside an array literal").to_owned(),
                    ),
                ),
            },
            Token::Fn => match peek(toks, pos + 1) {
                Option::Some(Token::Parens(ps)) => {
                    proof {
                        crate::tokens::lemma_view_tokens_len(ps@);
                    }
                    if ps.len() == 0 {
                        match read_block_at(toks, pos + 2, fuel - 1) {
                            Result::Ok((b, p2)) => Result::Ok(
                                (
                                    Reach::Value(
                                        Value::Function(
                                            Function { arg_name: Option::None, block: b },
                                        ),
                                    ),
                                    p2,
                                ),
                            ),
                            Result::Err(e) => Result::Err(e),
                        }
                    } else if ps.len() > 1 {
                        Result::Err(Error::TooManyFnArgs)
                    } else {
                        proof {
                            crate::tokens::lemma_view_tokens_index(ps@, 0int);
                        }
                        match &ps[0] {
                            Token::Ident(n) => match read_block_at(toks, pos + 2, fuel - 1) {
                                Result::Ok((b, p2)) => Result::Ok(
                                    (
                                        Reach::Value(
                                            Value::Function(
                                                Function {
                                                    arg_name: Option::Some(n.clone()),
                                                    block: b,
                                                },
                                            ),
                                        ),
                                        p2,
                                    ),
                                ),
                                Result::Err(e) => Result::Err(e),
                            },
                            other => Result::Err(
                                Error::ExpectedIdentGot(crate::tokens::token_clone(other)),
                            ),
                        }
                    }
                },
                _ => Result::Err(Error::ExpectedFnDeclParens),
            },
            Token::Parens(inner) => match read_expr_at(inner, 0, fuel - 1) {
                Result::Ok((e, _)) => Result::Ok((Reach::Expr(Box::new(e)), pos + 1)),
                Result::Err(e) => Result::Err(
                    e.with_context(
                        (
                            "while reading inside parentheses (reading a reach that's an expr in disguise)"
                        ).to_owned(),
                    ),
                ),
            },
            other => Result::Err(Error::InvalidFirstReach(crate::tokens::token_clone(other))),
        },
    }
}

/// Expands an expression leftward over operators and call groups.
fn expand_at(toks: &Vec<Token>, pos: usize, e: Expr, fuel: u64) -> (r: Result<
    (Expr, usize),
    Error,
>)
    requires
        pos <= toks@.len(),
    ensures
        match r {
            Result::Ok((x, p)) => sp_expand(view_tokens(toks@), pos as int, e@, fuel as nat)
                == Result::<(ExprM, int), ErrorM>::Ok((x@, p as int)) && p <= toks@.len(),
            Result::Err(err) => sp_expand(view_tokens(toks@), pos as int, e@, fuel as nat)
                == Result::<(ExprM, int), ErrorM>::Err(err@),
        },
    decreases fuel, 0int,
{
    if fuel == 0 {
        return Result::Err(Error::TooDeep);
    }
    proof {
        vstd::std_specs::vec::axiom_spec_len(toks);
        reveal_with_fuel(crate::lang::view_stmt, 6);
        reveal_with_fuel(crate::lang::view_expr, 6);
        reveal_with_fuel(crate::lang::view_reach, 6);
        reveal_with_fuel(crate::lang::view_value, 6);
    }
    let next = peek(toks, pos);
    match next {
        Option::Some(Token::Plus) => match read_expr_at(toks, pos + 1, fuel - 1) {
            Result::Ok((b, p2)) => {
                let left = e.into_reach();
                let right = b.into_reach();
                expand_at(toks, p2, Expr::Add(left, right), fuel - 1)
            },
            Result::Err(err) => Result::Err(err),
        },
        Option::Some(Token::Minus) => match read_expr_at(toks, pos + 1, fuel - 1) {
            Result::Ok((b, p2)) => {
                let left = e.into_reach();
                let right = b.into_reach();
                expand_at(toks, p2, Expr::Sub(left, right), fuel - 1)
            },
            Result::Err(err) => Result::Err(err),
        },
        Option::Some(Token::Dot) => match read_reach_at(toks, pos + 1, fuel - 1) {
            Result::Ok((b, p2)) => match b {
                Reach::Named(name) => {
                    let left = e.into_reach();
                    expand_at(
                        toks,
                        p2,
                        Expr::Index(left, IntoIndex::Index(Index::Ident(name))),
                        fuel - 1,
                    )
                },
                Reach::Value(Value::Int(n)) => {
                    let left = e.into_reach();
                    expand_at(
                        toks,
                        p2,
                        Expr::Index(left, IntoIndex::Index(Index::NumLit(n))),
                        fuel - 1,
                    )
                },
                Reach::ArrayLiteral(arr) => {
                    proof {
                        crate::lang::lemma_view_exprs_len(arr@);
                    }
                    if arr.len() == 1 {
                        let mut arr = arr;
                        let inner = arr.pop().unwrap();
                        proof {
                            crate::lang::lemma_view_exprs_index(arr@.push(inner), 0int);
                        }
                        let left = e.into_reach();
                        expand_at(
                            toks,
                            p2,
                            Expr::Index(left, IntoIndex::Expr(Box::new(inner))),
                            fuel - 1,
                        )
                    } else {
                        Result::Err(Error::InvalidIndex)
                    }
                },
                _ => Result::Err(Error::InvalidIndex),
            },
            Result::Err(err) => Result::Err(
                e_ctx(err, "while reading right-hand side of . indexing access"),
            ),
        },
        Option::Some(Token::Eq) => {
            let second = match peek(toks, pos + 1) {
                Option::Some(Token::Eq) => true,
                _ => false,
            };
            if second {
                match read_expr_at(toks, pos + 2, fuel - 1) {
                    Result::Ok((b, p2)) => {
                        let left = e.into_reach();
                        let right = b.into_reach();
                        expand_at(toks, p2, Expr::Cmp(left, right), fuel - 1)
                    },
                    Result::Err(err) => Result::Err(
                        e_ctx(err, "while reading right side of equality check"),
                    ),
                }
            } else {
                Result::Ok((e, pos))
            }
        },
        Option::Some(Token::Gt) => match read_expr_at(toks, pos + 1, fuel - 1) {
            Result::Ok((b, p2)) => {
                let left = e.into_reach();
                let right = b.into_reach();
                expand_at(toks, p2, Expr::Gt(left, right), fuel - 1)
            },
            Result::Err(err) => Result::Err(
                e_ctx(err, "while reading right side of greater than check"),
            ),
        },
        Option::Some(Token::Lt) => match read_expr_at(toks, pos + 1, fuel - 1) {
            Result::Ok((b, p2)) => {
                let left = e.into_reach();
                let right = b.into_reach();
                expand_at(toks, p2, Expr::Lt(left, right), fuel - 1)
            },
            Result::Err(err) => Result::Err(
                e_ctx(err, "while reading right side of less than check"),
            ),
        },
        Option::Some(Token::Or) => match read_expr_at(toks, pos + 1, fuel - 1) {
            Result::Ok((b, p2)) => {
                let left = e.into_reach();
                let right = b.into_reach();
                expand_at(toks, p2, Expr::Or(left, right), fuel - 1)
            },
            Result::Err(err) => Result::Err(
                e_ctx(err, "while reading right side of boolean or expression"),
            ),
        },
        Option::Some(Token::And) => match read_expr_at(toks, pos + 1, fuel - 1) {
            Result::Ok((b, p2)) => {
                let left = e.into_reach();
                let right = b.into_reach();
                expand_at(toks, p2, Expr::And(left, right), fuel - 1)
            },
            Result::Err(err) => Result::Err(
                e_ctx(err, "while reading right side of boolean and operation"),
            ),
        },
        Option::Some(Token::Parens(l)) => {
            proof {
                crate::tokens::lemma_view_tokens_len(l@);
            }
            if l.len() > 0 {
                match read_expr_at(l, 0, fuel - 1) {
                    Result::Ok((a, _)) => {
                        let left = e.into_reach();
                        let arg = a.into_reach();
                        expand_at(
                            toks,
                            pos + 1,
                            Expr::CallFn { f: left, args: Option::Some(arg) },
                            fuel - 1,
                        )
                    },
                    Result::Err(err) => Result::Err(err),
                }
            } else {
                let left = e.into_reach();
                expand_at(
                    toks,
                    pos + 1,
                    Expr::CallFn { f: left, args: Option::None },
                    fuel - 1,
                )
            }
        },
        _ => Result::Ok((e, pos)),
    }
}

/// Wraps an error in a context literal.
fn e_ctx(e: Error, context: &str) -> (r: Error)
    ensures
        r@ == ErrorM::Context(context@, Box::new(e@)),
{
    e.with_context(context.to_owned())
}

/// Reads an expression.
#[verifier::rlimit(80)]
fn read_expr_at(toks: &Vec<Token>, pos: usize, fuel: u64) -> (r: Result<(Expr, usize), Error>)
    requires
        pos <= toks@.len(),
    ensures
        match r {
            Result::Ok((x, p)) => sp_read_expr(view_tokens(toks@), pos as int, fuel as nat)
                == Result::<(ExprM, int), ErrorM>::Ok((x@, p as int)) && p <= toks@.len(),
            Result::Err(e) => sp_read_expr(view_tokens(toks@), pos as int, fuel as nat)
                == Result::<(ExprM, int), ErrorM>::Err(e@),
        },
    decreases fuel, 1int,
{
    if fuel == 0 {
        return Result::Err(Error::TooDeep);
    }
    proof {
        vstd::std_specs::vec::axiom_spec_len(toks);
        reveal_with_fuel(crate::lang::view_stmt, 6);
        reveal_with_fuel(crate::lang::view_expr, 6);
        reveal_with_fuel(crate::lang::view_reach, 6);
        reveal_with_fuel(crate::lang::view_value, 6);
    }
    let is_if = match peek(toks, pos) {
        Option::Some(Token::If) => true,
        _ => false,
    };
    if is_if {
        let (cond, p1) = match read_expr_at(toks, pos + 1, fuel - 1) {
            Result::Ok(x) => x,
            Result::Err(e) => {
                return Result::Err(e_ctx(e, "while reading condition in if statement"));
            },
        };
        let (if_true, p2) = match read_block_at(toks, p1, fuel - 1) {
            Result::Ok(x) => x,
            Result::Err(e) => {
                return Result::Err(e_ctx(e, "while reading if true branch in if statement"));
            },
        };
        let has_else = match peek(toks, p2) {
            Option::Some(Token::Else) => true,
            _ => false,
        };
        if has_else {
            let (if_false, p3) = match read_block_at(toks, p2 + 1, fuel - 1) {
                Result::Ok(x) => x,
                Result::Err(e) => {
                    return Result::Err(e_ctx(e, "while reading else branch in if statement"));
                },
            };
            expand_at(
                toks,
                p3,
                Expr::Conditional {
                    condition: Reach::Expr(Box::new(cond)),
                    if_true: Reach::Expr(Box::new(Expr::Block(if_true))),
                    if_false: Reach::Expr(Box::new(Expr::Block(if_false))),
                },
                fuel - 1,
            )
        } else {
            expand_at(
                toks,
                p2,
                Expr::Conditional {
                    condition: Reach::Expr(Box::new(cond)),
                    if_true: Reach::Expr(Box::new(Expr::Block(if_true))),
                    if_false: Reach::Value(Value::Nil),
                },
                fuel - 1,
            )
        }
    } else {
        match read_reach_at(toks, pos, fuel - 1) {
            Result::Ok((r0, p1)) => {
                let e0 = r0.into_expr();
                expand_at(toks, p1, e0, fuel - 1)
            },
            Result::Err(e) => Result::Err(e),
        }
    }
}

/// The first token of a statement, grouped by the form it opens.
enum Head {
    LetKw,
    LoopKw,
    BreakKw,
    ForKw,
    OtherTok,
    Nothing,
}

/// Reads a statement.
fn read_stmt_at(toks: &Vec<Token>, pos: usize, fuel: u64) -> (r: Result<(Statement, usize), Error>)
    requires
        pos <= toks@.len(),
    ensures
        match r {
            Result::Ok((x, p)) => sp_read_stmt(view_tokens(toks@), pos as int, fuel as nat)
                == Result::<(StmtM, int), ErrorM>::Ok((x@, p as int)) && p <= toks@.len(),
            Result::Err(e) => sp_read_stmt(view_tokens(toks@), pos as int, fuel as nat)
                == Result::<(StmtM, int), ErrorM>::Err(e@),
        },
    decreases fuel, 2int,
{
    if fuel == 0 {
        return Result::Err(Error::TooDeep);
    }
    proof {
        vstd::std_specs::vec::axiom_spec_len(toks);
        reveal_with_fuel(crate::lang::view_stmt, 6);
        reveal_with_fuel(crate::lang::view_expr, 6);
        reveal_with_fuel(crate::lang::view_reach, 6);
        reveal_with_fuel(crate::lang::view_value, 6);
    }
    let head = match peek(toks, pos) {
        Option::None => Head::Nothing,
        Option::Some(Token::Let) => Head::LetKw,
        Option::Some(Token::Loop) => Head::LoopKw,
        Option::Some(Token::Break) => Head::BreakKw,
        Option::Some(Token::For) => Head::ForKw,
        Option::Some(_) => Head::OtherTok,
    };
    match head {
        Head::Nothing => Result::Err(Error::EOFStatement),
        Head::LetKw => {
            let name: String = match peek(toks, pos + 1) {
                Option::Some(Token::Ident(n)) => n.clone(),
                _ => {
                    return Result::Err(Error::ExpectedVariableName);
                },
            };
            match peek(toks, pos + 2) {
                Option::Some(Token::Eq) => {
                },
                _ => {
                    return Result::Err(Error::ExpectedEqLet);
                },
            }
            match read_expr_at(toks, pos + 3, fuel - 1) {
                Result::Ok((e, p)) => Result::Ok((Statement::SetVariable(name, e), p)),
                Result::Err(e) => {
                    let mut c = ("while declaring variable ").to_owned();
                    c.append(name.as_str());
                    Result::Err(e.with_context(c))
                },
            }
        },
        Head::LoopKw => match read_block_at(toks, pos + 1, fuel - 1) {
            Result::Ok((b, p)) => Result::Ok((Statement::Loop(b), p)),
            Result::Err(e) => Result::Err(e_ctx(e, "while reading loop block")),
        },
        Head::BreakKw => Result::Ok((Statement::Break, pos + 1)),
        Head::ForKw => {
            let name: String = match peek(toks, pos + 1) {
                Option::None => {
                    return Result::Err(Error::ExpectedIdentFor(Option::None));
                },
                Option::Some(Token::Ident(n)) => n.clone(),
                Option::Some(other) => {
                    return Result::Err(
                        Error::ExpectedIdentFor(
                            Option::Some(crate::tokens::token_clone(other)),
                        ),
                    );
                },
            };
            match peek(toks, pos + 2) {
                Option::None => {
                    return Result::Err(Error::ExpectedInFor(Option::None));
                },
                Option::Some(Token::In) => {
                },
                Option::Some(other) => {
                    return Result::Err(
                        Error::ExpectedInFor(Option::Some(crate::tokens::token_clone(other))),
                    );
                },
            }
            let (iter, p1) = match read_expr_at(toks, pos + 3, fuel - 1) {
                Result::Ok(x) => x,
                Result::Err(e) => {
                    let mut c = ("as iterator in for loop with variable name \"").to_owned();
                    c.append(name.as_str());
                    c.append("\"");
                    return Result::Err(e.with_context(c));
                },
            };
            match read_block_at(toks, p1, fuel - 1) {
                Result::Ok((b, p2)) => Result::Ok(
                    (Statement::LoopFor { v_name: name, iter, block: b }, p2),
                ),
                Result::Err(e) => {
                    let mut c = ("in a for loop that uses variable name \"").to_owned();
                    c.append(name.as_str());
                    c.append("\"");
                    Result::Err(e.with_context(c))
                },
            }
        },
        Head::OtherTok => match read_expr_at(toks, pos, fuel - 1) {
            Result::Ok((e, p1)) => match e {
                Expr::Reach(Reach::Named(name)) => {
                    let has_eq = match peek(toks, p1) {
                        Option::Some(Token::Eq) => true,
                        _ => false,
                    };
                    if has_eq {
                        match read_expr_at(toks, p1 + 1, fuel - 1) {
                            Result::Ok((rhs, p2)) => Result::Ok(
                                (Statement::ModifyVariable(name, rhs), p2),
                            ),
                            Result::Err(err) => Result::Err(err),
                        }
                    } else {
                        Result::Ok((Statement::Expr(Expr::Reach(Reach::Named(name))), p1))
                    }
                },
                other => Result::Ok((Statement::Expr(other), p1)),
            },
            Result::Err(e) => Result::Err(e_ctx(e, "while reading an expr in a statement")),
        },
    }
}

/// Reads a block: a curly group parsed as statements and preprocessed.
fn read_block_at(toks: &Vec<Token>, pos: usize, fuel: u64) -> (r: Result<(Block, usize), Error>)
    requires
        pos <= toks@.len(),
    ensures
        match r {
            Result::Ok((x, p)) => sp_read_block(view_tokens(toks@), pos as int, fuel as nat)
                == Result::<(Seq<StmtM>, int), ErrorM>::Ok((x@, p as int)) && p <= toks@.len(),
            Result::Err(e) => sp_read_block(view_tokens(toks@), pos as int, fuel as nat)
                == Result::<(Seq<StmtM>, int), ErrorM>::Err(e@),
        },
    decreases fuel, 0int,
{
    if fuel == 0 {
        return Result::Err(Error::TooDeep);
    }
    proof {
        vstd::std_specs::vec::axiom_spec_len(toks);
        reveal_with_fuel(crate::lang::view_stmt, 6);
        reveal_with_fuel(crate::lang::view_expr, 6);
        reveal_with_fuel(crate::lang::view_reach, 6);
        reveal_with_fuel(crate::lang::view_value, 6);
    }
    match peek(toks, pos) {
        Option::Some(Token::Curly(inner)) => match stmts_until_at(inner, 0, fuel - 1) {
            Result::Ok(sts) => Result::Ok((Block(preproc(sts)), pos + 1)),
            Result::Err(e) => Result::Err(e),
        },
        _ => Result::Err(Error::ExpectedBlock),
    }
}

/// Reads statements until the tokens are exhausted.
fn stmts_until_at(toks: &Vec<Token>, pos: usize, fuel: u64) -> (r: Result<Vec<Statement>, Error>)
    requires
        pos <= toks@.len(),
    ensures
        match r {
            Result::Ok(sts) => sp_stmts_until(view_tokens(toks@), pos as int, fuel as nat)
                == Result::<Seq<StmtM>, ErrorM>::Ok(view_stmts(sts@)),
            Result::Err(e) => sp_stmts_until(view_tokens(toks@), pos as int, fuel as nat)
                == Result::<Seq<StmtM>, ErrorM>::Err(e@),
        },
    decreases fuel, 3int,
{
    if fuel == 0 {
        return Result::Err(Error::TooDeep);
    }
    proof {
        vstd::std_specs::vec::axiom_spec_len(toks);
        reveal_with_fuel(crate::lang::view_stmt, 6);
        reveal_with_fuel(crate::lang::view_expr, 6);
        reveal_with_fuel(crate::lang::view_reach, 6);
        reveal_with_fuel(crate::lang::view_value, 6);
    }
    match read_stmt_at(toks, pos, fuel - 1) {
        Result::Err(Error::EOFStatement) => {
            let r: Vec<Statement> = Vec::new();
            assert(view_stmts(r@) =~= Seq::<StmtM>::empty());
            Result::Ok(r)
        },
        Result::Err(e) => Result::Err(e),
        Result::Ok((s, p1)) => match stmts_until_at(toks, p1, fuel - 1) {
            Result::Ok(rest) => {
                let ghost sm = s@;
                let ghost restm = rest@;
                let mut out: Vec<Statement> = Vec::new();
                out.push(s);
                let mut rest = rest;
                out.append(&mut rest);
                proof {
                    assert(out@ == seq![out@[0]] + restm);
                    assert(out@.drop_first() =~= restm);
                    assert(view_stmts(out@) == seq![sm] + view_stmts(restm));
                }
                Result::Ok(out)
            },
            Result::Err(e) => Result::Err(e),
        },
    }
}

/// Reads adjacent expressions until the tokens are exhausted.
fn cse_at(toks: &Vec<Token>, pos: usize, fuel: u64) -> (r: Result<Vec<Expr>, Error>)
    requires
        pos <= toks@.len(),
    ensures
        match r {
            Result::Ok(es) => sp_cse(view_tokens(toks@), pos as int, fuel as nat) == Result::<
                Seq<ExprM>,
                ErrorM,
            >::Ok(crate::lang::view_exprs(es@)),
            Result::Err(e) => sp_cse(view_tokens(toks@), pos as int, fuel as nat) == Result::<
                Seq<ExprM>,
                ErrorM,
            >::Err(e@),
        },
    decreases fuel, 3int,
{
    if fuel == 0 {
        return Result::Err(Error::TooDeep);
    }
    proof {
        vstd::std_specs::vec::axiom_spec_len(toks);
        reveal_with_fuel(crate::lang::view_stmt, 6);
        reveal_with_fuel(crate::lang::view_expr, 6);
        reveal_with_fuel(crate::lang::view_reach, 6);
        reveal_with_fuel(crate::lang::view_value, 6);
    }
    match read_expr_at(toks, pos, fuel - 1) {
        Result::Err(Error::EOFExpr) => {
            let r: Vec<Expr> = Vec::new();
            assert(crate::lang::view_exprs(r@) =~= Seq::<ExprM>::empty());
            Result::Ok(r)
        },
        Result::Err(Error::EOFReach) => {
            let r: Vec<Expr> = Vec::new();
            assert(crate::lang::view_exprs(r@) =~= Seq::<ExprM>::empty());
            Result::Ok(r)
        },
        Result::Err(e) => Result::Err(e),
        Result::Ok((e, p1)) => match cse_at(toks, p1, fuel - 1) {
            Result::Ok(rest) => {
                let ghost em = e@;
                let ghost restm = rest@;
                let mut out: Vec<Expr> = Vec::new();
                out.push(e);
                let mut rest = rest;
                out.append(&mut rest);
                proof {
                    assert(out@ == seq![out@[0]] + restm);
                    assert(out@.drop_first() =~= restm);
                    assert(crate::lang::view_exprs(out@) == seq![em] + crate::lang::view_exprs(
                        restm,
                    ));
                }
                Result::Ok(out)
            },
            Result::Err(err) => Result::Err(err),
        },
    }
}

/// Reads the entries of an object literal until the tokens are exhausted.
fn object_at(toks: &Vec<Token>, pos: usize, fuel: u64) -> (r: Result<Vec<(String, Expr)>, Error>)
    requires
        pos <= toks@.len(),
    ensures
        match r {
            Result::Ok(ps) => sp_object(view_tokens(toks@), pos as int, fuel as nat) == Result::<
                Seq<(Seq<char>, ExprM)>,
                ErrorM,
            >::Ok(crate::lang::view_expr_pairs(ps@)),
            Result::Err(e) => sp_object(view_tokens(toks@), pos as int, fuel as nat) == Result::<
                Seq<(Seq<char>, ExprM)>,
                ErrorM,
            >::Err(e@),
        },
    decreases fuel, 3int,
{
    if fuel == 0 {
        return Result::Err(Error::TooDeep);
    }
    proof {
        vstd::std_specs::vec::axiom_spec_len(toks);
        reveal_with_fuel(crate::lang::view_stmt, 6);
        reveal_with_fuel(crate::lang::view_expr, 6);
        reveal_with_fuel(crate::lang::view_reach, 6);
        reveal_with_fuel(crate::lang::view_value, 6);
    }
    let key: String = match peek(toks, pos) {
        Option::None => {
            let r: Vec<(String, Expr)> = Vec::new();
            assert(crate::lang::view_expr_pairs(r@) =~= Seq::<(Seq<char>, ExprM)>::empty());
            return Result::Ok(r);
        },
        Option::Some(Token::Ident(n)) => n.clone(),
        Option::Some(Token::StrLit(n)) => n.clone(),
        Option::Some(Token::NumLit(n)) => n.clone(),
        Option::Some(_) => {
            return Result::Err(Error::ExpectedIdentObj);
        },
    };
    match peek(toks, pos + 1) {
        Option::Some(Token::Colon) => {
        },
        Option::None => {
            return Result::Err(Error::ExpectedColonObj(Option::None));
        },
        Option::Some(other) => {
            return Result::Err(
                Error::ExpectedColonObj(Option::Some(crate::tokens::token_clone(other))),
            );
        },
    }
    match read_expr_at(toks, pos + 2, fuel - 1) {
        Result::Ok((v, p2)) => match object_at(toks, p2, fuel - 1) {
            Result::Ok(rest) => {
                let ghost km = key@;
                let ghost vm = v@;
                let ghost restm = rest@;
                let mut out: Vec<(String, Expr)> = Vec::new();
                out.push((key, v));
                let mut rest = rest;
                out.append(&mut rest);
                proof {
                    assert(out@ == seq![out@[0]] + restm);
                    assert(out@.drop_first() =~= restm);
                    assert(crate::lang::view_expr_pairs(out@) == seq![(km, vm)]
                        + crate::lang::view_expr_pairs(restm));
                }
                Result::Ok(out)
            },
            Result::Err(e) => Result::Err(e),
        },
        Result::Err(e) => Result::Err(e_ctx(e, "while parsing an object literal")),
    }
}



/// Rewrites one statement, as the preprocessor does.
#[verifier::rlimit(80)]
fn preproc_stmt(s: &Statement) -> (r: Statement)
    ensures
        r@ == sp_preproc_stmt(s@),
{
    proof {
        reveal_with_fuel(crate::lang::view_stmt, 6);
        reveal_with_fuel(crate::lang::view_expr, 6);
        reveal_with_fuel(crate::lang::view_reach, 6);
        reveal_with_fuel(crate::lang::view_value, 6);
    }
    match s {
        Statement::Expr(e) => match e {
            Expr::Reach(r0) => match r0 {
                Reach::Value(v) => match v {
                    Value::Str(w) => {
                        if str_eq(w.as_str(), "__pause") {
                            Statement::Pause
                        } else if str_eq(w.as_str(), "__dump_ctx") {
                            Statement::DumpContext
                        } else {
                            crate::ops::stmt_clone(s)
                        }
                    },
                    _ => crate::ops::stmt_clone(s),
                },
                _ => crate::ops::stmt_clone(s),
            },
            _ => crate::ops::stmt_clone(s),
        },
        _ => crate::ops::stmt_clone(s),
    }
}

/// Rewrites a statement stream: bare `"__pause"` and `"__dump_ctx"`
/// string statements become the debug statements.
pub fn preproc(sts: Vec<Statement>) -> (r: Vec<Statement>)
    ensures
        view_stmts(r@) == sp_preproc(view_stmts(sts@)),
{
    proof {
        crate::lang::lemma_view_stmts_len(sts@);
    }
    let mut out: Vec<Statement> = Vec::new();
    let mut i: usize = 0;
    while i < sts.len()
        invariant
            0 <= i <= sts@.len(),
            out@.len() == i,
            forall|j: int|
                0 <= j < i ==> view_stmt(#[trigger] out@[j]) == sp_preproc_stmt(
                    view_stmt(sts@[j]),
                ),
        decreases sts@.len() - i,
    {
        out.push(preproc_stmt(&sts[i]));
        i = i + 1;
    }
    proof {
        crate::lang::lemma_view_stmts_len(out@);
        assert(view_stmts(out@) =~= sp_preproc(view_stmts(sts@))) by {
            assert forall|j: int| 0 <= j < out@.len() implies view_stmts(out@)[j] == sp_preproc(
                view_stmts(sts@),
            )[j] by {
                crate::lang::lemma_view_stmts_index(out@, j);
                crate::lang::lemma_view_stmts_index(sts@, j);
            }
        }
    }
    out
}

/// Parses a whole source string into a statement sequence.
pub fn parse(src: &str) -> (r: Result<Vec<Statement>, Error>)
    ensures
        match r {
            Result::Ok(sts) => sp_parse(src@) == Result::<Seq<StmtM>, ErrorM>::Ok(
                view_stmts(sts@),
            ),
            Result::Err(e) => sp_parse(src@) == Result::<Seq<StmtM>, ErrorM>::Err(e@),
        },
{
    let toks = match crate::tokens::tokenize(src) {
        Result::Ok(t) => t,
        Result::Err(te) => {
            return Result::Err(Error::Tokenize(te));
        },
    };
    let n = src.unicode_len();
    let fuel: u64 = if (n as u64) <= (u64::MAX - 64) / 16 {
        16 * (n as u64) + 64
    } else {
        u64::MAX
    };
    proof {
        assert(fuel as nat == sp_parse_fuel(src@.len()));
        crate::tokens::lemma_view_tokens_len(toks@);
    }
    match stmts_until_at(&toks, 0, fuel) {
        Result::Ok(sts) => Result::Ok(preproc(sts)),
        Result::Err(e) => Result::Err(e),
    }
}

/// A recursive-descent parser over a tokenized source, with an explicit
/// position. Each reading method hands back what it read and advances the
/// position; the fuel bounds the descent, and any value at least
/// `16 * tokens + 64` is ample.
#[derive(Debug)]
pub struct Parser {
    pub tokens: Vec<Token>,
    pub pos: usize,
}

impl Parser {
    /// A parser at the start of the given tokens.
    pub fn from_tokens(tokens: Vec<Token>) -> (r: Parser)
        ensures
            view_tokens(r.tokens@) == view_tokens(tokens@),
            r.pos == 0,
    {
        Parser { tokens, pos: 0 }
    }

    /// Reads one reach and advances.
    pub fn read_reach(&mut self, fuel: u64) -> (r: Result<Reach, Error>)
        requires
            old(self).pos <= old(self).tokens@.len(),
        ensures
            final(self).tokens@ == old(self).tokens@,
            final(self).pos <= final(self).tokens@.len(),
            match r {
                Result::Ok(x) => sp_read_reach(
                    view_tokens(old(self).tokens@),
                    old(self).pos as int,
                    fuel as nat,
                ) == Result::<(ReachM, int), ErrorM>::Ok((x@, final(self).pos as int)),
                Result::Err(e) => sp_read_reach(
                    view_tokens(old(self).tokens@),
                    old(self).pos as int,
                    fuel as nat,
                ) == Result::<(ReachM, int), ErrorM>::Err(e@) && final(self).pos == old(
                    self,
                ).pos,
            },
    {
        match read_reach_at(&self.tokens, self.pos, fuel) {
            Result::Ok((x, p)) => {
                self.pos = p;
                Result::Ok(x)
            },
            Result::Err(e) => Result::Err(e),
        }
    }

    /// Reads one expression and advances.
    pub fn read_expr(&mut self, fuel: u64) -> (r: Result<Expr, Error>)
        requires
            old(self).pos <= old(self).tokens@.len(),
        ensures
            final(self).tokens@ == old(self).tokens@,
            final(self).pos <= final(self).tokens@.len(),
            match r {
                Result::Ok(x) => sp_read_expr(
                    view_tokens(old(self).tokens@),
                    old(self).pos as int,
                    fuel as nat,
                ) == Result::<(ExprM, int), ErrorM>::Ok((x@, final(self).pos as int)),
                Result::Err(e) => sp_read_expr(
                    view_tokens(old(self).tokens@),
                    old(self).pos as int,
                    fuel as nat,
                ) == Result::<(ExprM, int), ErrorM>::Err(e@) && final(self).pos == old(self).pos,
            },
    {
        match read_expr_at(&self.tokens, self.pos, fuel) {
            Result::Ok((x, p)) => {
                self.pos = p;
                Result::Ok(x)
            },
            Result::Err(e) => Result::Err(e),
        }
    }

    /// Reads one statement and advances.
    pub fn read_statement(&mut self, fuel: u64) -> (r: Result<Statement, Error>)
        requires
            old(self).pos <= old(self).tokens@.len(),
        ensures
            final(self).tokens@ == old(self).tokens@,
            final(self).pos <= final(self).tokens@.len(),
            match r {
                Result::Ok(x) => sp_read_stmt(
                    view_tokens(old(self).tokens@),
                    old(self).pos as int,
                    fuel as nat,
                ) == Result::<(StmtM, int), ErrorM>::Ok((x@, final(self).pos as int)),
                Result::Err(e) => sp_read_stmt(
                    view_tokens(old(self).tokens@),
                    old(self).pos as int,
                    fuel as nat,
                ) == Result::<(StmtM, int), ErrorM>::Err(e@) && final(self).pos == old(self).pos,
            },
    {
        match read_stmt_at(&self.tokens, self.pos, fuel) {
            Result::Ok((x, p)) => {
                self.pos = p;
                Result::Ok(x)
            },
            Result::Err(e) => Result::Err(e),
        }
    }

    /// Reads one block and advances.
    pub fn read_block(&mut self, fuel: u64) -> (r: Result<Block, Error>)
        requires
            old(self).pos <= old(self).tokens@.len(),
        ensures
            final(self).tokens@ == old(self).tokens@,
            final(self).pos <= final(self).tokens@.len(),
            match r {
                Result::Ok(x) => sp_read_block(
                    view_tokens(old(self).tokens@),
                    old(self).pos as int,
                    fuel as nat,
                ) == Result::<(Seq<StmtM>, int), ErrorM>::Ok((x@, final(self).pos as int)),
                Result::Err(e) => sp_read_block(
                    view_tokens(old(self).tokens@),
                    old(self).pos as int,
                    fuel as nat,
                ) == Result::<(Seq<StmtM>, int), ErrorM>::Err(e@) && final(self).pos == old(
                    self,
                ).pos,
            },
    {
        match read_block_at(&self.tokens, self.pos, fuel) {
            Result::Ok((x, p)) => {
                self.pos = p;
                Result::Ok(x)
            },
            Result::Err(e) => Result::Err(e),
        }
    }

    /// Reads statements until the tokens are exhausted.
    pub fn statements(&mut self, fuel: u64) -> (r: Result<Vec<Statement>, Error>)
        requires
            old(self).pos <= old(self).tokens@.len(),
        ensures
            final(self).tokens@ == old(self).tokens@,
            match r {
                Result::Ok(sts) => sp_stmts_until(
                    view_tokens(old(self).tokens@),
                    old(self).pos as int,
                    fuel as nat,
                ) == Result::<Seq<StmtM>, ErrorM>::Ok(view_stmts(sts@)),
                Result::Err(e) => sp_stmts_until(
                    view_tokens(old(self).tokens@),
                    old(self).pos as int,
                    fuel as nat,
                ) == Result::<Seq<StmtM>, ErrorM>::Err(e@),
            },
    {
        stmts_until_at(&self.tokens, self.pos, fuel)
    }

    /// Reads adjacent expressions until the tokens are exhausted.
    pub fn comma_separated_expressions(&mut self, fuel: u64) -> (r: Result<Vec<Expr>, Error>)
        requires
            old(self).pos <= old(self).tokens@.len(),
        ensures
            final(self).tokens@ == old(self).tokens@,
            match r {
                Result::Ok(es) => sp_cse(
                    view_tokens(old(self).tokens@),
                    old(self).pos as int,
                    fuel as nat,
                ) == Result::<Seq<ExprM>, ErrorM>::Ok(crate::lang::view_exprs(es@)),
                Result::Err(e) => sp_cse(
                    view_tokens(old(self).tokens@),
                    old(self).pos as int,
                    fuel as nat,
                ) == Result::<Seq<ExprM>, ErrorM>::Err(e@),
            },
    {
        cse_at(&self.tokens, self.pos, fuel)
    }

    /// Reads object-literal entries until the tokens are exhausted.
    pub fn object(&mut self, fuel: u64) -> (r: Result<Vec<(String, Expr)>, Error>)
        requires
            old(self).pos <= old(self).tokens@.len(),
        ensures
            final(self).tokens@ == old(self).tokens@,
            match r {
                Result::Ok(ps) => sp_object(
                    view_tokens(old(self).tokens@),
                    old(self).pos as int,
                    fuel as nat,
                ) == Result::<Seq<(Seq<char>, ExprM)>, ErrorM>::Ok(
                    crate::lang::view_expr_pairs(ps@),
                ),
                Result::Err(e) => sp_object(
                    view_tokens(old(self).tokens@),
                    old(self).pos as int,
                    fuel as nat,
                ) == Result::<Seq<(Seq<char>, ExprM)>, ErrorM>::Err(e@),
            },
    {
        object_at(&self.tokens, self.pos, fuel)
    }
}

} // verus!


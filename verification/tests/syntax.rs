use dynlang::parser::{parse, Error, Parser};
use dynlang::lang::{Expr, Reach, Statement, Value};
use dynlang::scan::{token_letters, Signal};
use dynlang::tokens::{tokenize, Token, TokenizeError};

const FUEL: u64 = 1_000_000;

/// Strips the context wrappers off a parse error.
fn root(mut e: &Error) -> &Error {
    while let Error::Context { err, .. } = e {
        e = err;
    }
    e
}

fn parse_root(src: &str) -> Error {
    match parse(src) {
        Err(e) => {
            let r = root(&e);
            // The root is reconstructed by its shape, payloads dropped.
            match r {
                Error::ExpectedVariableName => Error::ExpectedVariableName,
                Error::ExpectedEqLet => Error::ExpectedEqLet,
                Error::ExpectedFnDeclParens => Error::ExpectedFnDeclParens,
                Error::TooManyFnArgs => Error::TooManyFnArgs,
                Error::ExpectedBlock => Error::ExpectedBlock,
                Error::ExpectedIdentFor(t) => Error::ExpectedIdentFor(t.is_some().then(|| dummy())),
                Error::ExpectedInFor(t) => Error::ExpectedInFor(t.is_some().then(|| dummy())),
                Error::InvalidNumLit(w) => Error::InvalidNumLit(w.clone()),
                Error::InvalidFirstReach(_) => Error::InvalidFirstReach(dummy()),
                Error::InvalidIndex => Error::InvalidIndex,
                Error::ExpectedIdentObj => Error::ExpectedIdentObj,
                Error::ExpectedColonObj(t) => Error::ExpectedColonObj(t.is_some().then(|| dummy())),
                Error::EOFStatement => Error::EOFStatement,
                Error::EOFExpr => Error::EOFExpr,
                Error::EOFReach => Error::EOFReach,
                other => panic!("unexpected parse error {other:?}"),
            }
        },
        Ok(x) => panic!("expected a parse error, got {x:?}"),
    }
}

fn dummy() -> Token {
    Token::Dot
}

#[test]
fn tokenize_simple_statement() {
    let toks = tokenize("let x = 2").unwrap();
    assert_eq!(toks.len(), 4);
    assert!(matches!(toks[0], Token::Let));
    assert!(matches!(toks[1], Token::Ident(ref s) if s == "x"));
    assert!(matches!(toks[2], Token::Eq));
    assert!(matches!(toks[3], Token::NumLit(ref s) if s == "2"));
}

#[test]
fn tokenize_groups_nest() {
    let toks = tokenize("f(a [1 2] { x })").unwrap();
    assert_eq!(toks.len(), 2);
    match &toks[1] {
        Token::Parens(inner) => {
            assert_eq!(inner.len(), 3);
            assert!(matches!(inner[0], Token::Ident(ref s) if s == "a"));
            assert!(matches!(inner[1], Token::Brackets(ref b) if b.len() == 2));
            assert!(matches!(inner[2], Token::Curly(ref c) if c.len() == 1));
        },
        other => panic!("expected a parens group, got {other:?}"),
    }
}

#[test]
fn tokenize_same_kind_brackets_balance() {
    let toks = tokenize("((a))").unwrap();
    assert_eq!(toks.len(), 1);
    match &toks[0] {
        Token::Parens(inner) => {
            assert_eq!(inner.len(), 1);
            assert!(matches!(inner[0], Token::Parens(ref p) if p.len() == 1));
        },
        other => panic!("expected a parens group, got {other:?}"),
    }
}

#[test]
fn tokenize_string_literal_keeps_text() {
    let toks = tokenize("\"hi there\"").unwrap();
    assert_eq!(toks.len(), 1);
    assert!(matches!(toks[0], Token::StrLit(ref s) if s == "hi there"));
}

#[test]
fn tokenize_logical_words() {
    let toks = tokenize("a || b && c").unwrap();
    assert!(matches!(toks[1], Token::Or));
    assert!(matches!(toks[3], Token::And));
}

#[test]
fn tokenize_unclosed_string() {
    assert!(matches!(tokenize("\"abc"), Err(TokenizeError::UnclosedString)));
}

#[test]
fn tokenize_unclosed_group() {
    assert!(matches!(tokenize("(a b"), Err(TokenizeError::UnclosedGroup('('))));
    assert!(matches!(tokenize("{ a"), Err(TokenizeError::UnclosedGroup('{'))));
    assert!(matches!(tokenize("[1 2"), Err(TokenizeError::UnclosedGroup('['))));
}

fn render(toks: &[Token]) -> String {
    let mut out = String::new();
    for t in toks {
        let piece = match t {
            Token::Let => "let".to_string(),
            Token::Fn => "fn".to_string(),
            Token::If => "if".to_string(),
            Token::Else => "else".to_string(),
            Token::Loop => "loop".to_string(),
            Token::Break => "break".to_string(),
            Token::For => "for".to_string(),
            Token::In => "in".to_string(),
            Token::Or => "||".to_string(),
            Token::And => "&&".to_string(),
            Token::Dot => ".".to_string(),
            Token::Colon => ":".to_string(),
            Token::Eq => "=".to_string(),
            Token::Plus => "+".to_string(),
            Token::Minus => "-".to_string(),
            Token::Gt => ">".to_string(),
            Token::Lt => "<".to_string(),
            Token::Ident(s) => s.clone(),
            Token::NumLit(s) => s.clone(),
            Token::StrLit(s) => format!("\"{s}\""),
            Token::Parens(v) => format!("({})", render(v)),
            Token::Curly(v) => format!("{{{}}}", render(v)),
            Token::Brackets(v) => format!("[{}]", render(v)),
        };
        out.push_str(&piece);
        out.push(' ');
    }
    out
}

#[test]
fn tokenize_reparse_round_trip() {
    // Writing tokens back as source and scanning again yields an
    // equivalent sequence, whatever whitespace the source used.
    let sources = [
        "let total = a + 13 - f ( x )",
        "let mk=fn(n){fn(){n=n+1 n}} let c = mk(10) c() c()",
        "let p = obj { name: \"a\" age: 3 } p.name",
        "for v in [1 2 3] { if v == 2 { break } }",
        "a || b && c > d < e",
    ];
    for src in sources {
        let toks = tokenize(src).unwrap();
        let again = tokenize(&render(&toks)).unwrap();
        assert_eq!(
            format!("{toks:?}"),
            format!("{again:?}"),
            "round trip differs for {src}"
        );
    }
}

#[test]
fn parse_let_statement() {
    let sts = parse("let x = 2").unwrap();
    assert_eq!(sts.len(), 1);
    assert!(matches!(sts[0], Statement::SetVariable(ref n, _) if n == "x"));
}

#[test]
fn parse_assignment_statement() {
    let sts = parse("let x = 1 x = 2").unwrap();
    assert_eq!(sts.len(), 2);
    assert!(matches!(sts[1], Statement::ModifyVariable(ref n, _) if n == "x"));
}

#[test]
fn parse_preprocessor_rewrites_debug_strings() {
    let sts = parse("\"__pause\" \"__dump_ctx\" \"plain\"").unwrap();
    assert!(matches!(sts[0], Statement::Pause));
    assert!(matches!(sts[1], Statement::DumpContext));
    assert!(matches!(
        sts[2],
        Statement::Expr(Expr::Reach(Reach::Value(Value::Str(_))))
    ));
}

#[test]
fn parse_right_associative_addition() {
    // `a + b + c` parses as a + (b + c): the right operand is a full
    // expression.
    let sts = parse("a + b + c").unwrap();
    match &sts[0] {
        Statement::Expr(Expr::Add(_, rhs)) => match rhs {
            Reach::Expr(inner) => assert!(matches!(**inner, Expr::Add(..))),
            other => panic!("expected a nested addition, got {other:?}"),
        },
        other => panic!("expected an addition, got {other:?}"),
    }
}

#[test]
fn parse_function_literal() {
    let sts = parse("fn(a) { a }").unwrap();
    match &sts[0] {
        Statement::Expr(Expr::Reach(Reach::Value(Value::Function(f)))) => {
            assert_eq!(f.arg_name.as_deref(), Some("a"));
            assert_eq!(f.block.0.len(), 1);
        },
        other => panic!("expected a function literal, got {other:?}"),
    }
}

#[test]
fn parse_errors() {
    assert!(matches!(parse_root("let"), Error::ExpectedVariableName));
    assert!(matches!(parse_root("let x 2"), Error::ExpectedEqLet));
    assert!(matches!(parse_root("fn"), Error::ExpectedFnDeclParens));
    assert!(matches!(parse_root("fn(a b) { a }"), Error::TooManyFnArgs));
    assert!(matches!(parse_root("loop"), Error::ExpectedBlock));
    assert!(matches!(parse_root("for in"), Error::ExpectedIdentFor(Some(_))));
    assert!(matches!(parse_root("for x x"), Error::ExpectedInFor(Some(_))));
    assert!(matches!(parse_root("99999999999999999999"), Error::InvalidNumLit(_)));
    assert!(matches!(parse_root("+"), Error::InvalidFirstReach(_)));
}

#[test]
fn parse_error_context_wraps_cause() {
    // A failure inside a declared expression carries the declaring
    // context on the outside.
    match parse("let x = +") {
        Err(Error::Context { context, err }) => {
            assert!(context.contains("while declaring variable x"));
            assert!(matches!(*err, Error::InvalidFirstReach(_)));
        },
        other => panic!("expected a context-wrapped error, got {other:?}"),
    }
}

#[test]
fn parse_invalid_dot_right_side() {
    assert!(matches!(parse_root("a.(x)"), Error::InvalidIndex));
}

#[test]
fn parse_object_literal_errors() {
    assert!(matches!(parse_root("obj { : 1 }"), Error::ExpectedIdentObj));
    assert!(matches!(parse_root("obj { a 1 }"), Error::ExpectedColonObj(Some(_))));
    assert!(matches!(parse_root("obj { a }"), Error::ExpectedColonObj(None)));
}

#[test]
fn parser_reads_pieces() {
    let toks = tokenize("let x = 1 x + 2").unwrap();
    let mut p = Parser::from_tokens(toks);
    let first = p.read_statement(FUEL).unwrap();
    assert!(matches!(first, Statement::SetVariable(ref n, _) if n == "x"));
    let second = p.read_expr(FUEL).unwrap();
    assert!(matches!(second, Expr::Add(..)));
    assert!(matches!(p.read_statement(FUEL), Err(Error::EOFStatement)));
}

#[test]
fn parser_expression_list() {
    let toks = tokenize("1 2 3").unwrap();
    let mut p = Parser::from_tokens(toks);
    let es = p.comma_separated_expressions(FUEL).unwrap();
    assert_eq!(es.len(), 3);
}

#[test]
fn parser_object_entries() {
    let toks = tokenize("a: 1 \"b\": 2 3: 4").unwrap();
    let mut p = Parser::from_tokens(toks);
    let entries = p.object(FUEL).unwrap();
    assert_eq!(entries.len(), 3);
    assert_eq!(entries[0].0, "a");
    assert_eq!(entries[1].0, "b");
    assert_eq!(entries[2].0, "3");
}

#[test]
fn signal_classification() {
    assert!(matches!(token_letters('='), Some(Signal::Eq)));
    assert!(matches!(token_letters('+'), Some(Signal::Plus)));
    assert!(matches!(token_letters('"'), Some(Signal::StrStart)));
    assert!(matches!(token_letters('('), Some(Signal::ParensStart)));
    assert!(matches!(token_letters('a'), None));
    assert!(matches!(token_letters(')'), None));
}

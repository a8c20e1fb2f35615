use dynlang::eval;
use dynlang::interp::{Context, Host, NullHost, RunError};
use dynlang::lang::Block;
use dynlang::values::BuiltinFn;
use dynlang::lang::Value;
use dynlang::values::IValue;
use dynlang::EvalError;

const FUEL: u64 = 1_000_000;

fn run(src: &str) -> Result<IValue, EvalError> {
    let mut host = NullHost;
    eval(src, &mut host, FUEL)
}

fn run_int(src: &str) -> i32 {
    match run(src) {
        Ok(IValue::Value(Value::Int(n))) => n,
        other => panic!("expected an integer, got {other:?}"),
    }
}

fn run_str(src: &str) -> String {
    match run(src) {
        Ok(IValue::Value(Value::Str(s))) => s,
        other => panic!("expected a string, got {other:?}"),
    }
}

fn run_bool(src: &str) -> bool {
    match run(src) {
        Ok(IValue::Value(Value::Bool(b))) => b,
        other => panic!("expected a boolean, got {other:?}"),
    }
}

fn run_err(src: &str) -> RunError {
    match run(src) {
        Err(EvalError::Run(e)) => e,
        other => panic!("expected a runtime error, got {other:?}"),
    }
}

#[test]
fn int_addition() {
    assert_eq!(run_int("let x = 2 let y = 3 x + y"), 5);
}

#[test]
fn string_concat() {
    assert_eq!(run_str("let s = \"ab\" s + \"cd\""), "abcd");
}

#[test]
fn closure_counter() {
    let src = "let mk = fn(n) { fn() { n = n + 1 n } } let c = mk(10) c() c()";
    assert_eq!(run_int(src), 12);
}

#[test]
fn object_fields() {
    assert_eq!(run_str("let p = obj { name: \"a\" age: 3 } p.name"), "a");
    assert_eq!(run_int("let p = obj { name: \"a\" age: 3 } p.age + 1"), 4);
    assert_eq!(run_int("let p = obj { name: \"a\" age: 3 } p.len"), 2);
}

#[test]
fn for_over_array() {
    let src = "let xs = [10 20 30] let sum = 0 for v in xs { sum = sum + v } sum";
    assert_eq!(run_int(src), 60);
}

#[test]
fn loop_with_break() {
    let src = "let i = 0 loop { if i == 3 { break } else { i = i + 1 } } i";
    assert_eq!(run_int(src), 3);
}

#[test]
fn shadowing_scoped() {
    // The inner `let x` hides the outer binding inside the if block only.
    let src = "let x = 1 let y = if 1 { let x = 2 x } x + y";
    assert_eq!(run_int(src), 3);
}

#[test]
fn closure_shares_binding_with_scope() {
    // Two closures over the same frame observe each other's writes.
    let src = "let mk = fn(n) { obj { up: fn() { n = n + 1 n } get: fn() { n } } } \
               let c = mk(5) c.up() c.up() c.get()";
    assert_eq!(run_int(src), 7);
}

#[test]
fn array_index_and_len() {
    assert_eq!(run_int("let xs = [7 8 9] xs.0"), 7);
    assert_eq!(run_int("let xs = [7 8 9] xs.2"), 9);
    assert_eq!(run_int("let xs = [7 8 9] xs.len"), 3);
    assert_eq!(run_int("let s = \"hello\" s.len"), 5);
}

#[test]
fn array_index_out_of_range_is_nil() {
    assert!(matches!(
        run("let xs = [7 8] xs.5"),
        Ok(IValue::Value(Value::Nil))
    ));
}

#[test]
fn numeric_object_keys_stringify() {
    // A numeric index on an object looks the stringified number up.
    assert_eq!(run_int("let p = obj { 3: 7 } p.3"), 7);
}

#[test]
fn negative_array_index_is_nil() {
    assert!(matches!(
        run("let xs = [1 2] xs.(0 - 1)"),
        Err(..)
    ));
    assert!(matches!(
        run("let xs = [1 2] let k = 0 - 1 xs.[k]"),
        Ok(IValue::Value(Value::Nil))
    ));
}

#[test]
fn expression_index() {
    assert_eq!(run_int("let xs = [5 6] let k = 1 xs.[k]"), 6);
}

#[test]
fn object_string_index() {
    assert_eq!(run_int("let p = obj { a: 1 } let k = \"a\" p.[k]"), 1);
}

#[test]
fn subtraction_and_nil() {
    assert_eq!(run_int("5 - 2"), 3);
    assert_eq!(run_int("0 - 3"), -3);
    // A false `if` without an else yields the empty value, which adds as
    // the identity.
    assert_eq!(run_int("let x = if 1 == 2 { 3 } x + 5"), 5);
}

#[test]
fn array_concat() {
    assert_eq!(run_int("let xs = [1] + [2 3] xs.len"), 3);
    assert_eq!(run_int("let xs = [1] + [2 3] xs.2"), 3);
}

#[test]
fn comparisons() {
    assert!(run_bool("2 > 1"));
    assert!(!run_bool("1 > 2"));
    assert!(run_bool("1 < 2"));
    assert!(run_bool("2 == 2"));
    assert!(!run_bool("2 == 3"));
    assert!(run_bool("\"ab\" == \"ab\""));
}

#[test]
fn truthiness_in_conditionals() {
    assert_eq!(run_int("if 0 { 1 } else { 2 }"), 2);
    assert_eq!(run_int("if 7 { 1 } else { 2 }"), 1);
    // Strings and everything else are not true.
    assert_eq!(run_int("if \"x\" { 1 } else { 2 }"), 2);
}

#[test]
fn logical_operators() {
    assert!(run_bool("1 || 0"));
    assert!(!run_bool("0 || 0"));
    assert!(run_bool("1 && 2"));
    assert!(!run_bool("1 && 0"));
}

#[test]
fn for_over_iterator_object() {
    let src = "let i = 0 \
               let it = obj { next: fn() { i = i + 1 if i < 4 { i } } } \
               let sum = 0 for v in it { sum = sum + v } sum";
    assert_eq!(run_int(src), 6);
}

#[test]
fn break_inside_for_stops_iteration() {
    let src = "let sum = 0 for v in [1 2 3 4] { if v == 3 { break } else { sum = sum + v } } sum";
    assert_eq!(run_int(src), 3);
}

#[test]
fn undefined_variable_access() {
    assert!(matches!(run_err("missing"), RunError::VariableDoesntExist(..)));
}

#[test]
fn assignment_to_unbound_name() {
    assert!(matches!(run_err("x = 1"), RunError::VariableDoesntExist(..)));
}

#[test]
fn invalid_addition() {
    assert!(matches!(run_err("\"a\" + 1"), RunError::InvalidAddition { .. }));
}

#[test]
fn invalid_subtraction() {
    assert!(matches!(run_err("\"a\" - 1"), RunError::InvalidSubtraction { .. }));
}

#[test]
fn invalid_comparisons() {
    assert!(matches!(run_err("\"a\" > 1"), RunError::InvalidGt { .. }));
    assert!(matches!(run_err("\"a\" < 1"), RunError::InvalidLt { .. }));
}

#[test]
fn call_of_non_function() {
    assert!(matches!(run_err("let x = 1 x()"), RunError::NotAFunction(..)));
}

#[test]
fn missing_argument() {
    assert!(matches!(run_err("let f = fn(a) { a } f()"), RunError::MissingArg(..)));
}

#[test]
fn break_outside_loop_is_an_error() {
    assert!(matches!(run_err("break"), RunError::Break));
}

#[test]
fn for_over_non_iterable() {
    assert!(matches!(run_err("for v in 1 { v }"), RunError::ForNotAnObject(..)));
}

#[test]
fn for_over_object_without_next() {
    assert!(matches!(
        run_err("for v in obj { a: 1 } { v }"),
        RunError::ForNotAnIterator(..)
    ));
}

#[test]
fn for_where_next_is_not_a_closure() {
    assert!(matches!(
        run_err("for v in obj { next: 1 } { v }"),
        RunError::ForNextIsntAClosure(..)
    ));
}

#[test]
fn invalid_index_target() {
    assert!(matches!(run_err("let x = 1 x.a"), RunError::InvalidIndex { .. }));
}

#[test]
fn invalid_expression_index() {
    // An expression index must yield an integer or a string.
    assert!(matches!(
        run_err("let xs = [1] let b = 1 == 1 xs.[b]"),
        RunError::InvalidExprFromIntoIndex(..)
    ));
}

#[test]
fn out_of_fuel_reported() {
    let mut host = NullHost;
    let r = eval("loop { 1 }", &mut host, 1000);
    assert!(matches!(r, Err(EvalError::Run(RunError::OutOfFuel))));
}

struct RecordingHost {
    calls: Vec<(u64, String)>,
}

impl Host for RecordingHost {
    fn call_builtin(&mut self, id: u64, name: &String, arg: IValue) -> Result<IValue, RunError> {
        self.calls.push((id, name.clone()));
        match arg {
            IValue::Value(Value::Int(n)) => Ok(IValue::of_i32(n + 1)),
            _ => Ok(IValue::nil()),
        }
    }

    fn dump_context(&mut self, _ctx: &dynlang::interp::Context, _env: &Vec<usize>) {}

    fn pause(&mut self) {}
}

#[test]
fn builtins_reach_the_host() {
    let program = match dynlang::parser::parse("builtins.bump(41)") {
        Ok(p) => p,
        Err(e) => panic!("parse failed: {e:?}"),
    };
    let mut ctx = Context::new(Vec::new());
    ctx.builtins(vec![BuiltinFn::new(7, "bump".to_string())]);
    let mut host = RecordingHost { calls: Vec::new() };
    let out = ctx.exec(&mut host, &Block(program), FUEL);
    assert!(matches!(out, Ok(IValue::Value(Value::Int(42)))));
    assert_eq!(host.calls.len(), 1);
    assert_eq!(host.calls[0].0, 7);
    assert_eq!(host.calls[0].1, "bump");
}

#[test]
fn pause_and_dump_are_host_calls() {
    struct CountingHost {
        dumps: usize,
        pauses: usize,
    }
    impl Host for CountingHost {
        fn call_builtin(
            &mut self,
            _id: u64,
            _name: &String,
            _arg: IValue,
        ) -> Result<IValue, RunError> {
            Ok(IValue::nil())
        }

        fn dump_context(&mut self, _ctx: &dynlang::interp::Context, _env: &Vec<usize>) {
            self.dumps += 1;
        }

        fn pause(&mut self) {
            self.pauses += 1;
        }
    }
    let mut host = CountingHost { dumps: 0, pauses: 0 };
    let r = eval("let x = 1 \"__dump_ctx\" \"__pause\" x", &mut host, FUEL);
    assert!(matches!(r, Ok(IValue::Value(Value::Int(1)))));
    assert_eq!(host.dumps, 1);
    assert_eq!(host.pauses, 1);
}

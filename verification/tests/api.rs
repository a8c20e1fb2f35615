use dynlang::interp::{Context, RunError};
use dynlang::lang::{Index, Value};
use dynlang::num::{i32_to_string, parse_i32_digits};
use dynlang::values::IValue;

#[test]
fn context_set_get_modify() {
    let mut ctx = Context::new(Vec::new());
    let env = ctx.root_env();
    ctx.set_variable(&env, "a".to_string(), IValue::of_i32(1));
    assert!(matches!(
        ctx.get_variable(&env, "a"),
        Ok(IValue::Value(Value::Int(1)))
    ));
    let prev = ctx.modify_variable(&env, "a", IValue::of_i32(2)).unwrap();
    assert!(matches!(prev, IValue::Value(Value::Int(1))));
    assert!(matches!(
        ctx.get_variable(&env, "a"),
        Ok(IValue::Value(Value::Int(2)))
    ));
    assert!(matches!(
        ctx.get_variable(&env, "b"),
        Err(RunError::VariableDoesntExist(..))
    ));
    assert!(matches!(
        ctx.modify_variable(&env, "b", IValue::nil()),
        Err(RunError::VariableDoesntExist(..))
    ));
}

#[test]
fn windows_shadow_and_fall_through() {
    let mut ctx = Context::new(Vec::new());
    let env = ctx.root_env();
    ctx.set_variable(&env, "x".to_string(), IValue::of_i32(1));
    let inner = ctx.push_window(&env);
    ctx.set_variable(&inner, "x".to_string(), IValue::of_i32(2));
    assert!(matches!(
        ctx.get_variable(&inner, "x"),
        Ok(IValue::Value(Value::Int(2)))
    ));
    assert!(matches!(
        ctx.get_variable(&env, "x"),
        Ok(IValue::Value(Value::Int(1)))
    ));
}

#[test]
fn value_operator_tables() {
    let three = Value::Int(3);
    let four = Value::Int(4);
    assert!(matches!(three.add(&four), Some(Value::Int(7))));
    assert!(matches!(three.sub(&four), Some(Value::Int(-1))));
    assert!(matches!(three.gt(&four), Some(Value::Bool(false))));
    assert!(matches!(three.lt(&four), Some(Value::Bool(true))));
    assert!(three.custom_eq(&Value::Int(3)));
    assert!(!three.custom_eq(&four));
    assert!(matches!(Value::Str("a".to_string()).add(&three), None));
    // The empty value is the identity of addition on either side.
    assert!(matches!(Value::Nil.add(&three), Some(Value::Int(3))));
    assert!(matches!(three.add(&Value::Nil), Some(Value::Int(3))));
    // On the left of a subtraction it acts as zero.
    assert!(matches!(Value::Nil.sub(&three), Some(Value::Int(-3))));
    // It orders below every other value.
    assert!(matches!(Value::Nil.lt(&three), Some(Value::Bool(true))));
    assert!(matches!(three.gt(&Value::Nil), Some(Value::Bool(true))));
    assert!(matches!(Value::Nil.lt(&Value::Nil), Some(Value::Bool(false))));
}

#[test]
fn object_equality_ignores_entry_order() {
    let a = Value::Object(vec![
        ("x".to_string(), Value::Int(1)),
        ("y".to_string(), Value::Int(2)),
    ]);
    let b = Value::Object(vec![
        ("y".to_string(), Value::Int(2)),
        ("x".to_string(), Value::Int(1)),
    ]);
    assert!(a.custom_eq(&b));
    let c = Value::Object(vec![("x".to_string(), Value::Int(9))]);
    assert!(!a.custom_eq(&c));
}

#[test]
fn index_stringifies() {
    assert_eq!(Index::Ident("name".to_string()).into_str(), "name");
    assert_eq!(Index::NumLit(35).into_str(), "35");
    assert_eq!(Index::NumLit(0).into_str(), "0");
    assert_eq!(Index::NumLit(-5).into_str(), "-5");
}

#[test]
fn decimal_round_trip() {
    assert_eq!(i32_to_string(2147483647), "2147483647");
    assert_eq!(i32_to_string(-2147483648), "-2147483648");
    assert_eq!(parse_i32_digits("2147483647"), Some(2147483647));
    assert_eq!(parse_i32_digits("2147483648"), None);
    assert_eq!(parse_i32_digits("007"), Some(7));
    assert_eq!(parse_i32_digits(""), None);
    assert_eq!(parse_i32_digits("12a"), None);
}

#[test]
fn ivalue_indexing() {
    let arr = IValue::Array(vec![IValue::of_i32(4), IValue::of_i32(5)]);
    assert!(matches!(
        arr.index(&Index::NumLit(1)),
        Some(IValue::Value(Value::Int(5)))
    ));
    assert!(matches!(
        arr.index(&Index::Ident("len".to_string())),
        Some(IValue::Value(Value::Int(2)))
    ));
    // An object with its own `len` entry shadows the virtual field.
    let obj = IValue::Object(vec![("len".to_string(), IValue::of_i32(99))]);
    assert!(matches!(
        obj.index(&Index::Ident("len".to_string())),
        Some(IValue::Value(Value::Int(99)))
    ));
}

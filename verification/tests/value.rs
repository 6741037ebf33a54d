use artichoke_backend::convert::{Convert, TryConvert};
use artichoke_backend::interpreter;
use artichoke_backend::value::Value;
use artichoke_backend::ArtichokeError;

#[test]
fn to_s_true() {
    let mut interp = interpreter().expect("init");

    let value = interp.convert(true);
    let string = value.to_s(&mut interp);
    assert_eq!(string, "true");
}

#[test]
fn debug_true() {
    let mut interp = interpreter().expect("init");

    let value = interp.convert(true);
    let debug = value.to_s_debug(&mut interp);
    assert_eq!(debug, "Boolean<true>");
}

#[test]
fn inspect_true() {
    let mut interp = interpreter().expect("init");

    let value = interp.convert(true);
    let debug = value.inspect(&mut interp);
    assert_eq!(debug, "true");
}

#[test]
fn to_s_false() {
    let mut interp = interpreter().expect("init");

    let value = interp.convert(false);
    let string = value.to_s(&mut interp);
    assert_eq!(string, "false");
}

#[test]
fn debug_false() {
    let mut interp = interpreter().expect("init");

    let value = interp.convert(false);
    let debug = value.to_s_debug(&mut interp);
    assert_eq!(debug, "Boolean<false>");
}

#[test]
fn inspect_false() {
    let mut interp = interpreter().expect("init");

    let value = interp.convert(false);
    let debug = value.inspect(&mut interp);
    assert_eq!(debug, "false");
}

#[test]
fn to_s_nil() {
    let mut interp = interpreter().expect("init");

    let value = interp.convert(None::<Value>);
    let string = value.to_s(&mut interp);
    assert_eq!(string, "");
}

#[test]
fn debug_nil() {
    let mut interp = interpreter().expect("init");

    let value = interp.convert(None::<Value>);
    let debug = value.to_s_debug(&mut interp);
    assert_eq!(debug, "NilClass<nil>");
}

#[test]
fn inspect_nil() {
    let mut interp = interpreter().expect("init");

    let value = interp.convert(None::<Value>);
    let debug = value.inspect(&mut interp);
    assert_eq!(debug, "nil");
}

#[test]
fn to_s_fixnum() {
    let mut interp = interpreter().expect("init");

    let value: Value = interp.convert(255i64);
    let string = value.to_s(&mut interp);
    assert_eq!(string, "255");
}

#[test]
fn debug_fixnum() {
    let mut interp = interpreter().expect("init");

    let value: Value = interp.convert(255i64);
    let debug = value.to_s_debug(&mut interp);
    assert_eq!(debug, "Fixnum<255>");
}

#[test]
fn inspect_fixnum() {
    let mut interp = interpreter().expect("init");

    let value: Value = interp.convert(255i64);
    let debug = value.inspect(&mut interp);
    assert_eq!(debug, "255");
}

#[test]
fn to_s_string() {
    let mut interp = interpreter().expect("init");

    let value = interp.convert("interstate");
    let string = value.to_s(&mut interp);
    assert_eq!(string, "interstate");
}

#[test]
fn debug_string() {
    let mut interp = interpreter().expect("init");

    let value = interp.convert("interstate");
    let debug = value.to_s_debug(&mut interp);
    assert_eq!(debug, r#"String<"interstate">"#);
}

#[test]
fn inspect_string() {
    let mut interp = interpreter().expect("init");

    let value = interp.convert("interstate");
    let debug = value.inspect(&mut interp);
    assert_eq!(debug, r#""interstate""#);
}

#[test]
fn to_s_empty_string() {
    let mut interp = interpreter().expect("init");

    let value = interp.convert("");
    let string = value.to_s(&mut interp);
    assert_eq!(string, "");
}

#[test]
fn debug_empty_string() {
    let mut interp = interpreter().expect("init");

    let value = interp.convert("");
    let debug = value.to_s_debug(&mut interp);
    assert_eq!(debug, r#"String<"">"#);
}

#[test]
fn inspect_empty_string() {
    let mut interp = interpreter().expect("init");

    let value = interp.convert("");
    let debug = value.inspect(&mut interp);
    assert_eq!(debug, r#""""#);
}

#[test]
fn is_dead() {
    let mut interp = interpreter().expect("init");
    let arena = interp.create_arena_savepoint();
    let live = interp.convert("dead");
    assert!(!live.is_dead(&interp));
    let dead = live;
    let live = dead
        .funcall::<Value>(&mut interp, "inspect", &[], None)
        .expect("value");
    interp.arena_restore(arena);
    interp.full_gc();
    // unreachable objects are dead after a full garbage collection
    assert!(dead.is_dead(&interp));
    // the result of the most recent call is always live even after a full
    // garbage collection
    assert!(!live.is_dead(&interp));
}

#[test]
fn immediate_is_dead() {
    let mut interp = interpreter().expect("init");
    let arena = interp.create_arena_savepoint();
    let live = interp.convert(27i64);
    assert!(!live.is_dead(&interp));
    let immediate = live;
    let live = interp.convert(64i64);
    interp.arena_restore(arena);
    interp.full_gc();
    // immediate objects are never dead
    assert!(!immediate.is_dead(&interp));
    assert!(!live.is_dead(&interp));
    // Fixnums are immediate even if they are created directly without an
    // interpreter.
    let fixnum: Value = interp.convert(99i64);
    assert!(!fixnum.is_dead(&interp));
}

#[test]
fn funcall() {
    let mut interp = interpreter().expect("init");
    let nil = interp.convert(None::<Value>);
    assert!(nil
        .funcall::<bool>(&mut interp, "nil?", &[], None)
        .expect("nil?"));
    let s = interp.convert("foo");
    assert!(!s
        .funcall::<bool>(&mut interp, "nil?", &[], None)
        .expect("nil?"));
    let delim = interp.convert("");
    let split = s
        .funcall::<Vec<String>>(&mut interp, "split", &[delim], None)
        .expect("split");
    assert_eq!(split, vec!["f", "o", "o"])
}

#[test]
fn funcall_different_types() {
    let mut interp = interpreter().expect("init");
    let nil = interp.convert(None::<Value>);
    let s = interp.convert("foo");
    let eql = nil.funcall::<bool>(&mut interp, "==", &[s], None);
    assert_eq!(eql, Ok(false));
}

#[test]
fn funcall_type_error() {
    let mut interp = interpreter().expect("init");
    let nil = interp.convert(None::<Value>);
    let s = interp.convert("foo");
    let result = s.funcall::<String>(&mut interp, "+", &[nil], None);
    assert_eq!(
        result,
        Err(ArtichokeError::Exec(
            "TypeError: nil cannot be converted to String".to_owned()
        ))
    );
}

#[test]
fn funcall_method_not_exists() {
    let mut interp = interpreter().expect("init");
    let nil = interp.convert(None::<Value>);
    let s = interp.convert("foo");
    let result = nil.funcall::<bool>(&mut interp, "garbage_method_name", &[s], None);
    assert_eq!(
        result,
        Err(ArtichokeError::Exec(
            "NoMethodError: undefined method 'garbage_method_name'".to_owned()
        ))
    );
}

#[test]
fn to_s_negative_fixnum() {
    let mut interp = interpreter().expect("init");
    let value: Value = interp.convert(-255i64);
    assert_eq!(value.to_s(&mut interp), "-255");
}

#[test]
fn string_concat() {
    let mut interp = interpreter().expect("init");
    let a = interp.convert("foo");
    let b = interp.convert("bar");
    let joined = a.funcall::<String>(&mut interp, "+", &[b], None);
    assert_eq!(joined, Ok("foobar".to_owned()));
}

#[test]
fn split_empty_receiver() {
    let mut interp = interpreter().expect("init");
    let s = interp.convert("");
    let delim = interp.convert("");
    let split = s.funcall::<Vec<String>>(&mut interp, "split", &[delim], None);
    assert_eq!(split, Ok(Vec::<String>::new()));
}

#[test]
fn split_nonempty_separator_unsupported() {
    let mut interp = interpreter().expect("init");
    let s = interp.convert("a,b");
    let delim = interp.convert(",");
    let split = s.funcall::<Vec<String>>(&mut interp, "split", &[delim], None);
    assert_eq!(
        split,
        Err(ArtichokeError::Exec(
            "NotImplementedError: String#split with a nonempty separator".to_owned()
        ))
    );
}

#[test]
fn wrong_arity_is_argument_error() {
    let mut interp = interpreter().expect("init");
    let s = interp.convert("foo");
    let arg = interp.convert("bar");
    let result = s.funcall::<String>(&mut interp, "to_s", &[arg], None);
    assert_eq!(
        result,
        Err(ArtichokeError::Exec(
            "ArgumentError: wrong number of arguments".to_owned()
        ))
    );
}

#[test]
fn respond_to_reports_method_support() {
    let mut interp = interpreter().expect("init");
    let s = interp.convert("foo");
    assert_eq!(s.respond_to(&mut interp, "split"), Ok(true));
    let n = interp.convert(5i64);
    assert_eq!(n.respond_to(&mut interp, "split"), Ok(false));
    assert_eq!(n.respond_to(&mut interp, "to_s"), Ok(true));
    assert_eq!(n.respond_to(&mut interp, "garbage_method_name"), Ok(false));
}

#[test]
fn freeze_roots_the_frozen_value() {
    let mut interp = interpreter().expect("init");
    let s = interp.convert("foo");
    let before = interp.arena.len();
    assert!(s.freeze(&mut interp).is_ok());
    assert_eq!(interp.arena.len(), before + 1);
}

#[test]
fn try_into_and_itself_convert() {
    let mut interp = interpreter().expect("init");
    let v = interp.convert(42i64);
    let n: i64 = v.itself(&interp).expect("itself");
    assert_eq!(n, 42);
    let v2 = interp.convert("abc");
    let s: String = v2.try_into(&interp).expect("string");
    assert_eq!(s, "abc");
}

#[test]
fn debug_foreign_data() {
    let mut interp = interpreter().expect("init");
    let re = artichoke_backend::regexp::regexp_new(&mut interp, "abc".to_string());
    let debug = re.to_s_debug(&mut interp);
    assert_eq!(debug, "Data<<unknown>>");
}

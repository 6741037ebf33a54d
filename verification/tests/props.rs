use artichoke_backend::convert::{Convert, TryConvert};
use artichoke_backend::interpreter;
use artichoke_backend::regexp::regexp_new;
use artichoke_backend::types::{RawValue, Ruby};
use artichoke_backend::value::{last_error, LastError, Protect, Value};
use artichoke_backend::ArtichokeError;

#[test]
fn protected_value_survives_collection_until_restore() {
    let mut interp = interpreter().expect("init");
    let savepoint = interp.create_arena_savepoint();
    let value = interp.convert("transient");
    value.protect(&mut interp);
    interp.full_gc();
    // protected within the savepoint: alive across a full collection
    assert!(!value.is_dead(&interp));
    interp.arena_restore(savepoint);
    interp.full_gc();
    // once the savepoint is restored and nothing else roots it, it dies
    assert!(value.is_dead(&interp));
}

#[test]
fn immediates_survive_everything() {
    let mut interp = interpreter().expect("init");
    let savepoint = interp.create_arena_savepoint();
    let b = interp.convert(true);
    let n = interp.convert(-7i64);
    let nil = interp.convert(None::<Value>);
    interp.arena_restore(savepoint);
    interp.full_gc();
    assert!(!b.is_dead(&interp));
    assert!(!n.is_dead(&interp));
    assert!(!nil.is_dead(&interp));
}

#[test]
fn too_many_args_performs_no_vm_call() {
    let mut interp = interpreter().expect("init");
    let v = interp.convert(1i64);
    let mut args: Vec<Value> = Vec::new();
    for _ in 0..17 {
        args.push(interp.convert(2i64));
    }
    let heap_before = interp.heap.len();
    let symbols_before = interp.symbols.len();
    let arena_before = interp.arena.len();
    let result = v.funcall::<bool>(&mut interp, "nil?", args.as_slice(), None);
    assert_eq!(
        result,
        Err(ArtichokeError::TooManyArgs { given: 17, max: 16 })
    );
    // no observable side effect: nothing allocated, interned or rooted
    assert_eq!(interp.heap.len(), heap_before);
    assert_eq!(interp.symbols.len(), symbols_before);
    assert_eq!(interp.arena.len(), arena_before);
}

#[test]
fn round_trip_conversions() {
    let mut interp = interpreter().expect("init");
    let v = interp.convert(true);
    assert_eq!(interp.try_convert(v), Ok(true));
    let v = interp.convert(false);
    assert_eq!(interp.try_convert(v), Ok(false));
    let v = interp.convert(255i64);
    assert_eq!(interp.try_convert(v), Ok(255i64));
    let v = interp.convert(i64::MIN);
    assert_eq!(interp.try_convert(v), Ok(i64::MIN));
    let v = interp.convert("interstate");
    assert_eq!(interp.try_convert(v), Ok("interstate".to_string()));
    let v = interp.convert("");
    assert_eq!(interp.try_convert(v), Ok("".to_string()));
}

#[test]
fn conversion_failure_is_typed() {
    let mut interp = interpreter().expect("init");
    let v = interp.convert("not a number");
    let r: Result<i64, ArtichokeError> = interp.try_convert(v);
    assert_eq!(r, Err(ArtichokeError::ConvertToRust(Ruby::Str)));
}

#[test]
fn foreign_data_handle_refuses_duplication() {
    let mut interp = interpreter().expect("init");
    let re = regexp_new(&mut interp, "abc".to_string());
    assert_eq!(re.ruby_type(), Ruby::Data);
    // a foreign-data backed handle must not yield a second usable handle
    assert!(re.try_clone().is_none());
    let b = interp.convert(true);
    let copy = b.try_clone().expect("clone");
    assert_eq!(copy.inner(), b.inner());
}

#[test]
fn exception_is_classified_and_savepoint_restored() {
    let mut interp = interpreter().expect("init");
    let s = interp.convert("foo");
    let arena_len = interp.arena.len();
    let heap_len = interp.heap.len();
    for _ in 0..10 {
        let result = s.funcall::<bool>(&mut interp, "missing_method", &[], None);
        match result {
            Err(ArtichokeError::Exec(msg)) => assert!(!msg.is_empty()),
            other => panic!("expected a classified exception, got {:?}", other),
        }
        // no GC-root leak across repeated failing calls
        assert_eq!(interp.arena.len(), arena_len);
    }
    // the raised exceptions themselves are collectable garbage
    interp.exc = None;
    interp.full_gc();
    for i in heap_len..interp.heap.len() {
        assert!(!interp.heap[i].alive);
    }
}

#[test]
fn unreachable_values_are_rejected_at_the_boundary() {
    let mut interp = interpreter().expect("init");
    let u = Value::new(RawValue::Unreachable);
    assert!(u.is_unreachable());
    let r = u.funcall::<bool>(&mut interp, "freeze", &[], None);
    assert_eq!(r, Err(ArtichokeError::UnreachableValue));
}

#[test]
fn corrupted_error_slot_reports_extraction_failure() {
    let mut interp = interpreter().expect("init");
    interp.exc = Some(RawValue::Fixnum(7));
    match last_error(&interp) {
        LastError::Unreadable(tag) => assert_eq!(tag, Ruby::Fixnum),
        _ => panic!("expected an unreadable error slot"),
    }
    let s = interp.convert("foo");
    let r = s.funcall::<bool>(&mut interp, "nil?", &[], None);
    // a successful call clears the stale slot and succeeds
    assert_eq!(r, Ok(false));
    assert!(interp.exc.is_none());
}

#[test]
fn protect_record_carries_the_request() {
    let mut interp = interpreter().expect("init");
    let s = interp.convert("foo");
    let sym = interp.sym_intern("nil?");
    let record = Protect::new(s.inner(), sym, Vec::new());
    assert!(record.block.is_none());
    let record = record.with_block(RawValue::Nil);
    assert_eq!(record.block, Some(RawValue::Nil));
    let out = Protect::run(&mut interp, record);
    assert_eq!(out, Ok(RawValue::Bool(false)));
}

#[test]
fn savepoints_nest() {
    let mut interp = interpreter().expect("init");
    let outer = interp.create_arena_savepoint();
    let a = interp.convert("outer");
    let inner = interp.create_arena_savepoint();
    let b = interp.convert("inner");
    interp.arena_restore(inner);
    interp.full_gc();
    assert!(!a.is_dead(&interp));
    assert!(b.is_dead(&interp));
    interp.arena_restore(outer);
    interp.full_gc();
    assert!(a.is_dead(&interp));
}

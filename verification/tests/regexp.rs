use artichoke_backend::convert::{Convert, TryConvert};
use artichoke_backend::interp::Artichoke;
use artichoke_backend::interpreter;
use artichoke_backend::regexp::{method, regexp_new, Args, Error};
use artichoke_backend::types::{HeapObj, RawValue, Ruby};
use artichoke_backend::value::Value;

fn gv_string(interp: &mut Artichoke, name: &str) -> Option<String> {
    let sym = interp.sym_intern(name);
    match interp.gv_get(sym) {
        RawValue::Str(i) => match &interp.heap[i].obj {
            HeapObj::Str(s) => Some(s.clone()),
            _ => None,
        },
        _ => None,
    }
}

fn gv_raw(interp: &mut Artichoke, name: &str) -> RawValue {
    let sym = interp.sym_intern(name);
    interp.gv_get(sym)
}

#[test]
fn match_sets_capture_globals() {
    let mut interp = interpreter().expect("init");
    let re = regexp_new(&mut interp, "(\\w)(\\w*)".to_string());
    let args = Args {
        string: Some("abc".to_string()),
    };
    let result = method(&mut interp, args, &re).expect("match");
    let matched: bool = interp.try_convert(result).expect("bool");
    assert!(matched);
    assert_eq!(gv_string(&mut interp, "$&"), Some("abc".to_string()));
    assert_eq!(gv_string(&mut interp, "$1"), Some("a".to_string()));
    assert_eq!(gv_string(&mut interp, "$2"), Some("bc".to_string()));
    assert_eq!(gv_string(&mut interp, "$`"), Some("".to_string()));
    assert_eq!(gv_string(&mut interp, "$'"), Some("".to_string()));
    assert_eq!(interp.num_set_regexp_capture_globals, 3);
    let last_match = gv_raw(&mut interp, "$~");
    let handle = Value::new(last_match);
    assert_eq!(handle.ruby_type(), Ruby::Data);
}

#[test]
fn failed_match_clears_last_match_but_keeps_numbered_globals() {
    let mut interp = interpreter().expect("init");
    let re = regexp_new(&mut interp, "(\\w)(\\w*)".to_string());
    let args = Args {
        string: Some("abc".to_string()),
    };
    method(&mut interp, args, &re).expect("match");

    let re2 = regexp_new(&mut interp, "x".to_string());
    let args2 = Args {
        string: Some("abc".to_string()),
    };
    let result = method(&mut interp, args2, &re2).expect("no match");
    let matched: bool = interp.try_convert(result).expect("bool");
    assert!(!matched);
    assert_eq!(gv_raw(&mut interp, "$~"), RawValue::Nil);
    assert_eq!(gv_raw(&mut interp, "$`"), RawValue::Nil);
    assert_eq!(gv_raw(&mut interp, "$'"), RawValue::Nil);
    // the numbered globals of the previous successful match are kept, and
    // so is the high-water mark
    assert_eq!(gv_string(&mut interp, "$1"), Some("a".to_string()));
    assert_eq!(gv_string(&mut interp, "$2"), Some("bc".to_string()));
    assert_eq!(interp.num_set_regexp_capture_globals, 3);
}

#[test]
fn stale_numbered_globals_are_cleared_by_smaller_match() {
    let mut interp = interpreter().expect("init");
    let re = regexp_new(&mut interp, "(\\w)(\\w*)".to_string());
    let args = Args {
        string: Some("abc".to_string()),
    };
    method(&mut interp, args, &re).expect("match");

    let re2 = regexp_new(&mut interp, "b".to_string());
    let args2 = Args {
        string: Some("abc".to_string()),
    };
    let result = method(&mut interp, args2, &re2).expect("match");
    let matched: bool = interp.try_convert(result).expect("bool");
    assert!(matched);
    assert_eq!(gv_string(&mut interp, "$&"), Some("b".to_string()));
    // the stale $1 and $2 from the larger previous match are overwritten
    // back to nil
    assert_eq!(gv_raw(&mut interp, "$1"), RawValue::Nil);
    assert_eq!(gv_raw(&mut interp, "$2"), RawValue::Nil);
    assert_eq!(gv_string(&mut interp, "$`"), Some("a".to_string()));
    assert_eq!(gv_string(&mut interp, "$'"), Some("c".to_string()));
    assert_eq!(interp.num_set_regexp_capture_globals, 1);
}

#[test]
fn nil_candidate_clears_last_match_and_reports_false() {
    let mut interp = interpreter().expect("init");
    let re = regexp_new(&mut interp, "(\\w)(\\w*)".to_string());
    let args = Args {
        string: Some("abc".to_string()),
    };
    method(&mut interp, args, &re).expect("match");
    assert_eq!(gv_string(&mut interp, "$&"), Some("abc".to_string()));

    let result = method(&mut interp, Args { string: None }, &re).expect("nil candidate");
    let matched: bool = interp.try_convert(result).expect("bool");
    assert!(!matched);
    assert_eq!(gv_raw(&mut interp, "$~"), RawValue::Nil);
    // capture globals are untouched, the pre- and post-match globals too
    assert_eq!(gv_string(&mut interp, "$&"), Some("abc".to_string()));
    assert_eq!(gv_string(&mut interp, "$1"), Some("a".to_string()));
    assert_eq!(gv_string(&mut interp, "$2"), Some("bc".to_string()));
    assert_eq!(gv_string(&mut interp, "$`"), Some("".to_string()));
    assert_eq!(gv_string(&mut interp, "$'"), Some("".to_string()));
    assert_eq!(interp.num_set_regexp_capture_globals, 3);
}

#[test]
fn wrong_pattern_handle_is_fatal() {
    let mut interp = interpreter().expect("init");
    let not_a_pattern = interp.convert("abc");
    let args = Args {
        string: Some("abc".to_string()),
    };
    assert!(matches!(
        method(&mut interp, args, &not_a_pattern),
        Err(Error::Fatal)
    ));
}

#[test]
fn extract_accepts_string_and_nil() {
    let mut interp = interpreter().expect("init");
    let s = interp.convert("candidate");
    let args = Args::extract(&interp, &s).expect("string-like");
    assert_eq!(args.string, Some("candidate".to_string()));

    let nil = interp.convert(None::<Value>);
    let args = Args::extract(&interp, &nil).expect("string-like");
    assert_eq!(args.string, None);

    let n = interp.convert(7i64);
    assert!(matches!(
        Args::extract(&interp, &n),
        Err(Error::NoImplicitConversionToString)
    ));
}

//! The interpreter-global capture-state manager: the side effects of a
//! pattern-match operation (`Regexp#===`-style case comparison) on the
//! interpreter's capture globals.
//!
//! The pattern engine is an outside collaborator; its outcome is read
//! into a plain [`CaptureRecord`] and the verified
//! [`apply_captures`] performs the global updates for every possible
//! outcome value.

use vstd::prelude::*;

use crate::digits::{dec_nat, is_digit_char, lemma_dec_nat_props, u64_dec};
use crate::interp::{gv_of, Artichoke};
use crate::types::{heap_pattern, heap_str, val_wf, HeapObj, RawValue};
use crate::value::{heap_same_prefix, Value};

verus! {

/// Errors of the case-comparison operation.
#[derive(Debug, Clone, Copy, Hash, PartialEq, Eq, Structural)]
pub enum Error {
    /// Unrecoverable internal failure: wrong object tag on the pattern
    /// handle, or a pattern the engine refuses.
    Fatal,
    /// The candidate argument is not string-like.
    NoImplicitConversionToString,
}

/// The extracted candidate argument: a string, or absent.
#[derive(Debug, Clone)]
pub struct Args {
    pub string: Option<String>,
}

impl Args {
    /// Extract the candidate argument from a VM value: nil means absent,
    /// a string is taken as is, anything else is not string-like.
    pub fn extract(interp: &Artichoke, value: &Value) -> (r: Result<Args, Error>)
        requires
            interp.wf(),
            val_wf(value@, interp.heap@),
        ensures
            match value@ {
                RawValue::Nil => r matches Ok(a) && a.string is None,
                RawValue::Str(i) => r matches Ok(a) && (a.string matches Some(s) && heap_str(
                    interp.heap@,
                    i as int,
                ) == Some(s@)),
                _ => r == Err::<Args, Error>(Error::NoImplicitConversionToString),
            },
    {
        let handle = Value::new(value.inner());
        match crate::convert::TryConvert::<Option<String>>::try_convert(interp, handle) {
            Ok(string) => Ok(Args { string }),
            Err(_) => Err(Error::NoImplicitConversionToString),
        }
    }
}

/// Abstract outcome of a successful match: the captured groups (group 0
/// is the whole match) and, when group 0 has a defined position, the
/// text before and after the match.
pub struct CapturesModel {
    pub groups: Seq<Option<Seq<char>>>,
    pub bounds: Option<(Seq<char>, Seq<char>)>,
}

/// What the pattern engine reports for `pattern` against `text`: `None`
/// when there is no match.  The outcome is a function of the pattern and
/// the text alone.
pub uninterp spec fn regex_captures(pattern: Seq<char>, text: Seq<char>) -> Option<CapturesModel>;

/// Whether the engine accepts `pattern`: the verdict of compiling it, a
/// function of the pattern alone.
pub uninterp spec fn pattern_wf(pattern: Seq<char>) -> bool;

/// The engine's outcome, read into plain host values.
pub struct CaptureRecord {
    pub groups: Vec<Option<String>>,
    pub bounds: Option<(String, String)>,
}

impl CaptureRecord {
    pub open spec fn model(&self) -> CapturesModel {
        CapturesModel {
            groups: Seq::new(
                self.groups@.len(),
                |i: int|
                    match self.groups@[i] {
                        Some(s) => Some(s@),
                        None => None,
                    },
            ),
            bounds: match self.bounds {
                Some(b) => Some((b.0@, b.1@)),
                None => None,
            },
        }
    }
}

/// Relies on `regex::Regex::new` and `regex::Regex::captures`: compiles
/// the pattern and runs it over the text; each group is read with
/// `Captures::get`, and group 0's byte span (always on character
/// boundaries) yields the pre- and post-match substrings.  The outcome
/// depends on the pattern and text alone.  Compilation is deterministic
/// in the pattern, so `Err` comes exactly on a refused pattern.
#[verifier::external_body]
fn run_pattern(pattern: &str, text: &str) -> (r: Result<Option<CaptureRecord>, ()>)
    ensures
        r is Err <==> !pattern_wf(pattern@),
        match r {
            Ok(rec) => match rec {
                Some(rec) => regex_captures(pattern@, text@) == Some(rec.model()),
                None => regex_captures(pattern@, text@) is None,
            },
            Err(_) => true,
        },
{
    match regex::Regex::new(pattern) {
        Ok(re) => Ok(re.captures(text).map(|caps| CaptureRecord {
            groups: (0..caps.len()).map(|g| caps.get(g).map(|m| m.as_str().to_string())).collect(),
            bounds: caps.get(0).map(
                |m| (text[..m.start()].to_string(), text[m.end()..].to_string()),
            ),
        })),
        Err(_) => Err(()),
    }
}

/// The name of a capture global: the symbolic whole-match global for
/// group 0, numbered globals above.
pub open spec fn capture_name(g: nat) -> Seq<char> {
    if g == 0 {
        "$&"@
    } else {
        "$"@ + dec_nat(g)
    }
}

/// Distinct groups have distinct global names.
pub proof fn lemma_capture_names_distinct(a: nat, b: nat)
    requires
        a != b,
    ensures
        capture_name(a) != capture_name(b),
{
    reveal_strlit("$&");
    reveal_strlit("$");
    if a == 0 || b == 0 {
        let g = if a == 0 { b } else { a };
        lemma_dec_nat_props(g);
        if capture_name(0) == capture_name(g) {
            assert(("$"@ + dec_nat(g))[1] == dec_nat(g)[0]);
            assert(is_digit_char(dec_nat(g)[0]));
            assert(capture_name(0)[1] == '&');
        }
    } else {
        lemma_dec_nat_props(a);
        lemma_dec_nat_props(b);
        if capture_name(a) == capture_name(b) {
            assert("$"@.len() == 1);
            assert(("$"@ + dec_nat(a)).len() == 1 + dec_nat(a).len());
            assert(("$"@ + dec_nat(b)).len() == 1 + dec_nat(b).len());
            assert(dec_nat(a).len() == dec_nat(b).len());
            assert forall|i: int| 0 <= i < dec_nat(a).len() implies #[trigger] dec_nat(a)[i]
                == dec_nat(b)[i] by {
                assert(("$"@ + dec_nat(a))[i + 1] == dec_nat(a)[i]);
                assert(("$"@ + dec_nat(b))[i + 1] == dec_nat(b)[i]);
            }
            assert(dec_nat(a) =~= dec_nat(b));
            crate::digits::lemma_dec_nat_injective(a, b);
        }
    }
}

/// Capture-global names never collide with the last-match, pre-match or
/// post-match globals.
pub proof fn lemma_capture_name_not_special(g: nat)
    ensures
        capture_name(g) != "$~"@,
        capture_name(g) != "$`"@,
        capture_name(g) != "$'"@,
{
    reveal_strlit("$&");
    reveal_strlit("$");
    reveal_strlit("$~");
    reveal_strlit("$`");
    reveal_strlit("$'");
    if g == 0 {
        assert(capture_name(0)[1] == '&');
    } else {
        lemma_dec_nat_props(g);
        assert(capture_name(g)[1] == dec_nat(g)[0]);
        assert(is_digit_char(dec_nat(g)[0]));
    }
}

/// The name of a capture global, executably.
fn capture_name_string(g: usize) -> (r: String)
    ensures
        r@ == capture_name(g as nat),
{
    if g == 0 {
        String::from_str("$&")
    } else {
        let mut r = String::from_str("$");
        r.append(u64_dec(g as u64).as_str());
        proof {
            assert(r@ =~= capture_name(g as nat));
        }
        r
    }
}

/// The global `name` holds a live string with content `content`.
pub open spec fn gv_is_str(s: Artichoke, name: Seq<char>, content: Seq<char>) -> bool {
    gv_of(s, name) matches RawValue::Str(i) && heap_str(s.heap@, i as int) == Some(content)
}

/// What the capture global of group `g` must hold after a match with
/// outcome `m`: the group's text when the group participated, nil
/// otherwise (including stale globals beyond the current match's count).
pub open spec fn capture_ok(s: Artichoke, g: nat, m: CapturesModel) -> bool {
    if g < m.groups.len() && m.groups[g as int] is Some {
        gv_is_str(s, capture_name(g), m.groups[g as int]->Some_0)
    } else {
        gv_of(s, capture_name(g)) is Nil
    }
}

/// The globals a match with `hi` capture slots may touch.
pub open spec fn touched_names(hi: nat) -> Set<Seq<char>> {
    Set::new(
        |name: Seq<char>|
            name == "$~"@ || name == "$`"@ || name == "$'"@ || exists|g: nat|
                g < hi && name == capture_name(g),
    )
}

/// Every global outside `touched` keeps its value.
pub open spec fn untouched_globals(pre: Artichoke, post: Artichoke, touched: Set<Seq<char>>) -> bool {
    forall|name: Seq<char>|
        !touched.contains(name) ==> #[trigger] gv_of(post, name) == gv_of(pre, name)
}

/// State change of a failed match: the pre-match, post-match and
/// last-match globals are cleared to nil, every other global keeps its
/// value, and — deliberately — the high-water mark of previously set
/// numbered globals is left unchanged.
pub open spec fn nomatch_post(pre: Artichoke, post: Artichoke) -> bool {
    &&& post.heap@ == pre.heap@
    &&& post.arena@ == pre.arena@
    &&& post.exc == pre.exc
    &&& post.most_recent == pre.most_recent
    &&& post.num_set_regexp_capture_globals == pre.num_set_regexp_capture_globals
    &&& gv_of(post, "$~"@) is Nil
    &&& gv_of(post, "$`"@) is Nil
    &&& gv_of(post, "$'"@) is Nil
    &&& untouched_globals(pre, post, touched_names(0))
}

/// The last-match global holds match data for `text` against `pattern`
/// over the whole candidate.
pub open spec fn gv_is_matchdata(
    s: Artichoke,
    name: Seq<char>,
    text: Seq<char>,
    pattern: Seq<char>,
) -> bool {
    &&& gv_of(s, name) matches RawValue::Data(i)
    &&& 0 <= (gv_of(s, name)->Data_0 as int) < s.heap@.len()
    &&& (s.heap@[gv_of(s, name)->Data_0 as int].obj matches HeapObj::MatchData {
        text: t,
        pattern: p,
        start,
        end,
    } && t@ == text && p@ == pattern && start == 0 && end == text.len())
    &&& s.heap@[gv_of(s, name)->Data_0 as int].alive
}

/// State change of a successful match with outcome `m`: numbered globals
/// up to the larger of the previous and current counts are set (stale
/// ones back to nil), the count is recorded, the pre-/post-match globals
/// are set when group 0 has a position, and the last-match global binds
/// fresh match data.
pub open spec fn match_post(
    pre: Artichoke,
    post: Artichoke,
    pattern: Seq<char>,
    text: Seq<char>,
    m: CapturesModel,
) -> bool {
    let k = m.groups.len();
    let prev = pre.num_set_regexp_capture_globals as nat;
    let hi: nat = if prev >= k { prev } else { k };
    {
        &&& heap_same_prefix(pre.heap@, post.heap@)
        &&& post.heap@.len() >= pre.heap@.len()
        &&& post.arena@.len() >= pre.arena@.len()
        &&& post.arena@.subrange(0, pre.arena@.len() as int) == pre.arena@
        &&& post.exc == pre.exc
        &&& post.most_recent == pre.most_recent
        &&& post.num_set_regexp_capture_globals as nat == k
        &&& forall|g: nat| g < hi ==> #[trigger] capture_ok(post, g, m)
        &&& (m.bounds matches Some(b) ==> gv_is_str(post, "$`"@, b.0) && gv_is_str(
            post,
            "$'"@,
            b.1,
        ))
        &&& gv_is_matchdata(post, "$~"@, text, pattern)
        &&& untouched_globals(pre, post, touched_names(hi))
    }
}

/// Apply the side effects of a match outcome to the interpreter's
/// capture globals and report whether the match succeeded.  This is
/// total in the outcome value: every possible engine report leads to
/// exactly the specified global state.
pub fn apply_captures(
    interp: &mut Artichoke,
    pattern: &str,
    string: &str,
    cap: Option<CaptureRecord>,
) -> (r: Value)
    requires
        old(interp).wf(),
    ensures
        final(interp).wf(),
        match cap {
            None => nomatch_post(*old(interp), *final(interp)) && r@ == RawValue::Bool(false),
            Some(rec) => match_post(
                *old(interp),
                *final(interp),
                pattern@,
                string@,
                rec.model(),
            ) && r@ == RawValue::Bool(true),
        },
{
    let ghost pre = *interp;
    match cap {
        None => {
            interp.gv_set_by_name("$`", RawValue::Nil);
            interp.gv_set_by_name("$'", RawValue::Nil);
            interp.gv_set_by_name("$~", RawValue::Nil);
            proof {
                reveal_strlit("$`");
                reveal_strlit("$'");
                reveal_strlit("$~");
                assert("$`"@.len() == 2 && "$'"@.len() == 2 && "$~"@.len() == 2);
                assert("$`"@[1] == '`' && "$'"@[1] == '\'' && "$~"@[1] == '~');
                assert(gv_of(*interp, "$`"@) is Nil);
                assert(gv_of(*interp, "$'"@) is Nil);
                assert(gv_of(*interp, "$~"@) is Nil);
            }
            Value::new(RawValue::Bool(false))
        },
        Some(rec) => {
            let ghost m = rec.model();
            let k = rec.groups.len();
            let prev = interp.num_set_regexp_capture_globals;
            let hi = if prev >= k {
                prev
            } else {
                k
            };
            let mut g: usize = 0;
            while g < hi
                invariant
                    interp.wf(),
                    g <= hi,
                    k == rec.groups@.len(),
                    hi as nat == (if prev as nat >= m.groups.len() {
                        prev as nat
                    } else {
                        m.groups.len()
                    }),
                    m == rec.model(),
                    heap_same_prefix(pre.heap@, interp.heap@),
                    interp.heap@.len() >= pre.heap@.len(),
                    interp.arena@.len() >= pre.arena@.len(),
                    interp.arena@.subrange(0, pre.arena@.len() as int) == pre.arena@,
                    interp.exc == pre.exc,
                    interp.most_recent == pre.most_recent,
                    interp.num_set_regexp_capture_globals == pre.num_set_regexp_capture_globals,
                    forall|g2: nat| g2 < g as nat ==> #[trigger] capture_ok(*interp, g2, m),
                    forall|name: Seq<char>|
                        !(exists|g2: nat| g2 < g as nat && name == capture_name(g2))
                            ==> #[trigger] gv_of(*interp, name) == gv_of(pre, name),
                decreases hi - g,
            {
                let ghost before = *interp;
                let v: RawValue = if g < k {
                    match &rec.groups[g] {
                        Some(s) => {
                            let idx = interp.allocate(HeapObj::Str(s.clone()));
                            RawValue::Str(idx)
                        },
                        None => RawValue::Nil,
                    }
                } else {
                    RawValue::Nil
                };
                let name = capture_name_string(g);
                interp.gv_set_by_name(name.as_str(), v);
                proof {
                    assert(capture_ok(*interp, g as nat, m));
                    assert forall|g2: nat| g2 < g as nat + 1 implies #[trigger] capture_ok(
                        *interp,
                        g2,
                        m,
                    ) by {
                        if g2 < g as nat {
                            lemma_capture_names_distinct(g2, g as nat);
                            assert(gv_of(*interp, capture_name(g2)) == gv_of(
                                before,
                                capture_name(g2),
                            ));
                            assert(capture_ok(before, g2, m));
                        }
                    }
                    assert forall|n2: Seq<char>|
                        !(exists|g2: nat| g2 < g as nat + 1 && n2 == capture_name(g2))
                            implies #[trigger] gv_of(*interp, n2) == gv_of(pre, n2) by {
                        assert(n2 != capture_name(g as nat));
                        assert(!(exists|g2: nat| g2 < g as nat && n2 == capture_name(g2)));
                        assert(gv_of(before, n2) == gv_of(pre, n2));
                        assert(gv_of(*interp, n2) == gv_of(before, n2));
                    }
                }
                g += 1;
            }
            let ghost loop_end = *interp;
            interp.num_set_regexp_capture_globals = k;
            let ghost after_set = *interp;
            let ghost mut after_bounds = *interp;
            if let Some((bound0, bound1)) = &rec.bounds {
                let i0 = interp.allocate(HeapObj::Str(bound0.clone()));
                interp.gv_set_by_name("$`", RawValue::Str(i0));
                let i1 = interp.allocate(HeapObj::Str(bound1.clone()));
                interp.gv_set_by_name("$'", RawValue::Str(i1));
                proof {
                    reveal_strlit("$`");
                    reveal_strlit("$'");
                    assert("$`"@.len() == 2 && "$'"@.len() == 2);
                    assert("$`"@[1] == '`' && "$'"@[1] == '\'');
                    after_bounds = *interp;
                    assert(m.bounds matches Some(bb) && gv_is_str(*interp, "$`"@, bb.0)
                        && gv_is_str(*interp, "$'"@, bb.1));
                    assert forall|n2: Seq<char>| n2 != "$`"@ && n2 != "$'"@ implies #[trigger] gv_of(
                        after_bounds,
                        n2,
                    ) == gv_of(after_set, n2) by {}
                }
            }
            let end = string.unicode_len();
            let md = interp.allocate(
                HeapObj::MatchData {
                    text: string.to_owned(),
                    pattern: pattern.to_owned(),
                    start: 0,
                    end,
                },
            );
            interp.gv_set_by_name("$~", RawValue::Data(md));
            proof {
                reveal_strlit("$`");
                reveal_strlit("$'");
                reveal_strlit("$~");
                assert("$`"@.len() == 2 && "$'"@.len() == 2 && "$~"@.len() == 2);
                assert("$`"@[1] == '`' && "$'"@[1] == '\'' && "$~"@[1] == '~');
                let ghost hi_n: nat = if pre.num_set_regexp_capture_globals as nat
                    >= m.groups.len() {
                    pre.num_set_regexp_capture_globals as nat
                } else {
                    m.groups.len()
                };
                assert(gv_is_matchdata(*interp, "$~"@, string@, pattern@));
                assert forall|g2: nat| g2 < hi_n implies #[trigger] capture_ok(*interp, g2, m) by {
                    lemma_capture_name_not_special(g2);
                    assert(capture_ok(loop_end, g2, m));
                    assert(gv_of(after_set, capture_name(g2)) == gv_of(
                        loop_end,
                        capture_name(g2),
                    ));
                    assert(gv_of(after_bounds, capture_name(g2)) == gv_of(
                        after_set,
                        capture_name(g2),
                    ));
                    assert(gv_of(*interp, capture_name(g2)) == gv_of(
                        after_bounds,
                        capture_name(g2),
                    ));
                }
                assert(m.bounds matches Some(b) ==> gv_is_str(*interp, "$`"@, b.0) && gv_is_str(
                    *interp,
                    "$'"@,
                    b.1,
                ));
                assert forall|n2: Seq<char>| !touched_names(hi_n).contains(n2)
                    implies #[trigger] gv_of(*interp, n2) == gv_of(pre, n2) by {
                    assert(n2 != "$~"@ && n2 != "$`"@ && n2 != "$'"@);
                    assert(!(exists|g2: nat| g2 < hi_n && n2 == capture_name(g2)));
                    assert(gv_of(loop_end, n2) == gv_of(pre, n2));
                    assert(gv_of(after_set, n2) == gv_of(loop_end, n2));
                    assert(gv_of(after_bounds, n2) == gv_of(after_set, n2));
                    assert(gv_of(*interp, n2) == gv_of(after_bounds, n2));
                }
                assert(interp.arena@.subrange(0, pre.arena@.len() as int) =~= pre.arena@);
                assert(match_post(pre, *interp, pattern@, string@, m));
            }
            Value::new(RawValue::Bool(true))
        },
    }
}

/// The pattern descriptor a value holds, when it is a pattern handle.
pub open spec fn pattern_of(s: Artichoke, v: RawValue) -> Option<Seq<char>> {
    match v {
        RawValue::Data(i) => heap_pattern(s.heap@, i as int),
        _ => None,
    }
}

/// Create a pattern object on the VM heap and hand back its
/// foreign-data handle.
pub fn regexp_new(interp: &mut Artichoke, pattern: String) -> (r: Value)
    requires
        old(interp).wf(),
    ensures
        final(interp).wf(),
        pattern_of(*final(interp), r@) == Some(pattern@),
        val_wf(r@, final(interp).heap@),
        heap_same_prefix(old(interp).heap@, final(interp).heap@),
        final(interp).heap@.len() == old(interp).heap@.len() + 1,
        final(interp).arena@ == old(interp).arena@.push(old(interp).heap@.len() as usize),
        final(interp).symbols@ == old(interp).symbols@,
        final(interp).globals@ == old(interp).globals@,
        final(interp).exc == old(interp).exc,
        final(interp).most_recent == old(interp).most_recent,
        final(interp).num_set_regexp_capture_globals == old(
            interp,
        ).num_set_regexp_capture_globals,
    {
    let idx = interp.allocate(HeapObj::Pattern(pattern));
    Value::new(RawValue::Data(idx))
}

/// `Regexp#===`-style case comparison: run the pattern held by `value`
/// against the candidate in `args` and update the interpreter-global
/// capture state.
///
/// With no candidate, the last-match global is cleared and `false` is
/// reported, regardless of any prior state, and no other global is
/// touched.  Otherwise the engine decides; a wrong pattern-handle tag or
/// a pattern the engine refuses is a fatal error that changes nothing.
pub fn method(interp: &mut Artichoke, args: Args, value: &Value) -> (r: Result<Value, Error>)
    requires
        old(interp).wf(),
        val_wf(value@, old(interp).heap@),
    ensures
        final(interp).wf(),
        pattern_of(*old(interp), value@) is None ==> (r == Err::<Value, Error>(Error::Fatal)
            && crate::interp::state_eq(*old(interp), *final(interp))),
        (pattern_of(*old(interp), value@) matches Some(p) ==> match args.string {
            None => {
                &&& r matches Ok(v) && v@ == RawValue::Bool(false)
                &&& gv_of(*final(interp), "$~"@) is Nil
                &&& forall|n: Seq<char>|
                    n != "$~"@ ==> #[trigger] gv_of(*final(interp), n) == gv_of(*old(interp), n)
                &&& final(interp).heap@ == old(interp).heap@
                &&& final(interp).arena@ == old(interp).arena@
                &&& final(interp).exc == old(interp).exc
                &&& final(interp).most_recent == old(interp).most_recent
                &&& final(interp).num_set_regexp_capture_globals == old(
                    interp,
                ).num_set_regexp_capture_globals
            },
            Some(cand) => if !pattern_wf(p) {
                r == Err::<Value, Error>(Error::Fatal) && crate::interp::state_eq(
                    *old(interp),
                    *final(interp),
                )
            } else {
                match regex_captures(p, cand@) {
                    None => nomatch_post(*old(interp), *final(interp)) && (r matches Ok(v) && v@
                        == RawValue::Bool(false)),
                    Some(m) => match_post(*old(interp), *final(interp), p, cand@, m) && (r
                        matches Ok(v) && v@ == RawValue::Bool(true)),
                }
            },
        }),
    {
    let pattern: String = match value.inner() {
        RawValue::Data(i) => match &interp.heap[i].obj {
            HeapObj::Pattern(p) => p.clone(),
            _ => {
                return Err(Error::Fatal);
            },
        },
        _ => {
            return Err(Error::Fatal);
        },
    };
    let string = match args.string {
        Some(string) => string,
        None => {
            interp.gv_set_by_name("$~", RawValue::Nil);
            proof {
                reveal_strlit("$~");
                reveal_strlit("$`");
                reveal_strlit("$'");
                assert("$~"@.len() == 2 && "$`"@.len() == 2 && "$'"@.len() == 2);
                assert("$~"@[1] == '~' && "$`"@[1] == '`' && "$'"@[1] == '\'');
            }
            return Ok(Value::new(RawValue::Bool(false)));
        },
    };
    let outcome = match run_pattern(pattern.as_str(), string.as_str()) {
        Ok(outcome) => outcome,
        Err(_) => {
            return Err(Error::Fatal);
        },
    };
    Ok(apply_captures(interp, pattern.as_str(), string.as_str(), outcome))
}

} // verus!

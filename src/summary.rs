//! Summary rendering of a document's JSON projection: long string leaves are
//! shortened, everything else is kept as it is.

use vstd::prelude::*;

verus! {

/// Strings longer than this many characters are shortened.
pub const SUMMARY_MAX_CHARS: usize = 50;

/// Characters kept from a shortened string, before the ellipsis.
pub const SUMMARY_KEPT_CHARS: usize = 47;

/// A JSON value as the summary sees it. Numbers keep their literal text;
/// objects keep their entries in order.
#[derive(Debug)]
pub enum JsonValue {
    Null,
    Bool(bool),
    Number(String),
    Str(Vec<char>),
    Array(Vec<JsonValue>),
    Object(Vec<(String, JsonValue)>),
}

/// A string leaf after summarizing.
pub open spec fn shortened(s: Seq<char>) -> Seq<char> {
    if s.len() > SUMMARY_MAX_CHARS {
        s.subrange(0, SUMMARY_KEPT_CHARS as int) + seq!['.', '.', '.']
    } else {
        s
    }
}

/// `b` is the summary of `a`: the same shape, the same entries in the same
/// order, the same non-string leaves, and each string leaf shortened.
pub open spec fn summarized(a: JsonValue, b: JsonValue) -> bool
    decreases a,
{
    match a {
        JsonValue::Null => b is Null,
        JsonValue::Bool(x) => b is Bool && b->Bool_0 == x,
        JsonValue::Number(n) => b is Number && b->Number_0@ == n@,
        JsonValue::Str(s) => b is Str && b->Str_0@ == shortened(s@),
        JsonValue::Array(xs) => b is Array && b->Array_0@.len() == xs@.len() && forall|i: int|
            0 <= i < xs@.len() ==> summarized(#[trigger] xs@[i], b->Array_0@[i]),
        JsonValue::Object(es) => b is Object && b->Object_0@.len() == es@.len() && forall|i: int|
            0 <= i < es@.len() ==> (#[trigger] es@[i]).0@ == b->Object_0@[i].0@ && summarized(
                es@[i].1,
                b->Object_0@[i].1,
            ),
    }
}

/// Shortens one string leaf: beyond `SUMMARY_MAX_CHARS` characters, it keeps
/// the first `SUMMARY_KEPT_CHARS` and appends `...`.
pub fn shorten(s: &Vec<char>) -> (r: Vec<char>)
    ensures
        r@ == shortened(s@),
{
    if s.len() <= SUMMARY_MAX_CHARS {
        return s.clone();
    }
    let mut r: Vec<char> = Vec::new();
    let mut i: usize = 0;
    while i < SUMMARY_KEPT_CHARS
        invariant
            i <= SUMMARY_KEPT_CHARS < s@.len(),
            r@ == s@.subrange(0, i as int),
        decreases SUMMARY_KEPT_CHARS - i,
    {
        r.push(s[i]);
        proof {
            assert(r@ =~= s@.subrange(0, i + 1));
        }
        i = i + 1;
    }
    r.push('.');
    r.push('.');
    r.push('.');
    proof {
        assert(r@ =~= shortened(s@));
    }
    r
}

/// The summary rendering of a value.
pub fn summarize(v: &JsonValue) -> (r: JsonValue)
    ensures
        summarized(*v, r),
    decreases v,
{
    match v {
        JsonValue::Null => JsonValue::Null,
        JsonValue::Bool(x) => JsonValue::Bool(*x),
        JsonValue::Number(n) => JsonValue::Number(n.clone()),
        JsonValue::Str(s) => JsonValue::Str(shorten(s)),
        JsonValue::Array(xs) => {
            let mut out: Vec<JsonValue> = Vec::new();
            let mut i: usize = 0;
            while i < xs.len()
                invariant
                    i <= xs@.len(),
                    out@.len() == i,
                    *v == JsonValue::Array(*xs),
                    forall|j: int| 0 <= j < i ==> summarized(#[trigger] xs@[j], out@[j]),
                decreases xs.len() - i,
            {
                proof {
                    assert(decreases_to!(*v => v->Array_0));
                    assert(decreases_to!(*xs => xs@));
                    assert(decreases_to!(xs@ => xs@[i as int]));
                }
                let item = summarize(&xs[i]);
                out.push(item);
                i = i + 1;
            }
            JsonValue::Array(out)
        },
        JsonValue::Object(es) => {
            let mut out: Vec<(String, JsonValue)> = Vec::new();
            let mut i: usize = 0;
            while i < es.len()
                invariant
                    i <= es@.len(),
                    out@.len() == i,
                    *v == JsonValue::Object(*es),
                    forall|j: int|
                        0 <= j < i ==> (#[trigger] es@[j]).0@ == out@[j].0@ && summarized(
                            es@[j].1,
                            out@[j].1,
                        ),
                decreases es.len() - i,
            {
                let entry = &es[i];
                proof {
                    assert(decreases_to!(*v => v->Object_0));
                    assert(decreases_to!(*es => es@));
                    assert(decreases_to!(es@ => es@[i as int]));
                    assert(decreases_to!(es@[i as int] => es@[i as int].1));
                }
                let item = summarize(&entry.1);
                out.push((entry.0.clone(), item));
                i = i + 1;
            }
            JsonValue::Object(out)
        },
    }
}


/// A shortened string is never longer than the original, strings within the
/// limit are left alone, and shortening twice changes nothing more.
pub proof fn lemma_shortened(s: Seq<char>)
    ensures
        shortened(s).len() <= s.len(),
        s.len() <= SUMMARY_MAX_CHARS ==> shortened(s) == s,
        shortened(shortened(s)) == shortened(s),
{
}

/// Summarizing is idempotent: a summary is its own summary.
pub proof fn lemma_summary_idempotent(a: JsonValue, b: JsonValue)
    requires
        summarized(a, b),
    ensures
        summarized(b, b),
    decreases a,
{
    match a {
        JsonValue::Str(s) => {
            lemma_shortened(s@);
        },
        JsonValue::Array(xs) => {
            let ys = b->Array_0;
            assert forall|i: int| 0 <= i < ys@.len() implies summarized(
                #[trigger] ys@[i],
                ys@[i],
            ) by {
                assert(decreases_to!(a => a->Array_0));
                assert(decreases_to!(xs => xs@));
                assert(decreases_to!(xs@ => xs@[i]));
                lemma_summary_idempotent(xs@[i], ys@[i]);
            }
        },
        JsonValue::Object(es) => {
            let fs = b->Object_0;
            assert forall|i: int| 0 <= i < fs@.len() implies (#[trigger] fs@[i]).0@ == fs@[i].0@
                && summarized(fs@[i].1, fs@[i].1) by {
                assert(decreases_to!(a => a->Object_0));
                assert(decreases_to!(es => es@));
                assert(decreases_to!(es@ => es@[i]));
                assert(decreases_to!(es@[i] => es@[i].1));
                assert(es@[i].0@ == fs@[i].0@);
                lemma_summary_idempotent(es@[i].1, fs@[i].1);
            }
        },
        _ => {},
    }
}

} // verus!

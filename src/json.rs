//! A JSON document model, and the escaping of its string leaves.

use vstd::prelude::*;
use crate::text::{escape_text, escaped_of};

verus! {

/// A JSON value. Objects keep their members in insertion order; numbers that
/// are not integers are carried as their literal text.
#[derive(Debug, PartialEq)]
pub enum Json {
    Null,
    Bool(bool),
    UInt(u64),
    Int(i64),
    Number(String),
    Str(String),
    Array(Vec<Json>),
    Object(Vec<(String, Json)>),
}

/// `out` is `doc` with every string leaf replaced by its escaped form; object
/// keys, scalars and the shape of the document are kept.
pub open spec fn is_escaped(doc: Json, out: Json) -> bool
    decreases doc,
{
    match doc {
        Json::Str(s) => out is Str && out->Str_0@ == escaped_of(s@),
        Json::Array(xs) => {
            &&& out is Array
            &&& out->Array_0@.len() == xs@.len()
            &&& forall|i: int|
                0 <= i < xs@.len() ==> #[trigger] is_escaped(xs@[i], out->Array_0@[i])
        },
        Json::Object(ms) => {
            &&& out is Object
            &&& out->Object_0@.len() == ms@.len()
            &&& forall|i: int|
                0 <= i < ms@.len() ==> {
                    &&& (#[trigger] out->Object_0@[i]).0 == ms@[i].0
                    &&& is_escaped(ms@[i].1, out->Object_0@[i].1)
                }
        },
        _ => out == doc,
    }
}

/// The document with every string leaf escaped (control and non-ASCII
/// characters backslash-escaped), so that it stays printable downstream.
pub fn escape_json(doc: &Json) -> (r: Json)
    ensures
        is_escaped(*doc, r),
    decreases doc,
{
    match doc {
        Json::Null => Json::Null,
        Json::Bool(b) => Json::Bool(*b),
        Json::UInt(n) => Json::UInt(*n),
        Json::Int(n) => Json::Int(*n),
        Json::Number(t) => Json::Number(t.clone()),
        Json::Str(s) => Json::Str(escape_text(s)),
        Json::Array(xs) => {
            let mut out: Vec<Json> = Vec::new();
            let mut i: usize = 0;
            while i < xs.len()
                invariant
                    *doc == Json::Array(*xs),
                    i <= xs@.len(),
                    out@.len() == i,
                    forall|k: int| 0 <= k < i ==> #[trigger] is_escaped(xs@[k], out@[k]),
                decreases xs@.len() - i,
            {
                proof {
                    broadcast use vstd::std_specs::vec::axiom_vec_index_decreases;
                    assert(decreases_to!(*doc => (*doc)->Array_0));
                }
                let e = escape_json(&xs[i]);
                out.push(e);
                i = i + 1;
            }
            let r = Json::Array(out);
            assert(forall|k: int| 0 <= k < xs@.len() ==> is_escaped(xs@[k], r->Array_0@[k]));
            r
        },
        Json::Object(ms) => {
            let mut out: Vec<(String, Json)> = Vec::new();
            let mut i: usize = 0;
            while i < ms.len()
                invariant
                    *doc == Json::Object(*ms),
                    i <= ms@.len(),
                    out@.len() == i,
                    forall|k: int|
                        0 <= k < i ==> {
                            &&& (#[trigger] out@[k]).0 == ms@[k].0
                            &&& is_escaped(ms@[k].1, out@[k].1)
                        },
                decreases ms@.len() - i,
            {
                proof {
                    broadcast use vstd::std_specs::vec::axiom_vec_index_decreases;
                    assert(decreases_to!(*doc => (*doc)->Object_0));
                }
                let e = escape_json(&ms[i].1);
                out.push((ms[i].0.clone(), e));
                i = i + 1;
            }
            Json::Object(out)
        },
    }
}

/// `a` and `b` are the same document: same shape, same leaves.
pub open spec fn same_json(a: Json, b: Json) -> bool
    decreases a,
{
    match a {
        Json::Array(xs) => {
            &&& b is Array
            &&& b->Array_0@.len() == xs@.len()
            &&& forall|i: int|
                0 <= i < xs@.len() ==> #[trigger] same_json(xs@[i], b->Array_0@[i])
        },
        Json::Object(ms) => {
            &&& b is Object
            &&& b->Object_0@.len() == ms@.len()
            &&& forall|i: int|
                0 <= i < ms@.len() ==> {
                    &&& (#[trigger] b->Object_0@[i]).0 == ms@[i].0
                    &&& same_json(ms@[i].1, b->Object_0@[i].1)
                }
        },
        _ => b == a,
    }
}

/// A deep copy of a document.
pub fn copy_json(doc: &Json) -> (r: Json)
    ensures
        same_json(*doc, r),
    decreases doc,
{
    match doc {
        Json::Null => Json::Null,
        Json::Bool(b) => Json::Bool(*b),
        Json::UInt(n) => Json::UInt(*n),
        Json::Int(n) => Json::Int(*n),
        Json::Number(t) => Json::Number(t.clone()),
        Json::Str(s) => Json::Str(s.clone()),
        Json::Array(xs) => {
            let mut out: Vec<Json> = Vec::new();
            let mut i: usize = 0;
            while i < xs.len()
                invariant
                    *doc == Json::Array(*xs),
                    i <= xs@.len(),
                    out@.len() == i,
                    forall|k: int| 0 <= k < i ==> #[trigger] same_json(xs@[k], out@[k]),
                decreases xs@.len() - i,
            {
                proof {
                    broadcast use vstd::std_specs::vec::axiom_vec_index_decreases;
                    assert(decreases_to!(*doc => (*doc)->Array_0));
                }
                let e = copy_json(&xs[i]);
                out.push(e);
                i = i + 1;
            }
            let r = Json::Array(out);
            assert(forall|k: int| 0 <= k < xs@.len() ==> same_json(xs@[k], r->Array_0@[k]));
            r
        },
        Json::Object(ms) => {
            let mut out: Vec<(String, Json)> = Vec::new();
            let mut i: usize = 0;
            while i < ms.len()
                invariant
                    *doc == Json::Object(*ms),
                    i <= ms@.len(),
                    out@.len() == i,
                    forall|k: int|
                        0 <= k < i ==> {
                            &&& (#[trigger] out@[k]).0 == ms@[k].0
                            &&& same_json(ms@[k].1, out@[k].1)
                        },
                decreases ms@.len() - i,
            {
                proof {
                    broadcast use vstd::std_specs::vec::axiom_vec_index_decreases;
                    assert(decreases_to!(*doc => (*doc)->Object_0));
                }
                let e = copy_json(&ms[i].1);
                out.push((ms[i].0.clone(), e));
                i = i + 1;
            }
            Json::Object(out)
        },
    }
}

} // verus!

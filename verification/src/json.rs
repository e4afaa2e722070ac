//! The JSON value model the document is built from.
//!
//! `Json` is the executable tree; `JsonV` is its mathematical content, with
//! strings as character sequences.  Contracts everywhere else speak about
//! `JsonV`.

use vstd::prelude::*;

use crate::num::NumV;
use crate::num::Number;
use crate::num::num_wf;

verus! {

/// An executable JSON value.
pub enum Json {
    Null,
    Bool(bool),
    Num(Number),
    Str(String),
    Arr(Vec<Json>),
    Obj(Vec<(String, Json)>),
}

/// The mathematical content of a JSON value.
#[verifier::ext_equal]
pub enum JsonV {
    Null,
    Bool(bool),
    Num(NumV),
    Str(Seq<char>),
    Arr(Seq<JsonV>),
    Obj(Seq<(Seq<char>, JsonV)>),
}

/// The contents of an array's element list from index `k` on, as ghost values.
pub open spec fn elems_view_from(es: Seq<Json>, k: int) -> Seq<JsonV>
    decreases es, es.len() - k,
{
    if k < 0 || k >= es.len() {
        Seq::empty()
    } else {
        seq![es[k]@] + elems_view_from(es, k + 1)
    }
}

/// The contents of an array's element list, as ghost values.
pub open spec fn elems_view(es: Seq<Json>) -> Seq<JsonV>
    decreases es, es.len() + 1,
{
    elems_view_from(es, 0)
}

/// The contents of an object's field list from index `k` on, as ghost pairs.
pub open spec fn fields_view_from(fs: Seq<(String, Json)>, k: int) -> Seq<(Seq<char>, JsonV)>
    decreases fs, fs.len() - k,
{
    if k < 0 || k >= fs.len() {
        Seq::empty()
    } else {
        seq![(fs[k].0@, fs[k].1@)] + fields_view_from(fs, k + 1)
    }
}

/// The contents of an object's field list, as ghost pairs.
pub open spec fn fields_view(fs: Seq<(String, Json)>) -> Seq<(Seq<char>, JsonV)>
    decreases fs, fs.len() + 1,
{
    fields_view_from(fs, 0)
}

impl View for Json {
    type V = JsonV;

    open spec fn view(&self) -> JsonV
        decreases self, 0int,
    {
        match self {
            Json::Null => JsonV::Null,
            Json::Bool(b) => JsonV::Bool(*b),
            Json::Num(n) => JsonV::Num(n@),
            Json::Str(s) => JsonV::Str(s@),
            Json::Arr(es) => JsonV::Arr(elems_view(es@)),
            Json::Obj(fs) => JsonV::Obj(fields_view(fs@)),
        }
    }
}

/// `elems_view_from` indexes elementwise.
pub proof fn lemma_elems_view_from(es: Seq<Json>, k: int)
    requires
        0 <= k <= es.len(),
    ensures
        elems_view_from(es, k).len() == es.len() - k,
        forall|i: int| k <= i < es.len() ==> elems_view_from(es, k)[i - k] == #[trigger] es[i]@,
    decreases es.len() - k,
{
    if k < es.len() {
        lemma_elems_view_from(es, k + 1);
        assert(elems_view_from(es, k) == seq![es[k]@] + elems_view_from(es, k + 1));
    } else {
        assert(elems_view_from(es, k) == Seq::<JsonV>::empty());
    }
}

/// `fields_view_from` indexes elementwise.
pub proof fn lemma_fields_view_from(fs: Seq<(String, Json)>, k: int)
    requires
        0 <= k <= fs.len(),
    ensures
        fields_view_from(fs, k).len() == fs.len() - k,
        forall|i: int| k <= i < fs.len() ==> fields_view_from(fs, k)[i - k] == (#[trigger] fs[i].0@, fs[i].1@),
    decreases fs.len() - k,
{
    if k < fs.len() {
        lemma_fields_view_from(fs, k + 1);
        assert(fields_view_from(fs, k) == seq![(fs[k].0@, fs[k].1@)] + fields_view_from(fs, k + 1));
    } else {
        assert(fields_view_from(fs, k) == Seq::<(Seq<char>, JsonV)>::empty());
    }
}

/// Every number in the value has well-formed fraction digits.
pub open spec fn json_wf(j: JsonV) -> bool
    decreases j,
{
    match j {
        JsonV::Null => true,
        JsonV::Bool(_) => true,
        JsonV::Num(n) => num_wf(n),
        JsonV::Str(_) => true,
        JsonV::Arr(es) => forall|i: int| 0 <= i < es.len() ==> json_wf(#[trigger] es[i]),
        JsonV::Obj(fs) => forall|i: int| 0 <= i < fs.len() ==> json_wf(#[trigger] fs[i].1),
    }
}

/// A well-formed array value has well-formed elements.
pub proof fn lemma_json_wf_arr(es: Seq<JsonV>, i: int)
    requires
        json_wf(JsonV::Arr(es)),
        0 <= i < es.len(),
    ensures
        json_wf(es[i]),
{
    let j = JsonV::Arr(es);
    match j {
        JsonV::Arr(es2) => {
            assert(json_wf(es2[i]));
        },
        _ => {},
    }
}

/// A well-formed object value has well-formed field values.
pub proof fn lemma_json_wf_obj(fs: Seq<(Seq<char>, JsonV)>, i: int)
    requires
        json_wf(JsonV::Obj(fs)),
        0 <= i < fs.len(),
    ensures
        json_wf(fs[i].1),
{
    let j = JsonV::Obj(fs);
    match j {
        JsonV::Obj(fs2) => {
            assert(json_wf(fs2[i].1));
        },
        _ => {},
    }
}

/// First field of the given name in an object's field list, scanned from `k`.
pub open spec fn lookup_from(fs: Seq<(Seq<char>, JsonV)>, k: int, name: Seq<char>) -> Option<JsonV>
    decreases fs.len() - k,
{
    if k < 0 || k >= fs.len() {
        None
    } else if fs[k].0 == name {
        Some(fs[k].1)
    } else {
        lookup_from(fs, k + 1, name)
    }
}

/// First field of the given name in an object's field list.
pub open spec fn lookup(fs: Seq<(Seq<char>, JsonV)>, name: Seq<char>) -> Option<JsonV> {
    lookup_from(fs, 0, name)
}

/// Looking a name up in a concatenation tries the left part first.
pub proof fn lemma_lookup_concat(s1: Seq<(Seq<char>, JsonV)>, s2: Seq<(Seq<char>, JsonV)>, name: Seq<char>)
    ensures
        lookup(s1 + s2, name) == match lookup(s1, name) {
            Some(v) => Some(v),
            None => lookup(s2, name),
        },
{
    lemma_lookup_concat_from(s1, s2, name, 0);
}

proof fn lemma_lookup_concat_from(s1: Seq<(Seq<char>, JsonV)>, s2: Seq<(Seq<char>, JsonV)>, name: Seq<char>, k: int)
    requires
        0 <= k <= s1.len(),
    ensures
        lookup_from(s1 + s2, k, name) == match lookup_from(s1, k, name) {
            Some(v) => Some(v),
            None => lookup(s2, name),
        },
    decreases s1.len() - k,
{
    if k == s1.len() {
        lemma_lookup_shift(s1, s2, name, 0);
    } else {
        assert((s1 + s2)[k] == s1[k]);
        if s1[k].0 != name {
            lemma_lookup_concat_from(s1, s2, name, k + 1);
        }
    }
}

proof fn lemma_lookup_shift(s1: Seq<(Seq<char>, JsonV)>, s2: Seq<(Seq<char>, JsonV)>, name: Seq<char>, k: int)
    requires
        0 <= k <= s2.len(),
    ensures
        lookup_from(s1 + s2, s1.len() + k, name) == lookup_from(s2, k, name),
    decreases s2.len() - k,
{
    if k < s2.len() {
        assert((s1 + s2)[s1.len() + k] == s2[k]);
        if s2[k].0 != name {
            lemma_lookup_shift(s1, s2, name, k + 1);
        }
    }
}

} // verus!

//! A self-contained model of JSON values.
//!
//! The schema normalizer and the provider wire bodies are defined over this
//! type, so that their behaviour can be stated and proved. Numbers are kept
//! as either a machine integer or the literal decimal text, since no part of
//! the translation logic computes with them. Objects are ordered lists of
//! key/value pairs; the logic never relies on any particular key order.

use vstd::prelude::*;

verus! {

/// Specification-level JSON value. `Json` (the executable type) views to this.
#[verifier::ext_equal]
pub ghost enum JsonV {
    Null,
    Bool(bool),
    Int(i64),
    /// A number kept as its literal decimal text.
    Num(Seq<char>),
    Str(Seq<char>),
    Arr(Seq<JsonV>),
    Obj(Seq<(Seq<char>, JsonV)>),
}

/// Executable JSON value.
#[derive(Debug, PartialEq)]
pub enum Json {
    Null,
    Bool(bool),
    Int(i64),
    /// A number kept as its literal decimal text.
    Num(String),
    Str(String),
    Arr(Vec<Json>),
    Obj(Vec<(String, Json)>),
}

pub open spec fn json_view(j: Json) -> JsonV
    decreases j,
{
    match j {
        Json::Null => JsonV::Null,
        Json::Bool(b) => JsonV::Bool(b),
        Json::Int(i) => JsonV::Int(i),
        Json::Num(s) => JsonV::Num(s@),
        Json::Str(s) => JsonV::Str(s@),
        Json::Arr(v) => JsonV::Arr(view_list(v@)),
        Json::Obj(v) => JsonV::Obj(view_entries(v@)),
    }
}

pub open spec fn view_list(v: Seq<Json>) -> Seq<JsonV>
    decreases v,
{
    if v.len() == 0 {
        Seq::empty()
    } else {
        seq![json_view(v[0])] + view_list(v.subrange(1, v.len() as int))
    }
}

pub open spec fn view_entries(v: Seq<(String, Json)>) -> Seq<(Seq<char>, JsonV)>
    decreases v,
{
    if v.len() == 0 {
        Seq::empty()
    } else {
        seq![(v[0].0@, json_view(v[0].1))] + view_entries(v.subrange(1, v.len() as int))
    }
}

impl View for Json {
    type V = JsonV;

    open spec fn view(&self) -> JsonV {
        json_view(*self)
    }
}

pub proof fn lemma_view_list(v: Seq<Json>)
    ensures
        view_list(v).len() == v.len(),
        forall|i: int| 0 <= i < v.len() ==> view_list(v)[i] == json_view(v[i]),
    decreases v.len(),
{
    if v.len() > 0 {
        lemma_view_list(v.subrange(1, v.len() as int));
    }
}

pub proof fn lemma_view_entries(v: Seq<(String, Json)>)
    ensures
        view_entries(v).len() == v.len(),
        forall|i: int| 0 <= i < v.len() ==> view_entries(v)[i] == (v[i].0@, json_view(v[i].1)),
    decreases v.len(),
{
    if v.len() > 0 {
        lemma_view_entries(v.subrange(1, v.len() as int));
    }
}

/// The value of the first entry with key `k`, if any.
pub open spec fn obj_get(o: Seq<(Seq<char>, JsonV)>, k: Seq<char>) -> Option<JsonV>
    decreases o.len(),
{
    if o.len() == 0 {
        None
    } else if o[0].0 == k {
        Some(o[0].1)
    } else {
        obj_get(o.subrange(1, o.len() as int), k)
    }
}

pub open spec fn obj_has_key(o: Seq<(Seq<char>, JsonV)>, k: Seq<char>) -> bool {
    obj_get(o, k) is Some
}

/// `obj_get` returns the value at the first index whose key matches.
pub proof fn lemma_obj_get_at(o: Seq<(Seq<char>, JsonV)>, k: Seq<char>, i: int)
    requires
        0 <= i < o.len(),
        o[i].0 == k,
        forall|j: int| 0 <= j < i ==> o[j].0 != k,
    ensures
        obj_get(o, k) == Some(o[i].1),
    decreases o.len(),
{
    if i > 0 {
        lemma_obj_get_at(o.subrange(1, o.len() as int), k, i - 1);
    }
}

/// When no entry has key `k`, `obj_get` returns `None`.
pub proof fn lemma_obj_get_none(o: Seq<(Seq<char>, JsonV)>, k: Seq<char>)
    requires
        forall|j: int| 0 <= j < o.len() ==> o[j].0 != k,
    ensures
        obj_get(o, k) is None,
    decreases o.len(),
{
    if o.len() > 0 {
        lemma_obj_get_none(o.subrange(1, o.len() as int), k);
    }
}

/// When `obj_get` finds a value, some entry holds it under key `k`.
pub proof fn lemma_obj_get_witness(o: Seq<(Seq<char>, JsonV)>, k: Seq<char>) -> (i: int)
    requires
        obj_has_key(o, k),
    ensures
        0 <= i < o.len(),
        o[i].0 == k,
        obj_get(o, k) == Some(o[i].1),
        forall|j: int| 0 <= j < i ==> o[j].0 != k,
    decreases o.len(),
{
    if o[0].0 == k {
        0
    } else {
        let t = lemma_obj_get_witness(o.subrange(1, o.len() as int), k);
        assert forall|j: int| 0 <= j < t + 1 implies o[j].0 != k by {
            if j > 0 {
                assert(o.subrange(1, o.len() as int)[j - 1] == o[j]);
            }
        }
        t + 1
    }
}

/// Entries with the first `k` entry replaced by `(k, v)`, or with `(k, v)`
/// appended when no entry has key `k`.
pub open spec fn obj_set(o: Seq<(Seq<char>, JsonV)>, k: Seq<char>, v: JsonV) -> Seq<
    (Seq<char>, JsonV),
>
    decreases o.len(),
{
    if o.len() == 0 {
        seq![(k, v)]
    } else if o[0].0 == k {
        seq![(k, v)] + o.subrange(1, o.len() as int)
    } else {
        seq![o[0]] + obj_set(o.subrange(1, o.len() as int), k, v)
    }
}

/// When the first entry with key `k` sits at index `i`, `obj_set` is an
/// in-place update of that entry.
pub proof fn lemma_obj_set_at(o: Seq<(Seq<char>, JsonV)>, k: Seq<char>, v: JsonV, i: int)
    requires
        0 <= i < o.len(),
        o[i].0 == k,
        forall|j: int| 0 <= j < i ==> o[j].0 != k,
    ensures
        obj_set(o, k, v) == o.update(i, (k, v)),
    decreases o.len(),
{
    if i == 0 {
        assert(obj_set(o, k, v) =~= o.update(0, (k, v)));
    } else {
        let tail = o.subrange(1, o.len() as int);
        lemma_obj_set_at(tail, k, v, i - 1);
        assert(seq![o[0]] + tail.update(i - 1, (k, v)) =~= o.update(i, (k, v)));
    }
}

/// After `obj_set`, looking the key up gives the new value.
pub proof fn lemma_obj_get_set(o: Seq<(Seq<char>, JsonV)>, k: Seq<char>, v: JsonV)
    ensures
        obj_get(obj_set(o, k, v), k) == Some(v),
    decreases o.len(),
{
    if o.len() > 0 && o[0].0 != k {
        lemma_obj_get_set(o.subrange(1, o.len() as int), k, v);
        let r = obj_set(o, k, v);
        assert(r.subrange(1, r.len() as int) =~= obj_set(o.subrange(1, o.len() as int), k, v));
    }
}

/// `obj_set` leaves every other key's lookup unchanged.
pub proof fn lemma_obj_get_set_other(o: Seq<(Seq<char>, JsonV)>, k: Seq<char>, v: JsonV, k2: Seq<char>)
    requires
        k2 != k,
    ensures
        obj_get(obj_set(o, k, v), k2) == obj_get(o, k2),
    decreases o.len(),
{
    if o.len() == 0 {
        let r = obj_set(o, k, v);
        assert(r =~= seq![(k, v)]);
        assert(r.subrange(1, 1) =~= Seq::<(Seq<char>, JsonV)>::empty());
        assert(obj_get(Seq::<(Seq<char>, JsonV)>::empty(), k2) is None);
        assert(obj_get(r, k2) is None);
    } else {
        let tail = o.subrange(1, o.len() as int);
        lemma_obj_get_set_other(tail, k, v, k2);
        let r = obj_set(o, k, v);
        if o[0].0 == k {
            assert(r.subrange(1, r.len() as int) =~= tail);
        } else {
            assert(r.subrange(1, r.len() as int) =~= obj_set(tail, k, v));
        }
    }
}

/// Looking a key up in a concatenation: the left part wins when it has the
/// key.
pub proof fn lemma_obj_get_concat(
    a: Seq<(Seq<char>, JsonV)>,
    b: Seq<(Seq<char>, JsonV)>,
    k: Seq<char>,
)
    ensures
        obj_get(a + b, k) == (if obj_has_key(a, k) {
            obj_get(a, k)
        } else {
            obj_get(b, k)
        }),
    decreases a.len(),
{
    if a.len() == 0 {
        assert(a + b =~= b);
    } else {
        lemma_obj_get_concat(a.subrange(1, a.len() as int), b, k);
        assert((a + b).subrange(1, (a + b).len() as int) =~= a.subrange(1, a.len() as int) + b);
    }
}

/// Two entry lists with the same keys in the same places: a lookup hits the
/// same position in both. Returns that position (meaningful when the key is
/// present).
pub proof fn lemma_obj_get_same_keys(
    orig: Seq<(Seq<char>, JsonV)>,
    mapped: Seq<(Seq<char>, JsonV)>,
    k: Seq<char>,
) -> (i: int)
    requires
        mapped.len() == orig.len(),
        forall|j: int| 0 <= j < orig.len() ==> (#[trigger] mapped[j]).0 == orig[j].0,
    ensures
        obj_has_key(mapped, k) == obj_has_key(orig, k),
        obj_has_key(orig, k) ==> 0 <= i < orig.len() && orig[i].0 == k && (forall|j: int|
            0 <= j < i ==> orig[j].0 != k) && obj_get(orig, k) == Some(orig[i].1) && obj_get(
            mapped,
            k,
        ) == Some(mapped[i].1),
    decreases orig.len(),
{
    if obj_has_key(orig, k) {
        let i = lemma_obj_get_witness(orig, k);
        assert(mapped[i].0 == k);
        lemma_obj_get_at(mapped, k, i);
        i
    } else {
        if obj_has_key(mapped, k) {
            let i = lemma_obj_get_witness(mapped, k);
            assert(orig[i].0 == k);
            assert forall|j: int| 0 <= j < i implies orig[j].0 != k by {
                assert(mapped[j].0 == orig[j].0);
            }
            lemma_obj_get_at(orig, k, i);
        }
        0
    }
}

/// Equality of string slices, stated over their character sequences.
pub fn str_eq(a: &str, b: &str) -> (r: bool)
    ensures
        r == (a@ == b@),
{
    let sa: String = a.to_owned();
    let sb: String = b.to_owned();
    sa == sb
}

/// Index of the first entry whose key equals `key`, if any.
pub fn find_key(entries: &Vec<(String, Json)>, key: &str) -> (r: Option<usize>)
    ensures
        match r {
            Some(i) => i < entries@.len() && entries@[i as int].0@ == key@ && (forall|j: int|
                0 <= j < i ==> entries@[j].0@ != key@),
            None => forall|j: int| 0 <= j < entries@.len() ==> entries@[j].0@ != key@,
        },
{
    let mut i: usize = 0;
    while i < entries.len()
        invariant
            i <= entries@.len(),
            forall|j: int| 0 <= j < i ==> entries@[j].0@ != key@,
        decreases entries@.len() - i,
    {
        if str_eq(entries[i].0.as_str(), key) {
            return Some(i);
        }
        i = i + 1;
    }
    None
}

/// The `obj_get` fact that `find_key`'s answer carries over to the view.
pub proof fn lemma_find_key_view(entries: Seq<(String, Json)>, k: Seq<char>, r: Option<usize>)
    requires
        match r {
            Some(i) => i < entries.len() && entries[i as int].0@ == k && (forall|j: int|
                0 <= j < i ==> entries[j].0@ != k),
            None => forall|j: int| 0 <= j < entries.len() ==> entries[j].0@ != k,
        },
    ensures
        match r {
            Some(i) => obj_get(view_entries(entries), k) == Some(json_view(entries[i as int].1)),
            None => obj_get(view_entries(entries), k) is None,
        },
{
    lemma_view_entries(entries);
    match r {
        Some(i) => {
            lemma_obj_get_at(view_entries(entries), k, i as int);
        }
        None => {
            lemma_obj_get_none(view_entries(entries), k);
        }
    }
}

impl Json {
    /// A structurally identical copy, with the copy's view pinned down.
    pub fn deep_clone(&self) -> (r: Json)
        ensures
            r@ == self@,
        decreases self,
    {
        match self {
            Json::Null => Json::Null,
            Json::Bool(b) => Json::Bool(*b),
            Json::Int(i) => Json::Int(*i),
            Json::Num(s) => Json::Num(s.clone()),
            Json::Str(s) => Json::Str(s.clone()),
            Json::Arr(v) => {
                let mut out: Vec<Json> = Vec::new();
                let mut i: usize = 0;
                while i < v.len()
                    invariant
                        *self == Json::Arr(*v),
                        i <= v@.len(),
                        out@.len() == i,
                        forall|j: int| 0 <= j < i ==> json_view(out@[j]) == json_view(v@[j]),
                    decreases v@.len() - i,
                {
                    proof {
                        let jj = *self;
                        assert(decreases_to!(jj => jj->Arr_0));
                        assert(decreases_to!(*v => v[i as int]));
                    }
                    let c = v[i].deep_clone();
                    out.push(c);
                    i = i + 1;
                }
                proof {
                    lemma_view_list(out@);
                    lemma_view_list(v@);
                    assert(view_list(out@) =~= view_list(v@));
                }
                Json::Arr(out)
            }
            Json::Obj(v) => {
                let mut out: Vec<(String, Json)> = Vec::new();
                let mut i: usize = 0;
                while i < v.len()
                    invariant
                        *self == Json::Obj(*v),
                        i <= v@.len(),
                        out@.len() == i,
                        forall|j: int| 0 <= j < i ==> out@[j].0@ == v@[j].0@ && json_view(
                            out@[j].1,
                        ) == json_view(v@[j].1),
                    decreases v@.len() - i,
                {
                    proof {
                        let jj = *self;
                        assert(decreases_to!(jj => jj->Obj_0));
                        assert(decreases_to!(*v => v[i as int]));
                        assert(decreases_to!(v[i as int] => v[i as int].1));
                    }
                    let c = v[i].1.deep_clone();
                    let k = v[i].0.clone();
                    out.push((k, c));
                    i = i + 1;
                }
                proof {
                    lemma_view_entries(out@);
                    lemma_view_entries(v@);
                    assert(view_entries(out@) =~= view_entries(v@));
                }
                Json::Obj(out)
            }
        }
    }
}

} // verus!

//! Properties of the schema normalizer, stated and proved.

use vstd::prelude::*;

use crate::json::lemma_obj_get_at;
use crate::json::lemma_obj_get_concat;
use crate::json::lemma_obj_get_none;
use crate::json::lemma_obj_get_same_keys;
use crate::json::lemma_obj_get_set;
use crate::json::lemma_obj_get_set_other;
use crate::json::lemma_obj_get_witness;
use crate::json::lemma_obj_set_at;
use crate::json::obj_get;
use crate::json::obj_has_key;
use crate::json::obj_set;
use crate::json::JsonV;
use crate::schema::allows_null_v;
use crate::schema::anyof_member_allows;
use crate::schema::fields_anyof_allows;
use crate::schema::forced_tail;
use crate::schema::has_props_map;
use crate::schema::lemma_norm_entries;
use crate::schema::lemma_norm_defs;
use crate::schema::lemma_norm_list;
use crate::schema::lemma_norm_props;
use crate::schema::lemma_schema_keys_distinct;
use crate::schema::make_nullable_v;
use crate::schema::norm;
use crate::schema::norm_defs;
use crate::schema::norm_entries;
use crate::schema::norm_entry;
use crate::schema::norm_list;
use crate::schema::norm_props;
use crate::schema::null_wrap;
use crate::schema::obj_rewrite;
use crate::schema::prop_keys_of;
use crate::schema::props_of;
use crate::schema::req_contains;
use crate::schema::required_of;
use crate::schema::type_value_allows_null;

verus! {

/// Already-nullable passthrough: a schema that already accepts null — by a
/// `"null"` `type`, a `type` array containing `"null"`, or a null-accepting
/// `anyOf` branch — is returned unchanged by the make-nullable transform.
pub proof fn lemma_make_nullable_passthrough(j: JsonV)
    requires
        allows_null_v(j),
    ensures
        make_nullable_v(j) == j,
{
}

/// A schema whose `type` entry, when present, is a string or an array. The
/// make-nullable transform can always give such a schema a null alternative.
pub open spec fn type_entry_fixable(j: JsonV) -> bool {
    match j {
        JsonV::Obj(f) => match obj_get(f, "type"@) {
            Some(t) => t is Str || t is Arr,
            None => true,
        },
        _ => true,
    }
}

/// The make-nullable transform delivers: on a schema with a usable `type`
/// entry (or none at all), the result accepts null.
pub proof fn lemma_make_nullable_allows_null(j: JsonV)
    requires
        type_entry_fixable(j),
    ensures
        allows_null_v(make_nullable_v(j)),
{
    lemma_schema_keys_distinct();
    if allows_null_v(j) {
    } else {
        match j {
            JsonV::Obj(fields) => {
                if obj_has_key(fields, "type"@) {
                    match obj_get(fields, "type"@)->Some_0 {
                        JsonV::Str(s) => {
                            let nv = JsonV::Arr(seq![JsonV::Str(s), JsonV::Str("null"@)]);
                            lemma_obj_get_set(fields, "type"@, nv);
                            assert(nv->Arr_0[1] == JsonV::Str("null"@));
                            assert(type_value_allows_null(nv));
                        },
                        JsonV::Arr(a) => {
                            let nv = JsonV::Arr(a.push(JsonV::Str("null"@)));
                            lemma_obj_get_set(fields, "type"@, nv);
                            assert(nv->Arr_0[a.len() as int] == JsonV::Str("null"@));
                            assert(type_value_allows_null(nv));
                        },
                        _ => {
                            assert(false);
                        },
                    }
                } else {
                    lemma_null_wrap_allows_null(j);
                }
            },
            _ => {
                lemma_null_wrap_allows_null(j);
            },
        }
    }
}

/// The `anyOf` wrapper always accepts null, through its `{"type": "null"}`
/// branch.
proof fn lemma_null_wrap_allows_null(j: JsonV)
    ensures
        allows_null_v(null_wrap(j)),
{
    lemma_schema_keys_distinct();
    let null_branch = JsonV::Obj(seq![("type"@, JsonV::Str("null"@))]);
    let elems = seq![j, null_branch];
    let fields = null_wrap(j)->Obj_0;
    assert(fields.len() == 1 && fields[0].0 == "anyOf"@);
    // No `type` entry: the single key is `anyOf`.
    assert(obj_get(fields, "type"@) is None) by {
        assert(fields.subrange(1, 1) =~= Seq::<(Seq<char>, JsonV)>::empty());
        assert(obj_get(Seq::<(Seq<char>, JsonV)>::empty(), "type"@) is None);
    }
    // The second `anyOf` branch accepts null.
    assert(allows_null_v(null_branch));
    assert(anyof_member_allows(elems)) by {
        let tail = elems.subrange(1, 2);
        assert(tail[0] == null_branch);
        assert(tail.subrange(1, 1) =~= Seq::<JsonV>::empty());
        assert(anyof_member_allows(tail));
    }
    assert(fields_anyof_allows(fields));
}

/// Nullability of normalized properties: a property not listed in the
/// original `required` list is the make-nullable transform of its normalized
/// schema — and so accepts null whenever that schema's `type` entry is
/// usable; a property that was required is exactly its normalized schema,
/// with no nullability wrapper.
pub proof fn lemma_norm_property_nullability(
    props: Seq<(Seq<char>, JsonV)>,
    req: Seq<JsonV>,
    i: int,
)
    requires
        0 <= i < props.len(),
    ensures
        norm_props(props, req)[i].0 == props[i].0,
        req_contains(req, props[i].0) ==> norm_props(props, req)[i].1 == norm(props[i].1),
        !req_contains(req, props[i].0) ==> norm_props(props, req)[i].1 == make_nullable_v(
            norm(props[i].1),
        ),
        !req_contains(req, props[i].0) && type_entry_fixable(norm(props[i].1))
            ==> allows_null_v(norm_props(props, req)[i].1),
{
    lemma_norm_props(props, req);
    if !req_contains(req, props[i].0) && type_entry_fixable(norm(props[i].1)) {
        lemma_make_nullable_allows_null(norm(props[i].1));
    }
}

/// The properties of a normalized object node are the node's own properties,
/// each normalized, the optional ones made nullable: the node-level reading
/// of [`lemma_norm_property_nullability`].
pub proof fn lemma_norm_node_props(fields: Seq<(Seq<char>, JsonV)>)
    requires
        has_props_map(fields),
    ensures
        norm(JsonV::Obj(fields)) is Obj,
        obj_get(norm(JsonV::Obj(fields))->Obj_0, "properties"@) == Some(
            JsonV::Obj(norm_props(props_of(fields), required_of(fields))),
        ),
{
    lemma_schema_keys_distinct();
    assert(obj_rewrite(fields));
    let req = required_of(fields);
    let rk = prop_keys_of(fields);
    let mapped = norm_entries(fields, req, rk, true);
    lemma_norm_entries(fields, req, rk, true);
    assert forall|m: int| 0 <= m < fields.len() implies (#[trigger] mapped[m]).0 == fields[m].0 by {
        lemma_norm_entry_key(fields[m], req, rk, true);
    }
    let tail = forced_tail(fields);
    let out = mapped + tail;
    assert(norm(JsonV::Obj(fields)) == JsonV::Obj(out));
    let ip = lemma_obj_get_same_keys(fields, mapped, "properties"@);
    let props = props_of(fields);
    assert(fields[ip].1 == JsonV::Obj(props));
    assert(mapped[ip].1 == JsonV::Obj(norm_props(props, req)));
    lemma_obj_get_concat(mapped, tail, "properties"@);
}

/// Nullability of optional properties, for any object node: take any node's
/// fields — the normalizer applies the same `norm` at the root and at every
/// node it walks into, so this covers every node of a schema. When the node
/// has a properties map and property `i` is not in the node's `required`
/// list, the normalized node carries, under `properties`, a schema for that
/// property which accepts null — provided the property's normalized `type`
/// entry is a string, an array, or absent (the only shapes the make-nullable
/// rule covers).
pub proof fn lemma_norm_optional_property_nullable(fields: Seq<(Seq<char>, JsonV)>, i: int)
    requires
        has_props_map(fields),
        0 <= i < props_of(fields).len(),
        !req_contains(required_of(fields), props_of(fields)[i].0),
        type_entry_fixable(norm(props_of(fields)[i].1)),
    ensures
        norm(JsonV::Obj(fields)) is Obj,
        obj_get(norm(JsonV::Obj(fields))->Obj_0, "properties"@) is Some,
        ({
            let pr = obj_get(norm(JsonV::Obj(fields))->Obj_0, "properties"@)->Some_0;
            pr is Obj && pr->Obj_0.len() == props_of(fields).len() && pr->Obj_0[i].0
                == props_of(fields)[i].0 && allows_null_v(pr->Obj_0[i].1)
        }),
{
    lemma_norm_node_props(fields);
    lemma_norm_property_nullability(props_of(fields), required_of(fields), i);
    lemma_norm_props(props_of(fields), required_of(fields));
}

// ---------------------------------------------------------------------------
// Well-formed schemas: unique keys at every object node
// ---------------------------------------------------------------------------
pub open spec fn keys_unique(entries: Seq<(Seq<char>, JsonV)>) -> bool {
    forall|i: int, j: int| 0 <= i < j < entries.len() ==> (#[trigger] entries[i]).0 != (
    #[trigger] entries[j]).0
}

/// A well-formed schema value: every object node has pairwise distinct keys.
/// JSON parsed from text always satisfies this.
pub open spec fn wf(j: JsonV) -> bool
    decreases j,
{
    match j {
        JsonV::Obj(fields) => keys_unique(fields) && wf_entries(fields),
        JsonV::Arr(elems) => wf_list(elems),
        _ => true,
    }
}

pub open spec fn wf_entries(entries: Seq<(Seq<char>, JsonV)>) -> bool
    decreases entries,
{
    if entries.len() == 0 {
        true
    } else {
        wf(entries[0].1) && wf_entries(entries.subrange(1, entries.len() as int))
    }
}

pub open spec fn wf_list(elems: Seq<JsonV>) -> bool
    decreases elems,
{
    if elems.len() == 0 {
        true
    } else {
        wf(elems[0]) && wf_list(elems.subrange(1, elems.len() as int))
    }
}

pub proof fn lemma_wf_entries(entries: Seq<(Seq<char>, JsonV)>)
    ensures
        wf_entries(entries) == forall|i: int|
            0 <= i < entries.len() ==> wf((#[trigger] entries[i]).1),
    decreases entries.len(),
{
    if entries.len() > 0 {
        let tail = entries.subrange(1, entries.len() as int);
        lemma_wf_entries(tail);
        if wf_entries(entries) {
            assert forall|i: int| 0 <= i < entries.len() implies wf((#[trigger] entries[i]).1) by {
                if i > 0 {
                    assert(tail[i - 1] == entries[i]);
                }
            }
        } else {
            if wf(entries[0].1) && (forall|i: int|
                0 <= i < entries.len() ==> wf((#[trigger] entries[i]).1)) {
                assert forall|i: int| 0 <= i < tail.len() implies wf((#[trigger] tail[i]).1) by {
                    assert(tail[i] == entries[i + 1]);
                }
            }
        }
    }
}

pub proof fn lemma_wf_list(elems: Seq<JsonV>)
    ensures
        wf_list(elems) == forall|i: int| 0 <= i < elems.len() ==> wf(#[trigger] elems[i]),
    decreases elems.len(),
{
    if elems.len() > 0 {
        let tail = elems.subrange(1, elems.len() as int);
        lemma_wf_list(tail);
        if wf_list(elems) {
            assert forall|i: int| 0 <= i < elems.len() implies wf(#[trigger] elems[i]) by {
                if i > 0 {
                    assert(tail[i - 1] == elems[i]);
                }
            }
        } else {
            if wf(elems[0]) && (forall|i: int| 0 <= i < elems.len() ==> wf(#[trigger] elems[i])) {
                assert forall|i: int| 0 <= i < tail.len() implies wf(#[trigger] tail[i]) by {
                    assert(tail[i] == elems[i + 1]);
                }
            }
        }
    }
}

// ---------------------------------------------------------------------------
// Strictness of the normalizer's output
// ---------------------------------------------------------------------------
/// The node-local strict-mode obligations where a `properties` object
/// stands: `required` lists exactly the node's property names, and
/// `additionalProperties` is `false`.
pub open spec fn strict_node_ok(fields: Seq<(Seq<char>, JsonV)>) -> bool {
    obj_get(fields, "required"@) == Some(JsonV::Arr(prop_keys_of(fields))) && obj_get(
        fields,
        "additionalProperties"@,
    ) == Some(JsonV::Bool(false))
}

/// Strictness of a whole value: the node-local obligations hold at every
/// object node that declares a properties map, on every path the normalizer
/// walks (`anyOf` members, `items`, `$defs` / `definitions` entries,
/// property values, array members).
pub open spec fn strict_ok(j: JsonV) -> bool
    decreases j,
{
    match j {
        JsonV::Obj(fields) => (obj_rewrite(fields) ==> strict_node_ok(fields))
            && strict_entries_ok(fields),
        JsonV::Arr(elems) => strict_list_ok(elems),
        _ => true,
    }
}

pub open spec fn strict_entry_ok(e: (Seq<char>, JsonV)) -> bool
    decreases e,
{
    let k = e.0;
    let v = e.1;
    if k == "anyOf"@ && v is Arr {
        strict_list_ok(v->Arr_0)
    } else if k == "items"@ {
        strict_ok(v)
    } else if (k == "$defs"@ || k == "definitions"@) && v is Obj {
        strict_defs_ok(v->Obj_0)
    } else if k == "properties"@ && v is Obj {
        strict_defs_ok(v->Obj_0)
    } else {
        true
    }
}

pub open spec fn strict_entries_ok(entries: Seq<(Seq<char>, JsonV)>) -> bool
    decreases entries,
{
    if entries.len() == 0 {
        true
    } else {
        strict_entry_ok(entries[0]) && strict_entries_ok(entries.subrange(1, entries.len() as int))
    }
}

pub open spec fn strict_list_ok(elems: Seq<JsonV>) -> bool
    decreases elems,
{
    if elems.len() == 0 {
        true
    } else {
        strict_ok(elems[0]) && strict_list_ok(elems.subrange(1, elems.len() as int))
    }
}

/// Strictness of every value of a named map (definitions or properties).
pub open spec fn strict_defs_ok(d: Seq<(Seq<char>, JsonV)>) -> bool
    decreases d,
{
    if d.len() == 0 {
        true
    } else {
        strict_ok(d[0].1) && strict_defs_ok(d.subrange(1, d.len() as int))
    }
}

pub proof fn lemma_strict_entries_ok(entries: Seq<(Seq<char>, JsonV)>)
    ensures
        strict_entries_ok(entries) == forall|i: int|
            0 <= i < entries.len() ==> strict_entry_ok(#[trigger] entries[i]),
    decreases entries.len(),
{
    if entries.len() > 0 {
        let tail = entries.subrange(1, entries.len() as int);
        lemma_strict_entries_ok(tail);
        if strict_entries_ok(entries) {
            assert forall|i: int| 0 <= i < entries.len() implies strict_entry_ok(
                #[trigger] entries[i],
            ) by {
                if i > 0 {
                    assert(tail[i - 1] == entries[i]);
                }
            }
        } else {
            if strict_entry_ok(entries[0]) && (forall|i: int|
                0 <= i < entries.len() ==> strict_entry_ok(#[trigger] entries[i])) {
                assert forall|i: int| 0 <= i < tail.len() implies strict_entry_ok(
                    #[trigger] tail[i],
                ) by {
                    assert(tail[i] == entries[i + 1]);
                }
            }
        }
    }
}

pub proof fn lemma_strict_list_ok(elems: Seq<JsonV>)
    ensures
        strict_list_ok(elems) == forall|i: int|
            0 <= i < elems.len() ==> strict_ok(#[trigger] elems[i]),
    decreases elems.len(),
{
    if elems.len() > 0 {
        let tail = elems.subrange(1, elems.len() as int);
        lemma_strict_list_ok(tail);
        if strict_list_ok(elems) {
            assert forall|i: int| 0 <= i < elems.len() implies strict_ok(#[trigger] elems[i]) by {
                if i > 0 {
                    assert(tail[i - 1] == elems[i]);
                }
            }
        } else {
            if strict_ok(elems[0]) && (forall|i: int|
                0 <= i < elems.len() ==> strict_ok(#[trigger] elems[i])) {
                assert forall|i: int| 0 <= i < tail.len() implies strict_ok(#[trigger] tail[i]) by {
                    assert(tail[i] == elems[i + 1]);
                }
            }
        }
    }
}

pub proof fn lemma_strict_defs_ok(d: Seq<(Seq<char>, JsonV)>)
    ensures
        strict_defs_ok(d) == forall|i: int| 0 <= i < d.len() ==> strict_ok((#[trigger] d[i]).1),
    decreases d.len(),
{
    if d.len() > 0 {
        let tail = d.subrange(1, d.len() as int);
        lemma_strict_defs_ok(tail);
        if strict_defs_ok(d) {
            assert forall|i: int| 0 <= i < d.len() implies strict_ok((#[trigger] d[i]).1) by {
                if i > 0 {
                    assert(tail[i - 1] == d[i]);
                }
            }
        } else {
            if strict_ok(d[0].1) && (forall|i: int|
                0 <= i < d.len() ==> strict_ok((#[trigger] d[i]).1)) {
                assert forall|i: int| 0 <= i < tail.len() implies strict_ok((#[trigger] tail[i]).1)
                    by {
                    assert(tail[i] == d[i + 1]);
                }
            }
        }
    }
}

/// Every key survives `norm_entry` unchanged.
pub proof fn lemma_norm_entry_key(
    e: (Seq<char>, JsonV),
    req: Seq<JsonV>,
    req_keys: Seq<JsonV>,
    rewrite: bool,
)
    ensures
        norm_entry(e, req, req_keys, rewrite).0 == e.0,
{
}

/// With unique keys, any entry is what its key looks up to.
proof fn lemma_unique_obj_get(fields: Seq<(Seq<char>, JsonV)>, i: int)
    requires
        keys_unique(fields),
        0 <= i < fields.len(),
    ensures
        obj_get(fields, fields[i].0) == Some(fields[i].1),
{
    lemma_obj_get_at(fields, fields[i].0, i);
}

/// The make-nullable transform only rewrites the `type` entry (or wraps the
/// whole schema in a fresh `anyOf`), so it preserves strictness.
pub proof fn lemma_make_nullable_strict(x: JsonV)
    requires
        strict_ok(x),
    ensures
        strict_ok(make_nullable_v(x)),
{
    lemma_schema_keys_distinct();
    if !allows_null_v(x) {
        match x {
            JsonV::Obj(fields) => {
                if obj_has_key(fields, "type"@) {
                    let tv = obj_get(fields, "type"@)->Some_0;
                    if tv is Str || tv is Arr {
                        let nv = if tv is Str {
                            JsonV::Arr(seq![JsonV::Str(tv->Str_0), JsonV::Str("null"@)])
                        } else {
                            JsonV::Arr(tv->Arr_0.push(JsonV::Str("null"@)))
                        };
                        let i = lemma_obj_get_witness(fields, "type"@);
                        lemma_obj_set_at(fields, "type"@, nv, i);
                        let out = obj_set(fields, "type"@, nv);
                        assert(out == fields.update(i, ("type"@, nv)));
                        // Entry-wise strictness: only the `type` entry changed,
                        // and no strictness branch looks at it.
                        lemma_strict_entries_ok(fields);
                        lemma_strict_entries_ok(out);
                        assert forall|m: int| 0 <= m < out.len() implies strict_entry_ok(
                            #[trigger] out[m],
                        ) by {
                            if m != i {
                                assert(out[m] == fields[m]);
                            }
                        }
                        // The node-local obligations look at other keys only;
                        // the new `type` is an array, so after the update the
                        // rewrite can only apply through a properties map.
                        lemma_obj_get_set(fields, "type"@, nv);
                        lemma_obj_get_set_other(fields, "type"@, nv, "properties"@);
                        lemma_obj_get_set_other(fields, "type"@, nv, "required"@);
                        lemma_obj_get_set_other(fields, "type"@, nv, "additionalProperties"@);
                        assert(has_props_map(out) == has_props_map(fields));
                        assert(props_of(out) == props_of(fields));
                        if obj_rewrite(out) {
                            assert(has_props_map(fields));
                            assert(obj_rewrite(fields));
                            assert(prop_keys_of(out) == prop_keys_of(fields));
                            assert(strict_node_ok(out));
                        }
                    } else {
                        // `type` of another shape: unchanged.
                    }
                } else {
                    lemma_null_wrap_strict(x);
                }
            },
            _ => {
                lemma_null_wrap_strict(x);
            },
        }
    }
}

/// The `anyOf` wrapper of a strict schema is strict.
proof fn lemma_null_wrap_strict(x: JsonV)
    requires
        strict_ok(x),
    ensures
        strict_ok(null_wrap(x)),
{
    lemma_schema_keys_distinct();
    reveal_with_fuel(strict_entries_ok, 3);
    reveal_with_fuel(strict_list_ok, 3);
    reveal_with_fuel(strict_entry_ok, 3);
    reveal_with_fuel(strict_ok, 3);
    let null_branch = JsonV::Obj(seq![("type"@, JsonV::Str("null"@))]);
    let fields = null_wrap(x)->Obj_0;
    // Neither a `type` nor a `properties` entry: the rewrite does not apply
    // to the wrapper.
    assert(obj_get(fields, "properties"@) is None) by {
        assert(fields.subrange(1, 1) =~= Seq::<(Seq<char>, JsonV)>::empty());
        assert(obj_get(Seq::<(Seq<char>, JsonV)>::empty(), "properties"@) is None);
    }
    assert(obj_get(fields, "type"@) is None) by {
        assert(fields.subrange(1, 1) =~= Seq::<(Seq<char>, JsonV)>::empty());
        assert(obj_get(Seq::<(Seq<char>, JsonV)>::empty(), "type"@) is None);
    }
    assert(!obj_rewrite(fields));
    // The lone `anyOf` entry: both branches are strict.
    assert(strict_ok(null_branch)) by {
        let nb = null_branch->Obj_0;
        assert(obj_get(nb, "properties"@) is None) by {
            assert(nb.subrange(1, 1) =~= Seq::<(Seq<char>, JsonV)>::empty());
            assert(obj_get(Seq::<(Seq<char>, JsonV)>::empty(), "properties"@) is None);
        }
        assert(obj_get(nb, "type"@) == Some(JsonV::Str("null"@)));
        assert(!obj_rewrite(nb));
        assert(strict_entries_ok(nb.subrange(1, 1))) by {
            assert(nb.subrange(1, 1) =~= Seq::<(Seq<char>, JsonV)>::empty());
        }
    }
    let elems = seq![x, null_branch];
    assert(strict_list_ok(elems)) by {
        let tail = elems.subrange(1, 2);
        assert(tail[0] == null_branch);
        assert(tail.subrange(1, 1) =~= Seq::<JsonV>::empty());
        assert(strict_list_ok(tail));
    }
    assert(strict_entries_ok(fields.subrange(1, 1))) by {
        assert(fields.subrange(1, 1) =~= Seq::<(Seq<char>, JsonV)>::empty());
    }
}

/// Totality of the strict rewrite: normalizing a well-formed schema yields a
/// value in which every node that declares a properties map lists exactly
/// its property names in `required` and carries `additionalProperties:
/// false` — at every position the normalizer is responsible for.
pub proof fn lemma_norm_strict(j: JsonV)
    requires
        wf(j),
    ensures
        strict_ok(norm(j)),
    decreases j,
{
    lemma_schema_keys_distinct();
    match j {
        JsonV::Obj(fields) => {
            let req = required_of(fields);
            let rk = prop_keys_of(fields);
            let rw = obj_rewrite(fields);
            let mapped = norm_entries(fields, req, rk, rw);
            lemma_norm_entries(fields, req, rk, rw);
            lemma_wf_entries(fields);
            assert forall|m: int| 0 <= m < fields.len() implies (#[trigger] mapped[m]).0
                == fields[m].0 by {
                lemma_norm_entry_key(fields[m], req, rk, rw);
            }
            // Entry-wise strictness of the mapped entries.
            assert forall|m: int| 0 <= m < mapped.len() implies strict_entry_ok(
                #[trigger] mapped[m],
            ) by {
                let e = fields[m];
                let k = e.0;
                let v = e.1;
                assert(decreases_to!(j => fields));
                assert(decreases_to!(fields => fields[m]));
                assert(decreases_to!(fields[m] => fields[m].1));
                if k == "anyOf"@ && v is Arr {
                    let elems = v->Arr_0;
                    assert(decreases_to!(v => v->Arr_0));
                    lemma_wf_list(elems);
                    lemma_norm_list(elems);
                    lemma_strict_list_ok(norm_list(elems));
                    assert forall|n: int| 0 <= n < norm_list(elems).len() implies strict_ok(
                        #[trigger] norm_list(elems)[n],
                    ) by {
                        assert(decreases_to!(elems => elems[n]));
                        lemma_norm_strict(elems[n]);
                    }
                } else if k == "items"@ {
                    lemma_norm_strict(v);
                } else if (k == "$defs"@ || k == "definitions"@) && v is Obj {
                    let d = v->Obj_0;
                    assert(decreases_to!(v => v->Obj_0));
                    lemma_wf_entries(d);
                    lemma_norm_defs(d);
                    lemma_strict_defs_ok(norm_defs(d));
                    assert forall|n: int| 0 <= n < norm_defs(d).len() implies strict_ok(
                        (#[trigger] norm_defs(d)[n]).1,
                    ) by {
                        assert(decreases_to!(d => d[n]));
                        assert(decreases_to!(d[n] => d[n].1));
                        lemma_norm_strict(d[n].1);
                    }
                } else if rw && k == "properties"@ && v is Obj {
                    let props = v->Obj_0;
                    assert(decreases_to!(v => v->Obj_0));
                    lemma_wf_entries(props);
                    lemma_norm_props(props, req);
                    lemma_strict_defs_ok(norm_props(props, req));
                    assert forall|n: int| 0 <= n < norm_props(props, req).len() implies strict_ok(
                        (#[trigger] norm_props(props, req)[n]).1,
                    ) by {
                        assert(decreases_to!(props => props[n]));
                        assert(decreases_to!(props[n] => props[n].1));
                        lemma_norm_strict(props[n].1);
                        if !req_contains(req, props[n].0) {
                            lemma_make_nullable_strict(norm(props[n].1));
                        }
                    }
                } else {
                    // Unchanged entry. Under unique keys it cannot be a
                    // `properties` object outside the rewrite.
                    if k == "properties"@ && v is Obj {
                        lemma_unique_obj_get(fields, m);
                        assert(rw);
                        assert(false);
                    }
                }
            }
            lemma_strict_entries_ok(mapped);
            if rw {
                let tail = forced_tail(fields);
                let out = mapped + tail;
                assert(norm(j) == JsonV::Obj(out));
                // The appended entries trigger no strictness branch.
                assert forall|m: int| 0 <= m < tail.len() implies strict_entry_ok(
                    #[trigger] tail[m],
                ) by {
                }
                lemma_strict_entries_ok(out);
                assert forall|m: int| 0 <= m < out.len() implies strict_entry_ok(
                    #[trigger] out[m],
                ) by {
                    if m < mapped.len() {
                        assert(out[m] == mapped[m]);
                    } else {
                        assert(out[m] == tail[m - mapped.len()]);
                    }
                }
                // The node-local obligations of the rewritten node, starting
                // with its property map.
                let t1: Seq<(Seq<char>, JsonV)> = if obj_has_key(fields, "required"@) {
                    Seq::empty()
                } else {
                    seq![("required"@, JsonV::Arr(rk))]
                };
                let t2: Seq<(Seq<char>, JsonV)> = if obj_has_key(fields, "additionalProperties"@) {
                    Seq::empty()
                } else {
                    seq![("additionalProperties"@, JsonV::Bool(false))]
                };
                let t3: Seq<(Seq<char>, JsonV)> = if obj_has_key(fields, "type"@) {
                    Seq::empty()
                } else {
                    seq![("type"@, JsonV::Str("object"@))]
                };
                assert(tail =~= t1 + t2 + t3);
                assert forall|n: int| 0 <= n < tail.len() implies (#[trigger] tail[n]).0
                    == "required"@ || tail[n].0 == "additionalProperties"@ || tail[n].0
                    == "type"@ by {
                    if n < t1.len() {
                        assert(tail[n] == t1[n]);
                    } else if n < t1.len() + t2.len() {
                        assert(tail[n] == t2[n - t1.len()]);
                    } else {
                        assert(tail[n] == t3[n - t1.len() - t2.len()]);
                    }
                }
                let props = props_of(fields);
                lemma_norm_props(props, req);
                lemma_obj_get_concat(mapped, tail, "properties"@);
                let ip = lemma_obj_get_same_keys(fields, mapped, "properties"@);
                if has_props_map(fields) {
                    assert(fields[ip].1 == JsonV::Obj(props));
                    assert(mapped[ip].1 == JsonV::Obj(norm_props(props, req)));
                    assert(obj_get(out, "properties"@) == Some(
                        JsonV::Obj(norm_props(props, req)),
                    ));
                    assert(props_of(out) == norm_props(props, req));
                } else {
                    // `properties` missing or not an object: the output's
                    // property map is empty like the input's.
                    if obj_has_key(fields, "properties"@) {
                        assert(mapped[ip].1 == fields[ip].1);
                        assert(!has_props_map(out));
                    } else {
                        lemma_obj_get_none(tail, "properties"@);
                        assert(!has_props_map(out));
                    }
                    assert(props_of(out) =~= Seq::<(Seq<char>, JsonV)>::empty());
                    assert(props_of(fields) =~= Seq::<(Seq<char>, JsonV)>::empty());
                }
                assert(prop_keys_of(out) =~= rk);
                // The output's `type` is the string "object": mapped in place
                // or appended, so the rewrite applies to the output node.
                lemma_obj_get_concat(mapped, tail, "type"@);
                if obj_has_key(fields, "type"@) {
                    let it = lemma_obj_get_same_keys(fields, mapped, "type"@);
                    assert(mapped[it].1 == JsonV::Str("object"@));
                    assert(obj_get(out, "type"@) == Some(JsonV::Str("object"@)));
                } else {
                    let it = lemma_obj_get_same_keys(fields, mapped, "type"@);
                    let jt = t1.len() + t2.len();
                    assert(tail[jt as int] == ("type"@, JsonV::Str("object"@)));
                    assert forall|n: int| 0 <= n < jt implies tail[n].0 != "type"@ by {
                        if n < t1.len() {
                            assert(tail[n] == t1[n]);
                        } else {
                            assert(tail[n] == t2[n - t1.len()]);
                        }
                    }
                    lemma_obj_get_at(tail, "type"@, jt as int);
                    assert(obj_get(out, "type"@) == Some(JsonV::Str("object"@)));
                }
                assert(obj_rewrite(out));
                // `required` in the output.
                let t23 = t2 + t3;
                if obj_has_key(fields, "required"@) {
                    let ir = lemma_obj_get_same_keys(fields, mapped, "required"@);
                    assert(mapped[ir].1 == JsonV::Arr(rk));
                    lemma_obj_get_concat(mapped, tail, "required"@);
                    assert(obj_get(out, "required"@) == Some(JsonV::Arr(rk)));
                } else {
                    let ir = lemma_obj_get_same_keys(fields, mapped, "required"@);
                    lemma_obj_get_concat(mapped, tail, "required"@);
                    assert(tail =~= seq![("required"@, JsonV::Arr(rk))] + t23);
                    lemma_obj_get_at(tail, "required"@, 0);
                    assert(obj_get(out, "required"@) == Some(JsonV::Arr(rk)));
                }
                // `additionalProperties` in the output.
                if obj_has_key(fields, "additionalProperties"@) {
                    let ia = lemma_obj_get_same_keys(fields, mapped, "additionalProperties"@);
                    assert(mapped[ia].1 == JsonV::Bool(false));
                    lemma_obj_get_concat(mapped, tail, "additionalProperties"@);
                    assert(obj_get(out, "additionalProperties"@) == Some(JsonV::Bool(false)));
                } else {
                    let ia = lemma_obj_get_same_keys(fields, mapped, "additionalProperties"@);
                    lemma_obj_get_concat(mapped, tail, "additionalProperties"@);
                    let ja = if obj_has_key(fields, "required"@) {
                        0
                    } else {
                        1
                    };
                    assert(tail[ja] == ("additionalProperties"@, JsonV::Bool(false)));
                    assert forall|n: int| 0 <= n < ja implies tail[n].0
                        != "additionalProperties"@ by {
                    }
                    lemma_obj_get_at(tail, "additionalProperties"@, ja);
                    assert(obj_get(out, "additionalProperties"@) == Some(JsonV::Bool(false)));
                }
                assert(strict_node_ok(out));
            } else {
                assert(norm(j) == JsonV::Obj(mapped));
                // No rewrite: `properties` and `type` in the output are what
                // they were, so the rewrite stays off.
                let ip = lemma_obj_get_same_keys(fields, mapped, "properties"@);
                if obj_has_key(fields, "properties"@) {
                    assert(mapped[ip].1 == fields[ip].1);
                }
                let it = lemma_obj_get_same_keys(fields, mapped, "type"@);
                if obj_has_key(fields, "type"@) {
                    assert(mapped[it].1 == fields[it].1);
                }
                assert(!obj_rewrite(mapped));
            }
        },
        JsonV::Arr(elems) => {
            lemma_wf_list(elems);
            lemma_norm_list(elems);
            lemma_strict_list_ok(norm_list(elems));
            assert forall|n: int| 0 <= n < norm_list(elems).len() implies strict_ok(
                #[trigger] norm_list(elems)[n],
            ) by {
                assert(decreases_to!(j => elems));
                assert(decreases_to!(elems => elems[n]));
                lemma_norm_strict(elems[n]);
            }
        },
        _ => {},
    }
}

// ---------------------------------------------------------------------------
// Idempotence of the normalizer
// ---------------------------------------------------------------------------
/// An object schema that itself declares a properties map.
pub open spec fn props_obj(v: JsonV) -> bool {
    v is Obj && has_props_map(v->Obj_0)
}

/// The stable fragment, on which the normalizer is idempotent: no property outside
/// the node's `required` list may itself be an object schema with a
/// properties map. (Normalizing such a property forces its `type` to
/// `"object"` and then makes it nullable, turning `type` into an array that
/// a second pass would force back — so a second pass is not a no-op there.)
pub open spec fn stable_ok(j: JsonV) -> bool
    decreases j,
{
    match j {
        JsonV::Obj(fields) => stable_entries_ok(fields, required_of(fields), obj_rewrite(fields)),
        JsonV::Arr(elems) => stable_list_ok(elems),
        _ => true,
    }
}

pub open spec fn stable_entry_ok(e: (Seq<char>, JsonV), req: Seq<JsonV>, rw: bool) -> bool
    decreases e,
{
    let k = e.0;
    let v = e.1;
    if k == "anyOf"@ && v is Arr {
        stable_list_ok(v->Arr_0)
    } else if k == "items"@ {
        stable_ok(v)
    } else if (k == "$defs"@ || k == "definitions"@) && v is Obj {
        stable_defs_ok(v->Obj_0)
    } else if rw && k == "properties"@ && v is Obj {
        stable_props_ok(v->Obj_0, req)
    } else {
        true
    }
}

pub open spec fn stable_entries_ok(
    entries: Seq<(Seq<char>, JsonV)>,
    req: Seq<JsonV>,
    rw: bool,
) -> bool
    decreases entries,
{
    if entries.len() == 0 {
        true
    } else {
        stable_entry_ok(entries[0], req, rw) && stable_entries_ok(
            entries.subrange(1, entries.len() as int),
            req,
            rw,
        )
    }
}

pub open spec fn stable_list_ok(elems: Seq<JsonV>) -> bool
    decreases elems,
{
    if elems.len() == 0 {
        true
    } else {
        stable_ok(elems[0]) && stable_list_ok(elems.subrange(1, elems.len() as int))
    }
}

pub open spec fn stable_defs_ok(d: Seq<(Seq<char>, JsonV)>) -> bool
    decreases d,
{
    if d.len() == 0 {
        true
    } else {
        stable_ok(d[0].1) && stable_defs_ok(d.subrange(1, d.len() as int))
    }
}

pub open spec fn stable_props_ok(props: Seq<(Seq<char>, JsonV)>, req: Seq<JsonV>) -> bool
    decreases props,
{
    if props.len() == 0 {
        true
    } else {
        stable_ok(props[0].1) && (req_contains(req, props[0].0) || !props_obj(props[0].1))
            && stable_props_ok(props.subrange(1, props.len() as int), req)
    }
}

pub proof fn lemma_stable_entries_ok(entries: Seq<(Seq<char>, JsonV)>, req: Seq<JsonV>, rw: bool)
    ensures
        stable_entries_ok(entries, req, rw) == forall|i: int|
            0 <= i < entries.len() ==> stable_entry_ok(#[trigger] entries[i], req, rw),
    decreases entries.len(),
{
    if entries.len() > 0 {
        let tail = entries.subrange(1, entries.len() as int);
        lemma_stable_entries_ok(tail, req, rw);
        if stable_entries_ok(entries, req, rw) {
            assert forall|i: int| 0 <= i < entries.len() implies stable_entry_ok(
                #[trigger] entries[i],
                req,
                rw,
            ) by {
                if i > 0 {
                    assert(tail[i - 1] == entries[i]);
                }
            }
        } else {
            if stable_entry_ok(entries[0], req, rw) && (forall|i: int|
                0 <= i < entries.len() ==> stable_entry_ok(#[trigger] entries[i], req, rw)) {
                assert forall|i: int| 0 <= i < tail.len() implies stable_entry_ok(
                    #[trigger] tail[i],
                    req,
                    rw,
                ) by {
                    assert(tail[i] == entries[i + 1]);
                }
            }
        }
    }
}

pub proof fn lemma_stable_list_ok(elems: Seq<JsonV>)
    ensures
        stable_list_ok(elems) == forall|i: int| 0 <= i < elems.len() ==> stable_ok(#[trigger] elems[i]),
    decreases elems.len(),
{
    if elems.len() > 0 {
        let tail = elems.subrange(1, elems.len() as int);
        lemma_stable_list_ok(tail);
        if stable_list_ok(elems) {
            assert forall|i: int| 0 <= i < elems.len() implies stable_ok(#[trigger] elems[i]) by {
                if i > 0 {
                    assert(tail[i - 1] == elems[i]);
                }
            }
        } else {
            if stable_ok(elems[0]) && (forall|i: int|
                0 <= i < elems.len() ==> stable_ok(#[trigger] elems[i])) {
                assert forall|i: int| 0 <= i < tail.len() implies stable_ok(#[trigger] tail[i]) by {
                    assert(tail[i] == elems[i + 1]);
                }
            }
        }
    }
}

pub proof fn lemma_stable_defs_ok(d: Seq<(Seq<char>, JsonV)>)
    ensures
        stable_defs_ok(d) == forall|i: int| 0 <= i < d.len() ==> stable_ok((#[trigger] d[i]).1),
    decreases d.len(),
{
    if d.len() > 0 {
        let tail = d.subrange(1, d.len() as int);
        lemma_stable_defs_ok(tail);
        if stable_defs_ok(d) {
            assert forall|i: int| 0 <= i < d.len() implies stable_ok((#[trigger] d[i]).1) by {
                if i > 0 {
                    assert(tail[i - 1] == d[i]);
                }
            }
        } else {
            if stable_ok(d[0].1) && (forall|i: int| 0 <= i < d.len() ==> stable_ok((#[trigger] d[i]).1)) {
                assert forall|i: int| 0 <= i < tail.len() implies stable_ok((#[trigger] tail[i]).1) by {
                    assert(tail[i] == d[i + 1]);
                }
            }
        }
    }
}

pub proof fn lemma_stable_props_ok(props: Seq<(Seq<char>, JsonV)>, req: Seq<JsonV>)
    ensures
        stable_props_ok(props, req) == forall|i: int|
            0 <= i < props.len() ==> stable_ok((#[trigger] props[i]).1) && (req_contains(
                req,
                props[i].0,
            ) || !props_obj(props[i].1)),
    decreases props.len(),
{
    if props.len() > 0 {
        let tail = props.subrange(1, props.len() as int);
        lemma_stable_props_ok(tail, req);
        if stable_props_ok(props, req) {
            assert forall|i: int| 0 <= i < props.len() implies stable_ok((#[trigger] props[i]).1) && (
            req_contains(req, props[i].0) || !props_obj(props[i].1)) by {
                if i > 0 {
                    assert(tail[i - 1] == props[i]);
                }
            }
        } else {
            if stable_ok(props[0].1) && (req_contains(req, props[0].0) || !props_obj(props[0].1)) && (
            forall|i: int|
                0 <= i < props.len() ==> stable_ok((#[trigger] props[i]).1) && (req_contains(
                    req,
                    props[i].0,
                ) || !props_obj(props[i].1))) {
                assert forall|i: int| 0 <= i < tail.len() implies stable_ok((#[trigger] tail[i]).1) && (
                req_contains(req, tail[i].0) || !props_obj(tail[i].1)) by {
                    assert(tail[i] == props[i + 1]);
                }
            }
        }
    }
}

/// `norm_entry` with the rewrite off ignores the `required` context.
pub proof fn lemma_norm_entry_no_rewrite(
    e: (Seq<char>, JsonV),
    req1: Seq<JsonV>,
    rk1: Seq<JsonV>,
    req2: Seq<JsonV>,
    rk2: Seq<JsonV>,
)
    ensures
        norm_entry(e, req1, rk1, false) == norm_entry(e, req2, rk2, false),
{
}

/// An entry that one normalization pass left unchanged is unchanged by any
/// later pass with the rewrite off: the rewrite-independent branches reuse
/// their own fixpoint equations, and every other rewrite-off branch returns
/// the entry as it stands.
pub proof fn lemma_fixpoint_entry_no_rewrite(
    e: (Seq<char>, JsonV),
    req: Seq<JsonV>,
    rk: Seq<JsonV>,
    rw: bool,
    req2: Seq<JsonV>,
    rk2: Seq<JsonV>,
)
    requires
        norm_entry(e, req, rk, rw) == e,
    ensures
        norm_entry(e, req2, rk2, false) == e,
{
}

/// Normalizing keeps the shape that decides the strict-object rewrite: the
/// output declares a properties object exactly when the input does.
pub proof fn lemma_norm_props_obj(v: JsonV)
    ensures
        props_obj(norm(v)) == props_obj(v),
{
    lemma_schema_keys_distinct();
    match v {
        JsonV::Obj(fields) => {
            let req = required_of(fields);
            let rk = prop_keys_of(fields);
            let rw = obj_rewrite(fields);
            let mapped = norm_entries(fields, req, rk, rw);
            lemma_norm_entries(fields, req, rk, rw);
            assert forall|m: int| 0 <= m < fields.len() implies (#[trigger] mapped[m]).0
                == fields[m].0 by {
                lemma_norm_entry_key(fields[m], req, rk, rw);
            }
            let ip = lemma_obj_get_same_keys(fields, mapped, "properties"@);
            if rw {
                let tail = forced_tail(fields);
                let out = mapped + tail;
                assert(norm(v) == JsonV::Obj(out));
                lemma_obj_get_concat(mapped, tail, "properties"@);
                if has_props_map(fields) {
                    let props = props_of(fields);
                    assert(fields[ip].1 == JsonV::Obj(props));
                    assert(mapped[ip].1 == JsonV::Obj(norm_props(props, req)));
                    assert(has_props_map(out));
                } else if obj_has_key(fields, "properties"@) {
                    assert(mapped[ip].1 == fields[ip].1);
                    assert(!has_props_map(out));
                } else {
                    lemma_forced_tail_no_props(fields);
                    lemma_obj_get_none(tail, "properties"@);
                    assert(!has_props_map(out));
                }
            } else {
                assert(norm(v) == JsonV::Obj(mapped));
                if obj_has_key(fields, "properties"@) {
                    assert(mapped[ip].1 == fields[ip].1);
                }
            }
        },
        _ => {},
    }
}

/// The appended strict entries never carry the key `properties`.
proof fn lemma_forced_tail_no_props(fields: Seq<(Seq<char>, JsonV)>)
    ensures
        forall|n: int| 0 <= n < forced_tail(fields).len() ==> (#[trigger] forced_tail(
            fields,
        )[n]).0 != "properties"@,
{
    lemma_schema_keys_distinct();
    let t1: Seq<(Seq<char>, JsonV)> = if obj_has_key(fields, "required"@) {
        Seq::empty()
    } else {
        seq![("required"@, JsonV::Arr(prop_keys_of(fields)))]
    };
    let t2: Seq<(Seq<char>, JsonV)> = if obj_has_key(fields, "additionalProperties"@) {
        Seq::empty()
    } else {
        seq![("additionalProperties"@, JsonV::Bool(false))]
    };
    let t3: Seq<(Seq<char>, JsonV)> = if obj_has_key(fields, "type"@) {
        Seq::empty()
    } else {
        seq![("type"@, JsonV::Str("object"@))]
    };
    let tail = forced_tail(fields);
    assert(tail =~= t1 + t2 + t3);
    assert forall|n: int| 0 <= n < tail.len() implies (#[trigger] tail[n]).0 != "properties"@ by {
        if n < t1.len() {
            assert(tail[n] == t1[n]);
        } else if n < t1.len() + t2.len() {
            assert(tail[n] == t2[n - t1.len()]);
        } else {
            assert(tail[n] == t3[n - t1.len() - t2.len()]);
        }
    }
}

/// The normalizer does not disturb the make-nullable transform: on a schema
/// that is already a fixpoint of `norm` and does not itself declare a
/// properties object, making it nullable commutes with normalizing.
pub proof fn lemma_make_nullable_stable(x: JsonV)
    requires
        norm(x) == x,
        !props_obj(x),
    ensures
        norm(make_nullable_v(x)) == make_nullable_v(x),
{
    lemma_schema_keys_distinct();
    if !allows_null_v(x) {
        match x {
            JsonV::Obj(fields) => {
                // `x` is a `norm` fixpoint: nothing was appended, and every
                // entry is a `norm_entry` fixpoint.
                let req = required_of(fields);
                let rk = prop_keys_of(fields);
                let rw = obj_rewrite(fields);
                let mapped = norm_entries(fields, req, rk, rw);
                lemma_norm_entries(fields, req, rk, rw);
                if rw {
                    let tail = forced_tail(fields);
                    assert(JsonV::Obj(mapped + tail) == JsonV::Obj(fields));
                    assert(mapped + tail == fields);
                    assert(mapped =~= fields);
                } else {
                    assert(JsonV::Obj(mapped) == JsonV::Obj(fields));
                }
                assert(mapped == fields);
                if obj_has_key(fields, "type"@) {
                    let tv = obj_get(fields, "type"@)->Some_0;
                    if tv is Str || tv is Arr {
                        let nv = if tv is Str {
                            JsonV::Arr(seq![JsonV::Str(tv->Str_0), JsonV::Str("null"@)])
                        } else {
                            JsonV::Arr(tv->Arr_0.push(JsonV::Str("null"@)))
                        };
                        let i = lemma_obj_get_witness(fields, "type"@);
                        lemma_obj_set_at(fields, "type"@, nv, i);
                        let f2 = obj_set(fields, "type"@, nv);
                        assert(f2 == fields.update(i, ("type"@, nv)));
                        assert(make_nullable_v(x) == JsonV::Obj(f2));
                        // After the update the `type` is an array and the node
                        // still has no properties map: the rewrite is off.
                        lemma_obj_get_set(fields, "type"@, nv);
                        lemma_obj_get_set_other(fields, "type"@, nv, "properties"@);
                        assert(!has_props_map(f2));
                        assert(!obj_rewrite(f2));
                        let req2 = required_of(f2);
                        let rk2 = prop_keys_of(f2);
                        let mapped2 = norm_entries(f2, req2, rk2, false);
                        lemma_norm_entries(f2, req2, rk2, false);
                        assert forall|m: int| 0 <= m < f2.len() implies #[trigger] mapped2[m]
                            == f2[m] by {
                            if m == i {
                                assert(f2[m] == ("type"@, nv));
                            } else {
                                assert(f2[m] == fields[m]);
                                assert(norm_entry(fields[m], req, rk, rw) == fields[m]);
                                lemma_fixpoint_entry_no_rewrite(fields[m], req, rk, rw, req2, rk2);
                            }
                        }
                        assert(mapped2 =~= f2);
                        assert(norm(JsonV::Obj(f2)) == JsonV::Obj(mapped2));
                    }
                } else {
                    lemma_null_wrap_stable(x);
                }
            },
            _ => {
                lemma_null_wrap_stable(x);
            },
        }
    }
}

/// The `anyOf` wrapper of a `norm` fixpoint is itself a `norm` fixpoint.
proof fn lemma_null_wrap_stable(x: JsonV)
    requires
        norm(x) == x,
    ensures
        norm(null_wrap(x)) == null_wrap(x),
{
    lemma_schema_keys_distinct();
    reveal_with_fuel(norm_list, 3);
    reveal_with_fuel(norm_entries, 3);
    let null_branch = JsonV::Obj(seq![("type"@, JsonV::Str("null"@))]);
    let elems = seq![x, null_branch];
    let fields = null_wrap(x)->Obj_0;
    // The wrapper has neither a `type` nor a `properties` entry.
    assert(obj_get(fields, "properties"@) is None) by {
        assert(fields.subrange(1, 1) =~= Seq::<(Seq<char>, JsonV)>::empty());
        assert(obj_get(Seq::<(Seq<char>, JsonV)>::empty(), "properties"@) is None);
    }
    assert(obj_get(fields, "type"@) is None) by {
        assert(fields.subrange(1, 1) =~= Seq::<(Seq<char>, JsonV)>::empty());
        assert(obj_get(Seq::<(Seq<char>, JsonV)>::empty(), "type"@) is None);
    }
    assert(!obj_rewrite(fields));
    // The null branch is a fixpoint: its `type` is "null", not "object".
    assert(norm(null_branch) == null_branch) by {
        let nb = null_branch->Obj_0;
        assert(obj_get(nb, "properties"@) is None) by {
            assert(nb.subrange(1, 1) =~= Seq::<(Seq<char>, JsonV)>::empty());
            assert(obj_get(Seq::<(Seq<char>, JsonV)>::empty(), "properties"@) is None);
        }
        assert(obj_get(nb, "type"@) == Some(JsonV::Str("null"@)));
        assert(!obj_rewrite(nb));
        let m = norm_entries(nb, required_of(nb), prop_keys_of(nb), false);
        assert(nb.subrange(1, 1) =~= Seq::<(Seq<char>, JsonV)>::empty());
        assert(m =~= nb);
    }
    // The single `anyOf` entry maps to the normalized member list, which is
    // unchanged member by member.
    let req = required_of(fields);
    let rk = prop_keys_of(fields);
    let m = norm_entries(fields, req, rk, false);
    assert(norm_list(elems.subrange(1, 2)) =~= seq![norm(null_branch)]) by {
        assert(elems.subrange(1, 2)[0] == null_branch);
        assert(elems.subrange(1, 2).subrange(1, 1) =~= Seq::<JsonV>::empty());
    }
    assert(norm_list(elems) =~= elems) by {
        assert(elems[0] == x);
        assert(norm_list(elems) == seq![norm(x)] + norm_list(elems.subrange(1, 2)));
    }
    assert(fields.subrange(1, 1) =~= Seq::<(Seq<char>, JsonV)>::empty());
    assert(m =~= fields) by {
        assert(norm_entry(fields[0], req, rk, false) == ("anyOf"@, JsonV::Arr(norm_list(elems))));
        assert(JsonV::Arr(norm_list(elems)) =~= JsonV::Arr(elems));
    }
    assert(norm(null_wrap(x)) == JsonV::Obj(m));
}

/// Idempotence: normalizing twice is normalizing once, for every well-formed
/// schema in the [`stable_ok`] fragment — that is, whose optional properties are
/// not themselves object schemas with properties maps. (Outside the
/// fragment a second pass re-forces the `type` that making the property
/// nullable had turned into an array.)
#[verifier::rlimit(100)]
pub proof fn lemma_norm_idempotent(j: JsonV)
    requires
        wf(j),
        stable_ok(j),
    ensures
        norm(norm(j)) == norm(j),
    decreases j,
{
    lemma_schema_keys_distinct();
    match j {
        JsonV::Obj(fields) => {
            let req = required_of(fields);
            let rk = prop_keys_of(fields);
            let rw = obj_rewrite(fields);
            let mapped = norm_entries(fields, req, rk, rw);
            lemma_norm_entries(fields, req, rk, rw);
            lemma_wf_entries(fields);
            lemma_stable_entries_ok(fields, req, rw);
            assert forall|m: int| 0 <= m < fields.len() implies (#[trigger] mapped[m]).0
                == fields[m].0 by {
                lemma_norm_entry_key(fields[m], req, rk, rw);
            }
            if rw {
                let tail = forced_tail(fields);
                let out = mapped + tail;
                assert(norm(j) == JsonV::Obj(out));
                // Identify the properties of the output node.
                let ip = lemma_obj_get_same_keys(fields, mapped, "properties"@);
                let props = props_of(fields);
                lemma_norm_props(props, req);
                lemma_obj_get_concat(mapped, tail, "properties"@);
                if has_props_map(fields) {
                    assert(fields[ip].1 == JsonV::Obj(props));
                    assert(mapped[ip].1 == JsonV::Obj(norm_props(props, req)));
                    assert(obj_get(out, "properties"@) == Some(
                        JsonV::Obj(norm_props(props, req)),
                    ));
                    assert(props_of(out) == norm_props(props, req));
                } else {
                    // No properties map: none appears in the output either.
                    if obj_has_key(fields, "properties"@) {
                        assert(mapped[ip].1 == fields[ip].1);
                        assert(!has_props_map(out));
                    } else {
                        lemma_forced_tail_no_props(fields);
                        lemma_obj_get_none(tail, "properties"@);
                        assert(!has_props_map(out));
                    }
                    assert(props_of(out) =~= Seq::<(Seq<char>, JsonV)>::empty());
                    assert(props_of(fields) =~= Seq::<(Seq<char>, JsonV)>::empty());
                }
                let rk2 = prop_keys_of(out);
                assert(rk2 =~= rk);
                // The output's `type` is the string "object" (mapped in
                // place or appended), so the rewrite applies to the output.
                if obj_has_key(fields, "type"@) {
                    let it = lemma_obj_get_same_keys(fields, mapped, "type"@);
                    assert(mapped[it].1 == JsonV::Str("object"@));
                    lemma_obj_get_concat(mapped, tail, "type"@);
                    assert(obj_get(out, "type"@) == Some(JsonV::Str("object"@)));
                } else {
                    let it = lemma_obj_get_same_keys(fields, mapped, "type"@);
                    lemma_obj_get_concat(mapped, tail, "type"@);
                    let t1: Seq<(Seq<char>, JsonV)> = if obj_has_key(fields, "required"@) {
                        Seq::empty()
                    } else {
                        seq![("required"@, JsonV::Arr(rk))]
                    };
                    let t2: Seq<(Seq<char>, JsonV)> = if obj_has_key(
                        fields,
                        "additionalProperties"@,
                    ) {
                        Seq::empty()
                    } else {
                        seq![("additionalProperties"@, JsonV::Bool(false))]
                    };
                    let t3: Seq<(Seq<char>, JsonV)> = seq![("type"@, JsonV::Str("object"@))];
                    assert(tail =~= t1 + t2 + t3);
                    let jt = t1.len() + t2.len();
                    assert(tail[jt as int] == ("type"@, JsonV::Str("object"@)));
                    assert forall|n: int| 0 <= n < jt implies tail[n].0 != "type"@ by {
                        if n < t1.len() {
                            assert(tail[n] == t1[n]);
                        } else {
                            assert(tail[n] == t2[n - t1.len()]);
                        }
                    }
                    lemma_obj_get_at(tail, "type"@, jt as int);
                    assert(obj_get(out, "type"@) == Some(JsonV::Str("object"@)));
                }
                assert(obj_rewrite(out));
                // `required` and `additionalProperties` of the output, from
                // the strictness theorem.
                lemma_norm_strict(j);
                assert(strict_node_ok(out));
                let req2 = required_of(out);
                assert(req2 == rk2);
                // So the second pass appends nothing.
                assert(forced_tail(out) =~= Seq::<(Seq<char>, JsonV)>::empty());
                // And maps every entry to itself.
                let mapped2 = norm_entries(out, req2, rk2, true);
                lemma_norm_entries(out, req2, rk2, true);
                assert forall|m: int| 0 <= m < out.len() implies #[trigger] mapped2[m] == out[m] by {
                    if m < mapped.len() {
                        let e = fields[m];
                        let k = e.0;
                        let v = e.1;
                        assert(decreases_to!(j => fields));
                        assert(decreases_to!(fields => fields[m]));
                        assert(decreases_to!(fields[m] => fields[m].1));
                        assert(out[m] == norm_entry(e, req, rk, true));
                        if k == "anyOf"@ && v is Arr {
                            let elems = v->Arr_0;
                            assert(decreases_to!(v => v->Arr_0));
                            lemma_wf_list(elems);
                            lemma_stable_list_ok(elems);
                            lemma_norm_list(elems);
                            lemma_norm_list(norm_list(elems));
                            assert forall|n: int| 0 <= n < elems.len() implies norm(
                                #[trigger] norm_list(elems)[n],
                            ) == norm_list(elems)[n] by {
                                assert(decreases_to!(elems => elems[n]));
                                lemma_norm_idempotent(elems[n]);
                            }
                            assert(norm_list(norm_list(elems)) =~= norm_list(elems));
                        } else if k == "items"@ {
                            lemma_norm_idempotent(v);
                        } else if (k == "$defs"@ || k == "definitions"@) && v is Obj {
                            let d = v->Obj_0;
                            assert(decreases_to!(v => v->Obj_0));
                            lemma_wf_entries(d);
                            lemma_stable_defs_ok(d);
                            lemma_norm_defs(d);
                            lemma_norm_defs(norm_defs(d));
                            assert forall|n: int| 0 <= n < d.len() implies #[trigger] norm_defs(
                                norm_defs(d),
                            )[n] == norm_defs(d)[n] by {
                                assert(decreases_to!(d => d[n]));
                                assert(decreases_to!(d[n] => d[n].1));
                                lemma_norm_idempotent(d[n].1);
                            }
                            assert(norm_defs(norm_defs(d)) =~= norm_defs(d));
                        } else if k == "properties"@ && v is Obj {
                            // Unique keys: this is the rewritten node's one
                            // properties entry, and it is a map.
                            lemma_unique_obj_get(fields, m);
                            assert(has_props_map(fields));
                            assert(v == JsonV::Obj(props));
                            let pp = norm_props(props, req);
                            assert(out[m].1 == JsonV::Obj(pp));
                            lemma_wf_entries(props);
                            lemma_stable_props_ok(props, req);
                            lemma_norm_props(pp, req2);
                            assert forall|n: int| 0 <= n < pp.len() implies #[trigger] norm_props(
                                pp,
                                req2,
                            )[n] == pp[n] by {
                                assert(decreases_to!(props => props[n]));
                                assert(decreases_to!(props[n] => props[n].1));
                                let pv = props[n].1;
                                lemma_norm_idempotent(pv);
                                assert(req_contains(req2, props[n].0)) by {
                                    assert(rk[n] == JsonV::Str(props[n].0));
                                }
                                assert(pp[n].0 == props[n].0);
                                if req_contains(req, props[n].0) {
                                    assert(pp[n].1 == norm(pv));
                                } else {
                                    assert(pp[n].1 == make_nullable_v(norm(pv)));
                                    lemma_norm_props_obj(pv);
                                    lemma_make_nullable_stable(norm(pv));
                                }
                            }
                            assert(norm_props(pp, req2) =~= pp);
                        } else if k == "required"@ {
                            assert(out[m].1 == JsonV::Arr(rk));
                            assert(mapped2[m].1 == JsonV::Arr(rk2));
                            assert(rk2 == rk);
                        } else if k == "additionalProperties"@ {
                        } else if k == "type"@ {
                        } else {
                        }
                    } else {
                        let e2 = tail[m - mapped.len()];
                        assert(out[m] == e2);
                        assert(e2 == ("required"@, JsonV::Arr(rk)) || e2 == (
                            "additionalProperties"@,
                            JsonV::Bool(false),
                        ) || e2 == ("type"@, JsonV::Str("object"@)));
                        if e2.0 == "required"@ {
                            assert(rk2 == rk);
                        }
                    }
                }
                assert(mapped2 =~= out);
                assert(norm(norm(j)) == JsonV::Obj(mapped2 + forced_tail(out)));
                assert(mapped2 + forced_tail(out) =~= out);
            } else {
                let out = mapped;
                assert(norm(j) == JsonV::Obj(out));
                // The rewrite stays off in the output: `properties` and
                // `type` are both what they were.
                let ip = lemma_obj_get_same_keys(fields, mapped, "properties"@);
                if obj_has_key(fields, "properties"@) {
                    assert(mapped[ip].1 == fields[ip].1);
                }
                let it = lemma_obj_get_same_keys(fields, mapped, "type"@);
                if obj_has_key(fields, "type"@) {
                    assert(mapped[it].1 == fields[it].1);
                }
                assert(!obj_rewrite(out));
                let req2 = required_of(out);
                let rk2 = prop_keys_of(out);
                let mapped2 = norm_entries(out, req2, rk2, false);
                lemma_norm_entries(out, req2, rk2, false);
                assert forall|m: int| 0 <= m < out.len() implies #[trigger] mapped2[m] == out[m] by {
                    let e = fields[m];
                    let k = e.0;
                    let v = e.1;
                    assert(decreases_to!(j => fields));
                    assert(decreases_to!(fields => fields[m]));
                    assert(decreases_to!(fields[m] => fields[m].1));
                    assert(out[m] == norm_entry(e, req, rk, false));
                    if k == "anyOf"@ && v is Arr {
                        let elems = v->Arr_0;
                        assert(decreases_to!(v => v->Arr_0));
                        lemma_wf_list(elems);
                        lemma_stable_list_ok(elems);
                        lemma_norm_list(elems);
                        lemma_norm_list(norm_list(elems));
                        assert forall|n: int| 0 <= n < elems.len() implies norm(
                            #[trigger] norm_list(elems)[n],
                        ) == norm_list(elems)[n] by {
                            assert(decreases_to!(elems => elems[n]));
                            lemma_norm_idempotent(elems[n]);
                        }
                        assert(norm_list(norm_list(elems)) =~= norm_list(elems));
                    } else if k == "items"@ {
                        lemma_norm_idempotent(v);
                    } else if (k == "$defs"@ || k == "definitions"@) && v is Obj {
                        let d = v->Obj_0;
                        assert(decreases_to!(v => v->Obj_0));
                        lemma_wf_entries(d);
                        lemma_stable_defs_ok(d);
                        lemma_norm_defs(d);
                        lemma_norm_defs(norm_defs(d));
                        assert forall|n: int| 0 <= n < d.len() implies #[trigger] norm_defs(
                            norm_defs(d),
                        )[n] == norm_defs(d)[n] by {
                            assert(decreases_to!(d => d[n]));
                            assert(decreases_to!(d[n] => d[n].1));
                            lemma_norm_idempotent(d[n].1);
                        }
                        assert(norm_defs(norm_defs(d)) =~= norm_defs(d));
                    } else {
                        // Unchanged by the first pass; under unique keys it
                        // cannot be a properties object (the rewrite is off).
                        if k == "properties"@ && v is Obj {
                            lemma_unique_obj_get(fields, m);
                            assert(false);
                        }
                        assert(out[m] == e);
                        lemma_norm_entry_no_rewrite(e, req, rk, req2, rk2);
                    }
                }
                assert(mapped2 =~= out);
                assert(norm(norm(j)) == JsonV::Obj(mapped2));
            }
        },
        JsonV::Arr(elems) => {
            lemma_wf_list(elems);
            lemma_stable_list_ok(elems);
            lemma_norm_list(elems);
            lemma_norm_list(norm_list(elems));
            assert forall|n: int| 0 <= n < elems.len() implies norm(
                #[trigger] norm_list(elems)[n],
            ) == norm_list(elems)[n] by {
                assert(decreases_to!(j => elems));
                assert(decreases_to!(elems => elems[n]));
                lemma_norm_idempotent(elems[n]);
            }
            assert(norm_list(norm_list(elems)) =~= norm_list(elems));
        },
        _ => {},
    }
}

} // verus!

//! JSON Schema normalizer for the strict structured-output dialect.
//!
//! One provider's strict mode forbids optional properties: every declared
//! property must be listed in `required`, and `additionalProperties` must be
//! `false`. An optional property is therefore re-encoded as "required but
//! nullable". The normalizer rewrites an arbitrary schema into that dialect,
//! recursing through `anyOf`, `items`, `$defs`, `definitions` and
//! `properties`; every other part of a schema passes through unchanged.

use vstd::prelude::*;

use crate::json::find_key;
use crate::json::json_view;
use crate::json::lemma_find_key_view;
use crate::json::lemma_obj_get_at;
use crate::json::lemma_obj_set_at;
use crate::json::lemma_view_entries;
use crate::json::lemma_view_list;
use crate::json::obj_get;
use crate::json::obj_has_key;
use crate::json::obj_set;
use crate::json::str_eq;
use crate::json::view_entries;
use crate::json::view_list;
use crate::json::Json;
use crate::json::JsonV;

verus! {

// ---------------------------------------------------------------------------
// Accepting null: the specification side
// ---------------------------------------------------------------------------
/// Does a `type` entry's value accept null: the literal string `"null"`, or
/// an array with `"null"` among its members?
pub open spec fn type_value_allows_null(t: JsonV) -> bool {
    match t {
        JsonV::Str(s) => s == "null"@,
        JsonV::Arr(a) => exists|i: int| 0 <= i < a.len() && a[i] == JsonV::Str("null"@),
        _ => false,
    }
}

/// Does some member of an `anyOf` list accept null?
pub open spec fn anyof_member_allows(elems: Seq<JsonV>) -> bool
    decreases elems,
{
    if elems.len() == 0 {
        false
    } else {
        allows_null_v(elems[0]) || anyof_member_allows(elems.subrange(1, elems.len() as int))
    }
}

/// The `anyOf` rule of [`allows_null_v`], walking the fields to the first
/// `anyOf` entry.
pub open spec fn fields_anyof_allows(fields: Seq<(Seq<char>, JsonV)>) -> bool
    decreases fields,
{
    if fields.len() == 0 {
        false
    } else if fields[0].0 == "anyOf"@ {
        match fields[0].1 {
            JsonV::Arr(elems) => anyof_member_allows(elems),
            _ => false,
        }
    } else {
        fields_anyof_allows(fields.subrange(1, fields.len() as int))
    }
}

/// Does the node's `type` entry accept null?
pub open spec fn type_entry_allows_null(fields: Seq<(Seq<char>, JsonV)>) -> bool {
    match obj_get(fields, "type"@) {
        Some(t) => type_value_allows_null(t),
        None => false,
    }
}

/// Does a schema already accept the null value? A plain disjunction: a
/// null-accepting `type` entry, or a null-accepting `anyOf` branch.
pub open spec fn allows_null_v(j: JsonV) -> bool
    decreases j,
{
    match j {
        JsonV::Obj(fields) => type_entry_allows_null(fields) || fields_anyof_allows(fields),
        _ => false,
    }
}

pub proof fn lemma_anyof_member_allows(elems: Seq<JsonV>)
    ensures
        anyof_member_allows(elems) == exists|i: int|
            0 <= i < elems.len() && allows_null_v(#[trigger] elems[i]),
    decreases elems.len(),
{
    if elems.len() > 0 {
        let tail = elems.subrange(1, elems.len() as int);
        lemma_anyof_member_allows(tail);
        if allows_null_v(elems[0]) {
            assert(anyof_member_allows(elems));
        } else if anyof_member_allows(tail) {
            let i = choose|i: int| 0 <= i < tail.len() && allows_null_v(#[trigger] tail[i]);
            assert(elems[i + 1] == tail[i]);
        } else if exists|i: int| 0 <= i < elems.len() && allows_null_v(#[trigger] elems[i]) {
            let i = choose|i: int| 0 <= i < elems.len() && allows_null_v(#[trigger] elems[i]);
            assert(tail[i - 1] == elems[i]);
        }
    }
}

/// `fields_anyof_allows` is the `anyOf` lookup followed by the member scan.
pub proof fn lemma_fields_anyof_allows(fields: Seq<(Seq<char>, JsonV)>)
    ensures
        fields_anyof_allows(fields) == (match obj_get(fields, "anyOf"@) {
            Some(v) => v is Arr && anyof_member_allows(v->Arr_0),
            None => false,
        }),
    decreases fields.len(),
{
    if fields.len() > 0 && fields[0].0 != "anyOf"@ {
        lemma_fields_anyof_allows(fields.subrange(1, fields.len() as int));
    }
}

// ---------------------------------------------------------------------------
// Making a schema nullable: the specification side
// ---------------------------------------------------------------------------
/// A schema with no usable `type` entry is made nullable by wrapping it in a
/// fresh `anyOf` with a `{"type": "null"}` branch.
pub open spec fn null_wrap(j: JsonV) -> JsonV {
    JsonV::Obj(
        seq![
            (
                "anyOf"@,
                JsonV::Arr(seq![j, JsonV::Obj(seq![("type"@, JsonV::Str("null"@))])]),
            ),
        ],
    )
}

/// The "make nullable" transform: a schema that already accepts null is
/// returned unchanged; a single-string `type` becomes the two-element array
/// with `"null"`; an array `type` has `"null"` appended; a `type` of any
/// other shape is left alone; a schema without a `type` entry is wrapped in
/// an `anyOf` with a null branch.
pub open spec fn make_nullable_v(j: JsonV) -> JsonV {
    if allows_null_v(j) {
        j
    } else {
        match j {
            JsonV::Obj(fields) => if obj_has_key(fields, "type"@) {
                match obj_get(fields, "type"@)->Some_0 {
                    JsonV::Str(s) => JsonV::Obj(
                        obj_set(
                            fields,
                            "type"@,
                            JsonV::Arr(seq![JsonV::Str(s), JsonV::Str("null"@)]),
                        ),
                    ),
                    JsonV::Arr(a) => JsonV::Obj(
                        obj_set(fields, "type"@, JsonV::Arr(a.push(JsonV::Str("null"@)))),
                    ),
                    _ => j,
                }
            } else {
                null_wrap(j)
            },
            _ => null_wrap(j),
        }
    }
}

// ---------------------------------------------------------------------------
// Accepting null: the executable side
// ---------------------------------------------------------------------------
/// Does a schema already accept the null value?
pub fn schema_allows_null(schema: &Json) -> (b: bool)
    ensures
        b == allows_null_v(schema@),
    decreases schema,
{
    match schema {
        Json::Obj(entries) => {
            let type_idx = find_key(entries, "type");
            proof {
                lemma_find_key_view(entries@, "type"@, type_idx);
            }
            let type_allows: bool = match type_idx {
                Some(i) => {
                    match &entries[i].1 {
                        Json::Str(s) => str_eq(s.as_str(), "null"),
                        Json::Arr(a) => {
                            let mut k: usize = 0;
                            let mut found = false;
                            while k < a.len()
                                invariant
                                    k <= a@.len(),
                                    found == exists|m: int|
                                        0 <= m < k && json_view(a@[m]) == JsonV::Str("null"@),
                                decreases a@.len() - k,
                            {
                                if !found {
                                    if let Json::Str(s) = &a[k] {
                                        if str_eq(s.as_str(), "null") {
                                            found = true;
                                        }
                                    }
                                }
                                k = k + 1;
                            }
                            proof {
                                lemma_view_list(a@);
                                let tv = json_view(entries@[i as int].1);
                                assert(tv == JsonV::Arr(view_list(a@)));
                                if found {
                                    let m = choose|m: int|
                                        0 <= m < a@.len() && json_view(a@[m]) == JsonV::Str(
                                            "null"@,
                                        );
                                    assert(view_list(a@)[m] == JsonV::Str("null"@));
                                } else {
                                    assert forall|m: int|
                                        0 <= m < view_list(a@).len() implies view_list(a@)[m]
                                        != JsonV::Str("null"@) by {
                                        assert(view_list(a@)[m] == json_view(a@[m]));
                                    }
                                }
                            }
                            found
                        },
                        _ => false,
                    }
                },
                None => false,
            };
            proof {
                assert(type_allows == type_entry_allows_null(view_entries(entries@)));
            }
            if type_allows {
                return true;
            }
            // No null-accepting `type`: a null-accepting `anyOf` branch
            // still suffices.
            let anyof_idx = find_key(entries, "anyOf");
            proof {
                lemma_find_key_view(entries@, "anyOf"@, anyof_idx);
                lemma_fields_anyof_allows(view_entries(entries@));
            }
            match anyof_idx {
                Some(i) => {
                    match &entries[i].1 {
                        Json::Arr(elems) => {
                                    let mut k: usize = 0;
                                    let mut found = false;
                                    while k < elems.len()
                                        invariant
                                            *schema == Json::Obj(*entries),
                                            i < entries@.len(),
                                            entries@[i as int].1 == Json::Arr(*elems),
                                            k <= elems@.len(),
                                            found == exists|m: int|
                                                0 <= m < k && allows_null_v(
                                                    json_view(elems@[m]),
                                                ),
                                        decreases elems@.len() - k,
                                    {
                                        proof {
                                            let jj = *schema;
                                            assert(decreases_to!(jj => jj->Obj_0));
                                            assert(decreases_to!(*entries => entries[i as int]));
                                            assert(decreases_to!(entries[i as int] => entries[i as int].1));
                                            let av = entries@[i as int].1;
                                            assert(decreases_to!(av => av->Arr_0));
                                            assert(decreases_to!(*elems => elems[k as int]));
                                        }
                                        let e_allows = schema_allows_null(&elems[k]);
                                        if e_allows {
                                            found = true;
                                        }
                                        k = k + 1;
                                    }
                                    proof {
                                        lemma_view_list(elems@);
                                        lemma_anyof_member_allows(view_list(elems@));
                                        if found {
                                            let m = choose|m: int|
                                                0 <= m < elems@.len() && allows_null_v(
                                                    json_view(elems@[m]),
                                                );
                                            assert(view_list(elems@)[m] == json_view(elems@[m]));
                                        } else {
                                            assert forall|m: int|
                                                0 <= m < view_list(elems@).len() implies !allows_null_v(
                                                view_list(elems@)[m],
                                            ) by {
                                                assert(view_list(elems@)[m] == json_view(
                                                    elems@[m],
                                                ));
                                            }
                                        }
                                    }
                            found
                        },
                        _ => false,
                    }
                },
                None => false,
            }
        },
        _ => false,
    }
}

// ---------------------------------------------------------------------------
// The normalizer: the specification side
// ---------------------------------------------------------------------------
/// Is `name` listed in a `required` array (as a string member)?
pub open spec fn req_contains(req: Seq<JsonV>, name: Seq<char>) -> bool {
    exists|i: int| 0 <= i < req.len() && req[i] == JsonV::Str(name)
}

/// The members of the node's `required` array; empty when the entry is
/// missing or not an array.
pub open spec fn required_of(fields: Seq<(Seq<char>, JsonV)>) -> Seq<JsonV> {
    match obj_get(fields, "required"@) {
        Some(v) => if v is Arr {
            v->Arr_0
        } else {
            Seq::empty()
        },
        None => Seq::empty(),
    }
}

/// Does the node declare a `properties` entry whose value is an object?
pub open spec fn has_props_map(fields: Seq<(Seq<char>, JsonV)>) -> bool {
    match obj_get(fields, "properties"@) {
        Some(v) => v is Obj,
        None => false,
    }
}

/// Does the strict-object rewrite apply to this node: its `type` is the
/// string `"object"`, or it declares a `properties` map?
pub open spec fn obj_rewrite(fields: Seq<(Seq<char>, JsonV)>) -> bool {
    obj_get(fields, "type"@) == Some(JsonV::Str("object"@)) || has_props_map(fields)
}

/// The node's property map; empty when it declares none.
pub open spec fn props_of(fields: Seq<(Seq<char>, JsonV)>) -> Seq<(Seq<char>, JsonV)> {
    if has_props_map(fields) {
        obj_get(fields, "properties"@)->Some_0->Obj_0
    } else {
        Seq::empty()
    }
}

/// All property names of the node, as JSON strings: the rewritten value of
/// `required`.
pub open spec fn prop_keys_of(fields: Seq<(Seq<char>, JsonV)>) -> Seq<JsonV> {
    prop_keys_seq(props_of(fields))
}

/// One field of an object node, normalized. `req` is the node's original
/// `required` list, `req_keys` the rewritten one, and `rewrite` says whether
/// the strict-object rewrite applies to the node.
pub open spec fn norm_entry(
    e: (Seq<char>, JsonV),
    req: Seq<JsonV>,
    req_keys: Seq<JsonV>,
    rewrite: bool,
) -> (Seq<char>, JsonV)
    decreases e,
{
    let k = e.0;
    let v = e.1;
    if k == "anyOf"@ && v is Arr {
        (k, JsonV::Arr(norm_list(v->Arr_0)))
    } else if k == "items"@ {
        (k, norm(v))
    } else if (k == "$defs"@ || k == "definitions"@) && v is Obj {
        (k, JsonV::Obj(norm_defs(v->Obj_0)))
    } else if rewrite && k == "properties"@ && v is Obj {
        (k, JsonV::Obj(norm_props(v->Obj_0, req)))
    } else if rewrite && k == "required"@ {
        (k, JsonV::Arr(req_keys))
    } else if rewrite && k == "additionalProperties"@ {
        (k, JsonV::Bool(false))
    } else if rewrite && k == "type"@ {
        (k, JsonV::Str("object"@))
    } else {
        (k, v)
    }
}

pub open spec fn norm_entries(
    entries: Seq<(Seq<char>, JsonV)>,
    req: Seq<JsonV>,
    req_keys: Seq<JsonV>,
    rewrite: bool,
) -> Seq<(Seq<char>, JsonV)>
    decreases entries,
{
    if entries.len() == 0 {
        Seq::empty()
    } else {
        seq![norm_entry(entries[0], req, req_keys, rewrite)] + norm_entries(
            entries.subrange(1, entries.len() as int),
            req,
            req_keys,
            rewrite,
        )
    }
}

/// Members of an `anyOf` (or of a plain array node), each normalized.
pub open spec fn norm_list(elems: Seq<JsonV>) -> Seq<JsonV>
    decreases elems,
{
    if elems.len() == 0 {
        Seq::empty()
    } else {
        seq![norm(elems[0])] + norm_list(elems.subrange(1, elems.len() as int))
    }
}

/// Named schema definitions (`$defs` / `definitions`), each value normalized.
pub open spec fn norm_defs(d: Seq<(Seq<char>, JsonV)>) -> Seq<(Seq<char>, JsonV)>
    decreases d,
{
    if d.len() == 0 {
        Seq::empty()
    } else {
        seq![(d[0].0, norm(d[0].1))] + norm_defs(d.subrange(1, d.len() as int))
    }
}

/// Declared properties, each normalized; a property not listed in the
/// original `required` list is additionally made nullable.
pub open spec fn norm_props(props: Seq<(Seq<char>, JsonV)>, req: Seq<JsonV>) -> Seq<
    (Seq<char>, JsonV),
>
    decreases props,
{
    if props.len() == 0 {
        Seq::empty()
    } else {
        let e = if req_contains(req, props[0].0) {
            (props[0].0, norm(props[0].1))
        } else {
            (props[0].0, make_nullable_v(norm(props[0].1)))
        };
        seq![e] + norm_props(props.subrange(1, props.len() as int), req)
    }
}

/// The entries the strict-object rewrite appends when the node does not
/// already carry them: `required` (all property names),
/// `additionalProperties: false`, and `type: "object"`.
pub open spec fn forced_tail(fields: Seq<(Seq<char>, JsonV)>) -> Seq<(Seq<char>, JsonV)> {
    let t1: Seq<(Seq<char>, JsonV)> = if obj_has_key(fields, "required"@) {
        Seq::empty()
    } else {
        seq![("required"@, JsonV::Arr(prop_keys_of(fields)))]
    };
    let t2: Seq<(Seq<char>, JsonV)> = if obj_has_key(fields, "additionalProperties"@) {
        Seq::empty()
    } else {
        seq![("additionalProperties"@, JsonV::Bool(false))]
    };
    let t3: Seq<(Seq<char>, JsonV)> = if obj_has_key(fields, "type"@) {
        Seq::empty()
    } else {
        seq![("type"@, JsonV::Str("object"@))]
    };
    t1 + t2 + t3
}

/// The normalizer. Applied depth-first: `anyOf` members, `items`, `$defs` /
/// `definitions` entries and array members are normalized recursively; a
/// node whose `type` is `"object"` or that declares a `properties` map
/// additionally has every property normalized (made nullable when not
/// originally required), `required` rewritten to all property names,
/// `additionalProperties` forced to `false`, and `type` forced to
/// `"object"`. Everything else is unchanged.
pub open spec fn norm(j: JsonV) -> JsonV
    decreases j,
{
    match j {
        JsonV::Obj(fields) => {
            let mapped = norm_entries(
                fields,
                required_of(fields),
                prop_keys_of(fields),
                obj_rewrite(fields),
            );
            if obj_rewrite(fields) {
                JsonV::Obj(mapped + forced_tail(fields))
            } else {
                JsonV::Obj(mapped)
            }
        },
        JsonV::Arr(elems) => JsonV::Arr(norm_list(elems)),
        other => other,
    }
}

pub proof fn lemma_norm_entries(
    entries: Seq<(Seq<char>, JsonV)>,
    req: Seq<JsonV>,
    req_keys: Seq<JsonV>,
    rewrite: bool,
)
    ensures
        norm_entries(entries, req, req_keys, rewrite).len() == entries.len(),
        forall|i: int| 0 <= i < entries.len() ==> #[trigger] norm_entries(
            entries,
            req,
            req_keys,
            rewrite,
        )[i] == norm_entry(entries[i], req, req_keys, rewrite),
    decreases entries.len(),
{
    if entries.len() > 0 {
        lemma_norm_entries(entries.subrange(1, entries.len() as int), req, req_keys, rewrite);
    }
}

pub proof fn lemma_norm_list(elems: Seq<JsonV>)
    ensures
        norm_list(elems).len() == elems.len(),
        forall|i: int| 0 <= i < elems.len() ==> #[trigger] norm_list(elems)[i] == norm(elems[i]),
    decreases elems.len(),
{
    if elems.len() > 0 {
        lemma_norm_list(elems.subrange(1, elems.len() as int));
    }
}

pub proof fn lemma_norm_defs(d: Seq<(Seq<char>, JsonV)>)
    ensures
        norm_defs(d).len() == d.len(),
        forall|i: int| 0 <= i < d.len() ==> #[trigger] norm_defs(d)[i] == (d[i].0, norm(d[i].1)),
    decreases d.len(),
{
    if d.len() > 0 {
        lemma_norm_defs(d.subrange(1, d.len() as int));
    }
}

pub proof fn lemma_norm_props(props: Seq<(Seq<char>, JsonV)>, req: Seq<JsonV>)
    ensures
        norm_props(props, req).len() == props.len(),
        forall|i: int| 0 <= i < props.len() ==> #[trigger] norm_props(props, req)[i] == (
            props[i].0,
            if req_contains(req, props[i].0) {
                norm(props[i].1)
            } else {
                make_nullable_v(norm(props[i].1))
            },
        ),
    decreases props.len(),
{
    if props.len() > 0 {
        lemma_norm_props(props.subrange(1, props.len() as int), req);
    }
}

/// The schema keys the normalizer treats specially are pairwise distinct.
pub proof fn lemma_schema_keys_distinct()
    ensures
        "anyOf"@ != "items"@,
        "anyOf"@ != "$defs"@,
        "anyOf"@ != "definitions"@,
        "anyOf"@ != "properties"@,
        "anyOf"@ != "required"@,
        "anyOf"@ != "additionalProperties"@,
        "anyOf"@ != "type"@,
        "items"@ != "$defs"@,
        "items"@ != "definitions"@,
        "items"@ != "properties"@,
        "items"@ != "required"@,
        "items"@ != "additionalProperties"@,
        "items"@ != "type"@,
        "$defs"@ != "definitions"@,
        "$defs"@ != "properties"@,
        "$defs"@ != "required"@,
        "$defs"@ != "additionalProperties"@,
        "$defs"@ != "type"@,
        "definitions"@ != "properties"@,
        "definitions"@ != "required"@,
        "definitions"@ != "additionalProperties"@,
        "definitions"@ != "type"@,
        "properties"@ != "required"@,
        "properties"@ != "additionalProperties"@,
        "properties"@ != "type"@,
        "required"@ != "additionalProperties"@,
        "required"@ != "type"@,
        "additionalProperties"@ != "type"@,
        "object"@ != "null"@,
{
    reveal_strlit("anyOf");
    reveal_strlit("items");
    reveal_strlit("$defs");
    reveal_strlit("definitions");
    reveal_strlit("properties");
    reveal_strlit("required");
    reveal_strlit("additionalProperties");
    reveal_strlit("type");
    reveal_strlit("object");
    reveal_strlit("null");
    assert("anyOf"@[0] == 'a');
    assert("items"@[0] == 'i');
    assert("$defs"@[0] == '$');
    assert("definitions"@[0] == 'd');
    assert("properties"@[0] == 'p');
    assert("required"@[0] == 'r');
    assert("additionalProperties"@[0] == 'a');
    assert("type"@[0] == 't');
    assert("object"@[0] == 'o');
    assert("null"@[0] == 'n');
    assert("anyOf"@.len() == 5);
    assert("additionalProperties"@.len() == 20);
}

// ---------------------------------------------------------------------------
// The normalizer: the executable side
// ---------------------------------------------------------------------------
/// Is `name` a string member of the given `required` array (`None` standing
/// for a missing or non-array `required` entry)?
fn req_member(req: Option<&Vec<Json>>, name: &str) -> (r: bool)
    ensures
        r == req_contains(
            match req {
                Some(a) => view_list(a@),
                None => Seq::empty(),
            },
            name@,
        ),
{
    match req {
        None => {
            assert(!req_contains(Seq::empty(), name@));
            false
        },
        Some(a) => {
            let mut j: usize = 0;
            while j < a.len()
                invariant
                    req == Some(a),
                    j <= a@.len(),
                    forall|m: int| 0 <= m < j ==> json_view(a@[m]) != JsonV::Str(name@),
                decreases a@.len() - j,
            {
                if let Json::Str(s) = &a[j] {
                    if str_eq(s.as_str(), name) {
                        proof {
                            lemma_view_list(a@);
                            assert(view_list(a@)[j as int] == JsonV::Str(name@));
                        }
                        return true;
                    }
                }
                j = j + 1;
            }
            proof {
                lemma_view_list(a@);
                assert forall|m: int| 0 <= m < view_list(a@).len() implies view_list(a@)[m]
                    != JsonV::Str(name@) by {
                    assert(view_list(a@)[m] == json_view(a@[m]));
                }
            }
            false
        },
    }
}

/// The keys of a property map, as JSON strings: the value that the rewrite
/// gives to `required`.
fn build_prop_keys(props: &Vec<(String, Json)>) -> (r: Vec<Json>)
    ensures
        view_list(r@) == prop_keys_seq(view_entries(props@)),
{
    let mut out: Vec<Json> = Vec::new();
    let mut j: usize = 0;
    while j < props.len()
        invariant
            j <= props@.len(),
            out@.len() == j,
            forall|m: int| 0 <= m < j ==> json_view(out@[m]) == JsonV::Str(props@[m].0@),
        decreases props@.len() - j,
    {
        out.push(Json::Str(props[j].0.clone()));
        j = j + 1;
    }
    proof {
        lemma_view_list(out@);
        lemma_view_entries(props@);
        assert(view_list(out@) =~= prop_keys_seq(view_entries(props@)));
    }
    out
}

/// All keys of a property map, as JSON strings.
pub open spec fn prop_keys_seq(props: Seq<(Seq<char>, JsonV)>) -> Seq<JsonV> {
    Seq::new(props.len(), |i: int| JsonV::Str(props[i].0))
}

// ---------------------------------------------------------------------------
// Making a schema nullable: the executable side
// ---------------------------------------------------------------------------
fn null_wrap_exec(inner: Json) -> (r: Json)
    ensures
        r@ == null_wrap(inner@),
{
    let null_entries: Vec<(String, Json)> = vec![
        ("type".to_owned(), Json::Str("null".to_owned())),
    ];
    proof {
        lemma_view_entries(null_entries@);
        assert(view_entries(null_entries@) =~= seq![("type"@, JsonV::Str("null"@))]);
    }
    let null_obj = Json::Obj(null_entries);
    let ghost inner_v = inner@;
    let branches: Vec<Json> = vec![inner, null_obj];
    proof {
        lemma_view_list(branches@);
        assert(view_list(branches@) =~= seq![
            inner_v,
            JsonV::Obj(seq![("type"@, JsonV::Str("null"@))]),
        ]);
    }
    let entries: Vec<(String, Json)> = vec![("anyOf".to_owned(), Json::Arr(branches))];
    proof {
        lemma_view_entries(entries@);
        assert(view_entries(entries@) =~= null_wrap(inner_v)->Obj_0);
        assert(JsonV::Obj(view_entries(entries@)) =~= null_wrap(inner_v));
    }
    Json::Obj(entries)
}

/// Rewrite a schema so that it also accepts the null value (unless it
/// already does).
pub fn make_nullable(schema: Json) -> (r: Json)
    ensures
        r@ == make_nullable_v(schema@),
{
    if schema_allows_null(&schema) {
        return schema;
    }
    let ghost jv = schema@;
    match schema {
        Json::Obj(mut entries) => {
            let idx = find_key(&entries, "type");
            proof {
                lemma_find_key_view(entries@, "type"@, idx);
                lemma_view_entries(entries@);
            }
            match idx {
                Some(i) => {
                    let ghost old_entries = entries@;
                    let ghost fields = view_entries(old_entries);
                    let (k, oldv) = entries.remove(i);
                    let ghost oldv_v = json_view(oldv);
                    let newv: Json = match oldv {
                        Json::Str(s) => {
                            let ghost sv = s@;
                            let arr: Vec<Json> = vec![Json::Str(s), Json::Str("null".to_owned())];
                            proof {
                                lemma_view_list(arr@);
                                assert(view_list(arr@) =~= seq![
                                    JsonV::Str(sv),
                                    JsonV::Str("null"@),
                                ]);
                            }
                            Json::Arr(arr)
                        },
                        Json::Arr(mut a) => {
                            let ghost a_old = a@;
                            a.push(Json::Str("null".to_owned()));
                            proof {
                                lemma_view_list(a@);
                                lemma_view_list(a_old);
                                assert(view_list(a@) =~= view_list(a_old).push(
                                    JsonV::Str("null"@),
                                ));
                            }
                            Json::Arr(a)
                        },
                        other => other,
                    };
                    proof {
                        lemma_obj_get_at(fields, "type"@, i as int);
                        assert(obj_get(fields, "type"@) == Some(oldv_v));
                    }
                    entries.insert(i, (k, newv));
                    proof {
                        assert(entries@ =~= old_entries.update(i as int, (old_entries[i as int].0, newv)));
                        lemma_view_entries(entries@);
                        if oldv_v is Str || oldv_v is Arr {
                            lemma_obj_set_at(fields, "type"@, json_view(newv), i as int);
                            assert(view_entries(entries@) =~= obj_set(
                                fields,
                                "type"@,
                                json_view(newv),
                            ));
                        } else {
                            assert(view_entries(entries@) =~= fields);
                        }
                    }
                    Json::Obj(entries)
                },
                None => {
                    proof {
                        assert(!obj_has_key(view_entries(entries@), "type"@));
                    }
                    null_wrap_exec(Json::Obj(entries))
                },
            }
        },
        other => {
            null_wrap_exec(other)
        },
    }
}

/// The first `m` entries of `inner` are the first `m` properties of `props`,
/// normalized and (when not required) made nullable.
pub open spec fn props_prefix_mapped(
    inner: Seq<(String, Json)>,
    props: Seq<(String, Json)>,
    req: Seq<JsonV>,
    m: int,
) -> bool {
    forall|n: int| 0 <= n < m ==> (#[trigger] inner[n]).0@ == props[n].0@ && json_view(inner[n].1)
        == (if req_contains(req, props[n].0@) {
        norm(json_view(props[n].1))
    } else {
        make_nullable_v(norm(json_view(props[n].1)))
    })
}

/// Rewrite a schema into the strict structured-output dialect: on every
/// object-typed node (a `type` of `"object"` or a declared `properties`
/// map), properties all required (optional ones made nullable),
/// `additionalProperties` false and `type` forced to `"object"`, recursing
/// through `anyOf`, `items`, `$defs`, `definitions` and arrays.
pub fn normalize_schema_for_openai(schema: &Json) -> (r: Json)
    ensures
        r@ == norm(schema@),
    decreases schema,
{
    match schema {
        Json::Null => Json::Null,
        Json::Bool(b) => Json::Bool(*b),
        Json::Int(i) => Json::Int(*i),
        Json::Num(s) => Json::Num(s.clone()),
        Json::Str(s) => Json::Str(s.clone()),
        Json::Arr(v) => {
            let mut out: Vec<Json> = Vec::new();
            let mut i: usize = 0;
            while i < v.len()
                invariant
                    *schema == Json::Arr(*v),
                    i <= v@.len(),
                    out@.len() == i,
                    forall|j: int| 0 <= j < i ==> json_view(out@[j]) == norm(json_view(v@[j])),
                decreases v@.len() - i,
            {
                proof {
                    let jj = *schema;
                    assert(decreases_to!(jj => jj->Arr_0));
                    assert(decreases_to!(*v => v[i as int]));
                }
                let c = normalize_schema_for_openai(&v[i]);
                out.push(c);
                i = i + 1;
            }
            proof {
                lemma_view_list(out@);
                lemma_view_list(v@);
                lemma_norm_list(view_list(v@));
                assert(view_list(out@) =~= norm_list(view_list(v@)));
            }
            Json::Arr(out)
        },
        Json::Obj(entries) => {
            let ghost fields = view_entries(entries@);
            proof {
                lemma_view_entries(entries@);
            }
            // The strict-object rewrite applies when the node's `type` is
            // the string "object", or when `properties` holds an object.
            let type_idx = find_key(entries, "type");
            proof {
                lemma_find_key_view(entries@, "type"@, type_idx);
            }
            let type_is_object: bool = match type_idx {
                Some(ti) => match &entries[ti].1 {
                    Json::Str(s) => str_eq(s.as_str(), "object"),
                    _ => false,
                },
                None => false,
            };
            let props_idx = find_key(entries, "properties");
            proof {
                lemma_find_key_view(entries@, "properties"@, props_idx);
            }
            let props_is_obj: bool = match props_idx {
                Some(pi) => matches!(&entries[pi].1, Json::Obj(_)),
                None => false,
            };
            let rewrite: bool = type_is_object || props_is_obj;
            proof {
                assert(type_is_object == (obj_get(fields, "type"@) == Some(
                    JsonV::Str("object"@),
                )));
                assert(props_is_obj == has_props_map(fields));
                assert(rewrite == obj_rewrite(fields));
            }
            // The node's original `required` array, when it has one.
            let req_idx = find_key(entries, "required");
            proof {
                lemma_find_key_view(entries@, "required"@, req_idx);
            }
            let req_arr: Option<&Vec<Json>> = match req_idx {
                Some(ri) => match &entries[ri].1 {
                    Json::Arr(a) => Some(a),
                    _ => None,
                },
                None => None,
            };
            let ghost req_v = required_of(fields);
            proof {
                match req_arr {
                    Some(a) => assert(req_v == view_list(a@)),
                    None => assert(req_v =~= Seq::<JsonV>::empty()),
                }
            }
            // The rewritten `required` value: every property name (none when
            // the node declares no properties map).
            let req_keys_json: Option<Json> = if rewrite {
                match props_idx {
                    Some(pi) => match &entries[pi].1 {
                        Json::Obj(props) => Some(Json::Arr(build_prop_keys(props))),
                        _ => Some(Json::Arr(Vec::new())),
                    },
                    None => Some(Json::Arr(Vec::new())),
                }
            } else {
                None
            };
            let ghost req_keys_v = prop_keys_of(fields);
            proof {
                if rewrite {
                    if !has_props_map(fields) {
                        assert(req_keys_v =~= Seq::<JsonV>::empty());
                        assert(view_list(Seq::<Json>::empty()) =~= Seq::<JsonV>::empty());
                    }
                    assert(req_keys_json is Some && json_view(req_keys_json->0) == JsonV::Arr(
                        req_keys_v,
                    ));
                }
            }
            let mut out: Vec<(String, Json)> = Vec::new();
            let mut i: usize = 0;
            while i < entries.len()
                invariant
                    *schema == Json::Obj(*entries),
                    fields == view_entries(entries@),
                    fields.len() == entries@.len(),
                    forall|j: int| 0 <= j < entries@.len() ==> #[trigger] fields[j] == (
                        entries@[j].0@,
                        json_view(entries@[j].1),
                    ),
                    rewrite == obj_rewrite(fields),
                    req_v == required_of(fields),
                    match req_arr {
                        Some(a) => req_v == view_list(a@),
                        None => req_v == Seq::<JsonV>::empty(),
                    },
                    req_keys_v == prop_keys_of(fields),
                    rewrite ==> req_keys_json is Some && json_view(req_keys_json->0)
                        == JsonV::Arr(req_keys_v),
                    i <= entries@.len(),
                    out@.len() == i,
                    forall|j: int| 0 <= j < i ==> (
                        #[trigger] out@[j].0@,
                        json_view(out@[j].1),
                    ) == norm_entry(fields[j], req_v, req_keys_v, rewrite),
                decreases entries@.len() - i,
            {
                proof {
                    let jj = *schema;
                    assert(decreases_to!(jj => jj->Obj_0));
                    assert(decreases_to!(*entries => entries[i as int]));
                    assert(decreases_to!(entries[i as int] => entries[i as int].1));
                    lemma_schema_keys_distinct();
                }
                let key = &entries[i].0;
                let val = &entries[i].1;
                let new_val: Json = if str_eq(key.as_str(), "anyOf") {
                    match val {
                        Json::Arr(elems) => {
                            let mut inner: Vec<Json> = Vec::new();
                            let mut m: usize = 0;
                            while m < elems.len()
                                invariant
                                    *schema == Json::Obj(*entries),
                                    i < entries@.len(),
                                    entries@[i as int].1 == Json::Arr(*elems),
                                    m <= elems@.len(),
                                    inner@.len() == m,
                                    forall|n: int| 0 <= n < m ==> json_view(inner@[n]) == norm(
                                        json_view(elems@[n]),
                                    ),
                                decreases elems@.len() - m,
                            {
                                proof {
                                    let jj = *schema;
                                    assert(decreases_to!(jj => jj->Obj_0));
                                    assert(decreases_to!(*entries => entries[i as int]));
                                    assert(decreases_to!(entries[i as int] => entries[i as int].1));
                                    let av = entries@[i as int].1;
                                    assert(decreases_to!(av => av->Arr_0));
                                    assert(decreases_to!(*elems => elems[m as int]));
                                }
                                let c = normalize_schema_for_openai(&elems[m]);
                                inner.push(c);
                                m = m + 1;
                            }
                            proof {
                                lemma_view_list(inner@);
                                lemma_view_list(elems@);
                                lemma_norm_list(view_list(elems@));
                                assert(view_list(inner@) =~= norm_list(view_list(elems@)));
                            }
                            Json::Arr(inner)
                        },
                        _ => val.deep_clone(),
                    }
                } else if str_eq(key.as_str(), "items") {
                    normalize_schema_for_openai(val)
                } else if str_eq(key.as_str(), "$defs") || str_eq(key.as_str(), "definitions") {
                    match val {
                        Json::Obj(defs) => {
                            let mut inner: Vec<(String, Json)> = Vec::new();
                            let mut m: usize = 0;
                            while m < defs.len()
                                invariant
                                    *schema == Json::Obj(*entries),
                                    i < entries@.len(),
                                    entries@[i as int].1 == Json::Obj(*defs),
                                    m <= defs@.len(),
                                    inner@.len() == m,
                                    forall|n: int| 0 <= n < m ==> #[trigger] inner@[n].0@
                                        == defs@[n].0@ && json_view(inner@[n].1) == norm(
                                        json_view(defs@[n].1),
                                    ),
                                decreases defs@.len() - m,
                            {
                                proof {
                                    let jj = *schema;
                                    assert(decreases_to!(jj => jj->Obj_0));
                                    assert(decreases_to!(*entries => entries[i as int]));
                                    assert(decreases_to!(entries[i as int] => entries[i as int].1));
                                    let dv = entries@[i as int].1;
                                    assert(decreases_to!(dv => dv->Obj_0));
                                    assert(decreases_to!(*defs => defs[m as int]));
                                    assert(decreases_to!(defs[m as int] => defs[m as int].1));
                                }
                                let c = normalize_schema_for_openai(&defs[m].1);
                                let k2 = defs[m].0.clone();
                                inner.push((k2, c));
                                m = m + 1;
                            }
                            proof {
                                lemma_view_entries(inner@);
                                lemma_view_entries(defs@);
                                lemma_norm_defs(view_entries(defs@));
                                assert(view_entries(inner@) =~= norm_defs(view_entries(defs@)));
                            }
                            Json::Obj(inner)
                        },
                        _ => val.deep_clone(),
                    }
                } else if rewrite && str_eq(key.as_str(), "properties") {
                    match val {
                        Json::Obj(props) => {
                            let mut inner: Vec<(String, Json)> = Vec::new();
                            let mut m: usize = 0;
                            while m < props.len()
                                invariant
                                    *schema == Json::Obj(*entries),
                                    i < entries@.len(),
                                    entries@[i as int].1 == Json::Obj(*props),
                                    match req_arr {
                                        Some(a) => req_v == view_list(a@),
                                        None => req_v == Seq::<JsonV>::empty(),
                                    },
                                    m <= props@.len(),
                                    inner@.len() == m,
                                    props_prefix_mapped(inner@, props@, req_v, m as int),
                                decreases props@.len() - m,
                            {
                                proof {
                                    let jj = *schema;
                                    assert(decreases_to!(jj => jj->Obj_0));
                                    assert(decreases_to!(*entries => entries[i as int]));
                                    assert(decreases_to!(entries[i as int] => entries[i as int].1));
                                    let pv = entries@[i as int].1;
                                    assert(decreases_to!(pv => pv->Obj_0));
                                    assert(decreases_to!(*props => props[m as int]));
                                    assert(decreases_to!(props[m as int] => props[m as int].1));
                                }
                                let c = normalize_schema_for_openai(&props[m].1);
                                let keep = req_member(req_arr, props[m].0.as_str());
                                let c2 = if keep {
                                    c
                                } else {
                                    make_nullable(c)
                                };
                                let k2 = props[m].0.clone();
                                let ghost k2v = k2@;
                                let ghost c2v = json_view(c2);
                                proof {
                                    assert(k2v == props@[m as int].0@);
                                    assert(keep == req_contains(req_v, props@[m as int].0@));
                                    assert(c2v == (if req_contains(req_v, props@[m as int].0@) {
                                        norm(json_view(props@[m as int].1))
                                    } else {
                                        make_nullable_v(norm(json_view(props@[m as int].1)))
                                    }));
                                }
                                let ghost pre = inner@;
                                inner.push((k2, c2));
                                proof {
                                    assert forall|n: int|
                                        0 <= n < m + 1 implies (#[trigger] inner@[n]).0@
                                        == props@[n].0@ && json_view(inner@[n].1) == (
                                    if req_contains(req_v, props@[n].0@) {
                                        norm(json_view(props@[n].1))
                                    } else {
                                        make_nullable_v(norm(json_view(props@[n].1)))
                                    }) by {
                                        if n == m as int {
                                            assert(inner@[n].0@ == k2v);
                                            assert(json_view(inner@[n].1) == c2v);
                                        } else {
                                            assert(inner@[n] == pre[n]);
                                            assert(pre[n].0@ == props@[n].0@);
                                        }
                                    }
                                    assert(props_prefix_mapped(inner@, props@, req_v, m + 1));
                                }
                                m = m + 1;
                            }
                            proof {
                                lemma_view_entries(inner@);
                                lemma_view_entries(props@);
                                lemma_norm_props(view_entries(props@), req_v);
                                assert(view_entries(inner@) =~= norm_props(
                                    view_entries(props@),
                                    req_v,
                                ));
                            }
                            Json::Obj(inner)
                        },
                        _ => val.deep_clone(),
                    }
                } else if rewrite && str_eq(key.as_str(), "required") {
                    match &req_keys_json {
                        Some(ka) => ka.deep_clone(),
                        None => {
                            proof {
                                assert(false);
                            }
                            Json::Null
                        },
                    }
                } else if rewrite && str_eq(key.as_str(), "additionalProperties") {
                    Json::Bool(false)
                } else if rewrite && str_eq(key.as_str(), "type") {
                    Json::Str("object".to_owned())
                } else {
                    val.deep_clone()
                };
                let new_key = key.clone();
                out.push((new_key, new_val));
                i = i + 1;
            }
            // Append the entries the rewrite mandates but the node lacks.
            if rewrite {
                let ghost mapped = view_entries(out@);
                proof {
                    lemma_view_entries(out@);
                    lemma_norm_entries(fields, req_v, req_keys_v, rewrite);
                    assert(mapped =~= norm_entries(fields, req_v, req_keys_v, rewrite));
                }
                if req_idx.is_none() {
                    match &req_keys_json {
                        Some(ka) => {
                            let kc = ka.deep_clone();
                            out.push(("required".to_owned(), kc));
                        },
                        None => {
                            proof {
                                assert(false);
                            }
                        },
                    }
                }
                let ap_idx = find_key(entries, "additionalProperties");
                proof {
                    lemma_find_key_view(entries@, "additionalProperties"@, ap_idx);
                }
                if ap_idx.is_none() {
                    out.push(("additionalProperties".to_owned(), Json::Bool(false)));
                }
                if type_idx.is_none() {
                    out.push(("type".to_owned(), Json::Str("object".to_owned())));
                }
                proof {
                    lemma_view_entries(out@);
                    assert(view_entries(out@) =~= mapped + forced_tail(fields));
                }
            } else {
                proof {
                    lemma_view_entries(out@);
                    lemma_norm_entries(fields, req_v, req_keys_v, rewrite);
                    assert(view_entries(out@) =~= norm_entries(fields, req_v, req_keys_v, rewrite));
                }
            }
            Json::Obj(out)
        },
    }
}

} // verus!

use llm_adapter::json::Json;
use llm_adapter::schema::make_nullable;
use llm_adapter::schema::normalize_schema_for_openai;
use llm_adapter::schema::schema_allows_null;

fn s(x: &str) -> Json {
    Json::Str(x.to_string())
}

fn obj(entries: Vec<(&str, Json)>) -> Json {
    let mut v: Vec<(String, Json)> = Vec::new();
    for (k, val) in entries {
        v.push((k.to_string(), val));
    }
    Json::Obj(v)
}

fn arr(elems: Vec<Json>) -> Json {
    Json::Arr(elems)
}

fn type_str(t: &str) -> Json {
    obj(vec![("type", s(t))])
}

#[test]
fn allows_null_type_string() {
    assert!(schema_allows_null(&type_str("null")));
    assert!(!schema_allows_null(&type_str("string")));
}

#[test]
fn allows_null_type_array() {
    let sch = obj(vec![("type", arr(vec![s("string"), s("null")]))]);
    assert!(schema_allows_null(&sch));
    let sch2 = obj(vec![("type", arr(vec![s("string"), s("integer")]))]);
    assert!(!schema_allows_null(&sch2));
}

#[test]
fn allows_null_anyof_branch() {
    let sch = obj(vec![("anyOf", arr(vec![type_str("string"), type_str("null")]))]);
    assert!(schema_allows_null(&sch));
    let sch2 = obj(vec![("anyOf", arr(vec![type_str("string"), type_str("integer")]))]);
    assert!(!schema_allows_null(&sch2));
}

#[test]
fn allows_null_anyof_beside_type() {
    // The three already-nullable conditions are a plain disjunction: a
    // null-accepting anyOf branch counts even when a type key exists.
    let sch = obj(vec![
        ("type", s("string")),
        ("anyOf", arr(vec![type_str("null")])),
    ]);
    assert!(schema_allows_null(&sch));
}

#[test]
fn make_nullable_passthrough_anyof_beside_type() {
    let sch = obj(vec![
        ("type", s("string")),
        ("anyOf", arr(vec![type_str("null")])),
    ]);
    let copy = sch.deep_clone();
    assert_eq!(make_nullable(sch), copy);
}

#[test]
fn normalize_object_without_properties_is_strict() {
    // The strict rewrite fires on type "object" alone: an empty required
    // list and additionalProperties false are added.
    let got = normalize_schema_for_openai(&type_str("object"));
    let want = obj(vec![
        ("type", s("object")),
        ("required", arr(vec![])),
        ("additionalProperties", Json::Bool(false)),
    ]);
    assert_eq!(got, want);
}

#[test]
fn normalize_object_without_properties_idempotent() {
    let once = normalize_schema_for_openai(&type_str("object"));
    let twice = normalize_schema_for_openai(&once);
    assert_eq!(twice, once);
}

#[test]
fn allows_null_scalar_is_false() {
    assert!(!schema_allows_null(&Json::Bool(true)));
    assert!(!schema_allows_null(&Json::Null));
}

#[test]
fn make_nullable_passthrough_type_array() {
    let sch = obj(vec![("type", arr(vec![s("string"), s("null")]))]);
    let copy = sch.deep_clone();
    assert_eq!(make_nullable(sch), copy);
}

#[test]
fn make_nullable_passthrough_anyof() {
    let sch = obj(vec![("anyOf", arr(vec![type_str("integer"), type_str("null")]))]);
    let copy = sch.deep_clone();
    assert_eq!(make_nullable(sch), copy);
}

#[test]
fn make_nullable_string_type_becomes_array() {
    let got = make_nullable(type_str("string"));
    let want = obj(vec![("type", arr(vec![s("string"), s("null")]))]);
    assert_eq!(got, want);
}

#[test]
fn make_nullable_appends_to_type_array() {
    let sch = obj(vec![("type", arr(vec![s("string"), s("integer")]))]);
    let got = make_nullable(sch);
    let want = obj(vec![("type", arr(vec![s("string"), s("integer"), s("null")]))]);
    assert_eq!(got, want);
}

#[test]
fn make_nullable_wraps_untyped_schema() {
    let sch = obj(vec![("enum", arr(vec![s("a"), s("b")]))]);
    let got = make_nullable(sch.deep_clone());
    let want = obj(vec![("anyOf", arr(vec![sch, type_str("null")]))]);
    assert_eq!(got, want);
}

#[test]
fn normalize_scalar_passthrough() {
    assert_eq!(normalize_schema_for_openai(&Json::Bool(true)), Json::Bool(true));
    assert_eq!(normalize_schema_for_openai(&s("x")), s("x"));
}

#[test]
fn normalize_object_requires_all_properties() {
    // One required and one optional property.
    let sch = obj(vec![
        ("type", s("object")),
        (
            "properties",
            obj(vec![("a", type_str("string")), ("b", type_str("integer"))]),
        ),
        ("required", arr(vec![s("a")])),
    ]);
    let got = normalize_schema_for_openai(&sch);
    let want = obj(vec![
        ("type", s("object")),
        (
            "properties",
            obj(vec![
                ("a", type_str("string")),
                ("b", obj(vec![("type", arr(vec![s("integer"), s("null")]))])),
            ]),
        ),
        ("required", arr(vec![s("a"), s("b")])),
        ("additionalProperties", Json::Bool(false)),
    ]);
    assert_eq!(got, want);
}

#[test]
fn normalize_adds_missing_strict_fields() {
    // No `required`, no `additionalProperties`, no `type` on the node.
    let sch = obj(vec![("properties", obj(vec![("x", type_str("boolean"))]))]);
    let got = normalize_schema_for_openai(&sch);
    let want = obj(vec![
        (
            "properties",
            obj(vec![("x", obj(vec![("type", arr(vec![s("boolean"), s("null")]))]))]),
        ),
        ("required", arr(vec![s("x")])),
        ("additionalProperties", Json::Bool(false)),
        ("type", s("object")),
    ]);
    assert_eq!(got, want);
}

#[test]
fn normalize_recurses_into_anyof_items_and_defs() {
    let inner = obj(vec![
        ("type", s("object")),
        ("properties", obj(vec![("p", type_str("string"))])),
        ("required", arr(vec![s("p")])),
    ]);
    let inner_norm = obj(vec![
        ("type", s("object")),
        ("properties", obj(vec![("p", type_str("string"))])),
        ("required", arr(vec![s("p")])),
        ("additionalProperties", Json::Bool(false)),
    ]);
    let sch = obj(vec![
        ("anyOf", arr(vec![inner.deep_clone()])),
        ("items", inner.deep_clone()),
        ("$defs", obj(vec![("d", inner.deep_clone())])),
        ("definitions", obj(vec![("e", inner.deep_clone())])),
        ("description", s("kept as is")),
    ]);
    let got = normalize_schema_for_openai(&sch);
    let want = obj(vec![
        ("anyOf", arr(vec![inner_norm.deep_clone()])),
        ("items", inner_norm.deep_clone()),
        ("$defs", obj(vec![("d", inner_norm.deep_clone())])),
        ("definitions", obj(vec![("e", inner_norm.deep_clone())])),
        ("description", s("kept as is")),
    ]);
    assert_eq!(got, want);
}

#[test]
fn normalize_array_node_elementwise() {
    let sch = arr(vec![type_str("string"), obj(vec![("properties", obj(vec![]))])]);
    let got = normalize_schema_for_openai(&sch);
    let want = arr(vec![
        type_str("string"),
        obj(vec![
            ("properties", obj(vec![])),
            ("required", arr(vec![])),
            ("additionalProperties", Json::Bool(false)),
            ("type", s("object")),
        ]),
    ]);
    assert_eq!(got, want);
}

#[test]
fn normalize_idempotent_on_flat_object() {
    // Optional scalar properties only: renormalizing changes nothing.
    let sch = obj(vec![
        ("type", s("object")),
        (
            "properties",
            obj(vec![("a", type_str("string")), ("b", type_str("number"))]),
        ),
    ]);
    let once = normalize_schema_for_openai(&sch);
    let twice = normalize_schema_for_openai(&once);
    assert_eq!(twice, once);
}

#[test]
fn normalize_idempotent_with_anyof_and_items() {
    let sch = obj(vec![
        ("anyOf", arr(vec![type_str("string"), obj(vec![("enum", arr(vec![s("x")]))])])),
        ("items", type_str("integer")),
    ]);
    let once = normalize_schema_for_openai(&sch);
    let twice = normalize_schema_for_openai(&once);
    assert_eq!(twice, once);
}

#[test]
fn normalize_optional_property_accepts_null() {
    let sch = obj(vec![
        ("properties", obj(vec![("opt", type_str("string"))])),
        ("required", arr(vec![])),
    ]);
    let got = normalize_schema_for_openai(&sch);
    if let Json::Obj(entries) = &got {
        let props = entries.iter().find(|e| e.0 == "properties").unwrap();
        if let Json::Obj(pe) = &props.1 {
            let opt = &pe[0].1;
            assert!(schema_allows_null(opt));
        } else {
            panic!("properties is not an object");
        }
    } else {
        panic!("normalized schema is not an object");
    }
}

#[test]
fn normalize_required_property_not_wrapped() {
    let sch = obj(vec![
        ("properties", obj(vec![("must", type_str("string"))])),
        ("required", arr(vec![s("must")])),
    ]);
    let got = normalize_schema_for_openai(&sch);
    if let Json::Obj(entries) = &got {
        let props = entries.iter().find(|e| e.0 == "properties").unwrap();
        if let Json::Obj(pe) = &props.1 {
            assert_eq!(pe[0].1, type_str("string"));
        } else {
            panic!("properties is not an object");
        }
    } else {
        panic!("normalized schema is not an object");
    }
}

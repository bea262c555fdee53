//! The Responses-style provider adapter.
//!
//! Build: one input item of type `message`, role `user`, whose content is an
//! `input_text` part (the prompt) followed by one `input_image` part per
//! image attachment, in input order. The system prompt travels as the
//! top-level `instructions` field; structured output nests under
//! `text.format`. Parse: a top-level `error.message` wins; otherwise the
//! `output` list is scanned — `output_text` parts of `message` items
//! concatenate in encounter order, and any `refusal` part overrides
//! everything, failing with the refusal text (the last one seen).

use vstd::prelude::*;

use vstd::string::StringExecFns;

use crate::json::find_key;
use crate::json::json_view;
use crate::json::lemma_find_key_view;
use crate::json::lemma_view_entries;
use crate::json::lemma_view_list;
use crate::json::obj_get;
use crate::json::str_eq;
use crate::json::view_entries;
use crate::json::view_list;
use crate::json::Json;
use crate::json::JsonV;
use crate::mode::json_schema_supported;
use crate::mode::select_openai_structured_output_mode;
use crate::mode::OpenAIStructuredOutputMode;
use crate::model::err_result;
use crate::model::ok_result;
use crate::model::result_wf;
use crate::model::FileData;
use crate::model::FileDataV;
use crate::model::LLMRequestParams;
use crate::model::LLMResult;
use crate::model::LLMResultV;
use crate::model::ParamsV;
use crate::model::WireRequest;
use crate::model::WireRequestV;
use crate::schema::norm;
use crate::schema::normalize_schema_for_openai;
use crate::wire::api_error_of;
use crate::wire::bearer;
use crate::wire::build_bearer;
use crate::wire::build_data_uri;
use crate::wire::build_endpoint_url;
use crate::wire::build_no_content_msg;
use crate::wire::build_parse_error_msg;
use crate::wire::build_status_error_msg;
use crate::wire::data_uri;
use crate::wire::endpoint_url;
use crate::wire::extract_api_error;
use crate::wire::images_of;
use crate::wire::img_files;
use crate::wire::is_image_mime;
use crate::wire::jstr;
use crate::wire::mime_is_image;
use crate::wire::no_content_msg;
use crate::wire::obj1;
use crate::wire::obj2;
use crate::wire::obj3;
use crate::wire::parse_error_msg;
use crate::wire::status_error_msg;
use crate::wire::status_ok;

verus! {

// ---------------------------------------------------------------------------
// The request body, specified
// ---------------------------------------------------------------------------
pub open spec fn responses_text_part(prompt: Seq<char>) -> JsonV {
    JsonV::Obj(seq![("type"@, JsonV::Str("input_text"@)), ("text"@, JsonV::Str(prompt))])
}

pub open spec fn responses_image_part(f: FileDataV) -> JsonV {
    JsonV::Obj(
        seq![
            ("type"@, JsonV::Str("input_image"@)),
            (
                "image_url"@,
                JsonV::Obj(seq![("url"@, JsonV::Str(data_uri(f.mime_type, f.data)))]),
            ),
        ],
    )
}

pub open spec fn responses_image_parts(imgs: Seq<FileDataV>) -> Seq<JsonV> {
    Seq::new(imgs.len(), |i: int| responses_image_part(imgs[i]))
}

/// The content of the single input item: the text part first, then the
/// image parts in input order.
pub open spec fn responses_content(p: ParamsV) -> Seq<JsonV> {
    seq![responses_text_part(p.prompt)] + responses_image_parts(images_of(p.files))
}

/// The single input item: type `message`, role `user`.
pub open spec fn responses_input_item(p: ParamsV) -> JsonV {
    JsonV::Obj(
        seq![
            ("type"@, JsonV::Str("message"@)),
            ("role"@, JsonV::Str("user"@)),
            ("content"@, JsonV::Arr(responses_content(p))),
        ],
    )
}

/// The `text` object carrying the structured-output format, present only
/// when a schema was requested.
pub open spec fn responses_text_format(p: ParamsV) -> Option<JsonV> {
    match p.response_json_schema {
        Some(sch) => Some(
            JsonV::Obj(
                seq![
                    (
                        "format"@,
                        if json_schema_supported(p.model) {
                            JsonV::Obj(
                                seq![
                                    ("type"@, JsonV::Str("json_schema"@)),
                                    ("name"@, JsonV::Str("response"@)),
                                    ("schema"@, norm(sch)),
                                    ("strict"@, JsonV::Bool(true)),
                                ],
                            )
                        } else {
                            JsonV::Obj(seq![("type"@, JsonV::Str("json_object"@))])
                        },
                    ),
                ],
            ),
        ),
        None => None,
    }
}

pub open spec fn opt_entry(k: Seq<char>, v: Option<JsonV>) -> Seq<(Seq<char>, JsonV)> {
    match v {
        Some(x) => seq![(k, x)],
        None => Seq::empty(),
    }
}

/// The whole request body. The system prompt, when supplied, is the
/// top-level `instructions` field; the token bound is `max_output_tokens`.
pub open spec fn responses_body(p: ParamsV) -> JsonV {
    JsonV::Obj(
        seq![
            ("model"@, JsonV::Str(p.model)),
            ("input"@, JsonV::Arr(seq![responses_input_item(p)])),
        ] + opt_entry(
            "instructions"@,
            match p.system_prompt {
                Some(s) => Some(JsonV::Str(s)),
                None => None,
            },
        ) + opt_entry(
            "temperature"@,
            match p.temperature {
                Some(t) => Some(JsonV::Num(t)),
                None => None,
            },
        ) + opt_entry(
            "max_output_tokens"@,
            match p.max_tokens {
                Some(m) => Some(JsonV::Int(m as i64)),
                None => None,
            },
        ) + opt_entry("text"@, responses_text_format(p)),
    )
}

pub open spec fn responses_request(p: ParamsV) -> WireRequestV {
    WireRequestV {
        url: endpoint_url(p.base_url, "/v1/responses"@),
        headers: seq![
            ("Content-Type"@, "application/json"@),
            ("Authorization"@, bearer(p.api_key)),
        ],
        body: responses_body(p),
    }
}

// ---------------------------------------------------------------------------
// The request body, built
// ---------------------------------------------------------------------------
fn build_responses_image_part(f: &FileData) -> (r: Json)
    ensures
        r@ == responses_image_part(f@),
{
    let uri = build_data_uri(f.mime_type.as_str(), f.data.as_str());
    obj2("type", jstr("input_image"), "image_url", obj1("url", Json::Str(uri)))
}

fn build_responses_content(params: &LLMRequestParams) -> (r: Vec<Json>)
    ensures
        view_list(r@) == responses_content(params@),
{
    let ghost p = params@;
    let mut parts: Vec<Json> = Vec::new();
    let text = obj2("type", jstr("input_text"), "text", Json::Str(params.prompt.clone()));
    let ghost text_v = text@;
    parts.push(text);
    match &params.files {
        None => {
            proof {
                lemma_view_list(parts@);
                assert(view_list(parts@) =~= responses_content(p));
            }
        },
        Some(files) => {
            let ghost fv = p.files->0;
            proof {
                assert(fv.len() == files@.len());
                lemma_view_list(parts@);
                assert(fv.take(0) =~= Seq::<FileDataV>::empty());
                assert(view_list(parts@) =~= seq![text_v] + responses_image_parts(
                    img_files(fv.take(0)),
                ));
            }
            let mut i: usize = 0;
            while i < files.len()
                invariant
                    params@ == p,
                    params.files == Some(*files),
                    fv == p.files->0,
                    fv.len() == files@.len(),
                    forall|m: int| 0 <= m < files@.len() ==> fv[m] == #[trigger] files@[m]@,
                    i <= files@.len(),
                    view_list(parts@) =~= seq![responses_text_part(p.prompt)]
                        + responses_image_parts(img_files(fv.take(i as int))),
                decreases files@.len() - i,
            {
                let ghost pre = parts@;
                proof {
                    assert(fv[i as int] == files@[i as int]@);
                }
                if mime_is_image(files[i].mime_type.as_str()) {
                    let part = build_responses_image_part(&files[i]);
                    parts.push(part);
                }
                proof {
                    let t = fv.take(i as int + 1);
                    assert(t.drop_last() =~= fv.take(i as int));
                    assert(t.last() == fv[i as int]);
                    assert(img_files(t) == (if is_image_mime(fv[i as int].mime_type) {
                        img_files(fv.take(i as int)).push(fv[i as int])
                    } else {
                        img_files(fv.take(i as int))
                    }));
                    lemma_view_list(parts@);
                    lemma_view_list(pre);
                    assert forall|m: int| 0 <= m < parts@.len() implies view_list(parts@)[m] == (
                    seq![responses_text_part(p.prompt)] + responses_image_parts(img_files(t)))[m]
                        by {
                        assert(view_list(parts@)[m] == json_view(parts@[m]));
                        if m < pre.len() {
                            assert(parts@[m] == pre[m]);
                            assert(json_view(pre[m]) == view_list(pre)[m]);
                        }
                    }
                    assert(view_list(parts@) =~= seq![responses_text_part(p.prompt)]
                        + responses_image_parts(img_files(t)));
                }
                i = i + 1;
            }
            proof {
                assert(fv.take(fv.len() as int) =~= fv);
                assert(view_list(parts@) =~= responses_content(p));
            }
        },
    }
    parts
}

/// Build the Responses-style wire request for a uniform request.
pub fn build_openai_responses_request(params: &LLMRequestParams) -> (r: WireRequest)
    ensures
        r@ == responses_request(params@),
{
    let ghost p = params@;
    let content = build_responses_content(params);
    let item = obj3(
        "type",
        jstr("message"),
        "role",
        jstr("user"),
        "content",
        Json::Arr(content),
    );
    let ghost item_v = item@;
    let input: Vec<Json> = vec![item];
    proof {
        lemma_view_list(input@);
        assert(view_list(input@) =~= seq![responses_input_item(p)]);
    }
    let mut entries: Vec<(String, Json)> = Vec::new();
    entries.push(("model".to_owned(), Json::Str(params.model.clone())));
    entries.push(("input".to_owned(), Json::Arr(input)));
    match &params.system_prompt {
        Some(s) => entries.push(("instructions".to_owned(), Json::Str(s.clone()))),
        None => {},
    }
    match &params.temperature {
        Some(t) => entries.push(("temperature".to_owned(), Json::Num(t.clone()))),
        None => {},
    }
    match params.max_tokens {
        Some(m) => entries.push(("max_output_tokens".to_owned(), Json::Int(m as i64))),
        None => {},
    }
    match &params.response_json_schema {
        Some(sch) => {
            let fmt: Json = match select_openai_structured_output_mode(params.model.as_str()) {
                OpenAIStructuredOutputMode::JsonSchema => {
                    let normalized = normalize_schema_for_openai(sch);
                    let ghost norm_v = normalized@;
                    let format_entries: Vec<(String, Json)> = vec![
                        ("type".to_owned(), jstr("json_schema")),
                        ("name".to_owned(), jstr("response")),
                        ("schema".to_owned(), normalized),
                        ("strict".to_owned(), Json::Bool(true)),
                    ];
                    proof {
                        lemma_view_entries(format_entries@);
                        assert(view_entries(format_entries@) =~= seq![
                            ("type"@, JsonV::Str("json_schema"@)),
                            ("name"@, JsonV::Str("response"@)),
                            ("schema"@, norm_v),
                            ("strict"@, JsonV::Bool(true)),
                        ]);
                    }
                    obj1("format", Json::Obj(format_entries))
                },
                OpenAIStructuredOutputMode::JsonObject => obj1(
                    "format",
                    obj1("type", jstr("json_object")),
                ),
            };
            entries.push(("text".to_owned(), fmt));
        },
        None => {},
    }
    proof {
        lemma_view_entries(entries@);
        assert(view_entries(entries@) =~= responses_body(p)->Obj_0);
    }
    let mut headers: Vec<(String, String)> = Vec::new();
    headers.push(("Content-Type".to_owned(), "application/json".to_owned()));
    headers.push(("Authorization".to_owned(), build_bearer(params.api_key.as_str())));
    let url = build_endpoint_url(params.base_url.as_str(), "/v1/responses");
    let r = WireRequest { url, headers, body: Json::Obj(entries) };
    proof {
        assert(r@.headers =~= responses_request(p).headers);
        assert(r@ =~= responses_request(p));
    }
    r
}

// ---------------------------------------------------------------------------
// The response, interpreted
// ---------------------------------------------------------------------------
/// The text one content part contributes: the `text` of an `output_text`
/// part, nothing otherwise.
pub open spec fn part_text(part: JsonV) -> Seq<char> {
    match part {
        JsonV::Obj(pf) => if obj_get(pf, "type"@) == Some(JsonV::Str("output_text"@)) {
            match obj_get(pf, "text"@) {
                Some(tv) => match tv {
                    JsonV::Str(t) => t,
                    _ => Seq::empty(),
                },
                _ => Seq::empty(),
            }
        } else {
            Seq::empty()
        },
        _ => Seq::empty(),
    }
}

/// The refusal text one content part carries, if it is a `refusal` part.
pub open spec fn part_refusal(part: JsonV) -> Option<Seq<char>> {
    match part {
        JsonV::Obj(pf) => if obj_get(pf, "type"@) == Some(JsonV::Str("refusal"@)) {
            match obj_get(pf, "refusal"@) {
                Some(rv) => match rv {
                    JsonV::Str(r) => Some(r),
                    _ => None,
                },
                _ => None,
            }
        } else {
            None
        },
        _ => None,
    }
}

/// The concatenated text of a part list, in encounter order.
pub open spec fn parts_text(parts: Seq<JsonV>) -> Seq<char>
    decreases parts.len(),
{
    if parts.len() == 0 {
        Seq::empty()
    } else {
        parts_text(parts.drop_last()) + part_text(parts.last())
    }
}

/// The last refusal of a part list, if any.
pub open spec fn parts_refusal(parts: Seq<JsonV>) -> Option<Seq<char>>
    decreases parts.len(),
{
    if parts.len() == 0 {
        None
    } else {
        match part_refusal(parts.last()) {
            Some(r) => Some(r),
            None => parts_refusal(parts.drop_last()),
        }
    }
}

/// The content parts of an output item, when it is a `message` with a
/// content list.
pub open spec fn item_parts(item: JsonV) -> Seq<JsonV> {
    match item {
        JsonV::Obj(f) => if obj_get(f, "type"@) == Some(JsonV::Str("message"@)) {
            match obj_get(f, "content"@) {
                Some(cv) => match cv {
                    JsonV::Arr(parts) => parts,
                    _ => Seq::empty(),
                },
                _ => Seq::empty(),
            }
        } else {
            Seq::empty()
        },
        _ => Seq::empty(),
    }
}

/// All text the output items contribute, in encounter order.
pub open spec fn items_text(items: Seq<JsonV>) -> Seq<char>
    decreases items.len(),
{
    if items.len() == 0 {
        Seq::empty()
    } else {
        items_text(items.drop_last()) + parts_text(item_parts(items.last()))
    }
}

/// The last refusal across the output items, if any.
pub open spec fn items_refusal(items: Seq<JsonV>) -> Option<Seq<char>>
    decreases items.len(),
{
    if items.len() == 0 {
        None
    } else {
        match parts_refusal(item_parts(items.last())) {
            Some(r) => Some(r),
            None => items_refusal(items.drop_last()),
        }
    }
}

/// The `output` list of a response body, empty when missing.
pub open spec fn output_items(j: JsonV) -> Seq<JsonV> {
    match j {
        JsonV::Obj(f) => match obj_get(f, "output"@) {
            Some(ov) => match ov {
                JsonV::Arr(items) => items,
                _ => Seq::empty(),
            },
            _ => Seq::empty(),
        },
        _ => Seq::empty(),
    }
}

/// The uniform result for a Responses-style exchange: `error.message` wins;
/// then a non-success status; then an unparseable body; then a refusal (it
/// overrides any accumulated text); then the concatenated text when
/// non-empty; else the fixed no-content failure.
pub open spec fn interpret_responses(
    status: u16,
    body: Result<JsonV, Seq<char>>,
    raw: Seq<char>,
) -> LLMResultV {
    let api_err = match body {
        Ok(j) => api_error_of(j),
        Err(_) => None,
    };
    if api_err is Some {
        err_result(api_err->0)
    } else if !status_ok(status) {
        err_result(status_error_msg(status, raw))
    } else {
        match body {
            Err(d) => err_result(parse_error_msg(d)),
            Ok(j) => match items_refusal(output_items(j)) {
                Some(r) => err_result(r),
                None => if items_text(output_items(j)).len() > 0 {
                    ok_result(items_text(output_items(j)))
                } else {
                    err_result(no_content_msg())
                },
            },
        }
    }
}

/// `output_text` and `refusal` are different part types.
proof fn lemma_part_types_distinct()
    ensures
        "output_text"@ != "refusal"@,
{
    reveal_strlit("output_text");
    reveal_strlit("refusal");
    assert("output_text"@.len() == 11);
    assert("refusal"@.len() == 7);
}

/// Scan one item's content parts: append their text, record the last
/// refusal.
fn scan_parts(parts: &Vec<Json>, acc: &mut String, refusal: &mut Option<String>)
    ensures
        final(acc)@ == old(acc)@ + parts_text(view_list(parts@)),
        match parts_refusal(view_list(parts@)) {
            Some(r) => *final(refusal) is Some && (*final(refusal))->0@ == r,
            None => *final(refusal) == *old(refusal),
        },
{
    let ghost pv = view_list(parts@);
    proof {
        lemma_view_list(parts@);
    }
    let mut j: usize = 0;
    while j < parts.len()
        invariant
            pv == view_list(parts@),
            pv.len() == parts@.len(),
            forall|m: int| 0 <= m < parts@.len() ==> pv[m] == json_view(#[trigger] parts@[m]),
            j <= parts@.len(),
            acc@ == old(acc)@ + parts_text(pv.take(j as int)),
            match parts_refusal(pv.take(j as int)) {
                Some(r) => (*refusal) is Some && (*refusal)->0@ == r,
                None => *refusal == *old(refusal),
            },
        decreases parts@.len() - j,
    {
        let ghost t = pv.take(j as int + 1);
        proof {
            assert(t.drop_last() =~= pv.take(j as int));
            assert(t.last() == pv[j as int]);
            lemma_part_types_distinct();
        }
        match &parts[j] {
            Json::Obj(pf) => {
                let ti = find_key(pf, "type");
                proof {
                    lemma_find_key_view(pf@, "type"@, ti);
                }
                match ti {
                    Some(tidx) => {
                        match &pf[tidx].1 {
                            Json::Str(ty) => {
                                if str_eq(ty.as_str(), "output_text") {
                                    let xi = find_key(pf, "text");
                                    proof {
                                        lemma_find_key_view(pf@, "text"@, xi);
                                    }
                                    match xi {
                                        Some(x) => match &pf[x].1 {
                                            Json::Str(s) => acc.append(s.as_str()),
                                            _ => {},
                                        },
                                        None => {},
                                    }
                                } else if str_eq(ty.as_str(), "refusal") {
                                    let ri = find_key(pf, "refusal");
                                    proof {
                                        lemma_find_key_view(pf@, "refusal"@, ri);
                                    }
                                    match ri {
                                        Some(x) => match &pf[x].1 {
                                            Json::Str(s) => {
                                                *refusal = Some(s.clone());
                                            },
                                            _ => {},
                                        },
                                        None => {},
                                    }
                                }
                            },
                            _ => {},
                        }
                    },
                    None => {},
                }
            },
            _ => {},
        }
        proof {
            assert(acc@ == old(acc)@ + parts_text(t)) by {
                assert(part_text(pv[j as int]) == part_text(json_view(parts@[j as int])));
            }
        }
        j = j + 1;
    }
    proof {
        assert(pv.take(parts@.len() as int) =~= pv);
    }
}

/// Scan the output items, concatenating text and keeping the last refusal.
fn scan_items(items: &Vec<Json>, acc: &mut String, refusal: &mut Option<String>)
    ensures
        final(acc)@ == old(acc)@ + items_text(view_list(items@)),
        match items_refusal(view_list(items@)) {
            Some(r) => *final(refusal) is Some && (*final(refusal))->0@ == r,
            None => *final(refusal) == *old(refusal),
        },
{
    let ghost iv = view_list(items@);
    proof {
        lemma_view_list(items@);
    }
    let mut i: usize = 0;
    while i < items.len()
        invariant
            iv == view_list(items@),
            iv.len() == items@.len(),
            forall|m: int| 0 <= m < items@.len() ==> iv[m] == json_view(#[trigger] items@[m]),
            i <= items@.len(),
            acc@ == old(acc)@ + items_text(iv.take(i as int)),
            match items_refusal(iv.take(i as int)) {
                Some(r) => (*refusal) is Some && (*refusal)->0@ == r,
                None => *refusal == *old(refusal),
            },
        decreases items@.len() - i,
    {
        let ghost t = iv.take(i as int + 1);
        proof {
            assert(t.drop_last() =~= iv.take(i as int));
            assert(t.last() == iv[i as int]);
        }
        match &items[i] {
            Json::Obj(f) => {
                let ti = find_key(f, "type");
                proof {
                    lemma_find_key_view(f@, "type"@, ti);
                }
                let is_message: bool = match ti {
                    Some(tidx) => match &f[tidx].1 {
                        Json::Str(ty) => str_eq(ty.as_str(), "message"),
                        _ => false,
                    },
                    None => false,
                };
                if is_message {
                    let ci = find_key(f, "content");
                    proof {
                        lemma_find_key_view(f@, "content"@, ci);
                    }
                    match ci {
                        Some(c) => match &f[c].1 {
                            Json::Arr(parts) => {
                                scan_parts(parts, acc, refusal);
                            },
                            _ => {},
                        },
                        None => {},
                    }
                }
            },
            _ => {},
        }
        proof {
            assert(item_parts(iv[i as int]) == item_parts(json_view(items@[i as int])));
            assert(acc@ == old(acc)@ + items_text(t));
        }
        i = i + 1;
    }
    proof {
        assert(iv.take(items@.len() as int) =~= iv);
    }
}

/// Interpret a Responses-style response.
pub fn interpret_responses_response(status: u16, body: &Result<Json, String>, raw: &str) -> (r:
    LLMResult)
    ensures
        r@ == interpret_responses(
            status,
            match body {
                Ok(j) => Ok::<JsonV, Seq<char>>(j@),
                Err(e) => Err(e@),
            },
            raw@,
        ),
        result_wf(r@),
{
    let api_err: Option<String> = match body {
        Ok(j) => extract_api_error(j),
        Err(_) => None,
    };
    if let Some(m) = api_err {
        return LLMResult::err(m);
    }
    if !(200 <= status && status < 300) {
        return LLMResult::err(build_status_error_msg(status, raw));
    }
    match body {
        Err(d) => LLMResult::err(build_parse_error_msg(d.as_str())),
        Ok(j) => {
            let mut acc: String = String::new();
            let mut refusal: Option<String> = None;
            match j {
                Json::Obj(entries) => {
                    let oi = find_key(entries, "output");
                    proof {
                        lemma_find_key_view(entries@, "output"@, oi);
                    }
                    match oi {
                        Some(o) => match &entries[o].1 {
                            Json::Arr(items) => {
                                scan_items(items, &mut acc, &mut refusal);
                            },
                            _ => {},
                        },
                        None => {},
                    }
                },
                _ => {},
            }
            match refusal {
                Some(r) => LLMResult::err(r),
                None => {
                    if acc.as_str().is_empty() {
                        LLMResult::err(build_no_content_msg())
                    } else {
                        LLMResult::ok(acc)
                    }
                },
            }
        },
    }
}

// ---------------------------------------------------------------------------
// Stated properties
// ---------------------------------------------------------------------------
/// Refusal precedence: when the output carries any refusal part, the result
/// is failure with the (last) refusal text — whatever `output_text` parts
/// were accumulated.
pub proof fn lemma_responses_refusal_precedence(status: u16, j: JsonV, raw: Seq<char>)
    requires
        status_ok(status),
        api_error_of(j) is None,
        items_refusal(output_items(j)) is Some,
    ensures
        interpret_responses(status, Ok(j), raw) == err_result(
            items_refusal(output_items(j))->0,
        ),
{
}

} // verus!

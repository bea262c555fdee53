//! The Chat-style provider adapter.
//!
//! Build: an optional `system` message (only for a non-empty system prompt)
//! followed by exactly one `user` message; the user content is the plain
//! prompt string unless image attachments exist, in which case it is a part
//! list of the text part followed by one `image_url` part per image, in
//! input order. Structured output goes through `response_format`. Parse: a
//! top-level `error.message` wins regardless of HTTP status; otherwise the
//! text sits at `choices[0].message.content`.

use vstd::prelude::*;


use crate::json::find_key;
use crate::json::json_view;
use crate::json::lemma_find_key_view;
use crate::json::lemma_view_entries;
use crate::json::lemma_view_list;
use crate::json::obj_get;
use crate::json::view_entries;
use crate::json::view_list;
use crate::json::Json;
use crate::json::JsonV;
use crate::mode::json_schema_supported;
use crate::mode::select_openai_structured_output_mode;
use crate::mode::OpenAIStructuredOutputMode;
use crate::model::err_result;
use crate::model::ok_result;
use crate::model::result_wf;
use crate::model::FileData;
use crate::model::FileDataV;
use crate::model::LLMRequestParams;
use crate::model::LLMResult;
use crate::model::LLMResultV;
use crate::model::ParamsV;
use crate::model::WireRequest;
use crate::model::WireRequestV;
use crate::schema::norm;
use crate::schema::normalize_schema_for_openai;
use crate::wire::api_error_of;
use crate::wire::bearer;
use crate::wire::build_bearer;
use crate::wire::build_data_uri;
use crate::wire::build_endpoint_url;
use crate::wire::build_no_content_msg;
use crate::wire::build_parse_error_msg;
use crate::wire::build_status_error_msg;
use crate::wire::data_uri;
use crate::wire::endpoint_url;
use crate::wire::extract_api_error;
use crate::wire::images_of;
use crate::wire::img_files;
use crate::wire::is_image_mime;
use crate::wire::jstr;
use crate::wire::mime_is_image;
use crate::wire::no_content_msg;
use crate::wire::obj1;
use crate::wire::obj2;
use crate::wire::obj3;
use crate::wire::parse_error_msg;
use crate::wire::status_error_msg;
use crate::wire::status_ok;

verus! {

// ---------------------------------------------------------------------------
// The request body, specified
// ---------------------------------------------------------------------------
/// The `text` content part carrying the prompt.
pub open spec fn chat_text_part(prompt: Seq<char>) -> JsonV {
    JsonV::Obj(seq![("type"@, JsonV::Str("text"@)), ("text"@, JsonV::Str(prompt))])
}

/// One `image_url` content part for an image attachment.
pub open spec fn chat_image_part(f: FileDataV) -> JsonV {
    JsonV::Obj(
        seq![
            ("type"@, JsonV::Str("image_url"@)),
            (
                "image_url"@,
                JsonV::Obj(seq![("url"@, JsonV::Str(data_uri(f.mime_type, f.data)))]),
            ),
        ],
    )
}

/// One image part per image attachment, in input order.
pub open spec fn chat_image_parts(imgs: Seq<FileDataV>) -> Seq<JsonV> {
    Seq::new(imgs.len(), |i: int| chat_image_part(imgs[i]))
}

/// The user message content: the plain prompt when there is no image
/// attachment, else the text part followed by the image parts.
pub open spec fn chat_user_content(p: ParamsV) -> JsonV {
    let imgs = images_of(p.files);
    if imgs.len() == 0 {
        JsonV::Str(p.prompt)
    } else {
        JsonV::Arr(seq![chat_text_part(p.prompt)] + chat_image_parts(imgs))
    }
}

/// A role/content message object.
pub open spec fn chat_message(role: Seq<char>, content: JsonV) -> JsonV {
    JsonV::Obj(seq![("role"@, JsonV::Str(role)), ("content"@, content)])
}

/// Does the request carry a non-empty system prompt?
pub open spec fn has_system_prompt(p: ParamsV) -> bool {
    p.system_prompt is Some && p.system_prompt->0.len() > 0
}

/// The message list: an optional system message, then exactly one user
/// message.
pub open spec fn chat_messages(p: ParamsV) -> Seq<JsonV> {
    let user = chat_message("user"@, chat_user_content(p));
    if has_system_prompt(p) {
        seq![chat_message("system"@, JsonV::Str(p.system_prompt->0)), user]
    } else {
        seq![user]
    }
}

/// The `response_format` object, present only when a schema was requested:
/// strict `json_schema` mode carries the normalized schema under the fixed
/// name `"response"` with `strict: true`; free-form mode is a bare
/// `json_object`.
pub open spec fn chat_response_format(p: ParamsV) -> Option<JsonV> {
    match p.response_json_schema {
        Some(sch) => Some(
            if json_schema_supported(p.model) {
                JsonV::Obj(
                    seq![
                        ("type"@, JsonV::Str("json_schema"@)),
                        (
                            "json_schema"@,
                            JsonV::Obj(
                                seq![
                                    ("name"@, JsonV::Str("response"@)),
                                    ("schema"@, norm(sch)),
                                    ("strict"@, JsonV::Bool(true)),
                                ],
                            ),
                        ),
                    ],
                )
            } else {
                JsonV::Obj(seq![("type"@, JsonV::Str("json_object"@))])
            },
        ),
        None => None,
    }
}

/// An optional object entry.
pub open spec fn opt_entry(k: Seq<char>, v: Option<JsonV>) -> Seq<(Seq<char>, JsonV)> {
    match v {
        Some(x) => seq![(k, x)],
        None => Seq::empty(),
    }
}

/// The whole request body.
pub open spec fn chat_body(p: ParamsV) -> JsonV {
    JsonV::Obj(
        seq![("model"@, JsonV::Str(p.model)), ("messages"@, JsonV::Arr(chat_messages(p)))]
            + opt_entry(
            "temperature"@,
            match p.temperature {
                Some(t) => Some(JsonV::Num(t)),
                None => None,
            },
        ) + opt_entry(
            "max_tokens"@,
            match p.max_tokens {
                Some(m) => Some(JsonV::Int(m as i64)),
                None => None,
            },
        ) + opt_entry("response_format"@, chat_response_format(p)),
    )
}

/// The whole wire request: URL, headers, body.
pub open spec fn chat_request(p: ParamsV) -> WireRequestV {
    WireRequestV {
        url: endpoint_url(p.base_url, "/v1/chat/completions"@),
        headers: seq![
            ("Content-Type"@, "application/json"@),
            ("Authorization"@, bearer(p.api_key)),
        ],
        body: chat_body(p),
    }
}

// ---------------------------------------------------------------------------
// The request body, built
// ---------------------------------------------------------------------------
fn build_chat_image_part(f: &FileData) -> (r: Json)
    ensures
        r@ == chat_image_part(f@),
{
    let uri = build_data_uri(f.mime_type.as_str(), f.data.as_str());
    obj2("type", jstr("image_url"), "image_url", obj1("url", Json::Str(uri)))
}

/// The user content of the request: prompt text plus image parts.
fn build_chat_user_content(params: &LLMRequestParams) -> (r: Json)
    ensures
        r@ == chat_user_content(params@),
{
    let ghost p = params@;
    match &params.files {
        None => Json::Str(params.prompt.clone()),
        Some(files) => {
            let ghost fv = p.files->0;
            proof {
                assert(fv.len() == files@.len());
            }
            let mut img_parts: Vec<Json> = Vec::new();
            let mut i: usize = 0;
            while i < files.len()
                invariant
                    params@ == p,
                    params.files == Some(*files),
                    fv == p.files->0,
                    fv.len() == files@.len(),
                    forall|m: int| 0 <= m < files@.len() ==> fv[m] == #[trigger] files@[m]@,
                    i <= files@.len(),
                    view_list(img_parts@) =~= chat_image_parts(img_files(fv.take(i as int))),
                decreases files@.len() - i,
            {
                let ghost pre = img_parts@;
                proof {
                    assert(fv[i as int] == files@[i as int]@);
                }
                if mime_is_image(files[i].mime_type.as_str()) {
                    let part = build_chat_image_part(&files[i]);
                    img_parts.push(part);
                }
                proof {
                    let t = fv.take(i as int + 1);
                    assert(t.drop_last() =~= fv.take(i as int));
                    assert(t.last() == fv[i as int]);
                    assert(img_files(t) == (if is_image_mime(fv[i as int].mime_type) {
                        img_files(fv.take(i as int)).push(fv[i as int])
                    } else {
                        img_files(fv.take(i as int))
                    }));
                    lemma_view_list(img_parts@);
                    lemma_view_list(pre);
                    assert forall|m: int| 0 <= m < img_parts@.len() implies view_list(
                        img_parts@,
                    )[m] == chat_image_parts(img_files(t))[m] by {
                        assert(view_list(img_parts@)[m] == json_view(img_parts@[m]));
                        if m < pre.len() {
                            assert(img_parts@[m] == pre[m]);
                            assert(json_view(pre[m]) == view_list(pre)[m]);
                        }
                    }
                    assert(view_list(img_parts@) =~= chat_image_parts(img_files(t)));
                }
                i = i + 1;
            }
            proof {
                assert(fv.take(fv.len() as int) =~= fv);
            }
            if img_parts.len() == 0 {
                proof {
                    assert(images_of(p.files).len() == view_list(img_parts@).len());
                }
                Json::Str(params.prompt.clone())
            } else {
                let mut parts: Vec<Json> = Vec::new();
                let text = obj2("type", jstr("text"), "text", Json::Str(params.prompt.clone()));
                let ghost text_v = text@;
                parts.push(text);
                let ghost ip = img_parts@;
                parts.append(&mut img_parts);
                proof {
                    lemma_view_list(parts@);
                    lemma_view_list(ip);
                    assert(parts@ =~= seq![text] + ip);
                    assert(view_list(parts@) =~= seq![text_v] + chat_image_parts(img_files(fv)));
                }
                Json::Arr(parts)
            }
        },
    }
}

/// Build the Chat-style wire request for a uniform request.
pub fn build_openai_chat_request(params: &LLMRequestParams) -> (r: WireRequest)
    ensures
        r@ == chat_request(params@),
{
    let ghost p = params@;
    let content = build_chat_user_content(params);
    let mut messages: Vec<Json> = Vec::new();
    match &params.system_prompt {
        Some(sp) => {
            if !sp.as_str().is_empty() {
                messages.push(obj2("role", jstr("system"), "content", Json::Str(sp.clone())));
            }
        },
        None => {},
    }
    messages.push(obj2("role", jstr("user"), "content", content));
    proof {
        lemma_view_list(messages@);
        assert(view_list(messages@) =~= chat_messages(p));
    }
    let mut entries: Vec<(String, Json)> = Vec::new();
    entries.push(("model".to_owned(), Json::Str(params.model.clone())));
    entries.push(("messages".to_owned(), Json::Arr(messages)));
    match &params.temperature {
        Some(t) => entries.push(("temperature".to_owned(), Json::Num(t.clone()))),
        None => {},
    }
    match params.max_tokens {
        Some(m) => entries.push(("max_tokens".to_owned(), Json::Int(m as i64))),
        None => {},
    }
    match &params.response_json_schema {
        Some(sch) => {
            let fmt: Json = match select_openai_structured_output_mode(params.model.as_str()) {
                OpenAIStructuredOutputMode::JsonSchema => {
                    let normalized = normalize_schema_for_openai(sch);
                    obj2(
                        "type",
                        jstr("json_schema"),
                        "json_schema",
                        obj3(
                            "name",
                            jstr("response"),
                            "schema",
                            normalized,
                            "strict",
                            Json::Bool(true),
                        ),
                    )
                },
                OpenAIStructuredOutputMode::JsonObject => obj1("type", jstr("json_object")),
            };
            entries.push(("response_format".to_owned(), fmt));
        },
        None => {},
    }
    proof {
        lemma_view_entries(entries@);
        assert(view_entries(entries@) =~= chat_body(p)->Obj_0);
    }
    let mut headers: Vec<(String, String)> = Vec::new();
    headers.push(("Content-Type".to_owned(), "application/json".to_owned()));
    headers.push(("Authorization".to_owned(), build_bearer(params.api_key.as_str())));
    let url = build_endpoint_url(params.base_url.as_str(), "/v1/chat/completions");
    let r = WireRequest { url, headers, body: Json::Obj(entries) };
    proof {
        assert(r@.headers =~= chat_request(p).headers);
        assert(r@ =~= chat_request(p));
    }
    r
}

// ---------------------------------------------------------------------------
// The response, interpreted
// ---------------------------------------------------------------------------
/// The text at `choices[0].message.content`, when every level is present.
pub open spec fn chat_extract(j: JsonV) -> Option<Seq<char>> {
    match j {
        JsonV::Obj(f) => match obj_get(f, "choices"@) {
            Some(cv) => match cv {
                JsonV::Arr(cs) => if cs.len() > 0 {
                    match cs[0] {
                        JsonV::Obj(cf) => match obj_get(cf, "message"@) {
                            Some(mv) => match mv {
                                JsonV::Obj(mf) => match obj_get(mf, "content"@) {
                                    Some(tv) => match tv {
                                        JsonV::Str(c) => Some(c),
                                        _ => None,
                                    },
                                    _ => None,
                                },
                                _ => None,
                            },
                            _ => None,
                        },
                        _ => None,
                    }
                } else {
                    None
                },
                _ => None,
            },
            _ => None,
        },
        _ => None,
    }
}

/// The uniform result for a Chat-style exchange: a provider-reported
/// `error.message` wins over everything; then a non-success status fails
/// with the status and raw body; then an unparseable body fails; then the
/// extracted text succeeds when non-empty, and anything else is the fixed
/// no-content failure.
pub open spec fn interpret_chat(status: u16, body: Result<JsonV, Seq<char>>, raw: Seq<char>) -> LLMResultV {
    let api_err = match body {
        Ok(j) => api_error_of(j),
        Err(_) => None,
    };
    if api_err is Some {
        err_result(api_err->0)
    } else if !status_ok(status) {
        err_result(status_error_msg(status, raw))
    } else {
        match body {
            Err(d) => err_result(parse_error_msg(d)),
            Ok(j) => match chat_extract(j) {
                Some(c) => if c.len() > 0 {
                    ok_result(c)
                } else {
                    err_result(no_content_msg())
                },
                None => err_result(no_content_msg()),
            },
        }
    }
}

/// Extract `choices[0].message.content` executably.
fn extract_chat_content(j: &Json) -> (r: Option<String>)
    ensures
        match r {
            Some(c) => chat_extract(j@) == Some(c@),
            None => chat_extract(j@) is None,
        },
{
    match j {
        Json::Obj(entries) => {
            let idx = find_key(entries, "choices");
            proof {
                lemma_find_key_view(entries@, "choices"@, idx);
            }
            match idx {
                Some(i) => match &entries[i].1 {
                    Json::Arr(cs) => {
                        if cs.len() == 0 {
                            proof {
                                lemma_view_list(cs@);
                            }
                            return None;
                        }
                        proof {
                            lemma_view_list(cs@);
                        }
                        match &cs[0] {
                            Json::Obj(cf) => {
                                let mi = find_key(cf, "message");
                                proof {
                                    lemma_find_key_view(cf@, "message"@, mi);
                                }
                                match mi {
                                    Some(m) => match &cf[m].1 {
                                        Json::Obj(mf) => {
                                            let ci = find_key(mf, "content");
                                            proof {
                                                lemma_find_key_view(mf@, "content"@, ci);
                                            }
                                            match ci {
                                                Some(c) => match &mf[c].1 {
                                                    Json::Str(s) => Some(s.clone()),
                                                    _ => None,
                                                },
                                                None => None,
                                            }
                                        },
                                        _ => None,
                                    },
                                    None => None,
                                }
                            },
                            _ => None,
                        }
                    },
                    _ => None,
                },
                None => None,
            }
        },
        _ => None,
    }
}

/// Interpret a Chat-style response: the HTTP status, the parse attempt on
/// the body (`Err` carries the parser's message), and the raw body text.
pub fn interpret_chat_response(status: u16, body: &Result<Json, String>, raw: &str) -> (r:
    LLMResult)
    ensures
        r@ == interpret_chat(
            status,
            match body {
                Ok(j) => Ok::<JsonV, Seq<char>>(j@),
                Err(e) => Err(e@),
            },
            raw@,
        ),
        result_wf(r@),
{
    let api_err: Option<String> = match body {
        Ok(j) => extract_api_error(j),
        Err(_) => None,
    };
    if let Some(m) = api_err {
        return LLMResult::err(m);
    }
    if !(200 <= status && status < 300) {
        return LLMResult::err(build_status_error_msg(status, raw));
    }
    match body {
        Err(d) => LLMResult::err(build_parse_error_msg(d.as_str())),
        Ok(j) => match extract_chat_content(j) {
            Some(c) => {
                if c.as_str().is_empty() {
                    LLMResult::err(build_no_content_msg())
                } else {
                    LLMResult::ok(c)
                }
            },
            None => LLMResult::err(build_no_content_msg()),
        },
    }
}

// ---------------------------------------------------------------------------
// Stated properties
// ---------------------------------------------------------------------------
/// With image attachments present, the built user content is a part list:
/// the text part first, then one image part per image attachment, in input
/// order. In particular, two image attachments give `[text, image, image]`.
pub proof fn lemma_chat_content_order(p: ParamsV)
    requires
        images_of(p.files).len() > 0,
    ensures
        chat_user_content(p) is Arr,
        chat_user_content(p)->Arr_0.len() == 1 + images_of(p.files).len(),
        chat_user_content(p)->Arr_0[0] == chat_text_part(p.prompt),
        forall|i: int| 0 <= i < images_of(p.files).len() ==> chat_user_content(p)->Arr_0[i + 1]
            == chat_image_part(#[trigger] images_of(p.files)[i]),
{
}

/// With a non-empty system prompt the message list is exactly a `system`
/// message followed by the `user` message; without one it is the `user`
/// message alone.
pub proof fn lemma_chat_system_first(p: ParamsV)
    ensures
        has_system_prompt(p) ==> chat_messages(p) == seq![
            chat_message("system"@, JsonV::Str(p.system_prompt->0)),
            chat_message("user"@, chat_user_content(p)),
        ],
        !has_system_prompt(p) ==> chat_messages(p) == seq![
            chat_message("user"@, chat_user_content(p)),
        ],
{
}

/// A provider-reported `error.message` takes precedence over the generic
/// non-success-status failure: whatever the status, the result carries the
/// provider's message.
pub proof fn lemma_chat_api_error_precedence(
    status: u16,
    j: JsonV,
    raw: Seq<char>,
    m: Seq<char>,
)
    requires
        api_error_of(j) == Some(m),
    ensures
        interpret_chat(status, Ok(j), raw) == err_result(m),
{
}

} // verus!

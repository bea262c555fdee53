//! The Messages-style provider adapter.
//!
//! Build: exactly one `user` message. With image attachments the content is
//! a part list whose ordering is the opposite of the other two adapters:
//! all image parts come first (in input order), the text part last. The
//! system prompt travels as a top-level `system` field, and `max_tokens` is
//! mandatory in this protocol, defaulting to 4096 when the caller gave
//! none. A requested `response_json_schema` is accepted by the uniform
//! contract but this protocol has no structured-output mode, so it is not
//! acted on — an asymmetry of the protocol, not an oversight. Parse: a
//! top-level `error.message` wins; otherwise the text sits in the first
//! `content` block.

use vstd::prelude::*;


use crate::json::find_key;
use crate::json::json_view;
use crate::json::lemma_find_key_view;
use crate::json::lemma_obj_get_at;
use crate::json::lemma_view_entries;
use crate::json::lemma_view_list;
use crate::json::obj_get;
use crate::json::view_entries;
use crate::json::view_list;
use crate::json::Json;
use crate::json::JsonV;
use crate::model::err_result;
use crate::model::ok_result;
use crate::model::result_wf;
use crate::model::FileData;
use crate::model::FileDataV;
use crate::model::LLMRequestParams;
use crate::model::LLMResult;
use crate::model::LLMResultV;
use crate::model::ParamsV;
use crate::model::WireRequest;
use crate::model::WireRequestV;
use crate::wire::api_error_of;
use crate::wire::build_endpoint_url;
use crate::wire::build_no_content_msg;
use crate::wire::build_parse_error_msg;
use crate::wire::build_status_error_msg;
use crate::wire::endpoint_url;
use crate::wire::extract_api_error;
use crate::wire::images_of;
use crate::wire::img_files;
use crate::wire::is_image_mime;
use crate::wire::jstr;
use crate::wire::mime_is_image;
use crate::wire::no_content_msg;
use crate::wire::obj2;
use crate::wire::obj3;
use crate::wire::parse_error_msg;
use crate::wire::status_error_msg;
use crate::wire::status_ok;

verus! {

/// The default for `max_tokens` when the caller did not set one.
pub open spec fn default_max_tokens() -> i64 {
    4096
}

// ---------------------------------------------------------------------------
// The request body, specified
// ---------------------------------------------------------------------------
/// One `image` content part: base64 source with its media type.
pub open spec fn claude_image_part(f: FileDataV) -> JsonV {
    JsonV::Obj(
        seq![
            ("type"@, JsonV::Str("image"@)),
            (
                "source"@,
                JsonV::Obj(
                    seq![
                        ("type"@, JsonV::Str("base64"@)),
                        ("media_type"@, JsonV::Str(f.mime_type)),
                        ("data"@, JsonV::Str(f.data)),
                    ],
                ),
            ),
        ],
    )
}

pub open spec fn claude_image_parts(imgs: Seq<FileDataV>) -> Seq<JsonV> {
    Seq::new(imgs.len(), |i: int| claude_image_part(imgs[i]))
}

/// The final `text` part carrying the prompt.
pub open spec fn claude_text_part(prompt: Seq<char>) -> JsonV {
    JsonV::Obj(seq![("type"@, JsonV::Str("text"@)), ("text"@, JsonV::Str(prompt))])
}

/// The user content: the plain prompt without image attachments, else every
/// image part first (input order) and the text part last.
pub open spec fn claude_user_content(p: ParamsV) -> JsonV {
    let imgs = images_of(p.files);
    if imgs.len() == 0 {
        JsonV::Str(p.prompt)
    } else {
        JsonV::Arr(claude_image_parts(imgs) + seq![claude_text_part(p.prompt)])
    }
}

/// The single user message.
pub open spec fn claude_message(p: ParamsV) -> JsonV {
    JsonV::Obj(seq![("role"@, JsonV::Str("user"@)), ("content"@, claude_user_content(p))])
}

pub open spec fn opt_entry(k: Seq<char>, v: Option<JsonV>) -> Seq<(Seq<char>, JsonV)> {
    match v {
        Some(x) => seq![(k, x)],
        None => Seq::empty(),
    }
}

/// The whole request body. `max_tokens` is always present; `system` only
/// when a system prompt was supplied.
pub open spec fn claude_body(p: ParamsV) -> JsonV {
    JsonV::Obj(
        seq![
            ("model"@, JsonV::Str(p.model)),
            ("messages"@, JsonV::Arr(seq![claude_message(p)])),
            (
                "max_tokens"@,
                JsonV::Int(
                    match p.max_tokens {
                        Some(m) => m as i64,
                        None => default_max_tokens(),
                    },
                ),
            ),
        ] + opt_entry(
            "system"@,
            match p.system_prompt {
                Some(s) => Some(JsonV::Str(s)),
                None => None,
            },
        ) + opt_entry(
            "temperature"@,
            match p.temperature {
                Some(t) => Some(JsonV::Num(t)),
                None => None,
            },
        ),
    )
}

/// The whole wire request: the provider-specific API-key header and the
/// fixed protocol-version header, no bearer authorization.
pub open spec fn claude_request(p: ParamsV) -> WireRequestV {
    WireRequestV {
        url: endpoint_url(p.base_url, "/v1/messages"@),
        headers: seq![
            ("Content-Type"@, "application/json"@),
            ("x-api-key"@, p.api_key),
            ("anthropic-version"@, "2023-06-01"@),
        ],
        body: claude_body(p),
    }
}

// ---------------------------------------------------------------------------
// The request body, built
// ---------------------------------------------------------------------------
fn build_claude_image_part(f: &FileData) -> (r: Json)
    ensures
        r@ == claude_image_part(f@),
{
    let source = obj3(
        "type",
        jstr("base64"),
        "media_type",
        Json::Str(f.mime_type.clone()),
        "data",
        Json::Str(f.data.clone()),
    );
    obj2("type", jstr("image"), "source", source)
}

fn build_claude_user_content(params: &LLMRequestParams) -> (r: Json)
    ensures
        r@ == claude_user_content(params@),
{
    let ghost p = params@;
    match &params.files {
        None => Json::Str(params.prompt.clone()),
        Some(files) => {
            let ghost fv = p.files->0;
            proof {
                assert(fv.len() == files@.len());
            }
            let mut parts: Vec<Json> = Vec::new();
            let mut i: usize = 0;
            while i < files.len()
                invariant
                    params@ == p,
                    params.files == Some(*files),
                    fv == p.files->0,
                    fv.len() == files@.len(),
                    forall|m: int| 0 <= m < files@.len() ==> fv[m] == #[trigger] files@[m]@,
                    i <= files@.len(),
                    view_list(parts@) =~= claude_image_parts(img_files(fv.take(i as int))),
                decreases files@.len() - i,
            {
                let ghost pre = parts@;
                proof {
                    assert(fv[i as int] == files@[i as int]@);
                }
                if mime_is_image(files[i].mime_type.as_str()) {
                    let part = build_claude_image_part(&files[i]);
                    parts.push(part);
                }
                proof {
                    let t = fv.take(i as int + 1);
                    assert(t.drop_last() =~= fv.take(i as int));
                    assert(t.last() == fv[i as int]);
                    assert(img_files(t) == (if is_image_mime(fv[i as int].mime_type) {
                        img_files(fv.take(i as int)).push(fv[i as int])
                    } else {
                        img_files(fv.take(i as int))
                    }));
                    lemma_view_list(parts@);
                    lemma_view_list(pre);
                    assert forall|m: int| 0 <= m < parts@.len() implies view_list(parts@)[m]
                        == claude_image_parts(img_files(t))[m] by {
                        assert(view_list(parts@)[m] == json_view(parts@[m]));
                        if m < pre.len() {
                            assert(parts@[m] == pre[m]);
                            assert(json_view(pre[m]) == view_list(pre)[m]);
                        }
                    }
                    assert(view_list(parts@) =~= claude_image_parts(img_files(t)));
                }
                i = i + 1;
            }
            proof {
                assert(fv.take(fv.len() as int) =~= fv);
            }
            if parts.len() == 0 {
                proof {
                    assert(images_of(p.files).len() == view_list(parts@).len());
                }
                Json::Str(params.prompt.clone())
            } else {
                let ghost ip = parts@;
                let text = obj2("type", jstr("text"), "text", Json::Str(params.prompt.clone()));
                let ghost text_v = text@;
                parts.push(text);
                proof {
                    lemma_view_list(parts@);
                    lemma_view_list(ip);
                    assert(parts@ =~= ip + seq![text]);
                    assert(view_list(parts@) =~= claude_image_parts(img_files(fv)) + seq![
                        text_v,
                    ]);
                }
                Json::Arr(parts)
            }
        },
    }
}

/// Build the Messages-style wire request for a uniform request.
pub fn build_claude_request(params: &LLMRequestParams) -> (r: WireRequest)
    ensures
        r@ == claude_request(params@),
{
    let ghost p = params@;
    let content = build_claude_user_content(params);
    let user_msg = obj2("role", jstr("user"), "content", content);
    let ghost user_v = user_msg@;
    let messages: Vec<Json> = vec![user_msg];
    proof {
        lemma_view_list(messages@);
        assert(view_list(messages@) =~= seq![claude_message(p)]);
    }
    let max_tokens: i64 = match params.max_tokens {
        Some(m) => m as i64,
        None => 4096,
    };
    let mut entries: Vec<(String, Json)> = Vec::new();
    entries.push(("model".to_owned(), Json::Str(params.model.clone())));
    entries.push(("messages".to_owned(), Json::Arr(messages)));
    entries.push(("max_tokens".to_owned(), Json::Int(max_tokens)));
    match &params.system_prompt {
        Some(s) => entries.push(("system".to_owned(), Json::Str(s.clone()))),
        None => {},
    }
    match &params.temperature {
        Some(t) => entries.push(("temperature".to_owned(), Json::Num(t.clone()))),
        None => {},
    }
    proof {
        lemma_view_entries(entries@);
        assert(view_entries(entries@) =~= claude_body(p)->Obj_0);
    }
    let mut headers: Vec<(String, String)> = Vec::new();
    headers.push(("Content-Type".to_owned(), "application/json".to_owned()));
    headers.push(("x-api-key".to_owned(), params.api_key.clone()));
    headers.push(("anthropic-version".to_owned(), "2023-06-01".to_owned()));
    let url = build_endpoint_url(params.base_url.as_str(), "/v1/messages");
    let r = WireRequest { url, headers, body: Json::Obj(entries) };
    proof {
        assert(r@.headers =~= claude_request(p).headers);
        assert(r@ =~= claude_request(p));
    }
    r
}

// ---------------------------------------------------------------------------
// The response, interpreted
// ---------------------------------------------------------------------------
/// The text of the first `content` block, when present.
pub open spec fn claude_extract(j: JsonV) -> Option<Seq<char>> {
    match j {
        JsonV::Obj(f) => match obj_get(f, "content"@) {
            Some(cv) => match cv {
                JsonV::Arr(blocks) => if blocks.len() > 0 {
                    match blocks[0] {
                        JsonV::Obj(bf) => match obj_get(bf, "text"@) {
                            Some(tv) => match tv {
                                JsonV::Str(t) => Some(t),
                                _ => None,
                            },
                            _ => None,
                        },
                        _ => None,
                    }
                } else {
                    None
                },
                _ => None,
            },
            _ => None,
        },
        _ => None,
    }
}

/// The uniform result for a Messages-style exchange; same precedence as the
/// Chat-style adapter.
pub open spec fn interpret_claude(
    status: u16,
    body: Result<JsonV, Seq<char>>,
    raw: Seq<char>,
) -> LLMResultV {
    let api_err = match body {
        Ok(j) => api_error_of(j),
        Err(_) => None,
    };
    if api_err is Some {
        err_result(api_err->0)
    } else if !status_ok(status) {
        err_result(status_error_msg(status, raw))
    } else {
        match body {
            Err(d) => err_result(parse_error_msg(d)),
            Ok(j) => match claude_extract(j) {
                Some(c) => if c.len() > 0 {
                    ok_result(c)
                } else {
                    err_result(no_content_msg())
                },
                None => err_result(no_content_msg()),
            },
        }
    }
}

fn extract_claude_content(j: &Json) -> (r: Option<String>)
    ensures
        match r {
            Some(c) => claude_extract(j@) == Some(c@),
            None => claude_extract(j@) is None,
        },
{
    match j {
        Json::Obj(entries) => {
            let idx = find_key(entries, "content");
            proof {
                lemma_find_key_view(entries@, "content"@, idx);
            }
            match idx {
                Some(i) => match &entries[i].1 {
                    Json::Arr(blocks) => {
                        proof {
                            lemma_view_list(blocks@);
                        }
                        if blocks.len() == 0 {
                            return None;
                        }
                        match &blocks[0] {
                            Json::Obj(bf) => {
                                let ti = find_key(bf, "text");
                                proof {
                                    lemma_find_key_view(bf@, "text"@, ti);
                                }
                                match ti {
                                    Some(t) => match &bf[t].1 {
                                        Json::Str(s) => Some(s.clone()),
                                        _ => None,
                                    },
                                    None => None,
                                }
                            },
                            _ => None,
                        }
                    },
                    _ => None,
                },
                None => None,
            }
        },
        _ => None,
    }
}

/// Interpret a Messages-style response.
pub fn interpret_claude_response(status: u16, body: &Result<Json, String>, raw: &str) -> (r:
    LLMResult)
    ensures
        r@ == interpret_claude(
            status,
            match body {
                Ok(j) => Ok::<JsonV, Seq<char>>(j@),
                Err(e) => Err(e@),
            },
            raw@,
        ),
        result_wf(r@),
{
    let api_err: Option<String> = match body {
        Ok(j) => extract_api_error(j),
        Err(_) => None,
    };
    if let Some(m) = api_err {
        return LLMResult::err(m);
    }
    if !(200 <= status && status < 300) {
        return LLMResult::err(build_status_error_msg(status, raw));
    }
    match body {
        Err(d) => LLMResult::err(build_parse_error_msg(d.as_str())),
        Ok(j) => match extract_claude_content(j) {
            Some(c) => {
                if c.as_str().is_empty() {
                    LLMResult::err(build_no_content_msg())
                } else {
                    LLMResult::ok(c)
                }
            },
            None => LLMResult::err(build_no_content_msg()),
        },
    }
}

// ---------------------------------------------------------------------------
// Stated properties
// ---------------------------------------------------------------------------
/// With image attachments present, the built content is every image part
/// first — in input order — and the text part last: the opposite ordering
/// from the other two adapters. One image attachment gives `[image, text]`.
pub proof fn lemma_claude_content_order(p: ParamsV)
    requires
        images_of(p.files).len() > 0,
    ensures
        claude_user_content(p) is Arr,
        claude_user_content(p)->Arr_0.len() == images_of(p.files).len() + 1,
        claude_user_content(p)->Arr_0.last() == claude_text_part(p.prompt),
        forall|i: int| 0 <= i < images_of(p.files).len() ==> claude_user_content(p)->Arr_0[i]
            == claude_image_part(#[trigger] images_of(p.files)[i]),
{
}

/// A request without `maxTokens` goes on the wire with `max_tokens` 4096.
pub proof fn lemma_claude_default_max_tokens(p: ParamsV)
    requires
        p.max_tokens is None,
    ensures
        obj_get(claude_body(p)->Obj_0, "max_tokens"@) == Some(JsonV::Int(4096)),
{
    reveal_strlit("model");
    reveal_strlit("messages");
    reveal_strlit("max_tokens");
    assert("model"@.len() == 5);
    assert("messages"@.len() == 8);
    assert("max_tokens"@.len() == 10);
    let fields = claude_body(p)->Obj_0;
    assert(fields[2].0 == "max_tokens"@);
    lemma_obj_get_at(fields, "max_tokens"@, 2);
}

} // verus!

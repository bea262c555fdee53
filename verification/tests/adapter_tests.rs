use llm_adapter::chat::build_openai_chat_request;
use llm_adapter::chat::interpret_chat_response;
use llm_adapter::json::Json;
use llm_adapter::messages::build_claude_request;
use llm_adapter::messages::interpret_claude_response;
use llm_adapter::model::FileData;
use llm_adapter::model::LLMRequestParams;
use llm_adapter::model::TransportError;
use llm_adapter::model::transport_error_result;
use llm_adapter::responses::build_openai_responses_request;
use llm_adapter::responses::interpret_responses_response;

fn s(x: &str) -> Json {
    Json::Str(x.to_string())
}

fn obj(entries: Vec<(&str, Json)>) -> Json {
    let mut v: Vec<(String, Json)> = Vec::new();
    for (k, val) in entries {
        v.push((k.to_string(), val));
    }
    Json::Obj(v)
}

fn arr(elems: Vec<Json>) -> Json {
    Json::Arr(elems)
}

fn image(name: &str) -> FileData {
    FileData {
        data: name.to_string(),
        mime_type: "image/png".to_string(),
        file_name: None,
    }
}

fn base_params() -> LLMRequestParams {
    LLMRequestParams {
        base_url: "https://api.example.com/".to_string(),
        api_key: "k-123".to_string(),
        model: "test-model".to_string(),
        prompt: "2+2?".to_string(),
        system_prompt: None,
        temperature: None,
        max_tokens: None,
        files: None,
        response_json_schema: None,
    }
}

fn image_part_chat(data: &str) -> Json {
    obj(vec![
        ("type", s("image_url")),
        (
            "image_url",
            obj(vec![("url", s(&format!("data:image/png;base64,{}", data)))]),
        ),
    ])
}

// ---------------------------------------------------------------------------
// Chat-style
// ---------------------------------------------------------------------------
#[test]
fn chat_simple_request_body() {
    let r = build_openai_chat_request(&base_params());
    assert_eq!(r.url, "https://api.example.com/v1/chat/completions");
    assert_eq!(r.headers.len(), 2);
    assert_eq!(r.headers[0].0, "Content-Type");
    assert_eq!(r.headers[0].1, "application/json");
    assert_eq!(r.headers[1].0, "Authorization");
    assert_eq!(r.headers[1].1, "Bearer k-123");
    let want = obj(vec![
        ("model", s("test-model")),
        (
            "messages",
            arr(vec![obj(vec![("role", s("user")), ("content", s("2+2?"))])]),
        ),
    ]);
    assert_eq!(r.body, want);
}

#[test]
fn chat_two_images_content_order() {
    let mut p = base_params();
    p.files = Some(vec![image("AAA"), image("BBB")]);
    let r = build_openai_chat_request(&p);
    let want_content = arr(vec![
        obj(vec![("type", s("text")), ("text", s("2+2?"))]),
        image_part_chat("AAA"),
        image_part_chat("BBB"),
    ]);
    let want = obj(vec![
        ("model", s("test-model")),
        (
            "messages",
            arr(vec![obj(vec![("role", s("user")), ("content", want_content)])]),
        ),
    ]);
    assert_eq!(r.body, want);
}

#[test]
fn chat_non_image_files_are_dropped() {
    let mut p = base_params();
    p.files = Some(vec![FileData {
        data: "ZZZ".to_string(),
        mime_type: "application/pdf".to_string(),
        file_name: Some("doc.pdf".to_string()),
    }]);
    let r = build_openai_chat_request(&p);
    // No image attachment: content is the plain prompt string.
    let want = obj(vec![
        ("model", s("test-model")),
        (
            "messages",
            arr(vec![obj(vec![("role", s("user")), ("content", s("2+2?"))])]),
        ),
    ]);
    assert_eq!(r.body, want);
}

#[test]
fn chat_system_prompt_first() {
    let mut p = base_params();
    p.system_prompt = Some("be brief".to_string());
    let r = build_openai_chat_request(&p);
    if let Json::Obj(entries) = &r.body {
        let msgs = entries.iter().find(|e| e.0 == "messages").unwrap();
        if let Json::Arr(list) = &msgs.1 {
            assert_eq!(list.len(), 2);
            assert_eq!(
                list[0],
                obj(vec![("role", s("system")), ("content", s("be brief"))])
            );
        } else {
            panic!("messages is not a list");
        }
    } else {
        panic!("body is not an object");
    }
}

#[test]
fn chat_empty_system_prompt_is_dropped() {
    let mut p = base_params();
    p.system_prompt = Some(String::new());
    let r = build_openai_chat_request(&p);
    let want = obj(vec![
        ("model", s("test-model")),
        (
            "messages",
            arr(vec![obj(vec![("role", s("user")), ("content", s("2+2?"))])]),
        ),
    ]);
    assert_eq!(r.body, want);
}

#[test]
fn chat_optional_fields_and_strict_schema() {
    let mut p = base_params();
    p.temperature = Some("0.5".to_string());
    p.max_tokens = Some(64);
    p.response_json_schema = Some(obj(vec![("properties", obj(vec![]))]));
    let r = build_openai_chat_request(&p);
    let want_schema = obj(vec![
        ("properties", obj(vec![])),
        ("required", arr(vec![])),
        ("additionalProperties", Json::Bool(false)),
        ("type", s("object")),
    ]);
    let want = obj(vec![
        ("model", s("test-model")),
        (
            "messages",
            arr(vec![obj(vec![("role", s("user")), ("content", s("2+2?"))])]),
        ),
        ("temperature", Json::Num("0.5".to_string())),
        ("max_tokens", Json::Int(64)),
        (
            "response_format",
            obj(vec![
                ("type", s("json_schema")),
                (
                    "json_schema",
                    obj(vec![
                        ("name", s("response")),
                        ("schema", want_schema),
                        ("strict", Json::Bool(true)),
                    ]),
                ),
            ]),
        ),
    ]);
    assert_eq!(r.body, want);
}

#[test]
fn chat_success_scenario() {
    let body = obj(vec![(
        "choices",
        arr(vec![obj(vec![(
            "message",
            obj(vec![("content", s("4"))]),
        )])]),
    )]);
    let r = interpret_chat_response(200, &Ok(body), "");
    assert!(r.success);
    assert_eq!(r.content.as_deref(), Some("4"));
    assert_eq!(r.error, None);
}

#[test]
fn chat_api_error_beats_status() {
    let body = obj(vec![(
        "error",
        obj(vec![("message", s("invalid_api_key"))]),
    )]);
    let r = interpret_chat_response(401, &Ok(body), "{\"error\":...}");
    assert!(!r.success);
    assert_eq!(r.content, None);
    assert_eq!(r.error.as_deref(), Some("invalid_api_key"));
}

#[test]
fn chat_status_error_without_api_message() {
    let r = interpret_chat_response(500, &Err("expected value at line 1".to_string()), "boom");
    assert!(!r.success);
    assert_eq!(
        r.error.as_deref(),
        Some("the API returned an error (500): boom")
    );
}

#[test]
fn chat_parse_failure() {
    let r = interpret_chat_response(200, &Err("expected value".to_string()), "not json");
    assert!(!r.success);
    assert_eq!(
        r.error.as_deref(),
        Some("could not parse the response: expected value")
    );
}

#[test]
fn chat_no_content() {
    let body = obj(vec![("choices", arr(vec![]))]);
    let r = interpret_chat_response(200, &Ok(body), "");
    assert!(!r.success);
    assert_eq!(r.error.as_deref(), Some("the API returned no valid content"));
}

// ---------------------------------------------------------------------------
// Responses-style
// ---------------------------------------------------------------------------
#[test]
fn responses_request_body() {
    let mut p = base_params();
    p.files = Some(vec![image("CCC")]);
    p.system_prompt = Some("steer".to_string());
    p.max_tokens = Some(9);
    let r = build_openai_responses_request(&p);
    assert_eq!(r.url, "https://api.example.com/v1/responses");
    let want_content = arr(vec![
        obj(vec![("type", s("input_text")), ("text", s("2+2?"))]),
        obj(vec![
            ("type", s("input_image")),
            (
                "image_url",
                obj(vec![("url", s("data:image/png;base64,CCC"))]),
            ),
        ]),
    ]);
    let want = obj(vec![
        ("model", s("test-model")),
        (
            "input",
            arr(vec![obj(vec![
                ("type", s("message")),
                ("role", s("user")),
                ("content", want_content),
            ])]),
        ),
        ("instructions", s("steer")),
        ("max_output_tokens", Json::Int(9)),
    ]);
    assert_eq!(r.body, want);
}

#[test]
fn responses_text_format_strict() {
    let mut p = base_params();
    p.response_json_schema = Some(obj(vec![("type", s("object"))]));
    let r = build_openai_responses_request(&p);
    if let Json::Obj(entries) = &r.body {
        let text = entries.iter().find(|e| e.0 == "text").unwrap();
        // The normalizer makes even a property-less object node strict.
        let want_schema = obj(vec![
            ("type", s("object")),
            ("required", arr(vec![])),
            ("additionalProperties", Json::Bool(false)),
        ]);
        let want = obj(vec![(
            "format",
            obj(vec![
                ("type", s("json_schema")),
                ("name", s("response")),
                ("schema", want_schema),
                ("strict", Json::Bool(true)),
            ]),
        )]);
        assert_eq!(text.1, want);
    } else {
        panic!("body is not an object");
    }
}

#[test]
fn responses_concatenates_output_text() {
    let body = obj(vec![(
        "output",
        arr(vec![obj(vec![
            ("type", s("message")),
            (
                "content",
                arr(vec![
                    obj(vec![("type", s("output_text")), ("text", s("Hello, "))]),
                    obj(vec![("type", s("output_text")), ("text", s("world"))]),
                ]),
            ),
        ])]),
    )]);
    let r = interpret_responses_response(200, &Ok(body), "");
    assert!(r.success);
    assert_eq!(r.content.as_deref(), Some("Hello, world"));
}

#[test]
fn responses_refusal_beats_text() {
    let body = obj(vec![(
        "output",
        arr(vec![obj(vec![
            ("type", s("message")),
            (
                "content",
                arr(vec![
                    obj(vec![("type", s("output_text")), ("text", s("partial"))]),
                    obj(vec![("type", s("refusal")), ("refusal", s("cannot help"))]),
                ]),
            ),
        ])]),
    )]);
    let r = interpret_responses_response(200, &Ok(body), "");
    assert!(!r.success);
    assert_eq!(r.content, None);
    assert_eq!(r.error.as_deref(), Some("cannot help"));
}

#[test]
fn responses_last_refusal_wins() {
    let body = obj(vec![(
        "output",
        arr(vec![
            obj(vec![
                ("type", s("message")),
                (
                    "content",
                    arr(vec![obj(vec![("type", s("refusal")), ("refusal", s("first"))])]),
                ),
            ]),
            obj(vec![
                ("type", s("message")),
                (
                    "content",
                    arr(vec![obj(vec![("type", s("refusal")), ("refusal", s("second"))])]),
                ),
            ]),
        ]),
    )]);
    let r = interpret_responses_response(200, &Ok(body), "");
    assert_eq!(r.error.as_deref(), Some("second"));
}

#[test]
fn responses_non_message_items_skipped() {
    let body = obj(vec![(
        "output",
        arr(vec![obj(vec![
            ("type", s("reasoning")),
            (
                "content",
                arr(vec![obj(vec![("type", s("output_text")), ("text", s("hidden"))])]),
            ),
        ])]),
    )]);
    let r = interpret_responses_response(200, &Ok(body), "");
    assert!(!r.success);
    assert_eq!(r.error.as_deref(), Some("the API returned no valid content"));
}

// ---------------------------------------------------------------------------
// Messages-style
// ---------------------------------------------------------------------------
#[test]
fn claude_image_before_text() {
    let mut p = base_params();
    p.files = Some(vec![image("DDD")]);
    let r = build_claude_request(&p);
    let want_content = arr(vec![
        obj(vec![
            ("type", s("image")),
            (
                "source",
                obj(vec![
                    ("type", s("base64")),
                    ("media_type", s("image/png")),
                    ("data", s("DDD")),
                ]),
            ),
        ]),
        obj(vec![("type", s("text")), ("text", s("2+2?"))]),
    ]);
    if let Json::Obj(entries) = &r.body {
        let msgs = entries.iter().find(|e| e.0 == "messages").unwrap();
        let want = arr(vec![obj(vec![("role", s("user")), ("content", want_content)])]);
        assert_eq!(msgs.1, want);
    } else {
        panic!("body is not an object");
    }
}

#[test]
fn claude_default_max_tokens() {
    let r = build_claude_request(&base_params());
    assert_eq!(r.url, "https://api.example.com/v1/messages");
    let want = obj(vec![
        ("model", s("test-model")),
        (
            "messages",
            arr(vec![obj(vec![("role", s("user")), ("content", s("2+2?"))])]),
        ),
        ("max_tokens", Json::Int(4096)),
    ]);
    assert_eq!(r.body, want);
}

#[test]
fn claude_headers_and_system() {
    let mut p = base_params();
    p.system_prompt = Some("sys".to_string());
    p.max_tokens = Some(100);
    let r = build_claude_request(&p);
    assert_eq!(r.headers.len(), 3);
    assert_eq!(r.headers[1].0, "x-api-key");
    assert_eq!(r.headers[1].1, "k-123");
    assert_eq!(r.headers[2].0, "anthropic-version");
    assert_eq!(r.headers[2].1, "2023-06-01");
    let want = obj(vec![
        ("model", s("test-model")),
        (
            "messages",
            arr(vec![obj(vec![("role", s("user")), ("content", s("2+2?"))])]),
        ),
        ("max_tokens", Json::Int(100)),
        ("system", s("sys")),
    ]);
    assert_eq!(r.body, want);
}

#[test]
fn claude_first_content_block() {
    let body = obj(vec![(
        "content",
        arr(vec![
            obj(vec![("text", s("answer"))]),
            obj(vec![("text", s("ignored"))]),
        ]),
    )]);
    let r = interpret_claude_response(200, &Ok(body), "");
    assert!(r.success);
    assert_eq!(r.content.as_deref(), Some("answer"));
}

#[test]
fn claude_missing_text_is_no_content() {
    let body = obj(vec![("content", arr(vec![]))]);
    let r = interpret_claude_response(200, &Ok(body), "");
    assert!(!r.success);
    assert_eq!(r.error.as_deref(), Some("the API returned no valid content"));
}

#[test]
fn claude_api_error() {
    let body = obj(vec![("error", obj(vec![("message", s("overloaded"))]))]);
    let r = interpret_claude_response(529, &Ok(body), "");
    assert_eq!(r.error.as_deref(), Some("overloaded"));
}

// ---------------------------------------------------------------------------
// Transport failures
// ---------------------------------------------------------------------------
#[test]
fn transport_error_messages() {
    let t = transport_error_result(TransportError::Timeout);
    assert!(!t.success);
    assert_eq!(
        t.error.as_deref(),
        Some("the request timed out, please retry later")
    );
    let c = transport_error_result(TransportError::Connect);
    assert_eq!(
        c.error.as_deref(),
        Some("could not connect to the server, check the network")
    );
    let o = transport_error_result(TransportError::Other("boom".to_string()));
    assert_eq!(o.error.as_deref(), Some("the request failed: boom"));
    let b = transport_error_result(TransportError::ClientBuild("no tls".to_string()));
    assert_eq!(
        b.error.as_deref(),
        Some("could not build the HTTP client: no tls")
    );
}

#[test]
fn url_trailing_slashes_trimmed() {
    let mut p = base_params();
    p.base_url = "https://api.example.com///".to_string();
    let r = build_openai_chat_request(&p);
    assert_eq!(r.url, "https://api.example.com/v1/chat/completions");
}

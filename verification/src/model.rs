//! The uniform request and result models, and the failure taxonomy.
//!
//! Every adapter consumes an [`LLMRequestParams`] and produces an
//! [`LLMResult`]. A result is exactly one of: success with non-empty
//! content, or failure with a human-readable error. Transport-level
//! failures (the HTTP exchange happens outside this library) are reported
//! through [`TransportError`] and turned into uniform results here.

use vstd::prelude::*;

use vstd::string::StringExecFns;

use crate::json::Json;
use crate::json::JsonV;

verus! {

/// One attachment: base64 payload plus its MIME type. Only attachments whose
/// MIME type starts with `image/` take part in multimodal content; others
/// are dropped by design.
pub struct FileData {
    pub data: String,
    pub mime_type: String,
    pub file_name: Option<String>,
}

#[verifier::ext_equal]
pub ghost struct FileDataV {
    pub data: Seq<char>,
    pub mime_type: Seq<char>,
    pub file_name: Option<Seq<char>>,
}

impl View for FileData {
    type V = FileDataV;

    open spec fn view(&self) -> FileDataV {
        FileDataV {
            data: self.data@,
            mime_type: self.mime_type@,
            file_name: match self.file_name {
                Some(n) => Some(n@),
                None => None,
            },
        }
    }
}

/// The uniform request. `temperature` carries the number's decimal text (no
/// arithmetic is ever done on it); `response_json_schema`, when present,
/// asks for structured output shaped by that schema.
pub struct LLMRequestParams {
    pub base_url: String,
    pub api_key: String,
    pub model: String,
    pub prompt: String,
    pub system_prompt: Option<String>,
    pub temperature: Option<String>,
    pub max_tokens: Option<i32>,
    pub files: Option<Vec<FileData>>,
    pub response_json_schema: Option<Json>,
}

#[verifier::ext_equal]
pub ghost struct ParamsV {
    pub base_url: Seq<char>,
    pub api_key: Seq<char>,
    pub model: Seq<char>,
    pub prompt: Seq<char>,
    pub system_prompt: Option<Seq<char>>,
    pub temperature: Option<Seq<char>>,
    pub max_tokens: Option<i32>,
    pub files: Option<Seq<FileDataV>>,
    pub response_json_schema: Option<JsonV>,
}

impl View for LLMRequestParams {
    type V = ParamsV;

    open spec fn view(&self) -> ParamsV {
        ParamsV {
            base_url: self.base_url@,
            api_key: self.api_key@,
            model: self.model@,
            prompt: self.prompt@,
            system_prompt: match self.system_prompt {
                Some(s) => Some(s@),
                None => None,
            },
            temperature: match self.temperature {
                Some(t) => Some(t@),
                None => None,
            },
            max_tokens: self.max_tokens,
            files: match self.files {
                Some(fs) => Some(Seq::new(fs@.len(), |i: int| fs@[i]@)),
                None => None,
            },
            response_json_schema: match self.response_json_schema {
                Some(s) => Some(s@),
                None => None,
            },
        }
    }
}

/// The uniform result: success with non-empty content, or failure with an
/// error message — never both.
pub struct LLMResult {
    pub success: bool,
    pub content: Option<String>,
    pub error: Option<String>,
}

#[verifier::ext_equal]
pub ghost struct LLMResultV {
    pub success: bool,
    pub content: Option<Seq<char>>,
    pub error: Option<Seq<char>>,
}

impl View for LLMResult {
    type V = LLMResultV;

    open spec fn view(&self) -> LLMResultV {
        LLMResultV {
            success: self.success,
            content: match self.content {
                Some(c) => Some(c@),
                None => None,
            },
            error: match self.error {
                Some(e) => Some(e@),
                None => None,
            },
        }
    }
}

/// A successful result with content `c`.
pub open spec fn ok_result(c: Seq<char>) -> LLMResultV {
    LLMResultV { success: true, content: Some(c), error: None }
}

/// A failed result with error message `e`.
pub open spec fn err_result(e: Seq<char>) -> LLMResultV {
    LLMResultV { success: false, content: None, error: Some(e) }
}

/// The shape every result this library produces satisfies: success carries
/// non-empty content and no error; failure carries an error and no content.
pub open spec fn result_wf(r: LLMResultV) -> bool {
    if r.success {
        r.content is Some && r.content->0.len() > 0 && r.error is None
    } else {
        r.error is Some && r.content is None
    }
}

impl LLMResult {
    /// Success with the given (non-empty) content.
    pub fn ok(content: String) -> (r: LLMResult)
        requires
            content@.len() > 0,
        ensures
            r@ == ok_result(content@),
    {
        LLMResult { success: true, content: Some(content), error: None }
    }

    /// Failure with the given error message.
    pub fn err(error: String) -> (r: LLMResult)
        ensures
            r@ == err_result(error@),
    {
        LLMResult { success: false, content: None, error: Some(error) }
    }
}

// ---------------------------------------------------------------------------
// Transport failures
// ---------------------------------------------------------------------------
/// What can go wrong outside the library, in the HTTP exchange it does not
/// perform itself. The caller reports the failure here and receives the
/// uniform result for it.
pub enum TransportError {
    /// The HTTP client could not be built; carries the underlying reason.
    ClientBuild(String),
    /// The request timed out.
    Timeout,
    /// The server could not be reached.
    Connect,
    /// Any other transport failure; carries the underlying reason.
    Other(String),
    /// The response body could not be read; carries the underlying reason.
    BodyRead(String),
}

#[verifier::ext_equal]
pub ghost enum TransportErrorV {
    ClientBuild(Seq<char>),
    Timeout,
    Connect,
    Other(Seq<char>),
    BodyRead(Seq<char>),
}

impl View for TransportError {
    type V = TransportErrorV;

    open spec fn view(&self) -> TransportErrorV {
        match self {
            TransportError::ClientBuild(s) => TransportErrorV::ClientBuild(s@),
            TransportError::Timeout => TransportErrorV::Timeout,
            TransportError::Connect => TransportErrorV::Connect,
            TransportError::Other(s) => TransportErrorV::Other(s@),
            TransportError::BodyRead(s) => TransportErrorV::BodyRead(s@),
        }
    }
}

/// The uniform error message for each transport failure.
pub open spec fn transport_error_msg(e: TransportErrorV) -> Seq<char> {
    match e {
        TransportErrorV::ClientBuild(d) => "could not build the HTTP client: "@ + d,
        TransportErrorV::Timeout => "the request timed out, please retry later"@,
        TransportErrorV::Connect => "could not connect to the server, check the network"@,
        TransportErrorV::Other(d) => "the request failed: "@ + d,
        TransportErrorV::BodyRead(d) => "could not read the response body: "@ + d,
    }
}

/// Turn a transport failure into the uniform failure result.
pub fn transport_error_result(e: TransportError) -> (r: LLMResult)
    ensures
        r@ == err_result(transport_error_msg(e@)),
        result_wf(r@),
{
    let msg: String = match e {
        TransportError::ClientBuild(d) => {
            let mut m = "could not build the HTTP client: ".to_owned();
            m.append(d.as_str());
            m
        },
        TransportError::Timeout => "the request timed out, please retry later".to_owned(),
        TransportError::Connect => "could not connect to the server, check the network".to_owned(),
        TransportError::Other(d) => {
            let mut m = "the request failed: ".to_owned();
            m.append(d.as_str());
            m
        },
        TransportError::BodyRead(d) => {
            let mut m = "could not read the response body: ".to_owned();
            m.append(d.as_str());
            m
        },
    };
    LLMResult::err(msg)
}

// ---------------------------------------------------------------------------
// The request to put on the wire
// ---------------------------------------------------------------------------
/// Everything an HTTP POST of one adapter call needs: the URL, the request
/// headers in order, and the JSON body. The caller serializes the body and
/// performs the exchange.
pub struct WireRequest {
    pub url: String,
    pub headers: Vec<(String, String)>,
    pub body: Json,
}

#[verifier::ext_equal]
pub ghost struct WireRequestV {
    pub url: Seq<char>,
    pub headers: Seq<(Seq<char>, Seq<char>)>,
    pub body: JsonV,
}

impl View for WireRequest {
    type V = WireRequestV;

    open spec fn view(&self) -> WireRequestV {
        WireRequestV {
            url: self.url@,
            headers: Seq::new(self.headers@.len(), |i: int| (self.headers@[i].0@, self.headers@[i].1@)),
            body: self.body@,
        }
    }
}

} // verus!

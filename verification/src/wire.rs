//! Pieces shared by the three provider adapters: exact JSON object
//! construction, the `data:` URI for inline images, URL assembly, image
//! filtering, and the response-side error conventions.

use vstd::prelude::*;

use vstd::string::StrSliceExecFns;
use vstd::string::StringExecFns;

use crate::json::find_key;
use crate::json::lemma_find_key_view;
use crate::json::lemma_view_entries;
use crate::json::obj_get;
use crate::json::str_eq;
use crate::json::view_entries;
use crate::json::Json;
use crate::json::JsonV;
use crate::model::FileDataV;

verus! {

// ---------------------------------------------------------------------------
// Exact constructors for small JSON values
// ---------------------------------------------------------------------------
/// A JSON string value from a string slice.
pub fn jstr(s: &str) -> (r: Json)
    ensures
        r@ == JsonV::Str(s@),
{
    Json::Str(s.to_owned())
}

/// A one-entry JSON object.
pub fn obj1(k: &str, v: Json) -> (r: Json)
    ensures
        r@ == JsonV::Obj(seq![(k@, v@)]),
{
    let ghost vv = v@;
    let entries: Vec<(String, Json)> = vec![(k.to_owned(), v)];
    proof {
        lemma_view_entries(entries@);
        assert(view_entries(entries@) =~= seq![(k@, vv)]);
    }
    Json::Obj(entries)
}

/// A two-entry JSON object, entries in the given order.
pub fn obj2(k1: &str, v1: Json, k2: &str, v2: Json) -> (r: Json)
    ensures
        r@ == JsonV::Obj(seq![(k1@, v1@), (k2@, v2@)]),
{
    let ghost vv1 = v1@;
    let ghost vv2 = v2@;
    let entries: Vec<(String, Json)> = vec![(k1.to_owned(), v1), (k2.to_owned(), v2)];
    proof {
        lemma_view_entries(entries@);
        assert(view_entries(entries@) =~= seq![(k1@, vv1), (k2@, vv2)]);
    }
    Json::Obj(entries)
}

/// A three-entry JSON object, entries in the given order.
pub fn obj3(k1: &str, v1: Json, k2: &str, v2: Json, k3: &str, v3: Json) -> (r: Json)
    ensures
        r@ == JsonV::Obj(seq![(k1@, v1@), (k2@, v2@), (k3@, v3@)]),
{
    let ghost vv1 = v1@;
    let ghost vv2 = v2@;
    let ghost vv3 = v3@;
    let entries: Vec<(String, Json)> = vec![
        (k1.to_owned(), v1),
        (k2.to_owned(), v2),
        (k3.to_owned(), v3),
    ];
    proof {
        lemma_view_entries(entries@);
        assert(view_entries(entries@) =~= seq![(k1@, vv1), (k2@, vv2), (k3@, vv3)]);
    }
    Json::Obj(entries)
}

// ---------------------------------------------------------------------------
// Strings on the wire
// ---------------------------------------------------------------------------
/// The inline-image URI: `data:<mime>;base64,<payload>`.
pub open spec fn data_uri(mime: Seq<char>, data: Seq<char>) -> Seq<char> {
    "data:"@ + mime + ";base64,"@ + data
}

pub fn build_data_uri(mime: &str, data: &str) -> (r: String)
    ensures
        r@ == data_uri(mime@, data@),
{
    let mut u: String = "data:".to_owned();
    u.append(mime);
    u.append(";base64,");
    u.append(data);
    u
}

/// The base URL with every trailing `/` removed.
pub open spec fn strip_trailing_slashes(s: Seq<char>) -> Seq<char>
    decreases s.len(),
{
    if s.len() > 0 && s.last() == '/' {
        strip_trailing_slashes(s.drop_last())
    } else {
        s
    }
}

pub fn trim_trailing_slashes<'a>(s: &'a str) -> (r: &'a str)
    ensures
        r@ == strip_trailing_slashes(s@),
{
    let n = s.unicode_len();
    let mut i: usize = n;
    proof {
        assert(s@.take(n as int) =~= s@);
    }
    while i > 0 && s.get_char(i - 1) == '/'
        invariant
            i <= n,
            n == s@.len(),
            strip_trailing_slashes(s@) == strip_trailing_slashes(s@.take(i as int)),
        decreases i,
    {
        proof {
            let t = s@.take(i as int);
            assert(t.drop_last() =~= s@.take(i as int - 1));
        }
        i = i - 1;
    }
    proof {
        if i > 0 {
            assert(s@.take(i as int).last() == s@[i as int - 1]);
        }
    }
    s.substring_char(0, i)
}

/// The endpoint URL: the trimmed base followed by the provider path.
pub open spec fn endpoint_url(base: Seq<char>, path: Seq<char>) -> Seq<char> {
    strip_trailing_slashes(base) + path
}

pub fn build_endpoint_url(base: &str, path: &str) -> (r: String)
    ensures
        r@ == endpoint_url(base@, path@),
{
    let trimmed = trim_trailing_slashes(base);
    let mut u: String = trimmed.to_owned();
    u.append(path);
    u
}

/// The bearer authorization header value.
pub open spec fn bearer(key: Seq<char>) -> Seq<char> {
    "Bearer "@ + key
}

pub fn build_bearer(key: &str) -> (r: String)
    ensures
        r@ == bearer(key@),
{
    let mut b: String = "Bearer ".to_owned();
    b.append(key);
    b
}

// ---------------------------------------------------------------------------
// Image attachments
// ---------------------------------------------------------------------------
/// Does the MIME type mark an image attachment?
pub open spec fn is_image_mime(mime: Seq<char>) -> bool {
    mime.len() >= 6 && mime.take(6) == "image/"@
}

pub fn mime_is_image(mime: &str) -> (r: bool)
    ensures
        r == is_image_mime(mime@),
{
    let n = mime.unicode_len();
    if n < 6 {
        return false;
    }
    let head = mime.substring_char(0, 6);
    str_eq(head, "image/")
}

/// The image attachments of a file list, in input order.
pub open spec fn img_files(fs: Seq<FileDataV>) -> Seq<FileDataV>
    decreases fs.len(),
{
    if fs.len() == 0 {
        Seq::empty()
    } else {
        let rest = img_files(fs.drop_last());
        if is_image_mime(fs.last().mime_type) {
            rest.push(fs.last())
        } else {
            rest
        }
    }
}

/// The image attachments of an optional file list.
pub open spec fn images_of(files: Option<Seq<FileDataV>>) -> Seq<FileDataV> {
    match files {
        Some(fs) => img_files(fs),
        None => Seq::empty(),
    }
}

// ---------------------------------------------------------------------------
// Response-side conventions shared by the adapters
// ---------------------------------------------------------------------------
/// The decimal digits of a non-negative number.
pub open spec fn dec_str(n: int) -> Seq<char>
    decreases n,
{
    if n < 10 {
        seq![digit_char(n)]
    } else {
        dec_str(n / 10).push(digit_char(n % 10))
    }
}

/// The character for one decimal digit.
pub open spec fn digit_char(d: int) -> char {
    ((d + 48) as u8) as char
}

fn digit_str(d: u16) -> (r: &'static str)
    requires
        d < 10,
    ensures
        r@ == seq![digit_char(d as int)],
{
    proof {
        reveal_strlit("0");
        reveal_strlit("1");
        reveal_strlit("2");
        reveal_strlit("3");
        reveal_strlit("4");
        reveal_strlit("5");
        reveal_strlit("6");
        reveal_strlit("7");
        reveal_strlit("8");
        reveal_strlit("9");
    }
    match d {
        0 => "0",
        1 => "1",
        2 => "2",
        3 => "3",
        4 => "4",
        5 => "5",
        6 => "6",
        7 => "7",
        8 => "8",
        _ => {
            proof {
                assert(seq![digit_char(d as int)] =~= "9"@);
            }
            "9"
        },
    }
}

/// The decimal text of an HTTP status code.
pub fn u16_to_string(x: u16) -> (r: String)
    ensures
        r@ == dec_str(x as int),
    decreases x,
{
    if x < 10 {
        digit_str(x).to_owned()
    } else {
        let mut r = u16_to_string(x / 10);
        r.append(digit_str(x % 10));
        r
    }
}

/// The failure message for a non-success HTTP status: the code and the raw
/// response body.
pub open spec fn status_error_msg(status: u16, raw: Seq<char>) -> Seq<char> {
    "the API returned an error ("@ + dec_str(status as int) + "): "@ + raw
}

pub fn build_status_error_msg(status: u16, raw: &str) -> (r: String)
    ensures
        r@ == status_error_msg(status, raw@),
{
    let mut m: String = "the API returned an error (".to_owned();
    let d = u16_to_string(status);
    m.append(d.as_str());
    m.append("): ");
    m.append(raw);
    m
}

/// The failure message for a response body that is not valid JSON.
pub open spec fn parse_error_msg(detail: Seq<char>) -> Seq<char> {
    "could not parse the response: "@ + detail
}

pub fn build_parse_error_msg(detail: &str) -> (r: String)
    ensures
        r@ == parse_error_msg(detail@),
{
    let mut m: String = "could not parse the response: ".to_owned();
    m.append(detail);
    m
}

/// The fixed failure message when a response carries no usable text.
pub open spec fn no_content_msg() -> Seq<char> {
    "the API returned no valid content"@
}

pub fn build_no_content_msg() -> (r: String)
    ensures
        r@ == no_content_msg(),
{
    "the API returned no valid content".to_owned()
}

/// Is the status in the success range?
pub open spec fn status_ok(status: u16) -> bool {
    200 <= status < 300
}

/// A provider-reported error: the string at `error.message`, whatever the
/// HTTP status was.
pub open spec fn api_error_of(j: JsonV) -> Option<Seq<char>> {
    match j {
        JsonV::Obj(f) => match obj_get(f, "error"@) {
            Some(ev) => match ev {
                JsonV::Obj(ef) => match obj_get(ef, "message"@) {
                    Some(mv) => match mv {
                        JsonV::Str(m) => Some(m),
                        _ => None,
                    },
                    _ => None,
                },
                _ => None,
            },
            _ => None,
        },
        _ => None,
    }
}

/// Extract the provider-reported `error.message`, if any.
pub fn extract_api_error(j: &Json) -> (r: Option<String>)
    ensures
        match r {
            Some(m) => api_error_of(j@) == Some(m@),
            None => api_error_of(j@) is None,
        },
{
    match j {
        Json::Obj(entries) => {
            let idx = find_key(entries, "error");
            proof {
                lemma_find_key_view(entries@, "error"@, idx);
            }
            match idx {
                Some(i) => match &entries[i].1 {
                    Json::Obj(ef) => {
                        let midx = find_key(ef, "message");
                        proof {
                            lemma_find_key_view(ef@, "message"@, midx);
                        }
                        match midx {
                            Some(mi) => match &ef[mi].1 {
                                Json::Str(m) => Some(m.clone()),
                                _ => None,
                            },
                            None => None,
                        }
                    },
                    _ => None,
                },
                None => None,
            }
        },
        _ => None,
    }
}

} // verus!

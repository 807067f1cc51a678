//! Requests to cloud storage: the media types of uploaded data, the
//! `Cache-Control` header, and the multipart upload request.

use vstd::prelude::*;
use vstd::string::*;
use vstd::utf8::encode_utf8;
use crate::text::{digit_char};
use headers::Header;

verus! {

/// A media type, by its essence (`type/subtype`, no parameters).
#[derive(Debug)]
pub struct MediaType {
    pub essence: String,
}

/// The essence of `mime::TEXT_PLAIN`, which the `mime` crate defines as
/// `text/plain`.
#[verifier::external_body]
fn text_plain_essence() -> (s: String)
    ensures
        s@ == "text/plain"@,
{
    mime::TEXT_PLAIN.essence_str().to_string()
}

/// The essence of `mime::APPLICATION_OCTET_STREAM`, which the `mime` crate
/// defines as `application/octet-stream`.
#[verifier::external_body]
fn application_octet_stream_essence() -> (s: String)
    ensures
        s@ == "application/octet-stream"@,
{
    mime::APPLICATION_OCTET_STREAM.essence_str().to_string()
}

impl MediaType {
    /// A media type with the given essence.
    pub fn new(essence: String) -> (m: MediaType)
        ensures
            m.essence@ == essence@,
    {
        MediaType { essence }
    }

    /// `text/plain`.
    pub fn text_plain() -> (m: MediaType)
        ensures
            m.essence@ == "text/plain"@,
    {
        MediaType { essence: text_plain_essence() }
    }

    /// `application/octet-stream`.
    pub fn application_octet_stream() -> (m: MediaType)
        ensures
            m.essence@ == "application/octet-stream"@,
    {
        MediaType { essence: application_octet_stream_essence() }
    }
}

/// Data that can be uploaded: its media type and its bytes.
pub trait MimeData: Sized {
    /// The essence of the data's media type.
    spec fn spec_essence(&self) -> Seq<char>;

    /// The bytes of the data.
    spec fn spec_payload(&self) -> Seq<u8>;

    fn media_type(&self) -> (m: MediaType)
        ensures
            m.essence@ == self.spec_essence(),
    ;

    fn to_bytes(&self) -> (b: Vec<u8>)
        ensures
            b@ == self.spec_payload(),
    ;

    fn into_bytes(self) -> (b: Vec<u8>)
        ensures
            b@ == self.spec_payload(),
    ;
}

/// Text is `text/plain`, in UTF-8.
impl MimeData for String {
    open spec fn spec_essence(&self) -> Seq<char> {
        "text/plain"@
    }

    open spec fn spec_payload(&self) -> Seq<u8> {
        encode_utf8(self@)
    }

    fn media_type(&self) -> (m: MediaType) {
        MediaType::text_plain()
    }

    fn to_bytes(&self) -> (b: Vec<u8>) {
        self.as_str().as_bytes_vec()
    }

    fn into_bytes(self) -> (b: Vec<u8>) {
        self.as_str().as_bytes_vec()
    }
}

/// Raw bytes are `application/octet-stream`.
impl MimeData for Vec<u8> {
    open spec fn spec_essence(&self) -> Seq<char> {
        "application/octet-stream"@
    }

    open spec fn spec_payload(&self) -> Seq<u8> {
        self@
    }

    fn media_type(&self) -> (m: MediaType) {
        MediaType::application_octet_stream()
    }

    fn to_bytes(&self) -> (b: Vec<u8>) {
        let b = self.clone();
        assert(b@ =~= self@);
        b
    }

    fn into_bytes(self) -> (b: Vec<u8>) {
        self
    }
}

/// Bytes with an explicit media type.
impl MimeData for (Vec<u8>, MediaType) {
    open spec fn spec_essence(&self) -> Seq<char> {
        self.1.essence@
    }

    open spec fn spec_payload(&self) -> Seq<u8> {
        self.0@
    }

    fn media_type(&self) -> (m: MediaType) {
        MediaType { essence: self.1.essence.clone() }
    }

    fn to_bytes(&self) -> (b: Vec<u8>) {
        let b = self.0.clone();
        assert(b@ =~= self.0@);
        b
    }

    fn into_bytes(self) -> (b: Vec<u8>) {
        self.0
    }
}


/// The values of a `Cache-Control` header holding the single directive
/// `no-cache`: `headers::CacheControl::new().with_no_cache()` encoded with
/// `headers::Header::encode`, each value read as text
/// (`HeaderValue::to_str`). The `headers` crate encodes a `CacheControl` as
/// one value, its directives separated by `, `; this one is `no-cache`.
#[verifier::external_body]
fn no_cache_header_values() -> (values: Vec<String>)
    ensures
        values.deep_view() == seq!["no-cache"@],
{
    let mut encoded: Vec<headers::HeaderValue> = Vec::new();
    headers::CacheControl::new().with_no_cache().encode(&mut encoded);
    let mut texts: Vec<String> = Vec::new();
    for value in encoded.iter() {
        texts.push(value.to_str().unwrap().to_string());
    }
    texts
}

/// Options of an upload.
pub struct InsertOptions {
    cache_control: Vec<String>,
}

impl InsertOptions {
    /// The values of the `Cache-Control` header given to the stored object.
    pub closed spec fn cache_control_values(&self) -> Seq<Seq<char>> {
        self.cache_control.deep_view()
    }
}

impl Default for InsertOptions {
    /// Objects are stored with `Cache-Control: no-cache`.
    fn default() -> (o: Self)
        ensures
            o.cache_control_values() == seq!["no-cache"@],
    {
        InsertOptions { cache_control: no_cache_header_values() }
    }
}

/// The values of a header joined into one text: each value is appended,
/// preceded by a comma when the text so far is not empty.
pub open spec fn spec_header_fmt(values: Seq<Seq<char>>) -> Seq<char>
    decreases values.len(),
{
    if values.len() == 0 {
        Seq::empty()
    } else {
        let acc = spec_header_fmt(values.drop_last());
        if acc.len() > 0 {
            acc + seq![','] + values.last()
        } else {
            acc + values.last()
        }
    }
}

/// Joins the text values of a header into one text (see [`spec_header_fmt`]).
pub fn header_fmt(values: &Vec<String>) -> (res: String)
    ensures
        res@ == spec_header_fmt(values.deep_view()),
{
    let mut buffer = String::new();
    let mut i: usize = 0;
    assert(values.deep_view().take(0) =~= Seq::<Seq<char>>::empty());
    while i < values.len()
        invariant
            i <= values.len(),
            buffer@ == spec_header_fmt(values.deep_view().take(i as int)),
        decreases values.len() - i,
    {
        let part = values[i].as_str();
        assert(values.deep_view().take(i + 1).drop_last() =~= values.deep_view().take(i as int));
        assert(values.deep_view().take(i + 1).last() == part@);
        if !buffer.as_str().is_empty() {
            buffer.append(",");
            proof {
                reveal_strlit(",");
            }
            assert(","@ =~= seq![',']);
        }
        buffer.append(part);
        i = i + 1;
    }
    assert(values.deep_view().take(values.len() as int) =~= values.deep_view());
    buffer
}

/// A lower-case hexadecimal digit.
pub open spec fn hex_lower(d: int) -> char {
    if d < 10 {
        digit_char(d)
    } else {
        (d - 10 + 'a' as int) as char
    }
}

/// How a character is written inside a JSON string: quote, backslash and
/// control characters are escaped, short forms first, then `\u00XX`.
pub open spec fn json_char_escape(c: char) -> Seq<char> {
    if c == '"' {
        seq!['\\', '"']
    } else if c == '\\' {
        seq!['\\', '\\']
    } else if c == '\u{8}' {
        seq!['\\', 'b']
    } else if c == '\u{c}' {
        seq!['\\', 'f']
    } else if c == '\n' {
        seq!['\\', 'n']
    } else if c == '\r' {
        seq!['\\', 'r']
    } else if c == '\t' {
        seq!['\\', 't']
    } else if (c as int) < 0x20 {
        seq!['\\', 'u', '0', '0', hex_lower(c as int / 16), hex_lower(c as int % 16)]
    } else {
        seq![c]
    }
}

/// The characters of `s`, each written as inside a JSON string.
pub open spec fn json_escaped(s: Seq<char>) -> Seq<char>
    decreases s.len(),
{
    if s.len() == 0 {
        Seq::empty()
    } else {
        json_escaped(s.drop_last()) + json_char_escape(s.last())
    }
}

/// The JSON string literal of `s`.
pub open spec fn json_string_text(s: Seq<char>) -> Seq<char> {
    seq!['"'] + json_escaped(s) + seq!['"']
}

/// `serde_json::Error`, the error type of `serde_json::to_string`, made known
/// to the verifier as an opaque type.
#[verifier::external_type_specification]
#[verifier::external_body]
pub struct ExJsonError(serde_json::Error);

/// A string serialised as JSON (`serde_json::to_string` on a `str`). The
/// crate writes a string as a quoted literal, escaping each character as
/// [`json_char_escape`] says, and cannot fail on it.
#[verifier::external_body]
fn json_string(s: &str) -> (res: Result<String, serde_json::Error>)
    ensures
        res is Ok,
        res is Ok ==> res->Ok_0@ == json_string_text(s@),
{
    serde_json::to_string(s)
}

/// The JSON metadata part of an upload: an object with the single member
/// `cacheControl`.
pub open spec fn cache_control_meta(cache_control: Seq<char>) -> Seq<char> {
    "{\"cacheControl\":"@ + json_string_text(cache_control) + "}"@
}

/// Writes the JSON metadata part of an upload.
fn multipart_meta(cache_control: &str) -> (res: String)
    ensures
        res@ == cache_control_meta(cache_control@),
{
    let quoted = match json_string(cache_control) {
        Ok(t) => t,
        Err(_) => {
            proof {
                assert(false);
            }
            String::new()
        },
    };
    let mut meta = String::new();
    meta.append("{\"cacheControl\":");
    meta.append(quoted.as_str());
    meta.append("}");
    meta
}

/// The text that precedes the data in a multipart upload: the metadata part
/// and the headers of the data part.
pub open spec fn multipart_head(meta: Seq<char>, essence: Seq<char>) -> Seq<char> {
    "--my-multipart-boundary\r\n"@ + "Content-Type: application/json;charset=UTF-8\r\n"@
        + "Content-Transfer-Encoding: identity\r\n"@ + "\r\n"@ + meta + "\r\n"@
        + "--my-multipart-boundary\r\n"@ + "Content-Type: "@ + essence + "\r\n"@
        + "Content-Transfer-Encoding: identity\r\n"@ + "\r\n"@
}

/// The text that follows the data in a multipart upload.
pub open spec fn multipart_tail() -> Seq<char> {
    "\r\n\r\n--my-multipart-boundary--"@
}

/// The body of a multipart upload: head and tail in UTF-8 around the data.
pub open spec fn multipart_body(meta: Seq<char>, essence: Seq<char>, payload: Seq<u8>) -> Seq<
    u8,
> {
    encode_utf8(multipart_head(meta, essence)) + payload + encode_utf8(multipart_tail())
}

/// The address of a multipart upload of `object` into `bucket`.
pub open spec fn insert_uri(bucket: Seq<char>, object: Seq<char>) -> Seq<char> {
    "https://storage.googleapis.com/upload/storage/v1/b/"@ + bucket
        + "/o?uploadType=multipart&name="@ + object
}

/// The address from which a public object's contents are downloaded.
pub open spec fn media_uri(bucket: Seq<char>, object: Seq<char>) -> Seq<char> {
    "https://storage.googleapis.com/storage/v1/b/"@ + bucket + "/o/"@ + object + "?alt=media"@
}

/// The `Content-Type` of a multipart upload.
pub open spec fn multipart_content_type() -> Seq<char> {
    "multipart/related; boundary=my-multipart-boundary"@
}

/// A request that uploads an object.
pub struct InsertRequest {
    pub uri: String,
    pub content_type: String,
    pub body: Vec<u8>,
}

/// Frames the upload of `data` as `object` into `bucket`.
pub fn insert_request<D: MimeData>(
    bucket: &str,
    object: &str,
    data: D,
    options: &InsertOptions,
) -> (req: InsertRequest)
    ensures
        req.uri@ == insert_uri(bucket@, object@),
        req.content_type@ == multipart_content_type(),
        req.body@ == multipart_body(
            cache_control_meta(spec_header_fmt(options.cache_control_values())),
            data.spec_essence(),
            data.spec_payload(),
        ),
{
    let mut uri = String::new();
    uri.append("https://storage.googleapis.com/upload/storage/v1/b/");
    uri.append(bucket);
    uri.append("/o?uploadType=multipart&name=");
    uri.append(object);

    let cache_control = header_fmt(&options.cache_control);
    let meta = multipart_meta(cache_control.as_str());
    let media_type = data.media_type();

    let mut head = String::new();
    head.append("--my-multipart-boundary\r\n");
    head.append("Content-Type: application/json;charset=UTF-8\r\n");
    head.append("Content-Transfer-Encoding: identity\r\n");
    head.append("\r\n");
    head.append(meta.as_str());
    head.append("\r\n");
    head.append("--my-multipart-boundary\r\n");
    head.append("Content-Type: ");
    head.append(media_type.essence.as_str());
    head.append("\r\n");
    head.append("Content-Transfer-Encoding: identity\r\n");
    head.append("\r\n");

    let mut body = head.as_str().as_bytes_vec();
    let mut payload = data.into_bytes();
    body.append(&mut payload);
    let mut tail = "\r\n\r\n--my-multipart-boundary--".as_bytes_vec();
    body.append(&mut tail);

    let mut content_type = String::new();
    content_type.append("multipart/related; boundary=my-multipart-boundary");

    InsertRequest { uri, content_type, body }
}

/// Whether an HTTP status reports success: a status in the 2xx class.
pub open spec fn is_success_status(status: u16) -> bool {
    200 <= status && status < 300
}

/// Whether an upload succeeded, from the HTTP status of the response.
pub fn upload_succeeded(status: u16) -> (ok: bool)
    ensures
        ok == is_success_status(status),
{
    200 <= status && status < 300
}

/// The address from which a public object's contents are downloaded.
pub fn public_media_uri(bucket: &str, object: &str) -> (uri: String)
    ensures
        uri@ == media_uri(bucket@, object@),
{
    let mut uri = String::new();
    uri.append("https://storage.googleapis.com/storage/v1/b/");
    uri.append(bucket);
    uri.append("/o/");
    uri.append(object);
    uri.append("?alt=media");
    uri
}

/// The `Authorization` header value that presents an access token.
pub fn bearer_authorization(token: &str) -> (value: String)
    ensures
        value@ == "Bearer "@ + token@,
{
    let mut value = String::new();
    value.append("Bearer ");
    value.append(token);
    value
}

} // verus!

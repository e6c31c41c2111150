//! Listing, reading, writing and deleting objects.
use base64::Engine;
use vstd::prelude::*;
use vstd::string::*;
use vstd::utf8::{decode_utf8, encode_utf8, valid_utf8};

use crate::config::Config;
use crate::json::{
    field, fields_view, items_view, lemma_field, object, optional_number, optional_text, Json,
    JsonView,
};
use crate::policy::TestBucketName;
use crate::text::{decimal, decimal_text, optional, utf8_text};
use crate::tools::{
    answer, chosen_bucket, compose, failure, json_out, op_err, outcome, ToolError,
};

verus! {

/// The number in a range that is closest to `value`.
pub open spec fn clamped(value: int, least: int, most: int) -> int {
    if value < least {
        least
    } else if value > most {
        most
    } else {
        value
    }
}

/// A copy of an optional text.
fn copied(text: &Option<String>) -> (copy: Option<String>)
    ensures
        optional(copy) == optional(*text),
{
    match text {
        Some(text) => Some(text.clone()),
        None => None,
    }
}

/// An object in a bucket.
#[derive(Debug)]
pub struct ObjectRequest {
    pub bucket: TestBucketName,
    pub key: String,
}

/// What a request for an object in `bucket` comes to.
pub open spec fn object_request(
    result: Result<ObjectRequest, ToolError>,
    bucket: Seq<char>,
    key: Seq<char>,
    config: Config,
) -> bool {
    match (result, chosen_bucket(bucket, config.bucket_prefix@)) {
        (Ok(request), Ok(name)) => request.bucket@ == name && request.key@ == key,
        (Err(error), Err(message)) => error@ == message,
        _ => false,
    }
}

/// Turns the arguments of a tool into a request for one object.
fn request_object(bucket: &String, key: &String, config: &Config) -> (request: Result<
    ObjectRequest,
    ToolError,
>)
    ensures
        object_request(request, bucket@, key@, *config),
{
    match compose(bucket.as_str(), config.bucket_prefix.as_str()) {
        Ok(name) => Ok(ObjectRequest { bucket: name, key: key.clone() }),
        Err(error) => Err(error),
    }
}

/// List objects in a test bucket, optionally filtered by key prefix.
#[derive(Debug)]
pub struct ListObjectsTool {
    pub bucket: String,
    /// Only keys beginning with this prefix.
    pub prefix: Option<String>,
    /// Page size, 1-1000 (default 100).
    pub max_keys: Option<i32>,
    /// Token from a previous response's next_continuation_token.
    pub continuation_token: Option<String>,
}

/// A request for a page of a bucket's objects.
#[derive(Debug)]
pub struct ListObjectsRequest {
    pub bucket: TestBucketName,
    pub max_keys: i32,
    pub prefix: Option<String>,
    pub continuation_token: Option<String>,
}

/// An object as the service lists it.
#[derive(Debug)]
pub struct ObjectSummary {
    pub key: Option<String>,
    pub size: Option<i64>,
    pub etag: Option<String>,
    pub last_modified: Option<String>,
}

/// A page of objects as the service lists them.
#[derive(Debug)]
pub struct ObjectPage {
    pub objects: Vec<ObjectSummary>,
    pub is_truncated: Option<bool>,
    pub next_continuation_token: Option<String>,
}

/// An object as the tool shows it.
pub open spec fn object_json(summary: ObjectSummary) -> JsonView {
    object(
        seq![
            ("key"@, optional_text(optional(summary.key))),
            ("size"@, optional_number(summary.size)),
            ("etag"@, optional_text(optional(summary.etag))),
            ("last_modified"@, optional_text(optional(summary.last_modified))),
        ],
    )
}

/// The answer to a listing.
pub open spec fn object_list_json(bucket: Seq<char>, page: ObjectPage) -> JsonView {
    object(
        seq![
            ("bucket"@, JsonView::Text(bucket)),
            (
                "objects"@,
                JsonView::Array(
                    page.objects@.map_values(|summary: ObjectSummary| object_json(summary)),
                ),
            ),
            ("is_truncated"@, JsonView::Bool(page.is_truncated == Some(true))),
            (
                "next_continuation_token"@,
                optional_text(optional(page.next_continuation_token)),
            ),
        ],
    )
}

impl ObjectSummary {
    fn to_json(&self) -> (value: Json)
        ensures
            value@ == object_json(*self),
    {
        let fields: Vec<(String, Json)> = vec![
            ("key".to_string(), Json::optional_text(&self.key)),
            ("size".to_string(), Json::optional_number(self.size)),
            ("etag".to_string(), Json::optional_text(&self.etag)),
            ("last_modified".to_string(), Json::optional_text(&self.last_modified)),
        ];
        assert(fields_view(fields@) =~= seq![
            ("key"@, optional_text(optional(self.key))),
            ("size"@, optional_number(self.size)),
            ("etag"@, optional_text(optional(self.etag))),
            ("last_modified"@, optional_text(optional(self.last_modified))),
        ]);
        Json::Object(fields)
    }
}

impl ListObjectsTool {
    /// What a request for a page comes to.
    pub open spec fn asks(
        self,
        config: Config,
        request: Result<ListObjectsRequest, ToolError>,
    ) -> bool {
        match (request, chosen_bucket(self.bucket@, config.bucket_prefix@)) {
            (Ok(request), Ok(name)) => {
                &&& request.bucket@ == name
                &&& request.max_keys == clamped(self.max_keys.unwrap_or(100) as int, 1, 1000)
                &&& optional(request.prefix) == optional(self.prefix)
                &&& optional(request.continuation_token) == optional(self.continuation_token)
            },
            (Err(error), Err(message)) => error@ == message,
            _ => false,
        }
    }

    /// What the service is asked.
    pub fn request(&self, config: &Config) -> (request: Result<ListObjectsRequest, ToolError>)
        ensures
            self.asks(*config, request),
    {
        let bucket = match compose(self.bucket.as_str(), config.bucket_prefix.as_str()) {
            Ok(bucket) => bucket,
            Err(error) => {
                return Err(error);
            },
        };
        let wanted: i32 = self.max_keys.unwrap_or(100);
        let max_keys: i32 = if wanted < 1 {
            1
        } else if wanted > 1000 {
            1000
        } else {
            wanted
        };
        Ok(
            ListObjectsRequest {
                bucket,
                max_keys,
                prefix: copied(&self.prefix),
                continuation_token: copied(&self.continuation_token),
            },
        )
    }

    /// The page as the tool shows it.
    pub fn report(&self, bucket: &TestBucketName, page: &ObjectPage) -> (report: Json)
        ensures
            report@ == object_list_json(bucket@, *page),
    {
        let mut objects: Vec<Json> = Vec::new();
        for i in 0..page.objects.len()
            invariant
                objects.len() == i,
                forall|j: int|
                    0 <= j < i ==> (#[trigger] objects@[j])@ == object_json(page.objects@[j]),
        {
            objects.push(page.objects[i].to_json());
        }
        assert(items_view(objects@) =~= page.objects@.map_values(
            |summary: ObjectSummary| object_json(summary),
        ));
        let fields: Vec<(String, Json)> = vec![
            ("bucket".to_string(), Json::text(bucket.as_str())),
            ("objects".to_string(), Json::Array(objects)),
            ("is_truncated".to_string(), Json::Bool(page.is_truncated.unwrap_or(false))),
            (
                "next_continuation_token".to_string(),
                Json::optional_text(&page.next_continuation_token),
            ),
        ];
        assert(fields_view(fields@) =~= seq![
            ("bucket"@, JsonView::Text(bucket@)),
            (
                "objects"@,
                JsonView::Array(
                    page.objects@.map_values(|summary: ObjectSummary| object_json(summary)),
                ),
            ),
            ("is_truncated"@, JsonView::Bool(page.is_truncated == Some(true))),
            (
                "next_continuation_token"@,
                optional_text(optional(page.next_continuation_token)),
            ),
        ]);
        Json::Object(fields)
    }

    /// Answers once the service has replied.
    pub fn respond(
        &self,
        bucket: &TestBucketName,
        reply: Result<ObjectPage, String>,
    ) -> (answered: Result<String, ToolError>)
        ensures
            outcome(answered) == match reply {
                Ok(page) => answer(object_list_json(bucket@, page)),
                Err(error) => Err(failure("list_objects"@, error@)),
            },
    {
        match reply {
            Ok(page) => json_out(&self.report(bucket, &page)),
            Err(error) => Err(op_err("list_objects", error.as_str())),
        }
    }
}

/// Fetch object metadata without downloading the body.
#[derive(Debug)]
pub struct HeadObjectTool {
    pub bucket: String,
    pub key: String,
}

/// What the service says of an object.
#[derive(Debug)]
pub struct ObjectHead {
    pub content_length: Option<i64>,
    pub etag: Option<String>,
    pub content_type: Option<String>,
    pub last_modified: Option<String>,
}

/// The answer to a request for metadata.
pub open spec fn head_json(bucket: Seq<char>, key: Seq<char>, head: ObjectHead) -> JsonView {
    object(
        seq![
            ("bucket"@, JsonView::Text(bucket)),
            ("key"@, JsonView::Text(key)),
            ("size"@, optional_number(head.content_length)),
            ("etag"@, optional_text(optional(head.etag))),
            ("content_type"@, optional_text(optional(head.content_type))),
            ("last_modified"@, optional_text(optional(head.last_modified))),
        ],
    )
}

impl HeadObjectTool {
    /// What the service is asked.
    pub fn request(&self, config: &Config) -> (request: Result<ObjectRequest, ToolError>)
        ensures
            object_request(request, self.bucket@, self.key@, *config),
    {
        request_object(&self.bucket, &self.key, config)
    }

    /// The metadata as the tool shows them.
    pub fn report(&self, bucket: &TestBucketName, head: &ObjectHead) -> (report: Json)
        ensures
            report@ == head_json(bucket@, self.key@, *head),
    {
        let fields: Vec<(String, Json)> = vec![
            ("bucket".to_string(), Json::text(bucket.as_str())),
            ("key".to_string(), Json::text(self.key.as_str())),
            ("size".to_string(), Json::optional_number(head.content_length)),
            ("etag".to_string(), Json::optional_text(&head.etag)),
            ("content_type".to_string(), Json::optional_text(&head.content_type)),
            ("last_modified".to_string(), Json::optional_text(&head.last_modified)),
        ];
        assert(fields_view(fields@) =~= seq![
            ("bucket"@, JsonView::Text(bucket@)),
            ("key"@, JsonView::Text(self.key@)),
            ("size"@, optional_number(head.content_length)),
            ("etag"@, optional_text(optional(head.etag))),
            ("content_type"@, optional_text(optional(head.content_type))),
            ("last_modified"@, optional_text(optional(head.last_modified))),
        ]);
        Json::Object(fields)
    }

    /// Answers once the service has replied.
    pub fn respond(
        &self,
        bucket: &TestBucketName,
        reply: Result<ObjectHead, String>,
    ) -> (answered: Result<String, ToolError>)
        ensures
            outcome(answered) == match reply {
                Ok(head) => answer(head_json(bucket@, self.key@, head)),
                Err(error) => Err(failure("head_object"@, error@)),
            },
    {
        match reply {
            Ok(head) => json_out(&self.report(bucket, &head)),
            Err(error) => Err(op_err("head_object", error.as_str())),
        }
    }
}

/// The standard base64 encoding of bytes, with padding.
pub uninterp spec fn base64_text(bytes: Seq<u8>) -> Seq<char>;

/// The bytes that a standard base64 text with padding stands for, or what is wrong with it.
pub uninterp spec fn base64_bytes(text: Seq<char>) -> Result<Seq<u8>, Seq<char>>;

/// Decoding the base64 text gives the bytes.
pub open spec fn decodes_to(text: Seq<char>, bytes: Seq<u8>) -> bool {
    base64_bytes(text) == Ok::<_, Seq<char>>(bytes)
}

/// How long the base64 encoding of that many bytes is.
pub open spec fn base64_length(bytes: nat) -> nat {
    (bytes + 2) / 3 * 4
}

/// `base64`'s standard engine, encoding: the text depends on the bytes alone, and decoding it
/// gives the bytes back. The text has to fit into memory.
#[verifier::external_body]
fn encode_base64(bytes: &[u8]) -> (text: String)
    requires
        base64_length(bytes@.len()) <= isize::MAX,
    ensures
        text@ == base64_text(bytes@),
        decodes_to(text@, bytes@),
{
    base64::engine::general_purpose::STANDARD.encode(bytes)
}

/// `base64`'s standard engine, decoding: the bytes, or the message of the error, depend on the
/// text alone.
#[verifier::external_body]
fn decode_base64(text: &str) -> (bytes: Result<Vec<u8>, String>)
    ensures
        match bytes {
            Ok(bytes) => decodes_to(text@, bytes@),
            Err(message) => base64_bytes(text@) matches Err(error) && error == message@,
        },
{
    base64::engine::general_purpose::STANDARD.decode(text.as_bytes()).map_err(
        |error| error.to_string(),
    )
}

/// Download an object.
#[derive(Debug)]
pub struct GetObjectTool {
    pub bucket: String,
    pub key: String,
    /// Maximum bytes to return (default 256 KiB, server-capped).
    pub max_bytes: Option<i64>,
}

/// What is to be fetched of an object.
#[derive(Debug, PartialEq, Eq)]
pub struct Download {
    /// The size that the service states, 0 where it states none.
    pub size: u64,
    /// The most bytes that are returned.
    pub limit: usize,
    /// The part that is fetched, where it is not the whole object.
    pub range: Option<String>,
}

/// What is to be fetched of an object.
pub struct DownloadView {
    pub size: int,
    pub limit: int,
    pub range: Option<Seq<char>>,
}

impl View for Download {
    type V = DownloadView;

    open spec fn view(&self) -> DownloadView {
        DownloadView {
            size: self.size as int,
            limit: self.limit as int,
            range: optional(self.range),
        }
    }
}

/// An object as the service sends it.
#[derive(Debug)]
pub struct ObjectBody {
    pub content_type: Option<String>,
    pub etag: Option<String>,
    pub bytes: Vec<u8>,
}

/// Why an object could not be fetched.
#[derive(Debug)]
pub enum FetchError {
    /// The service did not grant the request.
    Request(String),
    /// The body did not arrive.
    Body(String),
}

/// How the bytes of an object are shown.
#[derive(Debug, PartialEq, Eq)]
pub enum Content {
    /// As the text that they are.
    Utf8(String),
    /// In base64, since they are no text.
    Base64(String),
}

/// The most bytes that a tool call returns.
pub open spec fn byte_limit(max_bytes: Option<i64>, max_body_bytes: usize) -> int {
    clamped(max_bytes.unwrap_or(262_144) as int, 1, max_body_bytes as int)
}

/// The size that the service states for an object, 0 where it states none.
pub open spec fn stated_size(content_length: Option<i64>) -> u64 {
    match content_length {
        Some(length) => length as u64,
        None => 0,
    }
}

/// How many of an object's first bytes are asked for, where it is not the whole object: as many
/// as may be returned, where the object is stated to be larger.
pub open spec fn asked_bytes(content_length: Option<i64>, limit: int) -> Option<int> {
    if stated_size(content_length) > limit {
        Some(limit)
    } else {
        None
    }
}

/// The range header that asks for so many of the first bytes.
pub open spec fn range_text(asked: Option<int>) -> Option<Seq<char>> {
    match asked {
        Some(count) => Some("bytes=0-"@ + decimal((count - 1) as nat)),
        None => None,
    }
}

/// What is to be fetched of an object, given what the service states of it.
pub open spec fn planned(
    content_length: Option<i64>,
    max_bytes: Option<i64>,
    max_body_bytes: usize,
) -> DownloadView {
    let limit = byte_limit(max_bytes, max_body_bytes);
    DownloadView {
        size: stated_size(content_length) as int,
        limit,
        range: range_text(asked_bytes(content_length, limit)),
    }
}

/// The part of a body that is returned.
pub open spec fn returned(bytes: Seq<u8>, limit: int) -> Seq<u8> {
    if bytes.len() > limit {
        bytes.take(limit)
    } else {
        bytes
    }
}

/// The object is larger than what is returned of it.
pub open spec fn truncated(download: DownloadView, bytes: Seq<u8>) -> bool {
    download.size > download.limit || bytes.len() > download.limit
}

/// The bytes can be shown: they are a text, or their base64 encoding fits into memory.
pub open spec fn showable(bytes: Seq<u8>) -> bool {
    valid_utf8(bytes) || base64_length(bytes.len()) <= isize::MAX
}

/// The name of an encoding and what the bytes look like in it.
pub open spec fn shown(bytes: Seq<u8>) -> (Seq<char>, Seq<char>) {
    if valid_utf8(bytes) {
        ("utf8"@, decode_utf8(bytes))
    } else {
        ("base64"@, base64_text(bytes))
    }
}

/// The answer to a download.
pub open spec fn body_json(
    bucket: Seq<char>,
    key: Seq<char>,
    download: DownloadView,
    body: ObjectBody,
) -> JsonView {
    let start = returned(body.bytes@, download.limit);
    object(
        seq![
            ("bucket"@, JsonView::Text(bucket)),
            ("key"@, JsonView::Text(key)),
            ("encoding"@, JsonView::Text(shown(start).0)),
            ("content"@, JsonView::Text(shown(start).1)),
            ("size"@, JsonView::Number(download.size)),
            ("returned_bytes"@, JsonView::Number(start.len() as int)),
            ("truncated"@, JsonView::Bool(truncated(download, body.bytes@))),
            ("content_type"@, optional_text(optional(body.content_type))),
            ("etag"@, optional_text(optional(body.etag))),
        ],
    )
}

impl Content {
    /// Shows bytes as the text that they are, or else in base64.
    ///
    /// What is shown can be uploaded again, under the same encoding, as the same bytes.
    pub fn of(bytes: &[u8]) -> (content: Content)
        requires
            showable(bytes@),
        ensures
            content.encoding() == shown(bytes@).0,
            content.body() == shown(bytes@).1,
            match content {
                Content::Utf8(text) => uploaded(Some(text@), None) == Ok::<_, Seq<char>>(bytes@),
                Content::Base64(text) => uploaded(None, Some(text@)) == Ok::<_, Seq<char>>(bytes@),
            },
    {
        match utf8_text(bytes) {
            Some(text) => {
                proof {
                    vstd::utf8::encode_utf8_decode_utf8(text@);
                }
                Content::Utf8(text.to_string())
            },
            None => Content::Base64(encode_base64(bytes)),
        }
    }

    /// The name of the encoding.
    pub open spec fn encoding(self) -> Seq<char> {
        match self {
            Content::Utf8(_) => "utf8"@,
            Content::Base64(_) => "base64"@,
        }
    }

    /// What is shown.
    pub open spec fn body(self) -> Seq<char> {
        match self {
            Content::Utf8(text) => text@,
            Content::Base64(text) => text@,
        }
    }
}

impl GetObjectTool {
    /// What the service is asked first: the metadata.
    pub fn request(&self, config: &Config) -> (request: Result<ObjectRequest, ToolError>)
        ensures
            object_request(request, self.bucket@, self.key@, *config),
    {
        request_object(&self.bucket, &self.key, config)
    }

    /// What is to be fetched, once the metadata are there.
    pub fn download(&self, config: &Config, reply: Result<ObjectHead, String>) -> (download: Result<
        Download,
        ToolError,
    >)
        requires
            1 <= config.max_body_bytes <= i64::MAX,
        ensures
            match (download, reply) {
                (Ok(download), Ok(head)) => download@ == planned(
                    head.content_length,
                    self.max_bytes,
                    config.max_body_bytes,
                ),
                (Err(failed), Err(error)) => failed@ == failure("get_object (head)"@, error@),
                _ => false,
            },
            download matches Ok(download) ==> {
                let wanted = self.max_bytes.unwrap_or(262_144);
                &&& 1 <= wanted <= config.max_body_bytes ==> download.limit == wanted
                &&& wanted > config.max_body_bytes ==> download.limit == config.max_body_bytes
                &&& wanted < 1 ==> download.limit == 1
                &&& download.range is Some <==> download.size > download.limit
            },
    {
        let most: i64 = config.max_body_bytes as i64;
        let wanted: i64 = self.max_bytes.unwrap_or(262_144);
        let limit: i64 = if wanted < 1 {
            1
        } else if wanted > most {
            most
        } else {
            wanted
        };
        match reply {
            Ok(head) => {
                let size: u64 = match head.content_length {
                    Some(length) => length as u64,
                    None => 0,
                };
                let range = if size > limit as u64 {
                    Some("bytes=0-".to_string().concat(decimal_text((limit - 1) as u64).as_str()))
                } else {
                    None
                };
                Ok(Download { size, limit: limit as usize, range })
            },
            Err(error) => Err(op_err("get_object (head)", error.as_str())),
        }
    }

    /// The object as the tool shows it: no more of it than the limit.
    pub fn report(&self, bucket: &TestBucketName, download: &Download, body: &ObjectBody) -> (report:
        Json)
        requires
            showable(returned(body.bytes@, download.limit as int)),
        ensures
            report@ == body_json(bucket@, self.key@, download@, *body),
    {
        let larger = body.bytes.len() > download.limit;
        let end: usize = if larger {
            download.limit
        } else {
            body.bytes.len()
        };
        let start = vstd::slice::slice_subrange(body.bytes.as_slice(), 0, end);
        assert(start@ =~= returned(body.bytes@, download.limit as int));
        let (encoding, content) = match Content::of(start) {
            Content::Utf8(text) => ("utf8", text),
            Content::Base64(text) => ("base64", text),
        };
        let truncated = download.size > download.limit as u64 || larger;
        let fields: Vec<(String, Json)> = vec![
            ("bucket".to_string(), Json::text(bucket.as_str())),
            ("key".to_string(), Json::text(self.key.as_str())),
            ("encoding".to_string(), Json::text(encoding)),
            ("content".to_string(), Json::Text(content)),
            ("size".to_string(), Json::Unsigned(download.size)),
            ("returned_bytes".to_string(), Json::Unsigned(end as u64)),
            ("truncated".to_string(), Json::Bool(truncated)),
            ("content_type".to_string(), Json::optional_text(&body.content_type)),
            ("etag".to_string(), Json::optional_text(&body.etag)),
        ];
        assert(fields_view(fields@) =~= seq![
            ("bucket"@, JsonView::Text(bucket@)),
            ("key"@, JsonView::Text(self.key@)),
            ("encoding"@, JsonView::Text(shown(start@).0)),
            ("content"@, JsonView::Text(shown(start@).1)),
            ("size"@, JsonView::Number(download.size as int)),
            ("returned_bytes"@, JsonView::Number(start@.len() as int)),
            ("truncated"@, JsonView::Bool(truncated)),
            ("content_type"@, optional_text(optional(body.content_type))),
            ("etag"@, optional_text(optional(body.etag))),
        ]);
        Json::Object(fields)
    }

    /// Answers once the object is there.
    pub fn respond(
        &self,
        bucket: &TestBucketName,
        download: &Download,
        reply: Result<ObjectBody, FetchError>,
    ) -> (answered: Result<String, ToolError>)
        requires
            reply matches Ok(body) ==> showable(returned(body.bytes@, download.limit as int)),
        ensures
            outcome(answered) == match reply {
                Ok(body) => answer(body_json(bucket@, self.key@, download@, body)),
                Err(FetchError::Request(error)) => Err(failure("get_object"@, error@)),
                Err(FetchError::Body(error)) => Err(failure("get_object (body)"@, error@)),
            },
    {
        match reply {
            Ok(body) => json_out(&self.report(bucket, download, &body)),
            Err(FetchError::Request(error)) => Err(op_err("get_object", error.as_str())),
            Err(FetchError::Body(error)) => Err(op_err("get_object (body)", error.as_str())),
        }
    }
}

/// Upload an object.
#[derive(Debug)]
pub struct PutObjectTool {
    pub bucket: String,
    pub key: String,
    /// Plain-text content (mutually exclusive with content_base64).
    pub content: Option<String>,
    /// Base64-encoded binary content (mutually exclusive with content).
    pub content_base64: Option<String>,
    /// Optional content type stored with the object.
    pub content_type: Option<String>,
}

/// A request to store an object.
#[derive(Debug)]
pub struct PutObjectRequest {
    pub bucket: TestBucketName,
    pub key: String,
    pub body: Vec<u8>,
    pub content_type: Option<String>,
}

/// The bytes that an upload stands for, or what is wrong with it.
pub open spec fn uploaded(
    content: Option<Seq<char>>,
    content_base64: Option<Seq<char>>,
) -> Result<Seq<u8>, Seq<char>> {
    match (content, content_base64) {
        (Some(text), None) => Ok(encode_utf8(text)),
        (None, Some(text)) => match base64_bytes(text) {
            Ok(bytes) => Ok(bytes),
            Err(error) => Err("invalid base64: "@ + error),
        },
        _ => Err("provide exactly one of content or content_base64"@),
    }
}

/// The message for a body that is too large.
pub open spec fn too_large_message(size: nat, limit: nat) -> Seq<char> {
    "body of "@ + decimal(size) + " bytes exceeds the "@ + decimal(limit) + " byte limit"@
}

/// The bytes that an upload stores, or why it stores none.
pub open spec fn stored(
    content: Option<Seq<char>>,
    content_base64: Option<Seq<char>>,
    limit: nat,
) -> Result<Seq<u8>, Seq<char>> {
    match uploaded(content, content_base64) {
        Ok(bytes) => if bytes.len() > limit {
            Err(too_large_message(bytes.len(), limit))
        } else {
            Ok(bytes)
        },
        Err(error) => Err(error),
    }
}

/// The answer to an upload.
pub open spec fn stored_json(
    bucket: Seq<char>,
    key: Seq<char>,
    size: nat,
    etag: Option<Seq<char>>,
) -> JsonView {
    object(
        seq![
            ("bucket"@, JsonView::Text(bucket)),
            ("key"@, JsonView::Text(key)),
            ("size"@, JsonView::Number(size as int)),
            ("etag"@, optional_text(etag)),
        ],
    )
}

impl PutObjectTool {
    /// The bytes to store.
    pub fn body(&self) -> (body: Result<Vec<u8>, ToolError>)
        ensures
            match body {
                Ok(bytes) => uploaded(optional(self.content), optional(self.content_base64))
                    == Ok::<_, Seq<char>>(bytes@),
                Err(error) => uploaded(optional(self.content), optional(self.content_base64))
                    == Err::<Seq<u8>, _>(error@),
            },
            match (self.content, self.content_base64) {
                (Some(text), None) => body matches Ok(bytes) && bytes@ == encode_utf8(text@),
                (None, Some(text)) => match base64_bytes(text@) {
                    Ok(decoded) => body matches Ok(bytes) && bytes@ == decoded,
                    Err(_) => body is Err,
                },
                _ => body is Err,
            },
    {
        match (&self.content, &self.content_base64) {
            (Some(text), None) => Ok(text.as_str().as_bytes_vec()),
            (None, Some(text)) => match decode_base64(text.as_str()) {
                Ok(bytes) => Ok(bytes),
                Err(error) => Err(
                    ToolError { message: "invalid base64: ".to_string().concat(error.as_str()) },
                ),
            },
            _ => Err(
                ToolError {
                    message: "provide exactly one of content or content_base64".to_string(),
                },
            ),
        }
    }

    /// What a request to store comes to.
    pub open spec fn asks(
        self,
        config: Config,
        request: Result<PutObjectRequest, ToolError>,
    ) -> bool {
        match chosen_bucket(self.bucket@, config.bucket_prefix@) {
            Err(message) => request matches Err(error) && error@ == message,
            Ok(name) => match stored(
                optional(self.content),
                optional(self.content_base64),
                config.max_body_bytes as nat,
            ) {
                Err(message) => request matches Err(error) && error@ == message,
                Ok(bytes) => request matches Ok(request) && {
                    &&& request.bucket@ == name
                    &&& request.key@ == self.key@
                    &&& request.body@ == bytes
                    &&& optional(request.content_type) == optional(self.content_type)
                },
            },
        }
    }

    /// What the service is asked.
    pub fn request(&self, config: &Config) -> (request: Result<PutObjectRequest, ToolError>)
        ensures
            self.asks(*config, request),
    {
        let bucket = match compose(self.bucket.as_str(), config.bucket_prefix.as_str()) {
            Ok(bucket) => bucket,
            Err(error) => {
                return Err(error);
            },
        };
        let body = match self.body() {
            Ok(body) => body,
            Err(error) => {
                return Err(error);
            },
        };
        if body.len() > config.max_body_bytes {
            return Err(
                ToolError {
                    message: "body of ".to_string().concat(
                        decimal_text(body.len() as u64).as_str(),
                    ).concat(" bytes exceeds the ").concat(
                        decimal_text(config.max_body_bytes as u64).as_str(),
                    ).concat(" byte limit"),
                },
            );
        }
        Ok(
            PutObjectRequest {
                bucket,
                key: self.key.clone(),
                body,
                content_type: copied(&self.content_type),
            },
        )
    }

    /// The upload as the tool shows it.
    pub fn report(&self, request: &PutObjectRequest, etag: &Option<String>) -> (report: Json)
        ensures
            report@ == stored_json(
                request.bucket@,
                self.key@,
                request.body@.len(),
                optional(*etag),
            ),
    {
        let fields: Vec<(String, Json)> = vec![
            ("bucket".to_string(), Json::text(request.bucket.as_str())),
            ("key".to_string(), Json::text(self.key.as_str())),
            ("size".to_string(), Json::Unsigned(request.body.len() as u64)),
            ("etag".to_string(), Json::optional_text(etag)),
        ];
        assert(fields_view(fields@) =~= seq![
            ("bucket"@, JsonView::Text(request.bucket@)),
            ("key"@, JsonView::Text(self.key@)),
            ("size"@, JsonView::Number(request.body@.len() as int)),
            ("etag"@, optional_text(optional(*etag))),
        ]);
        Json::Object(fields)
    }

    /// Answers once the service has replied, with the tag that it gave the object, if any.
    pub fn respond(
        &self,
        request: &PutObjectRequest,
        reply: Result<Option<String>, String>,
    ) -> (answered: Result<String, ToolError>)
        ensures
            outcome(answered) == match reply {
                Ok(etag) => answer(
                    stored_json(
                        request.bucket@,
                        self.key@,
                        request.body@.len(),
                        optional(etag),
                    ),
                ),
                Err(error) => Err(failure("put_object"@, error@)),
            },
    {
        match reply {
            Ok(etag) => json_out(&self.report(request, &etag)),
            Err(error) => Err(op_err("put_object", error.as_str())),
        }
    }
}

/// Delete a single object from a test bucket.
#[derive(Debug)]
pub struct DeleteObjectTool {
    pub bucket: String,
    pub key: String,
}

/// The answer to the deletion of an object.
pub open spec fn object_deleted_json(bucket: Seq<char>, key: Seq<char>) -> JsonView {
    object(
        seq![
            ("bucket"@, JsonView::Text(bucket)),
            ("key"@, JsonView::Text(key)),
            ("deleted"@, JsonView::Bool(true)),
        ],
    )
}

impl DeleteObjectTool {
    /// What the service is asked.
    pub fn request(&self, config: &Config) -> (request: Result<ObjectRequest, ToolError>)
        ensures
            object_request(request, self.bucket@, self.key@, *config),
    {
        request_object(&self.bucket, &self.key, config)
    }

    /// The deletion as the tool shows it.
    pub fn report(&self, bucket: &TestBucketName) -> (report: Json)
        ensures
            report@ == object_deleted_json(bucket@, self.key@),
    {
        let fields: Vec<(String, Json)> = vec![
            ("bucket".to_string(), Json::text(bucket.as_str())),
            ("key".to_string(), Json::text(self.key.as_str())),
            ("deleted".to_string(), Json::Bool(true)),
        ];
        assert(fields_view(fields@) =~= seq![
            ("bucket"@, JsonView::Text(bucket@)),
            ("key"@, JsonView::Text(self.key@)),
            ("deleted"@, JsonView::Bool(true)),
        ]);
        Json::Object(fields)
    }

    /// Answers once the service has replied.
    pub fn respond(&self, bucket: &TestBucketName, reply: Result<(), String>) -> (answered: Result<
        String,
        ToolError,
    >)
        ensures
            outcome(answered) == match reply {
                Ok(_) => answer(object_deleted_json(bucket@, self.key@)),
                Err(error) => Err(failure("delete_object"@, error@)),
            },
    {
        match reply {
            Ok(_) => json_out(&self.report(bucket)),
            Err(error) => Err(op_err("delete_object", error.as_str())),
        }
    }
}

/// A text that was uploaded reads back as that text.
pub proof fn law_uploaded_text_reads_back(text: Seq<char>)
    ensures
        uploaded(Some(text), None) matches Ok(bytes) && shown(bytes) == ("utf8"@, text),
{
    vstd::utf8::encode_utf8_valid_utf8(text);
    vstd::utf8::encode_utf8_decode_utf8(text);
}

/// A body that is stored is the one that was uploaded, and no larger than the limit.
pub proof fn law_stored_bodies_keep_the_limit(
    content: Option<Seq<char>>,
    content_base64: Option<Seq<char>>,
    limit: nat,
)
    ensures
        stored(content, content_base64, limit) matches Ok(bytes) ==> bytes.len() <= limit
            && uploaded(content, content_base64) == Ok::<_, Seq<char>>(bytes),
{
}

/// What the service sends of an object when so many of its first bytes are asked for.
pub open spec fn served(content: Seq<u8>, asked: Option<int>) -> Seq<u8> {
    match asked {
        Some(count) => returned(content, count),
        None => content,
    }
}

/// The fields of the answer to a download that tell of its content.
proof fn lemma_body_fields(
    bucket: Seq<char>,
    key: Seq<char>,
    download: DownloadView,
    body: ObjectBody,
)
    ensures
        ({
            let answered = body_json(bucket, key, download, body);
            let start = returned(body.bytes@, download.limit);
            &&& field(answered, "encoding"@) == Some(JsonView::Text(shown(start).0))
            &&& field(answered, "content"@) == Some(JsonView::Text(shown(start).1))
            &&& field(answered, "returned_bytes"@) == Some(JsonView::Number(start.len() as int))
            &&& field(answered, "truncated"@) == Some(
                JsonView::Bool(truncated(download, body.bytes@)),
            )
        }),
{
    let start = returned(body.bytes@, download.limit);
    let fields = seq![
        ("bucket"@, JsonView::Text(bucket)),
        ("key"@, JsonView::Text(key)),
        ("encoding"@, JsonView::Text(shown(start).0)),
        ("content"@, JsonView::Text(shown(start).1)),
        ("size"@, JsonView::Number(download.size)),
        ("returned_bytes"@, JsonView::Number(start.len() as int)),
        ("truncated"@, JsonView::Bool(truncated(download, body.bytes@))),
        ("content_type"@, optional_text(optional(body.content_type))),
        ("etag"@, optional_text(optional(body.etag))),
    ];
    reveal_strlit("encoding");
    reveal_strlit("content");
    reveal_strlit("size");
    reveal_strlit("returned_bytes");
    reveal_strlit("truncated");
    reveal_strlit("content_type");
    reveal_strlit("etag");
    assert(forall|j: int|
        2 < j < 9 ==> (#[trigger] fields[j]).0.len() != 8 && (j > 3 ==> fields[j].0.len() != 7) && (
        j > 5 ==> fields[j].0.len() != 14) && (j > 6 ==> fields[j].0.len() != 9));
    lemma_field(fields, 2);
    lemma_field(fields, 3);
    lemma_field(fields, 5);
    lemma_field(fields, 6);
}

/// A download returns the first bytes of the object, as many as are asked for and the server
/// allows, and says that it is truncated exactly where the object is larger. That holds whether
/// or not the service states the size of the object.
pub proof fn law_downloads_are_capped_and_flagged(
    bucket: Seq<char>,
    key: Seq<char>,
    content: Seq<u8>,
    content_length: Option<i64>,
    max_bytes: Option<i64>,
    max_body_bytes: usize,
    body: ObjectBody,
)
    requires
        1 <= max_body_bytes,
        content_length matches Some(length) ==> length == content.len(),
        body.bytes@ == served(
            content,
            asked_bytes(content_length, byte_limit(max_bytes, max_body_bytes)),
        ),
    ensures
        ({
            let limit = byte_limit(max_bytes, max_body_bytes);
            let start = returned(content, limit);
            let answered = body_json(
                bucket,
                key,
                planned(content_length, max_bytes, max_body_bytes),
                body,
            );
            &&& start == content.take(start.len() as int)
            &&& start.len() == if content.len() > limit {
                limit
            } else {
                content.len() as int
            }
            &&& start.len() <= max_body_bytes
            &&& field(answered, "encoding"@) == Some(JsonView::Text(shown(start).0))
            &&& field(answered, "content"@) == Some(JsonView::Text(shown(start).1))
            &&& field(answered, "returned_bytes"@) == Some(JsonView::Number(start.len() as int))
            &&& field(answered, "truncated"@) == Some(JsonView::Bool(content.len() > limit))
        }),
{
    let limit = byte_limit(max_bytes, max_body_bytes);
    let download = planned(content_length, max_bytes, max_body_bytes);
    lemma_body_fields(bucket, key, download, body);
    assert(returned(body.bytes@, limit) =~= returned(content, limit));
    assert(returned(content, limit) =~= content.take(returned(content, limit).len() as int));
}

/// Whatever the service states and sends, a download returns no more than is asked for and than
/// the server allows.
pub proof fn law_downloads_keep_the_limit(
    bucket: Seq<char>,
    key: Seq<char>,
    content_length: Option<i64>,
    max_bytes: Option<i64>,
    max_body_bytes: usize,
    body: ObjectBody,
)
    requires
        1 <= max_body_bytes,
    ensures
        ({
            let limit = byte_limit(max_bytes, max_body_bytes);
            let answered = body_json(
                bucket,
                key,
                planned(content_length, max_bytes, max_body_bytes),
                body,
            );
            &&& field(answered, "returned_bytes"@) matches Some(JsonView::Number(count)) && count
                <= limit
            &&& 1 <= limit <= max_body_bytes
        }),
{
    lemma_body_fields(
        bucket,
        key,
        planned(content_length, max_bytes, max_body_bytes),
        body,
    );
}

} // verus!

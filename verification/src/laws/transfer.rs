//! What uploads store, what downloads return, and what is asked about objects.
use vstd::prelude::*;
use vstd::string::*;
use vstd::utf8::{decode_utf8, encode_utf8, valid_utf8};

use crate::config::Config;
use crate::json::{field, JsonView};
use crate::text::{decimal, optional};
use crate::tools::objects::{
    asked_bytes, base64_bytes, base64_text, body_json, byte_limit, clamped, decodes_to,
    law_downloads_are_capped_and_flagged, object_request, planned, range_text, returned, served,
    shown, stated_size, stored, truncated, uploaded, Content, Download,
    DownloadView, ListObjectsRequest, ListObjectsTool, ObjectBody, ObjectRequest,
    PutObjectRequest, PutObjectTool,
};
use crate::tools::{chosen_bucket, ToolError};

verus! {

/// A number in a range stays as it is; one outside becomes the nearest in it.
pub proof fn law_clamping(value: int, least: int, most: int)
    requires
        least <= most,
    ensures
        least <= clamped(value, least, most) <= most,
        least <= value <= most ==> clamped(value, least, most) == value,
        value <= least ==> clamped(value, least, most) == least,
        value >= most ==> clamped(value, least, most) == most,
{
}

/// A download returns as many bytes as are asked for, wherever the server allows that many; the
/// most that it allows, where more are asked for; and one, where none are. Where nothing is said,
/// 262144 are asked for.
pub proof fn law_requested_bytes_are_granted(wanted: i64, max_body_bytes: usize)
    requires
        1 <= max_body_bytes,
    ensures
        1 <= wanted <= max_body_bytes ==> byte_limit(Some(wanted), max_body_bytes) == wanted,
        wanted >= max_body_bytes ==> byte_limit(Some(wanted), max_body_bytes) == max_body_bytes,
        wanted < 1 ==> byte_limit(Some(wanted), max_body_bytes) == 1,
        max_body_bytes >= 262_144 ==> byte_limit(None, max_body_bytes) == 262_144,
        max_body_bytes <= 262_144 ==> byte_limit(None, max_body_bytes) == max_body_bytes,
{
}

/// A stated length is the size; a missing one counts as none.
pub proof fn law_stated_sizes(length: i64)
    ensures
        length >= 0 ==> stated_size(Some(length)) == length,
        stated_size(None) == 0,
{
}

/// Only the beginning is asked for exactly where the stated size is above the limit, and then as
/// many bytes as the limit.
pub proof fn law_planned_downloads(
    content_length: Option<i64>,
    wanted: Option<i64>,
    max_body_bytes: usize,
)
    requires
        1 <= max_body_bytes,
        content_length matches Some(length) ==> 0 <= length,
    ensures
        ({
            let download = planned(content_length, wanted, max_body_bytes);
            let size = match content_length {
                Some(length) => length as int,
                None => 0,
            };
            &&& download.size == size
            &&& download.limit == byte_limit(wanted, max_body_bytes)
            &&& size <= download.limit ==> download.range is None
            &&& size > download.limit ==> download.range == Some(
                "bytes=0-"@ + decimal((download.limit - 1) as nat),
            )
        }),
{
}

/// A plan shows its size, its limit and its range.
pub proof fn law_plans_show(download: Download)
    ensures
        download@.size == download.size,
        download@.limit == download.limit,
        download@.range == optional(download.range),
{
}

/// The answer to a download of an object, from a service that states its size or none, and that
/// sends the part that it is asked for: where `wanted` bytes are asked for and the server allows
/// `allowed`, the answer returns the first bytes of the object, as many as the smaller of the two
/// but one at least, says how many they are, and says whether there are more. An object that is
/// no larger comes back whole.
pub proof fn law_downloads_return_what_is_asked_for(
    bucket: Seq<char>,
    key: Seq<char>,
    content: Seq<u8>,
    content_length: Option<i64>,
    wanted: i64,
    allowed: usize,
    body: ObjectBody,
)
    requires
        1 <= allowed,
        content_length matches Some(length) ==> length == content.len(),
        match planned(content_length, Some(wanted), allowed).range {
            None => body.bytes@ == content,
            Some(range) => forall|last: nat|
                #![trigger decimal(last)]
                range == "bytes=0-"@ + decimal(last) ==> body.bytes@ == (if content.len() > last
                    + 1 {
                    content.take(last as int + 1)
                } else {
                    content
                }),
        },
    ensures
        ({
            let answered = body_json(
                bucket,
                key,
                planned(content_length, Some(wanted), allowed),
                body,
            );
            let limit = if wanted < 1 {
                1
            } else if wanted > allowed {
                allowed as int
            } else {
                wanted as int
            };
            let start = if content.len() > limit {
                content.take(limit)
            } else {
                content
            };
            &&& field(answered, "returned_bytes"@) == Some(JsonView::Number(start.len() as int))
            &&& field(answered, "truncated"@) == Some(JsonView::Bool(content.len() > limit))
            &&& field(answered, "encoding"@) == Some(
                JsonView::Text(if valid_utf8(start) { "utf8"@ } else { "base64"@ }),
            )
            &&& field(answered, "content"@) == Some(
                JsonView::Text(
                    if valid_utf8(start) { decode_utf8(start) } else { base64_text(start) },
                ),
            )
            &&& content.len() <= wanted <= allowed ==> start == content && field(
                answered,
                "truncated"@,
            ) == Some(JsonView::Bool(false))
        }),
{
    law_requested_bytes_are_granted(wanted, allowed);
    let limit = byte_limit(Some(wanted), allowed);
    let asked = asked_bytes(content_length, limit);
    if asked is Some {
        let last = (limit - 1) as nat;
        assert("bytes=0-"@ + decimal(last) == planned(
            content_length,
            Some(wanted),
            allowed,
        ).range->Some_0);
    }
    assert(body.bytes@ == served(content, asked));
    law_downloads_are_capped_and_flagged(
        bucket,
        key,
        content,
        content_length,
        Some(wanted),
        allowed,
        body,
    );
}

/// Where nothing is said of how much to return, 262144 bytes are meant.
pub proof fn law_default_download(content_length: Option<i64>, max_body_bytes: usize)
    requires
        1 <= max_body_bytes,
    ensures
        planned(content_length, None, max_body_bytes) == planned(
            content_length,
            Some(262_144),
            max_body_bytes,
        ),
{
}

/// Of a body the first bytes are returned, as many as the limit; a range text names the last byte
/// that is asked for; and more than the limit is said to be truncated.
pub proof fn law_cutting(bytes: Seq<u8>, limit: int, count: int, download: DownloadView)
    requires
        0 <= limit,
        1 <= count,
    ensures
        bytes.len() <= limit ==> returned(bytes, limit) == bytes,
        bytes.len() > limit ==> returned(bytes, limit) == bytes.take(limit),
        range_text(Some(count)) == Some("bytes=0-"@ + decimal((count - 1) as nat)),
        range_text(None) is None,
        truncated(download, bytes) == (download.size > download.limit || bytes.len()
            > download.limit),
        served(bytes, None) == bytes,
        served(bytes, Some(count)) == returned(bytes, count),
{
}

/// Bytes that are a text are shown as that text, whose encoding they are; all others in base64.
pub proof fn law_showing(bytes: Seq<u8>, text: Seq<char>)
    ensures
        shown(encode_utf8(text)) == ("utf8"@, text),
        valid_utf8(bytes) ==> shown(bytes).0 == "utf8"@ && encode_utf8(shown(bytes).1) == bytes,
        !valid_utf8(bytes) ==> shown(bytes) == ("base64"@, base64_text(bytes)),
{
    vstd::utf8::encode_utf8_valid_utf8(text);
    vstd::utf8::encode_utf8_decode_utf8(text);
    if valid_utf8(bytes) {
        vstd::utf8::decode_utf8_encode_utf8(bytes);
    }
}

/// What is shown names its encoding and holds its text.
pub proof fn law_contents(text: String)
    ensures
        Content::Utf8(text).encoding() == "utf8"@,
        Content::Base64(text).encoding() == "base64"@,
        Content::Utf8(text).body() == text@,
        Content::Base64(text).body() == text@,
{
}

/// An upload of a text is that text's encoding. An upload in base64 is the bytes that the text
/// decodes to, whether or not they are a text themselves, and fails exactly where the decoding
/// fails. Neither or both are refused.
pub proof fn law_uploads(text: Seq<char>, bytes: Seq<u8>, error: Seq<char>, other: Seq<char>)
    ensures
        uploaded(Some(text), None) == Ok::<Seq<u8>, Seq<char>>(encode_utf8(text)),
        decodes_to(text, bytes) == (base64_bytes(text) == Ok::<Seq<u8>, Seq<char>>(bytes)),
        decodes_to(text, bytes) ==> uploaded(None, Some(text)) == Ok::<Seq<u8>, Seq<char>>(bytes),
        base64_bytes(text) == Err::<Seq<u8>, Seq<char>>(error) ==> uploaded(None, Some(text))
            == Err::<Seq<u8>, Seq<char>>("invalid base64: "@ + error),
        uploaded(None, None) == Err::<Seq<u8>, Seq<char>>(
            "provide exactly one of content or content_base64"@,
        ),
        uploaded(Some(text), Some(other)) == Err::<Seq<u8>, Seq<char>>(
            "provide exactly one of content or content_base64"@,
        ),
{
}

/// What is uploaded is stored exactly where it is no larger than the limit; else both sizes are
/// named.
pub proof fn law_storing(
    content: Option<Seq<char>>,
    content_base64: Option<Seq<char>>,
    limit: nat,
)
    ensures
        match uploaded(content, content_base64) {
            Ok(bytes) => stored(content, content_base64, limit) == if bytes.len() <= limit {
                Ok::<Seq<u8>, Seq<char>>(bytes)
            } else {
                Err::<Seq<u8>, Seq<char>>(
                    "body of "@ + decimal(bytes.len()) + " bytes exceeds the "@ + decimal(limit)
                        + " byte limit"@,
                )
            },
            Err(error) => stored(content, content_base64, limit) == Err::<Seq<u8>, Seq<char>>(
                error,
            ),
        },
{
}

/// A body that was stored reads back: a download that may return as much shows the text that was
/// uploaded, not truncated.
pub proof fn law_stored_text_downloads(
    bucket: Seq<char>,
    key: Seq<char>,
    text: Seq<char>,
    wanted: i64,
    allowed: usize,
    body: ObjectBody,
)
    requires
        stored(Some(text), None, allowed as nat) == Ok::<Seq<u8>, Seq<char>>(body.bytes@),
        body.bytes@.len() <= wanted <= allowed,
        1 <= allowed,
        body.bytes@.len() <= i64::MAX,
    ensures
        ({
            let answered = body_json(
                bucket,
                key,
                planned(Some(body.bytes@.len() as i64), Some(wanted), allowed),
                body,
            );
            &&& field(answered, "encoding"@) == Some(JsonView::Text("utf8"@))
            &&& field(answered, "content"@) == Some(JsonView::Text(text))
            &&& field(answered, "truncated"@) == Some(JsonView::Bool(false))
        }),
{
    law_downloads_return_what_is_asked_for(
        bucket,
        key,
        body.bytes@,
        Some(body.bytes@.len() as i64),
        wanted,
        allowed,
        body,
    );
    law_uploads(text, body.bytes@, text, text);
    vstd::utf8::encode_utf8_valid_utf8(text);
    vstd::utf8::encode_utf8_decode_utf8(text);
}

/// A request about an object names the chosen bucket and the key, and fails exactly where no
/// bucket is chosen.
pub proof fn law_object_requests(
    result: Result<ObjectRequest, ToolError>,
    bucket: Seq<char>,
    key: Seq<char>,
    config: Config,
)
    requires
        object_request(result, bucket, key, config),
    ensures
        match chosen_bucket(bucket, config.bucket_prefix@) {
            Ok(name) => result matches Ok(request) && request.bucket@ == name && request.key@
                == key,
            Err(message) => result matches Err(error) && error.message@ == message,
        },
{
}

/// A request for a page asks for as many keys as are wanted, between 1 and 1000, or for 100; the
/// prefix and the token are handed on.
pub proof fn law_page_requests(
    tool: ListObjectsTool,
    config: Config,
    result: Result<ListObjectsRequest, ToolError>,
)
    requires
        tool.asks(config, result),
    ensures
        match chosen_bucket(tool.bucket@, config.bucket_prefix@) {
            Ok(name) => result matches Ok(request) && {
                &&& request.bucket@ == name
                &&& optional(request.prefix) == optional(tool.prefix)
                &&& optional(request.continuation_token) == optional(tool.continuation_token)
                &&& match tool.max_keys {
                    Some(wanted) => request.max_keys == if wanted < 1 {
                        1
                    } else if wanted > 1000 {
                        1000
                    } else {
                        wanted as int
                    },
                    None => request.max_keys == 100,
                }
            },
            Err(message) => result matches Err(error) && error.message@ == message,
        },
{
}

/// A request to store holds the uploaded bytes, whole, under the key that is given, and comes
/// about exactly where a bucket is chosen and the upload is good and not too large.
pub proof fn law_store_requests(
    tool: PutObjectTool,
    config: Config,
    result: Result<PutObjectRequest, ToolError>,
)
    requires
        tool.asks(config, result),
    ensures
        match chosen_bucket(tool.bucket@, config.bucket_prefix@) {
            Ok(name) => match uploaded(optional(tool.content), optional(tool.content_base64)) {
                Ok(bytes) => if bytes.len() <= config.max_body_bytes {
                    result matches Ok(request) && request.bucket@ == name && request.key@
                        == tool.key@ && request.body@ == bytes && optional(request.content_type)
                        == optional(tool.content_type)
                } else {
                    result matches Err(error) && error.message@ == "body of "@ + decimal(
                        bytes.len(),
                    ) + " bytes exceeds the "@ + decimal(config.max_body_bytes as nat)
                        + " byte limit"@
                },
                Err(message) => result matches Err(error) && error.message@ == message,
            },
            Err(message) => result matches Err(error) && error.message@ == message,
        },
{
}

} // verus!

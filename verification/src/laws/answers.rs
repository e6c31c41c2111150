//! What the JSON documents hold, name by name.
use vstd::prelude::*;
use vstd::string::*;
use vstd::utf8::{decode_utf8, valid_utf8};

use crate::config::Config;
use crate::json::{
    field, fields_map, object, optional_number, optional_text, pretty_json, text_array, Json,
    JsonView,
};
use crate::policy::{policy_document, statement_json, StatementView};
use crate::text::optional;
use crate::tools::access::{
    credentials_json, scope_json, url_json, MintedCredentials, PresignMethod, PresignRequest,
};
use crate::tools::buckets::{
    bucket_json, bucket_list_json, created_json, summaries, visible_buckets, BucketSummary,
    BucketSummaryView,
};
use crate::tools::delete_bucket::deleted_json;
use crate::tools::objects::{
    base64_text, body_json, head_json, object_deleted_json, object_json, object_list_json, stored_json,
    DownloadView, ObjectBody, ObjectHead, ObjectPage, ObjectSummary,
};
use crate::tools::{answer, failure, outcome, ToolError};

verus! {

broadcast proof fn lemma_one_field(fields: Seq<(Seq<char>, JsonView)>)
    requires
        fields.len() == 1,
    ensures
        #[trigger] fields_map(fields) == Map::empty().insert(
            fields[0].0,
            fields[0].1,
        ),
{
    assert(fields_map(fields.drop_last()) == Map::<Seq<char>, JsonView>::empty());
}

broadcast proof fn lemma_two_fields(fields: Seq<(Seq<char>, JsonView)>)
    requires
        fields.len() == 2,
    ensures
        #[trigger] fields_map(fields) == Map::empty().insert(
            fields[0].0,
            fields[0].1,
        ).insert(
            fields[1].0,
            fields[1].1,
        ),
{
    lemma_one_field(fields.drop_last());
}

broadcast proof fn lemma_three_fields(fields: Seq<(Seq<char>, JsonView)>)
    requires
        fields.len() == 3,
    ensures
        #[trigger] fields_map(fields) == Map::empty().insert(
            fields[0].0,
            fields[0].1,
        ).insert(
            fields[1].0,
            fields[1].1,
        ).insert(
            fields[2].0,
            fields[2].1,
        ),
{
    lemma_two_fields(fields.drop_last());
}

broadcast proof fn lemma_four_fields(fields: Seq<(Seq<char>, JsonView)>)
    requires
        fields.len() == 4,
    ensures
        #[trigger] fields_map(fields) == Map::empty().insert(
            fields[0].0,
            fields[0].1,
        ).insert(
            fields[1].0,
            fields[1].1,
        ).insert(
            fields[2].0,
            fields[2].1,
        ).insert(
            fields[3].0,
            fields[3].1,
        ),
{
    lemma_three_fields(fields.drop_last());
}

broadcast proof fn lemma_five_fields(fields: Seq<(Seq<char>, JsonView)>)
    requires
        fields.len() == 5,
    ensures
        #[trigger] fields_map(fields) == Map::empty().insert(
            fields[0].0,
            fields[0].1,
        ).insert(
            fields[1].0,
            fields[1].1,
        ).insert(
            fields[2].0,
            fields[2].1,
        ).insert(
            fields[3].0,
            fields[3].1,
        ).insert(
            fields[4].0,
            fields[4].1,
        ),
{
    lemma_four_fields(fields.drop_last());
}

broadcast proof fn lemma_six_fields(fields: Seq<(Seq<char>, JsonView)>)
    requires
        fields.len() == 6,
    ensures
        #[trigger] fields_map(fields) == Map::empty().insert(
            fields[0].0,
            fields[0].1,
        ).insert(
            fields[1].0,
            fields[1].1,
        ).insert(
            fields[2].0,
            fields[2].1,
        ).insert(
            fields[3].0,
            fields[3].1,
        ).insert(
            fields[4].0,
            fields[4].1,
        ).insert(
            fields[5].0,
            fields[5].1,
        ),
{
    lemma_five_fields(fields.drop_last());
}

broadcast proof fn lemma_seven_fields(fields: Seq<(Seq<char>, JsonView)>)
    requires
        fields.len() == 7,
    ensures
        #[trigger] fields_map(fields) == Map::empty().insert(
            fields[0].0,
            fields[0].1,
        ).insert(
            fields[1].0,
            fields[1].1,
        ).insert(
            fields[2].0,
            fields[2].1,
        ).insert(
            fields[3].0,
            fields[3].1,
        ).insert(
            fields[4].0,
            fields[4].1,
        ).insert(
            fields[5].0,
            fields[5].1,
        ).insert(
            fields[6].0,
            fields[6].1,
        ),
{
    lemma_six_fields(fields.drop_last());
}

broadcast proof fn lemma_eight_fields(fields: Seq<(Seq<char>, JsonView)>)
    requires
        fields.len() == 8,
    ensures
        #[trigger] fields_map(fields) == Map::empty().insert(
            fields[0].0,
            fields[0].1,
        ).insert(
            fields[1].0,
            fields[1].1,
        ).insert(
            fields[2].0,
            fields[2].1,
        ).insert(
            fields[3].0,
            fields[3].1,
        ).insert(
            fields[4].0,
            fields[4].1,
        ).insert(
            fields[5].0,
            fields[5].1,
        ).insert(
            fields[6].0,
            fields[6].1,
        ).insert(
            fields[7].0,
            fields[7].1,
        ),
{
    lemma_seven_fields(fields.drop_last());
}

broadcast proof fn lemma_nine_fields(fields: Seq<(Seq<char>, JsonView)>)
    requires
        fields.len() == 9,
    ensures
        #[trigger] fields_map(fields) == Map::empty().insert(
            fields[0].0,
            fields[0].1,
        ).insert(
            fields[1].0,
            fields[1].1,
        ).insert(
            fields[2].0,
            fields[2].1,
        ).insert(
            fields[3].0,
            fields[3].1,
        ).insert(
            fields[4].0,
            fields[4].1,
        ).insert(
            fields[5].0,
            fields[5].1,
        ).insert(
            fields[6].0,
            fields[6].1,
        ).insert(
            fields[7].0,
            fields[7].1,
        ).insert(
            fields[8].0,
            fields[8].1,
        ),
{
    lemma_eight_fields(fields.drop_last());
}

broadcast group group_fields {
    lemma_one_field,
    lemma_two_fields,
    lemma_three_fields,
    lemma_four_fields,
    lemma_five_fields,
    lemma_six_fields,
    lemma_seven_fields,
    lemma_eight_fields,
    lemma_nine_fields,
}

/// A JSON value is what it was made of.
pub proof fn law_plain_values(truth: bool, signed: i64, unsigned: u64, text: String)
    ensures
        Json::Null@ == JsonView::Null,
        Json::Bool(truth)@ == JsonView::Bool(truth),
        Json::Signed(signed)@ == JsonView::Number(signed as int),
        Json::Unsigned(unsigned)@ == JsonView::Number(unsigned as int),
        Json::Text(text)@ == JsonView::Text(text@),
{
}

/// An array holds its items, in order.
pub proof fn law_arrays(items: Vec<Json>)
    ensures
        Json::Array(items)@ matches JsonView::Array(values) && values.len() == items@.len() && (
        forall|i: int| 0 <= i < values.len() ==> #[trigger] values[i] == items@[i]@),
{
}

/// An object holds the value of every one of its fields, the last where several have one name,
/// and nothing else.
pub proof fn law_objects(fields: Vec<(String, Json)>, name: Seq<char>)
    ensures
        forall|i: int|
            0 <= i < fields@.len() && (#[trigger] fields@[i]).0@ == name && (forall|j: int|
                i < j < fields@.len() ==> (#[trigger] fields@[j]).0@ != name) ==> field(
                Json::Object(fields)@,
                name,
            ) == Some(fields@[i].1@),
        (forall|i: int| 0 <= i < fields@.len() ==> (#[trigger] fields@[i]).0@ != name) ==> field(
            Json::Object(fields)@,
            name,
        ) is None,
{
    let listed = crate::json::fields_view(fields@);
    assert forall|i: int|
        0 <= i < fields@.len() && (#[trigger] fields@[i]).0@ == name && (forall|j: int|
            i < j < fields@.len() ==> (#[trigger] fields@[j]).0@ != name) implies field(
        Json::Object(fields)@,
        name,
    ) == Some(fields@[i].1@) by {
        assert forall|j: int| i < j < listed.len() implies (#[trigger] listed[j]).0
            != listed[i].0 by {
            assert(fields@[j].0@ != name);
        }
        crate::json::lemma_field(listed, i);
    }
    if forall|i: int| 0 <= i < fields@.len() ==> (#[trigger] fields@[i]).0@ != name {
        assert forall|i: int| 0 <= i < listed.len() implies (#[trigger] listed[i]).0 != name by {
            assert(fields@[i].0@ != name);
        }
        lemma_no_such_field(listed, name);
    }
}

proof fn lemma_no_such_field(fields: Seq<(Seq<char>, JsonView)>, name: Seq<char>)
    requires
        forall|i: int| 0 <= i < fields.len() ==> (#[trigger] fields[i]).0 != name,
    ensures
        !fields_map(fields).dom().contains(name),
    decreases fields.len(),
{
    if fields.len() > 0 {
        lemma_no_such_field(fields.drop_last(), name);
        assert(fields[fields.len() - 1].0 != name);
    }
}

/// A field of an object is what the object maps its name to; nothing else has fields.
pub proof fn law_fields(entries: Map<Seq<char>, JsonView>, name: Seq<char>, value: JsonView)
    ensures
        entries.dom().contains(name) ==> field(JsonView::Object(entries), name) == Some(
            entries[name],
        ),
        !entries.dom().contains(name) ==> field(JsonView::Object(entries), name) is None,
        !(value is Object) ==> field(value, name) is None,
        object(Seq::empty()) == JsonView::Object(Map::empty()),
{
}

/// What may be missing is null where it is.
pub proof fn law_missing_values_are_null(text: Seq<char>, number: i64)
    ensures
        optional_text(Some(text)) == JsonView::Text(text),
        optional_text(None) == JsonView::Null,
        optional_number(Some(number)) == JsonView::Number(number as int),
        optional_number(None) == JsonView::Null,
{
}

/// A list of texts is the array of those texts, in order.
pub proof fn law_text_arrays(items: Seq<Seq<char>>)
    ensures
        text_array(items) matches JsonView::Array(values) && values.len() == items.len() && (
        forall|i: int| 0 <= i < values.len() ==> #[trigger] values[i] == JsonView::Text(items[i])),
{
}

/// An answer is the pretty text of its content; a failure names the operation and the error; what
/// a tool gives back is its text or its message.
pub proof fn law_answers_and_failures(
    content: JsonView,
    operation: Seq<char>,
    error: Seq<char>,
    text: String,
    failed: ToolError,
)
    ensures
        answer(content) == Ok::<Seq<char>, Seq<char>>(pretty_json(content)),
        failure(operation, error) == operation + " failed: "@ + error,
        failed@ == failed.message@,
        outcome(Ok(text)) == Ok::<Seq<char>, Seq<char>>(text@),
        outcome(Err(failed)) == Err::<Seq<char>, Seq<char>>(failed.message@),
{
}

/// A permission in a policy names its effect, its actions and its resources.
pub proof fn law_statements_in_a_policy(statement: StatementView)
    ensures
        statement_json(statement) == JsonView::Object(
            map![
                "Effect"@ => JsonView::Text("Allow"@),
                "Action"@ => text_array(statement.actions),
                "Resource"@ => text_array(statement.resources),
            ],
        ),
{
    broadcast use group_fields;

}

/// A policy has its version and every one of its permissions, in order, and nothing else.
pub proof fn law_policies_hold_their_statements(statements: Seq<StatementView>)
    ensures
        exists|listed: Seq<JsonView>|
            #![trigger listed.len()]
            policy_document(statements) == JsonView::Object(
                map![
                    "Version"@ => JsonView::Text("2012-10-17"@),
                    "Statement"@ => JsonView::Array(listed),
                ],
            ) && listed.len() == statements.len() && (forall|i: int|
                0 <= i < listed.len() ==> #[trigger] listed[i] == statement_json(statements[i])),
{
    broadcast use group_fields;

    let listed = statements.map_values(|statement: StatementView| statement_json(statement));
    assert(listed.len() == statements.len());
}

/// A listed bucket shows its name, empty where there is none, and its date.
pub proof fn law_bucket_answer(bucket: BucketSummary)
    ensures
        bucket@.name == optional(bucket.name),
        bucket@.creation_date == optional(bucket.creation_date),
        bucket@.shown_name() == (match bucket.name {
            Some(name) => name@,
            None => Seq::empty(),
        }),
        bucket_json(bucket@) == JsonView::Object(
            map![
                "name"@ => JsonView::Text(match bucket.name {
                    Some(name) => name@,
                    None => Seq::empty(),
                }),
                "creation_date"@ => optional_text(optional(bucket.creation_date)),
            ],
        ),
{
    broadcast use group_fields;

}

/// The listing shows the prefix and the visible buckets, in order.
pub proof fn law_bucket_listing_answer(
    buckets: Seq<BucketSummaryView>,
    prefix: Seq<char>,
)
    ensures
        exists|listed: Seq<JsonView>|
            #![trigger listed.len()]
            bucket_list_json(buckets, prefix) == JsonView::Object(
                map![
                    "prefix"@ => JsonView::Text(prefix),
                    "buckets"@ => JsonView::Array(listed),
                ],
            ) && listed.len() == visible_buckets(buckets, prefix).len() && (forall|i: int|
                0 <= i < listed.len() ==> #[trigger] listed[i] == bucket_json(
                    visible_buckets(buckets, prefix)[i],
                )),
{
    broadcast use group_fields;

    let listed = visible_buckets(buckets, prefix).map_values(
        |bucket: BucketSummaryView| bucket_json(bucket),
    );
    assert(listed.len() == visible_buckets(buckets, prefix).len());
}

/// The buckets of a listing are those that the service lists, in order.
pub proof fn law_listed_buckets(buckets: Seq<BucketSummary>)
    ensures
        summaries(buckets).len() == buckets.len(),
        forall|i: int| 0 <= i < buckets.len() ==> #[trigger] summaries(buckets)[i] == buckets[i]@,
{
}

/// The answer to a creation shows the bucket and its retention.
pub proof fn law_created_answer(bucket: Seq<char>, retention: Seq<char>)
    ensures
        created_json(bucket, retention) == JsonView::Object(
            map![
                "bucket"@ => JsonView::Text(bucket),
                "retention"@ => JsonView::Text(retention),
            ],
        ),
{
    broadcast use group_fields;

}

/// The answer to the deletion of a bucket shows the bucket and how many objects went with it.
pub proof fn law_deleted_answer(bucket: Seq<char>, deleted: int)
    ensures
        deleted_json(bucket, deleted) == JsonView::Object(
            map![
                "bucket"@ => JsonView::Text(bucket),
                "objects_deleted"@ => JsonView::Number(deleted),
            ],
        ),
{
    broadcast use group_fields;

}

/// A listed object shows its key, size, tag and date.
pub proof fn law_object_answer(summary: ObjectSummary)
    ensures
        object_json(summary) == JsonView::Object(
            map![
                "key"@ => optional_text(optional(summary.key)),
                "size"@ => optional_number(summary.size),
                "etag"@ => optional_text(optional(summary.etag)),
                "last_modified"@ => optional_text(optional(summary.last_modified)),
            ],
        ),
{
    broadcast use group_fields;

}

/// A page of objects shows every object of the page, in order, and how the listing goes on.
pub proof fn law_object_listing_answer(bucket: Seq<char>, page: ObjectPage)
    ensures
        exists|listed: Seq<JsonView>|
            #![trigger listed.len()]
            object_list_json(bucket, page) == JsonView::Object(
                map![
                    "bucket"@ => JsonView::Text(bucket),
                    "objects"@ => JsonView::Array(listed),
                    "is_truncated"@ => JsonView::Bool(page.is_truncated == Some(true)),
                    "next_continuation_token"@ => optional_text(
                        optional(page.next_continuation_token),
                    ),
                ],
            ) && listed.len() == page.objects@.len() && (forall|i: int|
                0 <= i < listed.len() ==> #[trigger] listed[i] == object_json(page.objects@[i])),
{
    broadcast use group_fields;

    let listed = page.objects@.map_values(|summary: ObjectSummary| object_json(summary));
    assert(listed.len() == page.objects@.len());
}

/// The metadata of an object are shown as the service gives them.
pub proof fn law_head_answer(bucket: Seq<char>, key: Seq<char>, head: ObjectHead)
    ensures
        head_json(bucket, key, head) == JsonView::Object(
            map![
                "bucket"@ => JsonView::Text(bucket),
                "key"@ => JsonView::Text(key),
                "size"@ => optional_number(head.content_length),
                "etag"@ => optional_text(optional(head.etag)),
                "content_type"@ => optional_text(optional(head.content_type)),
                "last_modified"@ => optional_text(optional(head.last_modified)),
            ],
        ),
{
    broadcast use group_fields;

}

/// A downloaded object is shown with where it is from, its stated size, its type and its tag. Of
/// its bytes no more than the limit are shown, as a text where they are one and else in base64,
/// and it is said whether there are more.
pub proof fn law_body_answer(
    bucket: Seq<char>,
    key: Seq<char>,
    download: DownloadView,
    body: ObjectBody,
)
    ensures
        ({
            let start = if body.bytes@.len() > download.limit {
                body.bytes@.take(download.limit)
            } else {
                body.bytes@
            };
            body_json(bucket, key, download, body) == JsonView::Object(
                map![
                    "bucket"@ => JsonView::Text(bucket),
                    "key"@ => JsonView::Text(key),
                    "encoding"@ => JsonView::Text(
                        if valid_utf8(start) { "utf8"@ } else { "base64"@ },
                    ),
                    "content"@ => JsonView::Text(
                        if valid_utf8(start) { decode_utf8(start) } else { base64_text(start) },
                    ),
                    "size"@ => JsonView::Number(download.size),
                    "returned_bytes"@ => JsonView::Number(start.len() as int),
                    "truncated"@ => JsonView::Bool(
                        download.size > download.limit || body.bytes@.len() > download.limit,
                    ),
                    "content_type"@ => optional_text(optional(body.content_type)),
                    "etag"@ => optional_text(optional(body.etag)),
                ],
            )
        }),
{
    broadcast use group_fields;

}

/// An upload is shown with where it went, its size and the tag that it got.
pub proof fn law_stored_answer(
    bucket: Seq<char>,
    key: Seq<char>,
    size: nat,
    etag: Option<Seq<char>>,
)
    ensures
        stored_json(bucket, key, size, etag) == JsonView::Object(
            map![
                "bucket"@ => JsonView::Text(bucket),
                "key"@ => JsonView::Text(key),
                "size"@ => JsonView::Number(size as int),
                "etag"@ => optional_text(etag),
            ],
        ),
{
    broadcast use group_fields;

}

/// The deletion of an object shows the object and that it is gone.
pub proof fn law_object_deleted_answer(bucket: Seq<char>, key: Seq<char>)
    ensures
        object_deleted_json(bucket, key) == JsonView::Object(
            map![
                "bucket"@ => JsonView::Text(bucket),
                "key"@ => JsonView::Text(key),
                "deleted"@ => JsonView::Bool(true),
            ],
        ),
{
    broadcast use group_fields;

}

/// A URL is shown with what it is for and how long it lasts.
pub proof fn law_url_answer(request: PresignRequest, url: Seq<char>)
    ensures
        url_json(request, url) == JsonView::Object(
            map![
                "bucket"@ => JsonView::Text(request.bucket@),
                "key"@ => JsonView::Text(request.key@),
                "method"@ => JsonView::Text(match request.method {
                    PresignMethod::Get => "get"@,
                    PresignMethod::Put => "put"@,
                }),
                "url"@ => JsonView::Text(url),
                "ttl_seconds"@ => JsonView::Number(request.ttl_seconds as int),
            ],
        ),
{
    broadcast use group_fields;

}

/// The scope of credentials is shown as the list of buckets, or as the pattern of the namespace.
pub proof fn law_scope_answer(buckets: Seq<Seq<char>>, prefix: Seq<char>)
    ensures
        scope_json(Some(buckets), prefix) == JsonView::Object(
            map!["buckets"@ => text_array(buckets)],
        ),
        scope_json(None, prefix) == JsonView::Object(
            map!["prefix"@ => JsonView::Text(prefix.push('*'))],
        ),
{
    broadcast use group_fields;

    reveal_strlit("*");
    assert(prefix + "*"@ =~= prefix.push('*'));
}

/// Credentials are shown as the service minted them, with where and for what they can be used.
pub proof fn law_credentials_answer(
    config: Config,
    scope: Option<Seq<Seq<char>>>,
    credentials: MintedCredentials,
)
    ensures
        credentials_json(config, scope, credentials) == JsonView::Object(
            map![
                "endpoint"@ => JsonView::Text(config.endpoint@),
                "region"@ => JsonView::Text(config.region@),
                "access_key_id"@ => JsonView::Text(credentials.access_key_id@),
                "secret_access_key"@ => JsonView::Text(credentials.secret_access_key@),
                "session_token"@ => JsonView::Text(credentials.session_token@),
                "expires_at"@ => JsonView::Text(credentials.expires_at@),
                "scope"@ => scope_json(scope, config.bucket_prefix@),
                "note"@ => JsonView::Text(
                    "credentials expire on their own; use AWS_SESSION_TOKEN alongside the key pair"@,
                ),
            ],
        ),
{
    broadcast use group_fields;

}

} // verus!

//! What the tools for buckets, URLs and credentials ask for.
use vstd::prelude::*;
use vstd::string::*;

use crate::config::Config;
use crate::json::compact_json;
use crate::policy::{
    policy_document, random_uuid_form, session_statements, TestBucketName,
};
use crate::text::{begins_with, debug_text, signed_decimal, texts};
use crate::tools::access::{
    method_name, named_method, optional_texts, resolved, scope_of, session_name_form, url_lifetime,
    validity_seconds, wanted_method, MintCredentialsTool, MintRequest, PresignMethod,
    PresignRequest, PresignUrlTool,
};
use crate::tools::buckets::{
    as_sent, retention_note, retention_rule, visible_buckets, waits, BucketSummaryView,
    CreateBucketTool, RetentionOutcome, RetentionRule, RetentionStep,
};
use crate::tools::call::{asks_about, begun, PendingCall, ToolCall};
use crate::tools::objects::object_request;
use crate::tools::{chosen_bucket, ToolError};

verus! {

/// A URL is asked for the chosen bucket, the given key and the given method, which is `get` where
/// none is given. It lasts as long as is asked for, between a minute and a week, or an hour.
pub proof fn law_url_requests(
    tool: PresignUrlTool,
    config: Config,
    result: Result<PresignRequest, ToolError>,
)
    requires
        tool.asks(config, result),
    ensures
        match chosen_bucket(tool.bucket@, config.bucket_prefix@) {
            Ok(name) => if tool.method is None || tool.method->Some_0@ == "get"@
                || tool.method->Some_0@ == "put"@ {
                result matches Ok(request) && {
                    &&& request.bucket@ == name
                    &&& request.key@ == tool.key@
                    &&& tool.method is None ==> request.method is Get
                    &&& tool.method matches Some(method) ==> (method@ == "get"@
                        ==> request.method is Get)
                    &&& tool.method matches Some(method) ==> (method@ == "put"@
                        ==> request.method is Put)
                    &&& tool.ttl_seconds is None ==> request.ttl_seconds == 3600
                    &&& tool.ttl_seconds matches Some(seconds) ==> request.ttl_seconds == (
                    if seconds < 60 {
                        60
                    } else if seconds > 604_800 {
                        604_800
                    } else {
                        seconds as int
                    })
                    &&& validity_seconds(request.window) == request.ttl_seconds
                }
            } else {
                result matches Err(error) && error.message@
                    == "method must be \"get\" or \"put\", not "@ + debug_text(
                    tool.method->Some_0@,
                )
            },
            Err(message) => result matches Err(error) && error.message@ == message,
        },
{
    reveal_strlit("get");
    reveal_strlit("put");
    assert("get"@[0] != "put"@[0]);
}

/// A method and its name stand for each other, and no other name stands for a method.
pub proof fn law_method_names(method: PresignMethod, name: Seq<char>, given: String)
    ensures
        method_name(PresignMethod::Get) == "get"@,
        method_name(PresignMethod::Put) == "put"@,
        named_method(method_name(method)) == Ok::<PresignMethod, Seq<char>>(method),
        named_method(name) matches Ok(named) ==> method_name(named) == name,
        named_method(name) matches Err(message) ==> message
            == "method must be \"get\" or \"put\", not "@ + debug_text(name),
        wanted_method(Some(given)) == given@,
        wanted_method(None) == "get"@,
{
    reveal_strlit("get");
    reveal_strlit("put");
    assert("get"@[0] != "put"@[0]);
}

/// A URL lasts as long as is asked for, between a minute and a week; an hour where nothing is.
pub proof fn law_url_lifetimes(seconds: i64)
    ensures
        60 <= seconds <= 604_800 ==> url_lifetime(Some(seconds)) == seconds,
        seconds < 60 ==> url_lifetime(Some(seconds)) == 60,
        seconds > 604_800 ==> url_lifetime(Some(seconds)) == 604_800,
        url_lifetime(None) == 3600,
{
}

/// Credentials last exactly as many minutes as are asked for, from 15 to 720, and an hour where
/// nothing is said; no other lifetime is granted.
pub proof fn law_credentials_last_as_long_as_asked(
    tool: MintCredentialsTool,
    config: Config,
    result: Result<MintRequest, ToolError>,
)
    requires
        tool.asks(config, result),
    ensures
        ({
            let minutes = match tool.ttl_minutes {
                Some(minutes) => minutes,
                None => 60,
            };
            &&& result matches Ok(request) ==> 15 <= minutes <= 720 && request.duration_seconds
                == 60 * minutes
            &&& (minutes < 15 || minutes > 720) ==> (result matches Err(error)
                && error.message@ == "ttl_minutes must be between 15 and 720"@)
        }),
{
}

/// Two requests for credentials that differ in their lifetimes alone ask for the same rights, and
/// a longer lifetime by a minute lasts sixty seconds longer.
pub proof fn law_a_minute_more_is_a_minute_more(
    tool: MintCredentialsTool,
    longer: MintCredentialsTool,
    config: Config,
    request: MintRequest,
    later: MintRequest,
)
    requires
        tool.asks(config, Ok(request)),
        longer.asks(config, Ok(later)),
        longer.buckets == tool.buckets,
        tool.ttl_minutes is Some && longer.ttl_minutes is Some,
        longer.ttl_minutes->Some_0 == tool.ttl_minutes->Some_0 + 1,
    ensures
        later.duration_seconds == request.duration_seconds + 60,
        later.policy@ == request.policy@,
        later.role_arn@ == request.role_arn@,
{
}

/// Credentials are for every bucket that is named, in order, by its full name; for the whole
/// namespace where none is named. They carry the policy for that scope, the role, and a session
/// name with a random part. They are refused exactly where the lifetime or a bucket is.
pub proof fn law_credentials_cover_what_is_named(
    tool: MintCredentialsTool,
    config: Config,
    result: Result<MintRequest, ToolError>,
)
    requires
        tool.asks(config, result),
    ensures
        result matches Ok(request) ==> {
            let scope = match request.scope {
                Some(names) => Some(texts(names@)),
                None => None,
            };
            &&& request.role_arn@ == "arn:aws:iam:::role/agent-mcp"@
            &&& begins_with(request.session_name@, "agent-mcp-"@)
            &&& random_uuid_form(request.session_name@.skip(10))
            &&& request.policy@ == compact_json(
                policy_document(session_statements(scope, config.bucket_prefix@)),
            )
            &&& tool.buckets is None ==> request.scope is None
            &&& tool.buckets matches Some(names) ==> (names@.len() == 0 ==> request.scope is None)
            &&& tool.buckets matches Some(names) ==> (names@.len() > 0 ==> (
            request.scope matches Some(given) && given@.len() == names@.len() && forall|i: int|
                0 <= i < names@.len() ==> chosen_bucket(names@[i]@, config.bucket_prefix@) == Ok::<
                    Seq<char>,
                    Seq<char>,
                >(#[trigger] texts(given@)[i])))
        },
        result matches Err(error) ==> ({
            ||| tool.ttl_minutes matches Some(minutes) && (minutes < 15 || minutes > 720)
            ||| tool.buckets matches Some(names) && exists|i: int|
                0 <= i < names@.len() && chosen_bucket(
                    (#[trigger] names@[i])@,
                    config.bucket_prefix@,
                ) == Err::<Seq<char>, Seq<char>>(error.message@)
        }),
{
    reveal_strlit("agent-mcp-");
    if let Some(names) = tool.buckets {
        lemma_resolved(texts(names@), config.bucket_prefix@);
        if let Err(error) = result {
            let minutes = match tool.ttl_minutes {
                Some(minutes) => minutes,
                None => 60,
            };
            if 15 <= minutes <= 720 {
                let i = choose|i: int|
                    0 <= i < names@.len() && chosen_bucket(
                        #[trigger] texts(names@)[i],
                        config.bucket_prefix@,
                    ) == Err::<Seq<char>, Seq<char>>(error.message@);
                assert(chosen_bucket(names@[i]@, config.bucket_prefix@) == Err::<
                    Seq<char>,
                    Seq<char>,
                >(error.message@));
            }
        }
        if let Ok(request) = result {
            if let Some(given) = request.scope {
                assert forall|i: int| 0 <= i < names@.len() implies chosen_bucket(
                    names@[i]@,
                    config.bucket_prefix@,
                ) == Ok::<Seq<char>, Seq<char>>(#[trigger] texts(given@)[i]) by {
                    assert(texts(names@)[i] == names@[i]@);
                    assert(resolved(texts(names@), config.bucket_prefix@)->Ok_0 == texts(given@));
                }
            }
        }
    }
}

/// The names are resolved one by one, and refused with the first that is turned down.
pub proof fn law_names_are_resolved_in_order(names: Seq<Seq<char>>, prefix: Seq<char>)
    ensures
        match resolved(names, prefix) {
            Ok(buckets) => buckets.len() == names.len() && forall|i: int|
                0 <= i < names.len() ==> chosen_bucket(names[i], prefix) == Ok::<
                    Seq<char>,
                    Seq<char>,
                >(#[trigger] buckets[i]),
            Err(message) => exists|i: int|
                0 <= i < names.len() && chosen_bucket(#[trigger] names[i], prefix) == Err::<
                    Seq<char>,
                    Seq<char>,
                >(message) && forall|j: int|
                    0 <= j < i ==> chosen_bucket(#[trigger] names[j], prefix) is Ok,
        },
{
    lemma_resolved(names, prefix);
}

proof fn lemma_resolved(names: Seq<Seq<char>>, prefix: Seq<char>)
    ensures
        match resolved(names, prefix) {
            Ok(buckets) => buckets.len() == names.len() && forall|i: int|
                0 <= i < names.len() ==> chosen_bucket(names[i], prefix) == Ok::<
                    Seq<char>,
                    Seq<char>,
                >(#[trigger] buckets[i]),
            Err(message) => exists|i: int|
                0 <= i < names.len() && chosen_bucket(#[trigger] names[i], prefix) == Err::<
                    Seq<char>,
                    Seq<char>,
                >(message) && forall|j: int|
                    0 <= j < i ==> chosen_bucket(#[trigger] names[j], prefix) is Ok,
        },
    decreases names.len(),
{
    if names.len() > 0 {
        let front = names.drop_last();
        lemma_resolved(front, prefix);
        match resolved(front, prefix) {
            Ok(before) => {
                assert(forall|j: int|
                    0 <= j < front.len() ==> chosen_bucket(#[trigger] names[j], prefix) is Ok) by {
                    assert forall|j: int| 0 <= j < front.len() implies chosen_bucket(
                        #[trigger] names[j],
                        prefix,
                    ) is Ok by {
                        assert(front[j] == names[j]);
                        assert(chosen_bucket(front[j], prefix) == Ok::<Seq<char>, Seq<char>>(
                            before[j],
                        ));
                    }
                }
                if let Ok(bucket) = chosen_bucket(names.last(), prefix) {
                    let buckets = before.push(bucket);
                    assert forall|i: int| 0 <= i < names.len() implies chosen_bucket(
                        names[i],
                        prefix,
                    ) == Ok::<Seq<char>, Seq<char>>(#[trigger] buckets[i]) by {
                        if i < front.len() {
                            assert(front[i] == names[i]);
                            assert(before[i] == buckets[i]);
                        }
                    }
                } else {
                    assert(names[names.len() - 1] == names.last());
                }
            },
            Err(message) => {
                let i = choose|i: int|
                    0 <= i < front.len() && chosen_bucket(#[trigger] front[i], prefix) == Err::<
                        Seq<char>,
                        Seq<char>,
                    >(message) && forall|j: int|
                        0 <= j < i ==> chosen_bucket(#[trigger] front[j], prefix) is Ok;
                assert(names[i] == front[i]);
                assert forall|j: int| 0 <= j < i implies chosen_bucket(
                    #[trigger] names[j],
                    prefix,
                ) is Ok by {
                    assert(front[j] == names[j]);
                }
            },
        }
    }
}

/// No bucket, or an empty list of them, stands for the whole namespace.
pub proof fn law_scopes(names: Seq<Seq<char>>, prefix: Seq<char>, given: Vec<String>)
    ensures
        scope_of(None, prefix) == Ok::<Option<Seq<Seq<char>>>, Seq<char>>(None),
        names.len() == 0 ==> scope_of(Some(names), prefix) == Ok::<
            Option<Seq<Seq<char>>>,
            Seq<char>,
        >(None),
        names.len() > 0 ==> (match resolved(names, prefix) {
            Ok(buckets) => scope_of(Some(names), prefix) == Ok::<
                Option<Seq<Seq<char>>>,
                Seq<char>,
            >(Some(buckets)),
            Err(message) => scope_of(Some(names), prefix) == Err::<
                Option<Seq<Seq<char>>>,
                Seq<char>,
            >(message),
        }),
        optional_texts(Some(given)) == Some(texts(given@)),
        optional_texts(None) is None,
{
}

/// A session is named after the program, with a random part.
pub proof fn law_session_names(name: Seq<char>)
    ensures
        session_name_form(name) == (name.len() == 42 && begins_with(name, "agent-mcp-"@)
            && random_uuid_form(name.skip(10))),
{
    reveal_strlit("agent-mcp-");
}

/// A bucket is created under the name that is given, by its full name, or under a fresh one.
pub proof fn law_creation_requests(
    tool: CreateBucketTool,
    config: Config,
    result: Result<TestBucketName, ToolError>,
)
    requires
        tool.asks(config, result),
    ensures
        match tool.name {
            Some(name) => match chosen_bucket(name@, config.bucket_prefix@) {
                Ok(full) => result matches Ok(bucket) && bucket@ == full,
                Err(message) => result matches Err(error) && error.message@ == message,
            },
            None => result matches Ok(bucket) && bucket@.len() == config.bucket_prefix@.len() + 32
                && begins_with(bucket@, config.bucket_prefix@) && random_uuid_form(
                bucket@.skip(config.bucket_prefix@.len() as int),
            ),
        },
{
}

/// The rule of a new bucket is in force, covers every key, and expires objects after as many days
/// as it is made for.
pub proof fn law_retention_rules(days: int, step: RetentionStep, bucket: Seq<char>)
    ensures
        retention_rule(days).days == days,
        retention_rule(days).enabled,
        retention_rule(days).key_prefix.len() == 0,
        retention_rule(days).id == "agent-test-retention"@,
        waits(step, bucket, days) ==> {
            &&& step.bucket@ == bucket
            &&& step.rule.days == days
            &&& step.rule.enabled
            &&& step.rule.key_prefix@.len() == 0
            &&& step.rule.id@ == "agent-test-retention"@
        },
{
    reveal_strlit("");
}

/// A rule shows what it says, and is sent as that.
pub proof fn law_rules_are_sent_as_they_are(rule: RetentionRule)
    ensures
        rule@.id == rule.id@,
        rule@.enabled == rule.enabled,
        rule@.key_prefix == rule.key_prefix@,
        rule@.days == rule.days,
        as_sent(rule@).id == rule.id@,
        as_sent(rule@).key_prefix == rule.key_prefix@,
        as_sent(rule@).days == rule.days,
        rule.enabled ==> as_sent(rule@).status == "Enabled"@,
        !rule.enabled ==> as_sent(rule@).status == "Disabled"@,
{
}

/// The note says for how many days the rule is applied, or why it is not.
pub proof fn law_retention_notes(days: int, error: String)
    ensures
        retention_note(days, RetentionOutcome::Applied) == signed_decimal(days)
            + " day lifecycle rule applied"@,
        retention_note(days, RetentionOutcome::Refused(error)) == "lifecycle rule unavailable ("@
            + error@ + "); bucket works, objects will not auto-expire"@,
        retention_note(days, RetentionOutcome::NotBuilt)
            == "lifecycle rule unavailable; bucket works, objects will not auto-expire"@,
{
}

/// A listing shows a bucket exactly where its name begins with the prefix, once for each time that
/// it is listed, and in the order of the listing.
pub proof fn law_visible_buckets(
    buckets: Seq<BucketSummaryView>,
    more: Seq<BucketSummaryView>,
    bucket: BucketSummaryView,
    prefix: Seq<char>,
)
    ensures
        visible_buckets(buckets + more, prefix) == visible_buckets(buckets, prefix)
            + visible_buckets(more, prefix),
        visible_buckets(seq![bucket], prefix) == (if begins_with(
            match bucket.name {
                Some(name) => name,
                None => Seq::empty(),
            },
            prefix,
        ) {
            seq![bucket]
        } else {
            Seq::empty()
        }),
{
    let kept = |bucket: BucketSummaryView| begins_with(bucket.shown_name(), prefix);
    Seq::filter_distributes_over_add(buckets, more, kept);
    reveal(Seq::filter);
    assert(seq![bucket].drop_last() =~= Seq::empty());
    assert(Seq::<BucketSummaryView>::empty().filter(kept) =~= Seq::empty());
    assert(visible_buckets(seq![bucket], prefix) =~= if kept(bucket) {
        seq![bucket]
    } else {
        Seq::empty()
    });
}

/// A call waits with its own tool, and with the request that the tool makes of its arguments; where
/// the tool makes none, the call fails with the tool's error.
pub proof fn law_calls_wait_with_their_own_requests(
    call: ToolCall,
    config: Config,
    result: Result<PendingCall, ToolError>,
)
    requires
        begun(call, config, result),
    ensures
        match call {
            ToolCall::ListBuckets(tool) => result == Ok::<PendingCall, ToolError>(
                PendingCall::ListBuckets(tool),
            ),
            ToolCall::CreateBucket(tool) => match result {
                Ok(pending) => pending matches PendingCall::CreateBucket(same, bucket) && same
                    == tool && tool.asks(config, Ok(bucket)),
                Err(error) => tool.asks(config, Err(error)),
            },
            ToolCall::DeleteBucket(tool) => match result {
                Ok(pending) => pending matches PendingCall::DeleteBucket(step) && tool.asks(
                    config,
                    Ok(step),
                ),
                Err(error) => tool.asks(config, Err(error)),
            },
            ToolCall::ListObjects(tool) => match result {
                Ok(pending) => pending matches PendingCall::ListObjects(same, request) && same
                    == tool && tool.asks(config, Ok(request)),
                Err(error) => tool.asks(config, Err(error)),
            },
            ToolCall::HeadObject(tool) => match result {
                Ok(pending) => pending matches PendingCall::HeadObject(same, request) && same
                    == tool && object_request(Ok(request), tool.bucket@, tool.key@, config),
                Err(error) => object_request(Err(error), tool.bucket@, tool.key@, config),
            },
            ToolCall::GetObject(tool) => match result {
                Ok(pending) => pending matches PendingCall::GetObject(same, request) && same
                    == tool && object_request(Ok(request), tool.bucket@, tool.key@, config),
                Err(error) => object_request(Err(error), tool.bucket@, tool.key@, config),
            },
            ToolCall::PutObject(tool) => match result {
                Ok(pending) => pending matches PendingCall::PutObject(same, request) && same
                    == tool && tool.asks(config, Ok(request)),
                Err(error) => tool.asks(config, Err(error)),
            },
            ToolCall::DeleteObject(tool) => match result {
                Ok(pending) => pending matches PendingCall::DeleteObject(same, request) && same
                    == tool && object_request(Ok(request), tool.bucket@, tool.key@, config),
                Err(error) => object_request(Err(error), tool.bucket@, tool.key@, config),
            },
            ToolCall::PresignUrl(tool) => match result {
                Ok(pending) => pending matches PendingCall::PresignUrl(same, request) && same
                    == tool && tool.asks(config, Ok(request)),
                Err(error) => tool.asks(config, Err(error)),
            },
            ToolCall::MintCredentials(tool) => match result {
                Ok(pending) => pending matches PendingCall::MintCredentials(same, request) && same
                    == tool && tool.asks(config, Ok(request)),
                Err(error) => tool.asks(config, Err(error)),
            },
        },
{
}

/// A call about an object asks about the bucket that its request names.
pub proof fn law_pending_calls_ask_about_their_buckets(pending: PendingCall)
    ensures
        match pending {
            PendingCall::CreateBucket(_, bucket) => asks_about(pending, bucket@),
            PendingCall::ListObjects(_, request) => asks_about(pending, request.bucket@),
            PendingCall::HeadObject(_, request) => asks_about(pending, request.bucket@),
            PendingCall::GetObject(_, request) => asks_about(pending, request.bucket@),
            PendingCall::PutObject(_, request) => asks_about(pending, request.bucket@),
            PendingCall::DeleteObject(_, request) => asks_about(pending, request.bucket@),
            PendingCall::PresignUrl(_, request) => asks_about(pending, request.bucket@),
            _ => true,
        },
{
}

} // verus!

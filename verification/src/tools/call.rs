//! A call of any tool, and what holds of them all: nothing is asked outside the namespace.
use vstd::prelude::*;

use crate::config::Config;
use crate::grants::{
    granted, in_namespace, law_minted_credentials_stay_in_the_namespace, lists_buckets, literal,
};
use crate::json::compact_json;
use crate::policy::{policy_document, session_statements, TestBucketName};
use crate::text::begins_with;
use crate::tools::access::{
    optional_texts, MintCredentialsTool, MintRequest, PresignRequest, PresignUrlTool,
};
use crate::tools::buckets::{waits, CreateBucketTool, ListBucketsTool, RetentionStep};
use crate::tools::delete_bucket::{
    law_deletion_keeps_to_its_bucket, request_bucket, requests, DeleteBucketTool, DeleteStep,
    KeyPageView,
};
use crate::tools::objects::{
    object_request, DeleteObjectTool, GetObjectTool, HeadObjectTool, ListObjectsRequest,
    ListObjectsTool, ObjectRequest, PutObjectRequest, PutObjectTool,
};
use crate::tools::{law_chosen_buckets_are_in_the_namespace, ToolError};

verus! {

/// A call of one of the tools, with its arguments.
#[derive(Debug)]
pub enum ToolCall {
    ListBuckets(ListBucketsTool),
    CreateBucket(CreateBucketTool),
    DeleteBucket(DeleteBucketTool),
    ListObjects(ListObjectsTool),
    HeadObject(HeadObjectTool),
    GetObject(GetObjectTool),
    PutObject(PutObjectTool),
    DeleteObject(DeleteObjectTool),
    PresignUrl(PresignUrlTool),
    MintCredentials(MintCredentialsTool),
}

/// A call that waits for the service, with what the service is asked first.
#[derive(Debug)]
pub enum PendingCall {
    ListBuckets(ListBucketsTool),
    CreateBucket(CreateBucketTool, TestBucketName),
    DeleteBucket(DeleteStep),
    ListObjects(ListObjectsTool, ListObjectsRequest),
    HeadObject(HeadObjectTool, ObjectRequest),
    GetObject(GetObjectTool, ObjectRequest),
    PutObject(PutObjectTool, PutObjectRequest),
    DeleteObject(DeleteObjectTool, ObjectRequest),
    PresignUrl(PresignUrlTool, PresignRequest),
    MintCredentials(MintCredentialsTool, MintRequest),
}

/// What a call comes to before the service is asked anything: the request of its tool, or the
/// error that the tool gives at once.
pub open spec fn begun(
    call: ToolCall,
    config: Config,
    pending: Result<PendingCall, ToolError>,
) -> bool {
    match (call, pending) {
        (ToolCall::ListBuckets(tool), Ok(PendingCall::ListBuckets(same))) => same == tool,
        (ToolCall::CreateBucket(tool), Ok(PendingCall::CreateBucket(same, bucket))) => same == tool
            && tool.asks(config, Ok(bucket)),
        (ToolCall::CreateBucket(tool), Err(error)) => tool.asks(config, Err(error)),
        (ToolCall::DeleteBucket(tool), Ok(PendingCall::DeleteBucket(step))) => tool.asks(
            config,
            Ok(step),
        ),
        (ToolCall::DeleteBucket(tool), Err(error)) => tool.asks(config, Err(error)),
        (ToolCall::ListObjects(tool), Ok(PendingCall::ListObjects(same, request))) => same == tool
            && tool.asks(config, Ok(request)),
        (ToolCall::ListObjects(tool), Err(error)) => tool.asks(config, Err(error)),
        (ToolCall::HeadObject(tool), Ok(PendingCall::HeadObject(same, request))) => same == tool
            && object_request(Ok(request), tool.bucket@, tool.key@, config),
        (ToolCall::HeadObject(tool), Err(error)) => object_request(Err(error), tool.bucket@, tool.key@, config),
        (ToolCall::GetObject(tool), Ok(PendingCall::GetObject(same, request))) => same == tool
            && object_request(Ok(request), tool.bucket@, tool.key@, config),
        (ToolCall::GetObject(tool), Err(error)) => object_request(Err(error), tool.bucket@, tool.key@, config),
        (ToolCall::PutObject(tool), Ok(PendingCall::PutObject(same, request))) => same == tool
            && tool.asks(config, Ok(request)),
        (ToolCall::PutObject(tool), Err(error)) => tool.asks(config, Err(error)),
        (ToolCall::DeleteObject(tool), Ok(PendingCall::DeleteObject(same, request))) => same == tool
            && object_request(Ok(request), tool.bucket@, tool.key@, config),
        (ToolCall::DeleteObject(tool), Err(error)) => object_request(Err(error), tool.bucket@, tool.key@, config),
        (ToolCall::PresignUrl(tool), Ok(PendingCall::PresignUrl(same, request))) => same == tool
            && tool.asks(config, Ok(request)),
        (ToolCall::PresignUrl(tool), Err(error)) => tool.asks(config, Err(error)),
        (ToolCall::MintCredentials(tool), Ok(PendingCall::MintCredentials(same, request))) => same == tool
            && tool.asks(config, Ok(request)),
        (ToolCall::MintCredentials(tool), Err(error)) => tool.asks(config, Err(error)),
        _ => false,
    }
}

impl ToolCall {
    /// Turns the call into what the service is to be asked first.
    pub fn begin(self, config: &Config) -> (pending: Result<PendingCall, ToolError>)
        ensures
            begun(self, *config, pending),
    {
        match self {
            ToolCall::ListBuckets(tool) => Ok(PendingCall::ListBuckets(tool)),
            ToolCall::CreateBucket(tool) => match tool.request(config) {
                Ok(bucket) => Ok(PendingCall::CreateBucket(tool, bucket)),
                Err(error) => Err(error),
            },
            ToolCall::DeleteBucket(tool) => match tool.begin(config) {
                Ok(step) => Ok(PendingCall::DeleteBucket(step)),
                Err(error) => Err(error),
            },
            ToolCall::ListObjects(tool) => match tool.request(config) {
                Ok(request) => Ok(PendingCall::ListObjects(tool, request)),
                Err(error) => Err(error),
            },
            ToolCall::HeadObject(tool) => match tool.request(config) {
                Ok(request) => Ok(PendingCall::HeadObject(tool, request)),
                Err(error) => Err(error),
            },
            ToolCall::GetObject(tool) => match tool.request(config) {
                Ok(request) => Ok(PendingCall::GetObject(tool, request)),
                Err(error) => Err(error),
            },
            ToolCall::PutObject(tool) => match tool.request(config) {
                Ok(request) => Ok(PendingCall::PutObject(tool, request)),
                Err(error) => Err(error),
            },
            ToolCall::DeleteObject(tool) => match tool.request(config) {
                Ok(request) => Ok(PendingCall::DeleteObject(tool, request)),
                Err(error) => Err(error),
            },
            ToolCall::PresignUrl(tool) => match tool.request(config) {
                Ok(request) => Ok(PendingCall::PresignUrl(tool, request)),
                Err(error) => Err(error),
            },
            ToolCall::MintCredentials(tool) => match tool.request(config) {
                Ok(request) => Ok(PendingCall::MintCredentials(tool, request)),
                Err(error) => Err(error),
            },
        }
    }
}

/// The service may be asked about this bucket in the course of the call, whatever it replies.
pub open spec fn asks_about(pending: PendingCall, bucket: Seq<char>) -> bool {
    match pending {
        PendingCall::ListBuckets(_) => false,
        PendingCall::CreateBucket(_, created) => bucket == created@ || exists|
            step: RetentionStep,
            days: int,
        | #[trigger] waits(step, created@, days) && step.bucket@ == bucket,
        PendingCall::DeleteBucket(step) => exists|pages: Seq<KeyPageView>, i: int|
            0 <= i < requests(step@, pages).len() && request_bucket(
                #[trigger] requests(step@, pages)[i],
            ) == bucket,
        PendingCall::ListObjects(_, request) => bucket == request.bucket@,
        PendingCall::HeadObject(_, request) => bucket == request.bucket@,
        PendingCall::GetObject(_, request) => bucket == request.bucket@,
        PendingCall::PutObject(_, request) => bucket == request.bucket@,
        PendingCall::DeleteObject(_, request) => bucket == request.bucket@,
        PendingCall::PresignUrl(_, request) => bucket == request.bucket@,
        PendingCall::MintCredentials(_, _) => false,
    }
}

/// Whatever tool is called, and with whatever arguments, every bucket that the service is asked
/// about is in the namespace.
pub proof fn law_calls_stay_in_the_namespace(
    call: ToolCall,
    config: Config,
    pending: PendingCall,
    bucket: Seq<char>,
)
    requires
        begun(call, config, Ok(pending)),
        asks_about(pending, bucket),
    ensures
        begins_with(bucket, config.bucket_prefix@),
{
    let prefix = config.bucket_prefix@;
    match call {
        ToolCall::ListBuckets(_) => {},
        ToolCall::CreateBucket(tool) => {
            if let Some(name) = tool.name {
                law_chosen_buckets_are_in_the_namespace(name@, prefix);
            }
        },
        ToolCall::DeleteBucket(tool) => {
            law_chosen_buckets_are_in_the_namespace(tool.bucket@, prefix);
            if let PendingCall::DeleteBucket(step) = pending {
                let (pages, i) = choose|pages: Seq<KeyPageView>, i: int|
                    0 <= i < requests(step@, pages).len() && request_bucket(
                        #[trigger] requests(step@, pages)[i],
                    ) == bucket;
                law_deletion_keeps_to_its_bucket(step@, pages);
            }
        },
        ToolCall::ListObjects(tool) => {
            law_chosen_buckets_are_in_the_namespace(tool.bucket@, prefix);
        },
        ToolCall::HeadObject(tool) => {
            law_chosen_buckets_are_in_the_namespace(tool.bucket@, prefix);
        },
        ToolCall::GetObject(tool) => {
            law_chosen_buckets_are_in_the_namespace(tool.bucket@, prefix);
        },
        ToolCall::PutObject(tool) => {
            law_chosen_buckets_are_in_the_namespace(tool.bucket@, prefix);
        },
        ToolCall::DeleteObject(tool) => {
            law_chosen_buckets_are_in_the_namespace(tool.bucket@, prefix);
        },
        ToolCall::PresignUrl(tool) => {
            law_chosen_buckets_are_in_the_namespace(tool.bucket@, prefix);
        },
        ToolCall::MintCredentials(_) => {},
    }
}

/// Whatever credentials are asked for, the policy that goes to the service grants nothing outside
/// the namespace but the listing of bucket names, and that only where no buckets are chosen.
pub proof fn law_calls_confine_credentials(
    call: ToolCall,
    config: Config,
    pending: PendingCall,
    action: Seq<char>,
    resource: Seq<char>,
)
    requires
        begun(call, config, Ok(pending)),
        literal(config.bucket_prefix@),
    ensures
        pending matches PendingCall::MintCredentials(_, request) ==> {
            let scope = optional_texts(request.scope);
            let statements = session_statements(scope, config.bucket_prefix@);
            &&& request.policy@ == compact_json(policy_document(statements))
            &&& granted(statements, action, resource) ==> in_namespace(
                action,
                resource,
                config.bucket_prefix@,
            ) || (scope is None && lists_buckets(action, resource))
        },
{
    if let ToolCall::MintCredentials(tool) = call {
        law_minted_credentials_stay_in_the_namespace(
            optional_texts(tool.buckets),
            config.bucket_prefix@,
            action,
            resource,
        );
    }
}

} // verus!

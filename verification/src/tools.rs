//! The tools that agents call: what each asks of the storage service, and what it answers.
//!
//! A tool is split where the service is called. One method turns the arguments into a request;
//! another takes the service's reply, or the text of its error, and gives the answer.
use vstd::prelude::*;
use vstd::string::*;

use crate::json::{pretty_json, Json};
use crate::policy::{full_name, invalid_name_message, valid_bucket_name, TestBucketName};
use crate::text::begins_with;

pub mod access;
pub mod buckets;
pub mod call;
pub mod delete_bucket;
pub mod objects;

verus! {

/// Why a tool call failed.
#[derive(Debug, PartialEq, Eq)]
pub struct ToolError {
    pub message: String,
}

impl View for ToolError {
    type V = Seq<char>;

    open spec fn view(&self) -> Seq<char> {
        self.message@
    }
}

/// The bucket that a tool works on, or why it works on none.
pub open spec fn chosen_bucket(bucket: Seq<char>, prefix: Seq<char>) -> Result<
    Seq<char>,
    Seq<char>,
> {
    if valid_bucket_name(full_name(bucket, prefix)) {
        Ok(full_name(bucket, prefix))
    } else {
        Err("bucket rejected: "@ + invalid_name_message(full_name(bucket, prefix)))
    }
}

/// The message for an operation that the service did not carry out.
pub open spec fn failure(operation: Seq<char>, error: Seq<char>) -> Seq<char> {
    operation + " failed: "@ + error
}

/// The answer with the given content.
pub open spec fn answer(content: crate::json::JsonView) -> Result<Seq<char>, Seq<char>> {
    Ok(pretty_json(content))
}

/// What a tool gives back, by its views.
pub open spec fn outcome(result: Result<String, ToolError>) -> Result<Seq<char>, Seq<char>> {
    match result {
        Ok(text) => Ok(text@),
        Err(error) => Err(error@),
    }
}

/// The chosen bucket, by its views.
pub open spec fn bucket_outcome(result: Result<TestBucketName, ToolError>) -> Result<
    Seq<char>,
    Seq<char>,
> {
    match result {
        Ok(name) => Ok(name@),
        Err(error) => Err(error@),
    }
}

/// The error for an operation that the service did not carry out.
pub fn op_err(operation: &str, error: &str) -> (failed: ToolError)
    ensures
        failed@ == failure(operation@, error@),
{
    ToolError { message: operation.to_string().concat(" failed: ").concat(error) }
}

/// Writes an answer out.
pub fn json_out(value: &Json) -> (text: Result<String, ToolError>)
    ensures
        outcome(text) == answer(value@),
{
    match value.to_string_pretty() {
        Ok(text) => Ok(text),
        Err(error) => Err(
            ToolError {
                message: "failed to encode result: ".to_string().concat(error.as_str()),
            },
        ),
    }
}

/// Finds the bucket that a tool is to work on.
pub fn compose(bucket: &str, prefix: &str) -> (name: Result<TestBucketName, ToolError>)
    ensures
        bucket_outcome(name) == chosen_bucket(bucket@, prefix@),
{
    match TestBucketName::compose(bucket, prefix) {
        Ok(name) => Ok(name),
        Err(message) => Err(
            ToolError { message: "bucket rejected: ".to_string().concat(message.as_str()) },
        ),
    }
}

/// The bucket that a tool works on has a valid name inside the namespace.
pub proof fn law_chosen_buckets_are_in_the_namespace(bucket: Seq<char>, prefix: Seq<char>)
    ensures
        chosen_bucket(bucket, prefix) matches Ok(name) ==> valid_bucket_name(name) && begins_with(
            name,
            prefix,
        ),
{
    assert((prefix + bucket).take(prefix.len() as int) =~= prefix);
}

/// A bucket can be named by its full name: that stands for itself.
pub proof fn law_full_names_stand_for_themselves(bucket: Seq<char>, prefix: Seq<char>)
    ensures
        chosen_bucket(bucket, prefix) matches Ok(name) ==> chosen_bucket(name, prefix)
            == chosen_bucket(bucket, prefix),
{
    law_chosen_buckets_are_in_the_namespace(bucket, prefix);
}

/// A bare name stands for what the same name behind the prefix stands for.
pub proof fn law_prefix_may_be_left_out(bucket: Seq<char>, prefix: Seq<char>)
    requires
        !begins_with(bucket, prefix),
    ensures
        chosen_bucket(bucket, prefix) == chosen_bucket(prefix + bucket, prefix),
{
    assert((prefix + bucket).take(prefix.len() as int) =~= prefix);
}

} // verus!

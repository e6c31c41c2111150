//! How the server starts: the policy that it can print, and what it serves with.
use vstd::prelude::*;
use vstd::string::*;

use crate::config::{effective_hosts, setting_or, Config};
use crate::json::compact_json;
use crate::policy::{minter_policy, minter_statements, policy_document};
use crate::text::{optional, same_text, texts};

verus! {

/// What the server needs besides its clients.
#[derive(Debug, PartialEq, Eq)]
pub struct ServerPlan {
    /// What agents are told.
    pub instructions: String,
    /// The `Host` header values that are accepted.
    pub allowed_hosts: Vec<String>,
    /// The most bytes that a request may have.
    pub max_request_body_size: usize,
}

/// What agents are told.
pub open spec fn instructions_text(prefix: Seq<char>) -> Seq<char> {
    "All operations are restricted to buckets named '"@ + prefix
        + "*'. Use mint_credentials to obtain scoped, auto-expiring keys for test code instead of handling long-lived secrets."@
}

/// Whether the program is only to print the policy of the minter identity.
pub fn prints_minter_policy(argument: Option<&str>) -> (prints: bool)
    ensures
        prints == (argument matches Some(argument) && argument@ == "print-minter-policy"@),
{
    match argument {
        Some(argument) => same_text(argument, "print-minter-policy"),
        None => false,
    }
}

/// The policy of the minter identity as it is printed.
pub fn printed_minter_policy(prefix: Option<String>) -> (text: String)
    ensures
        text@ == compact_json(
            policy_document(minter_statements(setting_or(optional(prefix), "agent-test-"@))),
        ),
{
    match prefix {
        Some(prefix) => minter_policy(prefix.as_str()).to_string(),
        None => minter_policy("agent-test-").to_string(),
    }
}

impl ServerPlan {
    /// What to serve with, unless no host would be accepted.
    pub fn of(config: &Config) -> (plan: Result<ServerPlan, String>)
        requires
            config.max_body_bytes * 2 <= usize::MAX,
        ensures
            match plan {
                Ok(plan) => {
                    &&& effective_hosts(config@).len() > 0
                    &&& plan.instructions@ == instructions_text(config.bucket_prefix@)
                    &&& texts(plan.allowed_hosts@) == effective_hosts(config@)
                    &&& plan.max_request_body_size == config.max_body_bytes * 2
                },
                Err(message) => {
                    &&& effective_hosts(config@).len() == 0
                    &&& message@
                        == "DNS-rebinding protection requires at least one allowed host; set RUSTFS_AGENT_MCP_ALLOWED_HOSTS when binding to a wildcard address"@
                },
            },
    {
        let instructions = "All operations are restricted to buckets named '".to_string().concat(
            config.bucket_prefix.as_str(),
        ).concat(
            "*'. Use mint_credentials to obtain scoped, auto-expiring keys for test code instead of handling long-lived secrets.",
        );
        let allowed_hosts = config.effective_allowed_hosts();
        assert(allowed_hosts@.len() == texts(allowed_hosts@).len());
        if allowed_hosts.is_empty() {
            return Err(
                "DNS-rebinding protection requires at least one allowed host; set RUSTFS_AGENT_MCP_ALLOWED_HOSTS when binding to a wildcard address".to_string(),
            );
        }
        Ok(
            ServerPlan {
                instructions,
                allowed_hosts,
                max_request_body_size: config.max_body_bytes * 2,
            },
        )
    }
}

} // verus!

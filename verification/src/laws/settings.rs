//! What a configuration is read from, and when it is turned down.
use vstd::prelude::*;
use vstd::string::*;

use crate::config::{
    answers, bind_address, binds_everywhere, config_error_message, config_outcome,
    configured, effective_hosts, expected_range, host_list, i32_parse_error, looked_up,
    lookups, reads, setting_or, signed_number, u16_parse_error, unsigned_number,
    usable_prefix, usize_parse_error, web_address, Config, ConfigError, ConfigErrorView,
    ConfigView, Environment,
};
use crate::text::{begins_with, decimal, pieces, texts, trimmed};

verus! {

/// An accepted configuration holds what the variables say, and the defaults for those that are
/// not set.
pub proof fn law_settings_are_kept(environment: Environment)
    ensures
        configured(environment) matches Ok(config) ==> {
            &&& environment.endpoint == Some(config.endpoint)
            &&& environment.access_key == Some(config.access_key)
            &&& environment.secret_key == Some(config.secret_key)
            &&& config.bind_host == (match environment.bind_host {
                Some(text) => text,
                None => "127.0.0.1"@,
            })
            &&& config.region == (match environment.region {
                Some(text) => text,
                None => "us-east-1"@,
            })
            &&& config.bucket_prefix == (match environment.bucket_prefix {
                Some(text) => text,
                None => "agent-test-"@,
            })
            &&& (match environment.bind_port {
                Some(text) => unsigned_number(trimmed(text)) == Some(config.bind_port),
                None => config.bind_port == 8765,
            })
            &&& (match environment.retention_days {
                Some(text) => signed_number(trimmed(text)) == Some(config.retention_days),
                None => config.retention_days == 7,
            })
            &&& (match environment.max_body_bytes {
                Some(text) => unsigned_number(trimmed(text)) == Some(config.max_body_bytes),
                None => config.max_body_bytes == 4_194_304,
            })
            &&& config.allowed_hosts == (match environment.allowed_hosts {
                Some(text) => host_list(text),
                None => Seq::empty(),
            })
        },
{
}

/// A configuration is accepted exactly where the endpoint is a web address, the two keys are not
/// blank, the prefix is usable and every number that is set is in its range.
pub proof fn law_accepted_settings(environment: Environment)
    ensures
        configured(environment) is Ok == {
            &&& environment.endpoint matches Some(text) && trimmed(text).len() > 0 && (begins_with(
                text,
                "https://"@,
            ) || begins_with(text, "http://"@))
            &&& environment.access_key matches Some(text) && trimmed(text).len() > 0
            &&& environment.secret_key matches Some(text) && trimmed(text).len() > 0
            &&& environment.bind_port matches Some(text) ==> (unsigned_number(
                trimmed(text),
            ) matches Some(port) && 1 <= port <= 65535)
            &&& environment.bucket_prefix matches Some(text) ==> usable_prefix(text)
            &&& environment.retention_days matches Some(text) ==> (signed_number(
                trimmed(text),
            ) matches Some(days) && 0 <= days <= 3650)
            &&& environment.max_body_bytes matches Some(text) ==> (unsigned_number(
                trimmed(text),
            ) matches Some(bytes) && 1024 <= bytes <= 67_108_864)
        },
{
    reveal_strlit("agent-test-");
}

/// The sentence that says which numbers are expected.
proof fn lemma_expected_ranges()
    ensures
        expected_range(1, 65535) == "expected a number between 1 and 65535"@,
        expected_range(0, 3650) == "expected a number between 0 and 3650"@,
        expected_range(1024, 67_108_864) == "expected a number between 1024 and 67108864"@,
{
    reveal_strlit("expected a number between ");
    reveal_strlit(" and ");
    reveal_strlit("expected a number between 1 and 65535");
    reveal_strlit("expected a number between 0 and 3650");
    reveal_strlit("expected a number between 1024 and 67108864");
    assert(decimal(0) =~= seq!['0']);
    assert(decimal(1) =~= seq!['1']);
    assert(decimal(1024) =~= seq!['1', '0', '2', '4']) by {
        reveal_with_fuel(decimal, 5);
    }
    assert(decimal(3650) =~= seq!['3', '6', '5', '0']) by {
        reveal_with_fuel(decimal, 5);
    }
    assert(decimal(65535) =~= seq!['6', '5', '5', '3', '5']) by {
        reveal_with_fuel(decimal, 6);
    }
    assert(decimal(67_108_864) =~= seq!['6', '7', '1', '0', '8', '8', '6', '4']) by {
        reveal_with_fuel(decimal, 9);
    }
    assert(expected_range(1, 65535) =~= "expected a number between 1 and 65535"@);
    assert(expected_range(0, 3650) =~= "expected a number between 0 and 3650"@);
    assert(expected_range(1024, 67_108_864) =~= "expected a number between 1024 and 67108864"@);
}

/// The first thing that is wrong is what is reported, with the variable that it is about.
pub proof fn law_first_fault_is_reported(environment: Environment)
    ensures
        ({
            let blank = |value: Option<Seq<char>>|
                match value {
                    Some(text) => trimmed(text).len() == 0,
                    None => true,
                };
            let invalid = |variable: Seq<char>, message: Seq<char>|
                Err::<ConfigView, ConfigErrorView>(
                    ConfigErrorView::Invalid { variable, message },
                );
            let missing = |variable: Seq<char>|
                Err::<ConfigView, ConfigErrorView>(ConfigErrorView::Missing(variable));
            let endpoint = environment.endpoint->Some_0;
            let port = unsigned_number(trimmed(environment.bind_port->Some_0));
            let days = signed_number(trimmed(environment.retention_days->Some_0));
            let bytes = unsigned_number(trimmed(environment.max_body_bytes->Some_0));
            let outcome = configured(environment);
            if blank(environment.endpoint) {
                outcome == missing("RUSTFS_AGENT_MCP_ENDPOINT"@)
            } else if !begins_with(endpoint, "https://"@) && !begins_with(endpoint, "http://"@) {
                outcome == invalid(
                    "RUSTFS_AGENT_MCP_ENDPOINT"@,
                    "must be an http:// or https:// URL"@,
                )
            } else if blank(environment.access_key) {
                outcome == missing("RUSTFS_AGENT_MCP_ACCESS_KEY"@)
            } else if blank(environment.secret_key) {
                outcome == missing("RUSTFS_AGENT_MCP_SECRET_KEY"@)
            } else if environment.bind_port is Some && (port is None || port->Some_0 > 65535) {
                outcome == invalid(
                    "RUSTFS_AGENT_MCP_BIND_PORT"@,
                    "expected a number between 1 and 65535"@ + ": "@ + u16_parse_error(
                        trimmed(environment.bind_port->Some_0),
                    ),
                )
            } else if environment.bind_port is Some && port->Some_0 < 1 {
                outcome == invalid(
                    "RUSTFS_AGENT_MCP_BIND_PORT"@,
                    "expected a number between 1 and 65535"@,
                )
            } else if environment.bucket_prefix is Some && !usable_prefix(
                environment.bucket_prefix->Some_0,
            ) {
                outcome == invalid(
                    "RUSTFS_AGENT_MCP_BUCKET_PREFIX"@,
                    "must be lowercase alphanumerics/hyphens, at least 2 chars"@,
                )
            } else if environment.retention_days is Some && (days is None || days->Some_0
                > i32::MAX || days->Some_0 < i32::MIN) {
                outcome == invalid(
                    "RUSTFS_AGENT_MCP_RETENTION_DAYS"@,
                    "expected a number between 0 and 3650"@ + ": "@ + i32_parse_error(
                        trimmed(environment.retention_days->Some_0),
                    ),
                )
            } else if environment.retention_days is Some && (days->Some_0 < 0 || days->Some_0
                > 3650) {
                outcome == invalid(
                    "RUSTFS_AGENT_MCP_RETENTION_DAYS"@,
                    "expected a number between 0 and 3650"@,
                )
            } else if environment.max_body_bytes is Some && (bytes is None || bytes->Some_0
                > usize::MAX) {
                outcome == invalid(
                    "RUSTFS_AGENT_MCP_MAX_BODY_BYTES"@,
                    "expected a number between 1024 and 67108864"@ + ": "@ + usize_parse_error(
                        trimmed(environment.max_body_bytes->Some_0),
                        usize::MAX as int,
                    ),
                )
            } else if environment.max_body_bytes is Some && (bytes->Some_0 < 1024 || bytes->Some_0
                > 67_108_864) {
                outcome == invalid(
                    "RUSTFS_AGENT_MCP_MAX_BODY_BYTES"@,
                    "expected a number between 1024 and 67108864"@,
                )
            } else {
                outcome is Ok
            }
        }),
{
    reveal_strlit("agent-test-");
    lemma_expected_ranges();
}

/// The sentence for an error names the variable and what is wrong with it.
pub proof fn law_error_sentences(variable: Seq<char>, message: Seq<char>)
    ensures
        config_error_message(ConfigErrorView::Missing(variable))
            == "missing required environment variable "@ + variable,
        config_error_message(ConfigErrorView::Invalid { variable, message })
            == "invalid value for "@ + variable + ": "@ + message,
{
}

/// An endpoint is a web address exactly where it begins with one of the two schemes.
pub proof fn law_web_addresses(text: Seq<char>, default: Seq<char>)
    ensures
        web_address(text) == (begins_with(text, "https://"@) || begins_with(text, "http://"@)),
        setting_or(Some(text), default) == text,
        setting_or(None, default) == default,
{
}

/// A prefix is usable exactly where it is two or more lowercase letters, digits and hyphens.
pub proof fn law_usable_prefixes(prefix: Seq<char>)
    ensures
        usable_prefix(prefix) == (prefix.len() >= 2 && forall|i: int|
            0 <= i < prefix.len() ==> ({
                ||| 'a' <= #[trigger] prefix[i] <= 'z'
                ||| '0' <= prefix[i] <= '9'
                ||| prefix[i] == '-'
            })),
{
}

/// A list of hosts is cut at its commas. A part without commas gives its trimmed text, or nothing
/// where that is empty.
pub proof fn law_host_lists(left: Seq<char>, right: Seq<char>)
    ensures
        host_list(left + seq![','] + right) == host_list(left) + host_list(right),
        !left.contains(',') ==> host_list(left) == (if trimmed(left).len() > 0 {
            seq![trimmed(left)]
        } else {
            Seq::empty()
        }),
{
    let bare = |piece: Seq<char>| trimmed(piece);
    let kept = |host: Seq<char>| host.len() > 0;
    let whole = left + seq![','] + right;
    crate::laws::texts::law_splitting(left, right, ',');
    assert(pieces(whole, ',').map_values(bare) =~= pieces(left, ',').map_values(bare) + pieces(
        right,
        ',',
    ).map_values(bare));
    Seq::filter_distributes_over_add(
        pieces(left, ',').map_values(bare),
        pieces(right, ',').map_values(bare),
        kept,
    );
    if !left.contains(',') {
        assert(pieces(left, ',').map_values(bare) =~= seq![trimmed(left)]);
        reveal(Seq::filter);
        assert(seq![trimmed(left)].drop_last() =~= Seq::empty());
        assert(Seq::<Seq<char>>::empty().filter(kept) =~= Seq::empty());
        assert(host_list(left) =~= if trimmed(left).len() > 0 {
            seq![trimmed(left)]
        } else {
            Seq::empty()
        });
    }
}

/// A configuration shows what its fields hold.
pub proof fn law_configurations_show_their_fields(config: Config)
    ensures
        config@.bind_host == config.bind_host@,
        config@.bind_port == config.bind_port,
        config@.endpoint == config.endpoint@,
        config@.region == config.region@,
        config@.access_key == config.access_key@,
        config@.secret_key == config.secret_key@,
        config@.bucket_prefix == config.bucket_prefix@,
        config@.retention_days == config.retention_days,
        config@.max_body_bytes == config.max_body_bytes,
        config@.allowed_hosts == texts(config.allowed_hosts@),
        config_outcome(Ok(config)) == Ok::<ConfigView, ConfigErrorView>(config@),
{
}

/// An error shows what it is about.
pub proof fn law_errors_show_what_they_are_about(error: ConfigError)
    ensures
        match error {
            ConfigError::Missing(variable) => error@ == ConfigErrorView::Missing(variable@),
            ConfigError::Invalid { variable, message } => error@ == (ConfigErrorView::Invalid {
                variable: variable@,
                message: message@,
            }),
        },
        config_outcome(Err(error)) == Err::<ConfigView, ConfigErrorView>(error@),
{
}

/// The server binds to its host and port; two hosts stand for every address.
pub proof fn law_bind_addresses(config: ConfigView)
    requires
        0 <= config.bind_port,
    ensures
        bind_address(config) == config.bind_host + seq![':'] + decimal(config.bind_port as nat),
        binds_everywhere(config) == (config.bind_host == "0.0.0.0"@ || config.bind_host == "::"@),
{
    reveal_strlit(":");
    assert(":"@ =~= seq![':']);
}

/// The configured hosts come first and in their order; behind them comes at most the address that
/// the server binds to, where it is not among them.
pub proof fn law_hosts_keep_their_order(config: ConfigView)
    requires
        0 <= config.bind_port,
    ensures
        ({
            let configured = config.allowed_hosts;
            let hosts = effective_hosts(config);
            let address = config.bind_host + seq![':'] + decimal(config.bind_port as nat);
            &&& hosts == configured || hosts == configured.push(address)
            &&& hosts == configured <==> (config.bind_host == "0.0.0.0"@ || config.bind_host
                == "::"@ || configured.contains(address))
        }),
{
    law_bind_addresses(config);
    assert(config.allowed_hosts.push(bind_address(config)).len() == config.allowed_hosts.len() + 1);
}

/// What is read comes from the lookup: every field is what the lookup gave for its own variable,
/// or the default where it gave nothing.
pub proof fn law_fields_come_from_their_variables<F: Fn(&str) -> Option<String>>(
    lookup: F,
    config: ConfigView,
)
    requires
        reads(lookup, Ok(config)),
    ensures
        ({
            &&& exists|found: Option<String>| #[trigger]
                call_ensures(lookup, ("RUSTFS_AGENT_MCP_ENDPOINT",), found) && (found matches Some(text)
                    && text@ == config.endpoint)
            &&& exists|found: Option<String>| #[trigger]
                call_ensures(lookup, ("RUSTFS_AGENT_MCP_ACCESS_KEY",), found) && (found matches Some(text)
                    && text@ == config.access_key)
            &&& exists|found: Option<String>| #[trigger]
                call_ensures(lookup, ("RUSTFS_AGENT_MCP_SECRET_KEY",), found) && (found matches Some(text)
                    && text@ == config.secret_key)
            &&& exists|found: Option<String>| #[trigger]
                call_ensures(lookup, ("RUSTFS_AGENT_MCP_BIND_HOST",), found) && config.bind_host == (match found {
                    Some(text) => text@,
                    None => "127.0.0.1"@,
                })
            &&& exists|found: Option<String>| #[trigger]
                call_ensures(lookup, ("RUSTFS_AGENT_MCP_BIND_PORT",), found) && (match found {
                    Some(text) => unsigned_number(trimmed(text@)) == Some(config.bind_port),
                    None => config.bind_port == 8765,
                })
            &&& exists|found: Option<String>| #[trigger]
                call_ensures(lookup, ("RUSTFS_AGENT_MCP_REGION",), found) && config.region == (match found {
                    Some(text) => text@,
                    None => "us-east-1"@,
                })
            &&& exists|found: Option<String>| #[trigger]
                call_ensures(lookup, ("RUSTFS_AGENT_MCP_BUCKET_PREFIX",), found) && config.bucket_prefix == (match found {
                    Some(text) => text@,
                    None => "agent-test-"@,
                })
            &&& exists|found: Option<String>| #[trigger]
                call_ensures(lookup, ("RUSTFS_AGENT_MCP_RETENTION_DAYS",), found) && (match found {
                    Some(text) => signed_number(trimmed(text@)) == Some(config.retention_days),
                    None => config.retention_days == 7,
                })
            &&& exists|found: Option<String>| #[trigger]
                call_ensures(lookup, ("RUSTFS_AGENT_MCP_MAX_BODY_BYTES",), found) && (match found {
                    Some(text) => unsigned_number(trimmed(text@)) == Some(config.max_body_bytes),
                    None => config.max_body_bytes == 4_194_304,
                })
            &&& exists|found: Option<String>| #[trigger]
                call_ensures(lookup, ("RUSTFS_AGENT_MCP_ALLOWED_HOSTS",), found) && config.allowed_hosts == (match found {
                    Some(text) => host_list(text@),
                    None => Seq::empty(),
                })
        }),
{
    let seen = choose|seen: Environment|
        Ok::<ConfigView, ConfigErrorView>(config) == #[trigger] configured(seen) && looked_up(
            lookup,
            seen,
            lookups(seen),
        );
    law_settings_are_kept(seen);
    assert(answers(lookup, "RUSTFS_AGENT_MCP_ENDPOINT", seen.endpoint));
    assert(answers(lookup, "RUSTFS_AGENT_MCP_ACCESS_KEY", seen.access_key));
    assert(answers(lookup, "RUSTFS_AGENT_MCP_SECRET_KEY", seen.secret_key));
    assert(answers(lookup, "RUSTFS_AGENT_MCP_BIND_HOST", seen.bind_host));
    assert(answers(lookup, "RUSTFS_AGENT_MCP_BIND_PORT", seen.bind_port));
    assert(answers(lookup, "RUSTFS_AGENT_MCP_REGION", seen.region));
    assert(answers(lookup, "RUSTFS_AGENT_MCP_BUCKET_PREFIX", seen.bucket_prefix));
    assert(answers(lookup, "RUSTFS_AGENT_MCP_RETENTION_DAYS", seen.retention_days));
    assert(answers(lookup, "RUSTFS_AGENT_MCP_MAX_BODY_BYTES", seen.max_body_bytes));
    assert(answers(lookup, "RUSTFS_AGENT_MCP_ALLOWED_HOSTS", seen.allowed_hosts));
}

/// What is missing or wrong is what the lookup gave for the variable that the error names.
pub proof fn law_faults_come_from_their_variables<F: Fn(&str) -> Option<String>>(
    lookup: F,
    variable: &str,
    error: ConfigErrorView,
)
    requires
        reads(lookup, Err(error)),
        error == ConfigErrorView::Missing(variable@) || error is Invalid
            && error->Invalid_variable == variable@,
    ensures
        error is Missing ==> exists|name: &str, found: Option<String>| #[trigger]
            call_ensures(lookup, (name,), found) && name@ == variable@ && (match found {
                Some(text) => trimmed(text@).len() == 0,
                None => true,
            }),
        error is Invalid ==> exists|
            name: &str,
            found: Option<String>,
        | #[trigger]
            call_ensures(lookup, (name,), found) && name@ == variable@ && found is Some,
{
    let seen = choose|seen: Environment|
        Err::<ConfigView, ConfigErrorView>(error) == #[trigger] configured(seen) && looked_up(
            lookup,
            seen,
            lookups(seen),
        );
    reveal_strlit("agent-test-");
    law_first_fault_is_reported(seen);
    let count = lookups(seen);
    assert(count >= 1 ==> answers(lookup, "RUSTFS_AGENT_MCP_ENDPOINT", seen.endpoint));
    assert(count >= 2 ==> answers(lookup, "RUSTFS_AGENT_MCP_ACCESS_KEY", seen.access_key));
    assert(count >= 3 ==> answers(lookup, "RUSTFS_AGENT_MCP_SECRET_KEY", seen.secret_key));
    assert(count >= 4 ==> answers(lookup, "RUSTFS_AGENT_MCP_BIND_HOST", seen.bind_host));
    assert(count >= 5 ==> answers(lookup, "RUSTFS_AGENT_MCP_BIND_PORT", seen.bind_port));
    assert(count >= 6 ==> answers(lookup, "RUSTFS_AGENT_MCP_REGION", seen.region));
    assert(count >= 7 ==> answers(lookup, "RUSTFS_AGENT_MCP_BUCKET_PREFIX", seen.bucket_prefix));
    assert(count >= 8 ==> answers(lookup, "RUSTFS_AGENT_MCP_RETENTION_DAYS", seen.retention_days));
    assert(count >= 9 ==> answers(lookup, "RUSTFS_AGENT_MCP_MAX_BODY_BYTES", seen.max_body_bytes));
    assert(count >= 10 ==> answers(lookup, "RUSTFS_AGENT_MCP_ALLOWED_HOSTS", seen.allowed_hosts));
}

} // verus!

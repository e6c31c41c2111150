//! Runtime configuration and the rules that it has to keep.
use vstd::prelude::*;
use vstd::string::*;

use crate::text::{
    begins_with, chars_of, decimal, decimal_text, lemma_pieces_hold_no_separator, lemma_trimmed,
    optional, pieces, same_text, signed_decimal, signed_decimal_text, split, starts_with, texts,
    trim, trimmed,
};

verus! {

pub const ENDPOINT: &'static str = "RUSTFS_AGENT_MCP_ENDPOINT";

pub const ACCESS_KEY: &'static str = "RUSTFS_AGENT_MCP_ACCESS_KEY";

pub const SECRET_KEY: &'static str = "RUSTFS_AGENT_MCP_SECRET_KEY";

pub const BIND_HOST: &'static str = "RUSTFS_AGENT_MCP_BIND_HOST";

pub const BIND_PORT: &'static str = "RUSTFS_AGENT_MCP_BIND_PORT";

pub const REGION: &'static str = "RUSTFS_AGENT_MCP_REGION";

pub const BUCKET_PREFIX: &'static str = "RUSTFS_AGENT_MCP_BUCKET_PREFIX";

pub const RETENTION_DAYS: &'static str = "RUSTFS_AGENT_MCP_RETENTION_DAYS";

pub const MAX_BODY_BYTES: &'static str = "RUSTFS_AGENT_MCP_MAX_BODY_BYTES";

pub const ALLOWED_HOSTS: &'static str = "RUSTFS_AGENT_MCP_ALLOWED_HOSTS";

/// Runtime configuration, sourced exclusively from `RUSTFS_AGENT_MCP_*`
/// environment variables.
#[derive(Debug, Clone)]
pub struct Config {
    /// Address the MCP HTTP server binds to. Default `127.0.0.1`; production
    /// deployments set this to the host's Tailscale address.
    pub bind_host: String,
    pub bind_port: u16,
    /// S3/STS endpoint of the RustFS deployment (e.g. `https://blob.yeetz.cloud`).
    pub endpoint: String,
    pub region: String,
    /// Credentials of the scoped minter identity. Never the cluster root keys.
    pub access_key: String,
    pub secret_key: String,
    /// Every bucket this server manages must carry this prefix.
    pub bucket_prefix: String,
    /// Lifecycle retention (days) applied to newly created test buckets.
    /// `0` disables the lifecycle rule.
    pub retention_days: i32,
    /// Maximum object body size accepted and returned through tool calls.
    pub max_body_bytes: usize,
    /// Extra `Host` header values accepted by DNS-rebinding protection, in
    /// addition to `<bind_host>:<bind_port>` (e.g. the MagicDNS name).
    pub allowed_hosts: Vec<String>,
}

/// What a configuration holds.
pub struct ConfigView {
    pub bind_host: Seq<char>,
    pub bind_port: int,
    pub endpoint: Seq<char>,
    pub region: Seq<char>,
    pub access_key: Seq<char>,
    pub secret_key: Seq<char>,
    pub bucket_prefix: Seq<char>,
    pub retention_days: int,
    pub max_body_bytes: int,
    pub allowed_hosts: Seq<Seq<char>>,
}

impl View for Config {
    type V = ConfigView;

    open spec fn view(&self) -> ConfigView {
        ConfigView {
            bind_host: self.bind_host@,
            bind_port: self.bind_port as int,
            endpoint: self.endpoint@,
            region: self.region@,
            access_key: self.access_key@,
            secret_key: self.secret_key@,
            bucket_prefix: self.bucket_prefix@,
            retention_days: self.retention_days as int,
            max_body_bytes: self.max_body_bytes as int,
            allowed_hosts: texts(self.allowed_hosts@),
        }
    }
}

#[derive(Debug)]
pub enum ConfigError {
    Missing(&'static str),
    Invalid { variable: &'static str, message: String },
}

/// What is wrong with a configuration.
pub enum ConfigErrorView {
    Missing(Seq<char>),
    Invalid { variable: Seq<char>, message: Seq<char> },
}

impl View for ConfigError {
    type V = ConfigErrorView;

    open spec fn view(&self) -> ConfigErrorView {
        match self {
            ConfigError::Missing(variable) => ConfigErrorView::Missing(variable@),
            ConfigError::Invalid { variable, message } => ConfigErrorView::Invalid {
                variable: variable@,
                message: message@,
            },
        }
    }
}

/// The sentence for a configuration error.
pub open spec fn config_error_message(error: ConfigErrorView) -> Seq<char> {
    match error {
        ConfigErrorView::Missing(variable) => "missing required environment variable "@ + variable,
        ConfigErrorView::Invalid { variable, message } => "invalid value for "@ + variable + ": "@
            + message,
    }
}

impl ConfigError {
    /// The sentence for this error.
    pub fn to_string(&self) -> (message: String)
        ensures
            message@ == config_error_message(self@),
    {
        match self {
            ConfigError::Missing(
                variable,
            ) => "missing required environment variable ".to_string().concat(variable),
            ConfigError::Invalid { variable, message } => "invalid value for ".to_string().concat(
                variable,
            ).concat(": ").concat(message.as_str()),
        }
    }
}

/// The values of the environment variables, where they are set.
pub struct Environment {
    pub endpoint: Option<Seq<char>>,
    pub access_key: Option<Seq<char>>,
    pub secret_key: Option<Seq<char>>,
    pub bind_host: Option<Seq<char>>,
    pub bind_port: Option<Seq<char>>,
    pub region: Option<Seq<char>>,
    pub bucket_prefix: Option<Seq<char>>,
    pub retention_days: Option<Seq<char>>,
    pub max_body_bytes: Option<Seq<char>>,
    pub allowed_hosts: Option<Seq<char>>,
}

/// The value of a digit character.
pub open spec fn digit_value(c: char) -> Option<nat> {
    if '0' <= c <= '9' {
        Some((c as int - '0' as int) as nat)
    } else {
        None
    }
}

/// The number that a run of one or more digits stands for.
pub open spec fn digits_number(text: Seq<char>) -> Option<nat>
    decreases text.len(),
{
    if text.len() == 0 {
        None
    } else if text.len() == 1 {
        digit_value(text[0])
    } else {
        match (digits_number(text.drop_last()), digit_value(text.last())) {
            (Some(high), Some(low)) => Some(10 * high + low),
            _ => None,
        }
    }
}

/// The number that digits behind an optional plus sign stand for.
pub open spec fn unsigned_number(text: Seq<char>) -> Option<int> {
    let digits = if text.len() > 0 && text[0] == '+' {
        text.skip(1)
    } else {
        text
    };
    match digits_number(digits) {
        Some(number) => Some(number as int),
        None => None,
    }
}

/// The number that digits behind an optional sign stand for.
pub open spec fn signed_number(text: Seq<char>) -> Option<int> {
    if text.len() > 0 && text[0] == '-' {
        match digits_number(text.skip(1)) {
            Some(number) => Some(-(number as int)),
            None => None,
        }
    } else {
        unsigned_number(text)
    }
}

/// `lookup` may give `value` for the variable `name`.
pub open spec fn answers<F: Fn(&str) -> Option<String>>(
    lookup: F,
    name: &str,
    value: Option<Seq<char>>,
) -> bool {
    exists|found: Option<String>|
        #[trigger] call_ensures(lookup, (name,), found) && optional(found) == value
}

/// `u16`'s complaint about a text that is no decimal number of its range.
pub uninterp spec fn u16_parse_error(text: Seq<char>) -> Seq<char>;

/// `i32`'s complaint about a text that is no decimal number of its range.
pub uninterp spec fn i32_parse_error(text: Seq<char>) -> Seq<char>;

/// The complaint, about a text that is no decimal number of its range, of a `usize` that goes
/// up to `largest`.
pub uninterp spec fn usize_parse_error(text: Seq<char>, largest: int) -> Seq<char>;

/// `str::parse::<u16>`: the number where the text is digits behind an optional plus sign and the
/// number fits; else an error, whose message depends on the text alone.
#[verifier::external_body]
fn parse_u16(text: &str) -> (number: Result<u16, String>)
    ensures
        match number {
            Ok(number) => unsigned_number(text@) == Some(number as int),
            Err(message) => (unsigned_number(text@) matches Some(wanted) ==> wanted > u16::MAX)
                && message@ == u16_parse_error(text@),
        },
{
    text.parse::<u16>().map_err(|error| error.to_string())
}

/// `str::parse::<i32>`: the number where the text is digits behind an optional sign and the
/// number fits; else an error, whose message depends on the text alone.
#[verifier::external_body]
fn parse_i32(text: &str) -> (number: Result<i32, String>)
    ensures
        match number {
            Ok(number) => signed_number(text@) == Some(number as int),
            Err(message) => (signed_number(text@) matches Some(wanted) ==> wanted > i32::MAX
                || wanted < i32::MIN) && message@ == i32_parse_error(text@),
        },
{
    text.parse::<i32>().map_err(|error| error.to_string())
}

/// `str::parse::<usize>`: the number where the text is digits behind an optional plus sign and
/// the number fits; else an error, whose message depends on the text and on the range of `usize`.
#[verifier::external_body]
fn parse_usize(text: &str) -> (number: Result<usize, String>)
    ensures
        match number {
            Ok(number) => unsigned_number(text@) == Some(number as int),
            Err(message) => (unsigned_number(text@) matches Some(wanted) ==> wanted > usize::MAX)
                && message@ == usize_parse_error(text@, usize::MAX as int),
        },
{
    text.parse::<usize>().map_err(|error| error.to_string())
}

/// A kind of number that a setting can hold.
pub trait SettingNumber: Copy {
    /// The number itself.
    spec fn number(self) -> int;

    /// The number that a text stands for, or why it stands for none.
    spec fn parsed(text: Seq<char>) -> Result<int, Seq<char>>;

    /// Reads a text.
    fn parse(text: &str) -> (number: Result<Self, String>)
        ensures
            match number {
                Ok(number) => Self::parsed(text@) == Ok::<int, Seq<char>>(number.number()),
                Err(message) => Self::parsed(text@) == Err::<int, Seq<char>>(message@),
            },
    ;

    /// Whether this number is the smaller one.
    fn is_below(self, other: Self) -> (below: bool)
        ensures
            below == (self.number() < other.number()),
    ;

    /// The number in decimal notation.
    fn written(self) -> (text: String)
        ensures
            text@ == signed_decimal(self.number()),
    ;
}

impl SettingNumber for u16 {
    open spec fn number(self) -> int {
        self as int
    }

    open spec fn parsed(text: Seq<char>) -> Result<int, Seq<char>> {
        match unsigned_number(text) {
            Some(number) if number <= u16::MAX => Ok(number),
            _ => Err(u16_parse_error(text)),
        }
    }

    fn parse(text: &str) -> (number: Result<Self, String>) {
        parse_u16(text)
    }

    fn is_below(self, other: Self) -> (below: bool) {
        self < other
    }

    fn written(self) -> (text: String) {
        decimal_text(self as u64)
    }
}

impl SettingNumber for i32 {
    open spec fn number(self) -> int {
        self as int
    }

    open spec fn parsed(text: Seq<char>) -> Result<int, Seq<char>> {
        match signed_number(text) {
            Some(number) if i32::MIN <= number <= i32::MAX => Ok(number),
            _ => Err(i32_parse_error(text)),
        }
    }

    fn parse(text: &str) -> (number: Result<Self, String>) {
        parse_i32(text)
    }

    fn is_below(self, other: Self) -> (below: bool) {
        self < other
    }

    fn written(self) -> (text: String) {
        signed_decimal_text(self as i64)
    }
}

impl SettingNumber for usize {
    open spec fn number(self) -> int {
        self as int
    }

    open spec fn parsed(text: Seq<char>) -> Result<int, Seq<char>> {
        match unsigned_number(text) {
            Some(number) if number <= usize::MAX => Ok(number),
            _ => Err(usize_parse_error(text, usize::MAX as int)),
        }
    }

    fn parse(text: &str) -> (number: Result<Self, String>) {
        parse_usize(text)
    }

    fn is_below(self, other: Self) -> (below: bool) {
        self < other
    }

    fn written(self) -> (text: String) {
        decimal_text(self as u64)
    }
}

/// A configuration error about the value of a variable.
pub open spec fn invalid(variable: Seq<char>, message: Seq<char>) -> ConfigErrorView {
    ConfigErrorView::Invalid { variable, message }
}

/// The value of a variable that has to be set to something besides white space.
pub open spec fn required_setting(value: Option<Seq<char>>, variable: Seq<char>) -> Result<
    Seq<char>,
    ConfigErrorView,
> {
    match value {
        Some(text) if trimmed(text).len() > 0 => Ok(text),
        _ => Err(ConfigErrorView::Missing(variable)),
    }
}

/// The value of a variable, or what stands for it where it is not set.
pub open spec fn setting_or(value: Option<Seq<char>>, default: Seq<char>) -> Seq<char> {
    match value {
        Some(text) => text,
        None => default,
    }
}

/// What a number is expected to be.
pub open spec fn expected_range(least: int, most: int) -> Seq<char> {
    "expected a number between "@ + signed_decimal(least) + " and "@ + signed_decimal(most)
}

/// The number that a variable is set to.
pub open spec fn number_setting<T: SettingNumber>(
    value: Option<Seq<char>>,
    variable: Seq<char>,
    default: int,
    least: int,
    most: int,
) -> Result<int, ConfigErrorView> {
    match value {
        None => Ok(default),
        Some(text) => match T::parsed(trimmed(text)) {
            Err(complaint) => Err(
                invalid(variable, expected_range(least, most) + ": "@ + complaint),
            ),
            Ok(number) => if number < least || number > most {
                Err(invalid(variable, expected_range(least, most)))
            } else {
                Ok(number)
            },
        },
    }
}

/// An HTTP or HTTPS address.
pub open spec fn web_address(text: Seq<char>) -> bool {
    begins_with(text, "https://"@) || begins_with(text, "http://"@)
}

/// A prefix that the namespace can have.
pub open spec fn usable_prefix(prefix: Seq<char>) -> bool {
    &&& prefix.len() >= 2
    &&& forall|i: int|
        0 <= i < prefix.len() ==> {
            let c = #[trigger] prefix[i];
            'a' <= c <= 'z' || '0' <= c <= '9' || c == '-'
        }
}

/// What can stand in a list of hosts: not empty, without white space at its ends, and without a
/// comma.
pub open spec fn host_name(host: Seq<char>) -> bool {
    host.len() > 0 && trimmed(host) == host && !host.contains(',')
}

/// The host names in a comma-separated list.
pub open spec fn host_list(text: Seq<char>) -> Seq<Seq<char>> {
    pieces(text, ',').map_values(|piece: Seq<char>| trimmed(piece)).filter(
        |host: Seq<char>| host.len() > 0,
    )
}

/// The port that an environment asks for.
pub open spec fn port_setting(environment: Environment) -> Result<int, ConfigErrorView> {
    number_setting::<u16>(environment.bind_port, BIND_PORT@, 8765, 1, 65535)
}

/// The retention that an environment asks for.
pub open spec fn retention_setting(environment: Environment) -> Result<int, ConfigErrorView> {
    number_setting::<i32>(environment.retention_days, RETENTION_DAYS@, 7, 0, 3650)
}

/// The limit on bodies that an environment asks for.
pub open spec fn body_setting(environment: Environment) -> Result<int, ConfigErrorView> {
    number_setting::<usize>(
        environment.max_body_bytes,
        MAX_BODY_BYTES@,
        4_194_304,
        1024,
        67_108_864,
    )
}

/// The endpoint that an environment asks for.
pub open spec fn endpoint_setting(environment: Environment) -> Result<
    Seq<char>,
    ConfigErrorView,
> {
    match required_setting(environment.endpoint, ENDPOINT@) {
        Err(error) => Err(error),
        Ok(endpoint) => if web_address(endpoint) {
            Ok(endpoint)
        } else {
            Err(invalid(ENDPOINT@, "must be an http:// or https:// URL"@))
        },
    }
}

/// The namespace prefix that an environment asks for.
pub open spec fn prefix_setting(environment: Environment) -> Result<Seq<char>, ConfigErrorView> {
    let prefix = setting_or(environment.bucket_prefix, "agent-test-"@);
    if usable_prefix(prefix) {
        Ok(prefix)
    } else {
        Err(
            invalid(
                BUCKET_PREFIX@,
                "must be lowercase alphanumerics/hyphens, at least 2 chars"@,
            ),
        )
    }
}

/// The configuration that an environment stands for, or the first thing that is wrong with it.
pub open spec fn configured(environment: Environment) -> Result<ConfigView, ConfigErrorView> {
    match (
        endpoint_setting(environment),
        required_setting(environment.access_key, ACCESS_KEY@),
        required_setting(environment.secret_key, SECRET_KEY@),
        port_setting(environment),
        prefix_setting(environment),
        retention_setting(environment),
        body_setting(environment),
    ) {
        (Err(error), _, _, _, _, _, _) => Err(error),
        (_, Err(error), _, _, _, _, _) => Err(error),
        (_, _, Err(error), _, _, _, _) => Err(error),
        (_, _, _, Err(error), _, _, _) => Err(error),
        (_, _, _, _, Err(error), _, _) => Err(error),
        (_, _, _, _, _, Err(error), _) => Err(error),
        (_, _, _, _, _, _, Err(error)) => Err(error),
        (
            Ok(endpoint),
            Ok(access_key),
            Ok(secret_key),
            Ok(bind_port),
            Ok(bucket_prefix),
            Ok(retention_days),
            Ok(max_body_bytes),
        ) => Ok(
            ConfigView {
                bind_host: setting_or(environment.bind_host, "127.0.0.1"@),
                bind_port,
                endpoint,
                region: setting_or(environment.region, "us-east-1"@),
                access_key,
                secret_key,
                bucket_prefix,
                retention_days,
                max_body_bytes,
                allowed_hosts: match environment.allowed_hosts {
                    Some(text) => host_list(text),
                    None => Seq::empty(),
                },
            },
        ),
    }
}

/// How many variables are looked up, in the order in which `Environment` lists them: the
/// lookups end at the first thing that is wrong.
pub open spec fn lookups(environment: Environment) -> int {
    if endpoint_setting(environment) is Err {
        1
    } else if required_setting(environment.access_key, ACCESS_KEY@) is Err {
        2
    } else if required_setting(environment.secret_key, SECRET_KEY@) is Err {
        3
    } else if port_setting(environment) is Err {
        5
    } else if prefix_setting(environment) is Err {
        7
    } else if retention_setting(environment) is Err {
        8
    } else if body_setting(environment) is Err {
        9
    } else {
        10
    }
}

/// The first `count` variables of `environment` are what `lookup` gave.
pub open spec fn looked_up<F: Fn(&str) -> Option<String>>(
    lookup: F,
    environment: Environment,
    count: int,
) -> bool {
    &&& count >= 1 ==> answers(lookup, ENDPOINT, environment.endpoint)
    &&& count >= 2 ==> answers(lookup, ACCESS_KEY, environment.access_key)
    &&& count >= 3 ==> answers(lookup, SECRET_KEY, environment.secret_key)
    &&& count >= 4 ==> answers(lookup, BIND_HOST, environment.bind_host)
    &&& count >= 5 ==> answers(lookup, BIND_PORT, environment.bind_port)
    &&& count >= 6 ==> answers(lookup, REGION, environment.region)
    &&& count >= 7 ==> answers(lookup, BUCKET_PREFIX, environment.bucket_prefix)
    &&& count >= 8 ==> answers(lookup, RETENTION_DAYS, environment.retention_days)
    &&& count >= 9 ==> answers(lookup, MAX_BODY_BYTES, environment.max_body_bytes)
    &&& count >= 10 ==> answers(lookup, ALLOWED_HOSTS, environment.allowed_hosts)
}

/// `lookup` can be asked for each of the ten variables.
pub open spec fn askable<F: Fn(&str) -> Option<String>>(lookup: F) -> bool {
    &&& call_requires(lookup, (ENDPOINT,))
    &&& call_requires(lookup, (ACCESS_KEY,))
    &&& call_requires(lookup, (SECRET_KEY,))
    &&& call_requires(lookup, (BIND_HOST,))
    &&& call_requires(lookup, (BIND_PORT,))
    &&& call_requires(lookup, (REGION,))
    &&& call_requires(lookup, (BUCKET_PREFIX,))
    &&& call_requires(lookup, (RETENTION_DAYS,))
    &&& call_requires(lookup, (MAX_BODY_BYTES,))
    &&& call_requires(lookup, (ALLOWED_HOSTS,))
}

/// Reading a configuration through `lookup` may come to this.
pub open spec fn reads<F: Fn(&str) -> Option<String>>(
    lookup: F,
    outcome: Result<ConfigView, ConfigErrorView>,
) -> bool {
    exists|environment: Environment|
        outcome == #[trigger] configured(environment) && looked_up(
            lookup,
            environment,
            lookups(environment),
        )
}

/// Whenever `lookup` is asked for the variable `name`, it gives `value`.
pub open spec fn answers_only<F: Fn(&str) -> Option<String>>(
    lookup: F,
    name: &str,
    value: Option<Seq<char>>,
) -> bool {
    forall|found: Option<String>| #[trigger]
        call_ensures(lookup, (name,), found) ==> optional(found) == value
}

/// `lookup` always gives what `environment` holds for the ten variables.
pub open spec fn shows<F: Fn(&str) -> Option<String>>(
    lookup: F,
    environment: Environment,
) -> bool {
    &&& answers_only(lookup, ENDPOINT, environment.endpoint)
    &&& answers_only(lookup, ACCESS_KEY, environment.access_key)
    &&& answers_only(lookup, SECRET_KEY, environment.secret_key)
    &&& answers_only(lookup, BIND_HOST, environment.bind_host)
    &&& answers_only(lookup, BIND_PORT, environment.bind_port)
    &&& answers_only(lookup, REGION, environment.region)
    &&& answers_only(lookup, BUCKET_PREFIX, environment.bucket_prefix)
    &&& answers_only(lookup, RETENTION_DAYS, environment.retention_days)
    &&& answers_only(lookup, MAX_BODY_BYTES, environment.max_body_bytes)
    &&& answers_only(lookup, ALLOWED_HOSTS, environment.allowed_hosts)
}

/// What is returned, by its views.
pub open spec fn config_outcome(result: Result<Config, ConfigError>) -> Result<
    ConfigView,
    ConfigErrorView,
> {
    match result {
        Ok(config) => Ok(config@),
        Err(error) => Err(error@),
    }
}

/// The rules that every accepted configuration keeps.
pub open spec fn sound(config: ConfigView) -> bool {
    &&& web_address(config.endpoint)
    &&& trimmed(config.access_key).len() > 0
    &&& trimmed(config.secret_key).len() > 0
    &&& 1 <= config.bind_port <= 65535
    &&& usable_prefix(config.bucket_prefix)
    &&& 0 <= config.retention_days <= 3650
    &&& 1024 <= config.max_body_bytes <= 67_108_864
    &&& forall|i: int|
        0 <= i < config.allowed_hosts.len() ==> host_name(#[trigger] config.allowed_hosts[i])
}

/// What reading a text gives, by its views.
pub open spec fn text_outcome(result: Result<String, ConfigError>) -> Result<
    Seq<char>,
    ConfigErrorView,
> {
    match result {
        Ok(text) => Ok(text@),
        Err(error) => Err(error@),
    }
}

/// What reading a number gives, by its views.
pub open spec fn number_outcome<T: SettingNumber>(result: Result<T, ConfigError>) -> Result<
    int,
    ConfigErrorView,
> {
    match result {
        Ok(number) => Ok(number.number()),
        Err(error) => Err(error@),
    }
}

/// Takes a value that has to be there.
fn required(value: Option<String>, name: &'static str) -> (text: Result<String, ConfigError>)
    ensures
        text_outcome(text) == required_setting(optional(value), name@),
{
    match value {
        Some(text) => if trim(text.as_str()).is_empty() {
            Err(ConfigError::Missing(name))
        } else {
            Ok(text)
        },
        None => Err(ConfigError::Missing(name)),
    }
}

/// Reads a number and holds it to its range.
fn number_from<T: SettingNumber>(
    value: Option<String>,
    name: &'static str,
    default: T,
    min: T,
    max: T,
) -> (number: Result<T, ConfigError>)
    ensures
        number_outcome(number) == number_setting::<T>(
            optional(value),
            name@,
            default.number(),
            min.number(),
            max.number(),
        ),
{
    let fallback = "expected a number between ".to_string().concat(min.written().as_str()).concat(
        " and ",
    ).concat(max.written().as_str());
    match value {
        None => Ok(default),
        Some(raw) => match T::parse(trim(raw.as_str())) {
            Err(complaint) => Err(
                ConfigError::Invalid {
                    variable: name,
                    message: fallback.concat(": ").concat(complaint.as_str()),
                },
            ),
            Ok(parsed) => {
                if parsed.is_below(min) || max.is_below(parsed) {
                    return Err(ConfigError::Invalid { variable: name, message: fallback });
                }
                Ok(parsed)
            },
        },
    }
}

/// Looks a variable up and reads it as a number.
fn parse_num<F, T>(lookup: &F, name: &'static str, default: T, min: T, max: T) -> (number: Result<
    T,
    ConfigError,
>)
where
    F: Fn(&str) -> Option<String>,
    T: SettingNumber,
    requires
        call_requires(*lookup, (name,)),
    ensures
        exists|value: Option<Seq<char>>| #[trigger]
            answers(*lookup, name, value) && number_outcome(number) == number_setting::<T>(
                value,
                name@,
                default.number(),
                min.number(),
                max.number(),
            ),
{
    let value = lookup(name);
    assert(answers(*lookup, name, optional(value)));
    number_from(value, name, default, min, max)
}

/// Whether the namespace can have this prefix.
fn is_usable_prefix(prefix: &str) -> (usable: bool)
    ensures
        usable == usable_prefix(prefix@),
{
    let chars = chars_of(prefix);
    for i in 0..chars.len()
        invariant
            chars@ == prefix@,
            forall|j: int|
                0 <= j < i ==> {
                    let c = #[trigger] prefix@[j];
                    'a' <= c <= 'z' || '0' <= c <= '9' || c == '-'
                },
    {
        let c = chars[i];
        if !('a' <= c && c <= 'z' || '0' <= c && c <= '9' || c == '-') {
            assert(c == prefix@[i as int]);
            return false;
        }
    }
    chars.len() >= 2
}

/// Takes the host names out of a comma-separated list.
fn hosts_from(raw: &str) -> (hosts: Vec<String>)
    ensures
        texts(hosts@) == host_list(raw@),
{
    let parts = split(raw, ',');
    let ghost cut = pieces(raw@, ',');
    let ghost bare = cut.map_values(|piece: Seq<char>| trimmed(piece));
    let ghost kept = |host: Seq<char>| host.len() > 0;
    let mut hosts: Vec<String> = Vec::new();
    proof {
        reveal(Seq::filter);
        assert(bare.take(0).filter(kept) =~= Seq::empty());
        assert(texts(hosts@) =~= Seq::empty());
    }
    for i in 0..parts.len()
        invariant
            parts@.map_values(|part: &str| part@) == cut,
            bare == cut.map_values(|piece: Seq<char>| trimmed(piece)),
            kept == (|host: Seq<char>| host.len() > 0),
            texts(hosts@) == bare.take(i as int).filter(kept),
    {
        let host = trim(parts[i]);
        assert(cut[i as int] == parts@[i as int]@);
        proof {
            reveal(Seq::filter);
            assert(bare.take(i + 1).drop_last() =~= bare.take(i as int));
            assert(bare.take(i + 1).last() == host@);
        }
        if !host.is_empty() {
            let ghost before = texts(hosts@);
            hosts.push(host.to_string());
            assert(texts(hosts@) =~= before.push(host@));
        }
    }
    assert(bare.take(bare.len() as int) =~= bare);
    hosts
}

/// The address that the server binds to, as a `Host` header gives it.
pub open spec fn bind_address(config: ConfigView) -> Seq<char> {
    config.bind_host + ":"@ + decimal(config.bind_port as nat)
}

/// The server binds to every address.
pub open spec fn binds_everywhere(config: ConfigView) -> bool {
    config.bind_host == "0.0.0.0"@ || config.bind_host == "::"@
}

/// The `Host` header values that are accepted.
pub open spec fn effective_hosts(config: ConfigView) -> Seq<Seq<char>> {
    if binds_everywhere(config) || config.allowed_hosts.contains(bind_address(config)) {
        config.allowed_hosts
    } else {
        config.allowed_hosts.push(bind_address(config))
    }
}

impl Config {
    /// Testable constructor: `lookup` maps `RUSTFS_AGENT_MCP_*` names to values. It is asked for
    /// no other variable than the ten.
    pub fn from_lookup<F>(lookup: F) -> (result: Result<Self, ConfigError>)
    where
        F: Fn(&str) -> Option<String>,
        requires
            askable(lookup),
        ensures
            reads(lookup, config_outcome(result)),
            result matches Ok(config) ==> sound(config@),
    {
        let ghost mut seen = Environment {
            endpoint: None,
            access_key: None,
            secret_key: None,
            bind_host: None,
            bind_port: None,
            region: None,
            bucket_prefix: None,
            retention_days: None,
            max_body_bytes: None,
            allowed_hosts: None,
        };

        let found = lookup(ENDPOINT);
        proof {
            seen = Environment { endpoint: optional(found), ..seen };
            assert(answers(lookup, ENDPOINT, seen.endpoint));
        }
        let endpoint = match required(found, ENDPOINT) {
            Ok(endpoint) => endpoint,
            Err(error) => {
                assert(config_outcome(Err(error)) == configured(seen));
                return Err(error);
            },
        };
        if !starts_with(endpoint.as_str(), "https://") && !starts_with(
            endpoint.as_str(),
            "http://",
        ) {
            let error = ConfigError::Invalid {
                variable: ENDPOINT,
                message: "must be an http:// or https:// URL".to_string(),
            };
            assert(config_outcome(Err(error)) == configured(seen));
            return Err(error);
        }
        let found = lookup(ACCESS_KEY);
        proof {
            seen = Environment { access_key: optional(found), ..seen };
            assert(answers(lookup, ACCESS_KEY, seen.access_key));
        }
        let access_key = match required(found, ACCESS_KEY) {
            Ok(access_key) => access_key,
            Err(error) => {
                assert(config_outcome(Err(error)) == configured(seen));
                return Err(error);
            },
        };
        let found = lookup(SECRET_KEY);
        proof {
            seen = Environment { secret_key: optional(found), ..seen };
            assert(answers(lookup, SECRET_KEY, seen.secret_key));
        }
        let secret_key = match required(found, SECRET_KEY) {
            Ok(secret_key) => secret_key,
            Err(error) => {
                assert(config_outcome(Err(error)) == configured(seen));
                return Err(error);
            },
        };
        let found = lookup(BIND_HOST);
        proof {
            seen = Environment { bind_host: optional(found), ..seen };
            assert(answers(lookup, BIND_HOST, seen.bind_host));
        }
        let bind_host = match found {
            Some(bind_host) => bind_host,
            None => "127.0.0.1".to_string(),
        };
        let parsed = parse_num(&lookup, BIND_PORT, 8765u16, 1, 65535);
        proof {
            let value = choose|value: Option<Seq<char>>| #[trigger]
                answers(lookup, BIND_PORT, value) && number_outcome(parsed) == number_setting::<u16>(
                    value,
                    BIND_PORT@,
                    8765,
                    1,
                    65535,
                );
            seen = Environment { bind_port: value, ..seen };
        }
        let bind_port = match parsed {
            Ok(bind_port) => bind_port,
            Err(error) => {
                assert(config_outcome(Err(error)) == configured(seen));
                return Err(error);
            },
        };
        let found = lookup(REGION);
        proof {
            seen = Environment { region: optional(found), ..seen };
            assert(answers(lookup, REGION, seen.region));
        }
        let region = match found {
            Some(region) => region,
            None => "us-east-1".to_string(),
        };
        let found = lookup(BUCKET_PREFIX);
        proof {
            seen = Environment { bucket_prefix: optional(found), ..seen };
            assert(answers(lookup, BUCKET_PREFIX, seen.bucket_prefix));
        }
        let bucket_prefix = match found {
            Some(bucket_prefix) => bucket_prefix,
            None => "agent-test-".to_string(),
        };
        if !is_usable_prefix(bucket_prefix.as_str()) {
            let error = ConfigError::Invalid {
                variable: BUCKET_PREFIX,
                message: "must be lowercase alphanumerics/hyphens, at least 2 chars".to_string(),
            };
            assert(config_outcome(Err(error)) == configured(seen));
            return Err(error);
        }
        let parsed = parse_num(&lookup, RETENTION_DAYS, 7i32, 0, 3650);
        proof {
            let value = choose|value: Option<Seq<char>>| #[trigger]
                answers(lookup, RETENTION_DAYS, value) && number_outcome(parsed) == number_setting::<i32>(
                    value,
                    RETENTION_DAYS@,
                    7,
                    0,
                    3650,
                );
            seen = Environment { retention_days: value, ..seen };
        }
        let retention_days = match parsed {
            Ok(retention_days) => retention_days,
            Err(error) => {
                assert(config_outcome(Err(error)) == configured(seen));
                return Err(error);
            },
        };
        let parsed = parse_num(
            &lookup,
            MAX_BODY_BYTES,
            4 * 1024 * 1024usize,
            1024,
            64 * 1024 * 1024,
        );
        proof {
            let value = choose|value: Option<Seq<char>>| #[trigger]
                answers(lookup, MAX_BODY_BYTES, value) && number_outcome(parsed) == number_setting::<usize>(
                    value,
                    MAX_BODY_BYTES@,
                    4_194_304,
                    1024,
                    67_108_864,
                );
            seen = Environment { max_body_bytes: value, ..seen };
        }
        let max_body_bytes = match parsed {
            Ok(max_body_bytes) => max_body_bytes,
            Err(error) => {
                assert(config_outcome(Err(error)) == configured(seen));
                return Err(error);
            },
        };
        let found = lookup(ALLOWED_HOSTS);
        proof {
            seen = Environment { allowed_hosts: optional(found), ..seen };
            assert(answers(lookup, ALLOWED_HOSTS, seen.allowed_hosts));
        }
        let allowed_hosts = match found {
            Some(raw) => hosts_from(raw.as_str()),
            None => Vec::new(),
        };
        let config = Config {
            bind_host,
            bind_port,
            endpoint,
            region,
            access_key,
            secret_key,
            bucket_prefix,
            retention_days,
            max_body_bytes,
            allowed_hosts,
        };
        proof {
            assert(seen.allowed_hosts is None ==> config@.allowed_hosts =~= Seq::empty());
            assert(config_outcome(Ok(config)) == configured(seen));
            law_accepted_configurations_are_sound(seen);
        }
        Ok(config)
    }

    /// Host header values for DNS-rebinding protection: every configured
    /// allowed host plus the literal bind address when it is not a wildcard.
    pub fn effective_allowed_hosts(&self) -> (hosts: Vec<String>)
        ensures
            texts(hosts@) == effective_hosts(self@),
    {
        let mut hosts: Vec<String> = Vec::new();
        let bind = self.bind_host.clone().concat(":").concat(
            decimal_text(self.bind_port as u64).as_str(),
        );
        let mut listed: bool = false;
        for i in 0..self.allowed_hosts.len()
            invariant
                hosts@ == self.allowed_hosts@.take(i as int),
                listed == self@.allowed_hosts.take(i as int).contains(bind@),
        {
            hosts.push(self.allowed_hosts[i].clone());
            let ghost before = self@.allowed_hosts.take(i as int);
            let ghost after = self@.allowed_hosts.take(i + 1);
            assert(after =~= before.push(self.allowed_hosts@[i as int]@));
            assert(self.allowed_hosts@.take(i + 1) =~= self.allowed_hosts@.take(i as int).push(
                self.allowed_hosts@[i as int],
            ));
            if self.allowed_hosts[i] == bind {
                listed = true;
                assert(after[i as int] == bind@);
            } else {
                assert forall|k: int| 0 <= k < after.len() && after[k] == bind@ implies
                    before.contains(bind@) by {
                    assert(k < i ==> before[k] == bind@);
                }
                assert(before.contains(bind@) ==> after.contains(bind@)) by {
                    if before.contains(bind@) {
                        let k = choose|k: int| 0 <= k < before.len() && before[k] == bind@;
                        assert(after[k] == bind@);
                    }
                }
            }
        }
        assert(self.allowed_hosts@.take(self.allowed_hosts@.len() as int)
            =~= self.allowed_hosts@);
        assert(self@.allowed_hosts.take(self@.allowed_hosts.len() as int)
            =~= self@.allowed_hosts);
        if !same_text(self.bind_host.as_str(), "0.0.0.0") && !same_text(
            self.bind_host.as_str(),
            "::",
        ) && !listed {
            hosts.push(bind);
            assert(texts(hosts@) =~= self@.allowed_hosts.push(bind@));
        }
        hosts
    }
}

/// Every name in a list of hosts has the form of one.
proof fn lemma_host_list(text: Seq<char>)
    ensures
        forall|i: int| 0 <= i < host_list(text).len() ==> host_name(#[trigger] host_list(text)[i]),
{
    let cut = pieces(text, ',');
    let bare = cut.map_values(|piece: Seq<char>| trimmed(piece));
    let kept = |host: Seq<char>| host.len() > 0;
    let hosts = host_list(text);
    assert forall|i: int| 0 <= i < hosts.len() implies host_name(#[trigger] hosts[i]) by {
        bare.lemma_filter_pred(kept, i);
        assert(bare.filter(kept).contains(hosts[i]));
        bare.lemma_filter_contains_rev(kept, hosts[i]);
        let k = choose|k: int| 0 <= k < bare.len() && bare[k] == hosts[i];
        lemma_trimmed(cut[k]);
        lemma_pieces_hold_no_separator(text, ',');
        assert(!cut[k].contains(','));
    }
}

/// Every configuration that is accepted keeps the rules: an HTTP endpoint, credentials, a port
/// and limits in their ranges, a usable namespace prefix, and host names that are trimmed and
/// hold no comma.
pub proof fn law_accepted_configurations_are_sound(environment: Environment)
    ensures
        configured(environment) matches Ok(config) ==> sound(config),
{
    if let Some(text) = environment.allowed_hosts {
        lemma_host_list(text);
    }
}

/// What is read through a lookup that always gives what an environment holds is the configuration
/// of that environment.
proof fn lemma_reads_what_is_shown<F: Fn(&str) -> Option<String>>(
    lookup: F,
    environment: Environment,
    outcome: Result<ConfigView, ConfigErrorView>,
)
    requires
        shows(lookup, environment),
        reads(lookup, outcome),
    ensures
        outcome == configured(environment),
{
    let seen = choose|seen: Environment|
        outcome == #[trigger] configured(seen) && looked_up(lookup, seen, lookups(seen));
    let count = lookups(seen);
    assert(count >= 1 ==> seen.endpoint == environment.endpoint);
    assert(count >= 2 ==> seen.access_key == environment.access_key);
    assert(count >= 3 ==> seen.secret_key == environment.secret_key);
    assert(count >= 4 ==> seen.bind_host == environment.bind_host);
    assert(count >= 5 ==> seen.bind_port == environment.bind_port);
    assert(count >= 6 ==> seen.region == environment.region);
    assert(count >= 7 ==> seen.bucket_prefix == environment.bucket_prefix);
    assert(count >= 8 ==> seen.retention_days == environment.retention_days);
    assert(count >= 9 ==> seen.max_body_bytes == environment.max_body_bytes);
    assert(count >= 10 ==> seen.allowed_hosts == environment.allowed_hosts);
}

/// Two lookups that always give the same for the ten variables, whatever they give for others,
/// lead to the same configuration or to the same error.
pub proof fn law_agreeing_lookups_configure_alike<
    F: Fn(&str) -> Option<String>,
    G: Fn(&str) -> Option<String>,
>(
    one: F,
    other: G,
    environment: Environment,
    one_outcome: Result<ConfigView, ConfigErrorView>,
    other_outcome: Result<ConfigView, ConfigErrorView>,
)
    requires
        shows(one, environment),
        shows(other, environment),
        reads(one, one_outcome),
        reads(other, other_outcome),
    ensures
        one_outcome == other_outcome,
        one_outcome == configured(environment),
{
    lemma_reads_what_is_shown(one, environment, one_outcome);
    lemma_reads_what_is_shown(other, environment, other_outcome);
}

/// Every configured host is accepted, and so is the address that the server binds to, unless it
/// binds to every address; no other host is. No host at all is accepted exactly where the server
/// binds to every address and no host is configured.
pub proof fn law_accepted_hosts(config: ConfigView, host: Seq<char>)
    ensures
        effective_hosts(config).contains(host) == (config.allowed_hosts.contains(host) || (
        !binds_everywhere(config) && host == bind_address(config))),
        effective_hosts(config).len() == 0 <==> binds_everywhere(config)
            && config.allowed_hosts.len() == 0,
{
    let configured = config.allowed_hosts;
    let hosts = effective_hosts(config);
    if configured.contains(host) {
        let i = choose|i: int| 0 <= i < configured.len() && configured[i] == host;
        assert(hosts[i] == host);
    }
    if hosts != configured {
        assert(hosts.last() == bind_address(config));
        if hosts.contains(host) && host != bind_address(config) {
            let i = choose|i: int| 0 <= i < hosts.len() && hosts[i] == host;
            assert(configured[i] == host);
        }
    }
}

} // verus!

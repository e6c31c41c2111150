//! Access without the server: presigned URLs and short-lived credentials.
use aws_sdk_s3::presigning::PresigningConfig;
use vstd::prelude::*;
use vstd::string::*;

use crate::config::Config;
use crate::json::{compact_json, fields_view, object, text_array, Json, JsonView};
use crate::policy::{
    policy_document, random_uuid, random_uuid_form, session_policy, session_statements,
    TestBucketName,
};
use crate::text::{begins_with, debug_text, debugged, same_text, texts};
use crate::tools::objects::clamped;
use crate::tools::{
    answer, chosen_bucket, compose, failure, json_out, op_err, outcome, ToolError,
};

verus! {

#[verifier::external_type_specification]
#[verifier::external_body]
pub struct ExPresigningConfig(PresigningConfig);

/// How many seconds a presigned request is valid for.
pub uninterp spec fn validity_seconds(window: PresigningConfig) -> nat;

/// `PresigningConfig::expires_in`: a window of that many seconds, which begins now; an error
/// where they are more than a week.
#[verifier::external_body]
fn presigning_window(seconds: u64) -> (window: Result<PresigningConfig, String>)
    ensures
        match window {
            Ok(window) => seconds <= 604_800 && validity_seconds(window) == seconds,
            Err(message) => seconds > 604_800 && message@
                == "`expires_in` must be no longer than one week"@,
        },
{
    PresigningConfig::expires_in(std::time::Duration::from_secs(seconds)).map_err(
        |error| error.to_string(),
    )
}

/// Mint a presigned URL for direct HTTP access to an object.
#[derive(Debug)]
pub struct PresignUrlTool {
    pub bucket: String,
    pub key: String,
    /// "get" (default) or "put".
    pub method: Option<String>,
    /// URL lifetime in seconds (default 3600, max 604800).
    pub ttl_seconds: Option<i64>,
}

/// What a presigned URL is for.
#[derive(Debug, Clone, Copy, PartialEq, Eq)]
pub enum PresignMethod {
    Get,
    Put,
}

/// A request for a presigned URL.
#[derive(Debug)]
pub struct PresignRequest {
    pub bucket: TestBucketName,
    pub key: String,
    pub method: PresignMethod,
    pub ttl_seconds: i64,
    pub window: PresigningConfig,
}

/// The name of a method.
pub open spec fn method_name(method: PresignMethod) -> Seq<char> {
    match method {
        PresignMethod::Get => "get"@,
        PresignMethod::Put => "put"@,
    }
}

/// The method of that name, or why there is none.
pub open spec fn named_method(name: Seq<char>) -> Result<PresignMethod, Seq<char>> {
    if name == "get"@ {
        Ok(PresignMethod::Get)
    } else if name == "put"@ {
        Ok(PresignMethod::Put)
    } else {
        Err("method must be \"get\" or \"put\", not "@ + debug_text(name))
    }
}

/// The name of the method that is asked for.
pub open spec fn wanted_method(method: Option<String>) -> Seq<char> {
    match method {
        Some(name) => name@,
        None => "get"@,
    }
}

/// The lifetime of a URL.
pub open spec fn url_lifetime(ttl_seconds: Option<i64>) -> int {
    clamped(ttl_seconds.unwrap_or(3600) as int, 60, 604_800)
}

/// The answer with a URL.
pub open spec fn url_json(request: PresignRequest, url: Seq<char>) -> JsonView {
    object(
        seq![
            ("bucket"@, JsonView::Text(request.bucket@)),
            ("key"@, JsonView::Text(request.key@)),
            ("method"@, JsonView::Text(method_name(request.method))),
            ("url"@, JsonView::Text(url)),
            ("ttl_seconds"@, JsonView::Number(request.ttl_seconds as int)),
        ],
    )
}

/// The method of that name.
pub fn presign_method(name: &str) -> (method: Result<PresignMethod, ToolError>)
    ensures
        match method {
            Ok(method) => named_method(name@) == Ok::<_, Seq<char>>(method),
            Err(error) => named_method(name@) == Err::<PresignMethod, _>(error@),
        },
{
    if same_text(name, "get") {
        Ok(PresignMethod::Get)
    } else if same_text(name, "put") {
        Ok(PresignMethod::Put)
    } else {
        Err(
            ToolError {
                message: "method must be \"get\" or \"put\", not ".to_string().concat(
                    debugged(name).as_str(),
                ),
            },
        )
    }
}

impl PresignUrlTool {
    /// What a request for a URL comes to.
    pub open spec fn asks(self, config: Config, request: Result<PresignRequest, ToolError>) -> bool {
        match chosen_bucket(self.bucket@, config.bucket_prefix@) {
            Err(message) => request matches Err(error) && error@ == message,
            Ok(name) => match named_method(wanted_method(self.method)) {
                Err(message) => request matches Err(error) && error@ == message,
                Ok(method) => request matches Ok(request) && {
                    &&& request.bucket@ == name
                    &&& request.key@ == self.key@
                    &&& request.method == method
                    &&& request.ttl_seconds == url_lifetime(self.ttl_seconds)
                    &&& validity_seconds(request.window) == request.ttl_seconds
                },
            },
        }
    }

    /// What is to be signed.
    pub fn request(&self, config: &Config) -> (request: Result<PresignRequest, ToolError>)
        ensures
            self.asks(*config, request),
            request matches Ok(request) ==> 60 <= request.ttl_seconds <= 604_800,
            request matches Ok(request) ==> (60 <= self.ttl_seconds.unwrap_or(3600) <= 604_800
                ==> request.ttl_seconds == self.ttl_seconds.unwrap_or(3600)),
            request matches Ok(request) ==> request.key@ == self.key@ && validity_seconds(
                request.window,
            ) == request.ttl_seconds,
    {
        let bucket = match compose(self.bucket.as_str(), config.bucket_prefix.as_str()) {
            Ok(bucket) => bucket,
            Err(error) => {
                return Err(error);
            },
        };
        let wanted: i64 = self.ttl_seconds.unwrap_or(3600);
        let ttl_seconds: i64 = if wanted < 60 {
            60
        } else if wanted > 604_800 {
            604_800
        } else {
            wanted
        };
        let window = match presigning_window(ttl_seconds as u64) {
            Ok(window) => window,
            Err(error) => {
                return Err(op_err("presign", error.as_str()));
            },
        };
        let named = match &self.method {
            Some(name) => presign_method(name.as_str()),
            None => presign_method("get"),
        };
        match named {
            Ok(method) => Ok(
                PresignRequest { bucket, key: self.key.clone(), method, ttl_seconds, window },
            ),
            Err(error) => Err(error),
        }
    }

    /// The URL as the tool shows it.
    pub fn report(&self, request: &PresignRequest, url: &str) -> (report: Json)
        ensures
            report@ == url_json(*request, url@),
    {
        let method = match request.method {
            PresignMethod::Get => "get",
            PresignMethod::Put => "put",
        };
        let fields: Vec<(String, Json)> = vec![
            ("bucket".to_string(), Json::text(request.bucket.as_str())),
            ("key".to_string(), Json::text(request.key.as_str())),
            ("method".to_string(), Json::text(method)),
            ("url".to_string(), Json::text(url)),
            ("ttl_seconds".to_string(), Json::Signed(request.ttl_seconds)),
        ];
        assert(fields_view(fields@) =~= seq![
            ("bucket"@, JsonView::Text(request.bucket@)),
            ("key"@, JsonView::Text(request.key@)),
            ("method"@, JsonView::Text(method_name(request.method))),
            ("url"@, JsonView::Text(url@)),
            ("ttl_seconds"@, JsonView::Number(request.ttl_seconds as int)),
        ]);
        Json::Object(fields)
    }

    /// Answers once the URL is signed.
    pub fn respond(&self, request: &PresignRequest, reply: Result<String, String>) -> (answered:
        Result<String, ToolError>)
        ensures
            outcome(answered) == match reply {
                Ok(url) => answer(url_json(*request, url@)),
                Err(error) => Err(failure("presign "@ + method_name(request.method), error@)),
            },
    {
        match reply {
            Ok(url) => json_out(&self.report(request, url.as_str())),
            Err(error) => {
                let method = match request.method {
                    PresignMethod::Get => "get",
                    PresignMethod::Put => "put",
                };
                let operation = "presign ".to_string().concat(method);
                Err(op_err(operation.as_str(), error.as_str()))
            },
        }
    }
}

/// Mint ephemeral, auto-expiring S3 credentials for test code via STS.
#[derive(Debug)]
pub struct MintCredentialsTool {
    /// Restrict the credentials to these test buckets (default: whole test namespace).
    pub buckets: Option<Vec<String>>,
    /// Credential lifetime in minutes (default 60, min 15, max 720).
    pub ttl_minutes: Option<i32>,
}

/// A request for credentials.
#[derive(Debug)]
pub struct MintRequest {
    pub role_arn: String,
    pub session_name: String,
    pub policy: String,
    pub duration_seconds: i32,
    /// The buckets that the credentials are for, where they are not for the whole namespace.
    pub scope: Option<Vec<String>>,
}

/// Credentials as the service mints them.
#[derive(Debug)]
pub struct MintedCredentials {
    pub access_key_id: String,
    pub secret_access_key: String,
    pub session_token: String,
    pub expires_at: String,
}

/// The buckets of these names, or why the first of them that is turned down is.
pub open spec fn resolved(names: Seq<Seq<char>>, prefix: Seq<char>) -> Result<
    Seq<Seq<char>>,
    Seq<char>,
>
    decreases names.len(),
{
    if names.len() == 0 {
        Ok(Seq::empty())
    } else {
        match (resolved(names.drop_last(), prefix), chosen_bucket(names.last(), prefix)) {
            (Err(error), _) => Err(error),
            (_, Err(error)) => Err(error),
            (Ok(before), Ok(bucket)) => Ok(before.push(bucket)),
        }
    }
}

/// The buckets that credentials are for; none stands for the whole namespace.
pub open spec fn scope_of(buckets: Option<Seq<Seq<char>>>, prefix: Seq<char>) -> Result<
    Option<Seq<Seq<char>>>,
    Seq<char>,
> {
    match buckets {
        Some(names) if names.len() > 0 => match resolved(names, prefix) {
            Ok(buckets) => Ok(Some(buckets)),
            Err(error) => Err(error),
        },
        _ => Ok(None),
    }
}

/// The texts of an optional list of strings.
pub open spec fn optional_texts(strings: Option<Vec<String>>) -> Option<Seq<Seq<char>>> {
    match strings {
        Some(strings) => Some(texts(strings@)),
        None => None,
    }
}

/// The session name of minted credentials.
pub open spec fn session_name_form(name: Seq<char>) -> bool {
    begins_with(name, "agent-mcp-"@) && random_uuid_form(name.skip("agent-mcp-"@.len() as int))
}

/// What the answer says of the scope.
pub open spec fn scope_json(scope: Option<Seq<Seq<char>>>, prefix: Seq<char>) -> JsonView {
    match scope {
        Some(buckets) => object(seq![("buckets"@, text_array(buckets))]),
        None => object(seq![("prefix"@, JsonView::Text(prefix + "*"@))]),
    }
}

/// The answer with credentials.
pub open spec fn credentials_json(
    config: Config,
    scope: Option<Seq<Seq<char>>>,
    credentials: MintedCredentials,
) -> JsonView {
    object(
        seq![
            ("endpoint"@, JsonView::Text(config.endpoint@)),
            ("region"@, JsonView::Text(config.region@)),
            ("access_key_id"@, JsonView::Text(credentials.access_key_id@)),
            ("secret_access_key"@, JsonView::Text(credentials.secret_access_key@)),
            ("session_token"@, JsonView::Text(credentials.session_token@)),
            ("expires_at"@, JsonView::Text(credentials.expires_at@)),
            ("scope"@, scope_json(scope, config.bucket_prefix@)),
            (
                "note"@,
                JsonView::Text(
                    "credentials expire on their own; use AWS_SESSION_TOKEN alongside the key pair"@,
                ),
            ),
        ],
    )
}

/// Finds the buckets of these names.
fn resolve(names: &Vec<String>, prefix: &str) -> (buckets: Result<Vec<String>, ToolError>)
    ensures
        match buckets {
            Ok(buckets) => resolved(texts(names@), prefix@) == Ok::<_, Seq<char>>(texts(buckets@)),
            Err(error) => resolved(texts(names@), prefix@) == Err::<Seq<Seq<char>>, _>(error@),
        },
{
    let ghost wanted = texts(names@);
    let mut buckets: Vec<String> = Vec::new();
    assert(texts(buckets@) =~= Seq::empty());
    for i in 0..names.len()
        invariant
            wanted == texts(names@),
            resolved(wanted.take(i as int), prefix@) == Ok::<_, Seq<char>>(texts(buckets@)),
    {
        assert(wanted.take(i + 1).drop_last() =~= wanted.take(i as int));
        match compose(names[i].as_str(), prefix) {
            Ok(bucket) => {
                let ghost before = texts(buckets@);
                buckets.push(bucket.to_string());
                assert(texts(buckets@) =~= before.push(bucket@));
            },
            Err(error) => {
                proof {
                    lemma_first_refusal_stays(wanted, prefix@, i + 1);
                }
                return Err(error);
            },
        }
    }
    assert(wanted.take(wanted.len() as int) =~= wanted);
    Ok(buckets)
}

/// What follows a name that is turned down changes nothing.
proof fn lemma_first_refusal_stays(names: Seq<Seq<char>>, prefix: Seq<char>, count: int)
    requires
        0 <= count <= names.len(),
        resolved(names.take(count), prefix) is Err,
    ensures
        resolved(names, prefix) == resolved(names.take(count), prefix),
    decreases names.len(),
{
    if count == names.len() {
        assert(names.take(count) =~= names);
    } else {
        assert(names.drop_last().take(count) =~= names.take(count));
        lemma_first_refusal_stays(names.drop_last(), prefix, count);
    }
}

/// The name of a session, from the random part.
fn session_name(random: &str) -> (name: String)
    ensures
        name@ == "agent-mcp-"@ + random@,
{
    "agent-mcp-".to_string().concat(random)
}

impl MintCredentialsTool {
    /// The buckets that the credentials are for; none stands for the whole namespace.
    pub fn scope(&self, config: &Config) -> (scope: Result<Option<Vec<String>>, ToolError>)
        ensures
            match scope {
                Ok(scope) => scope_of(optional_texts(self.buckets), config.bucket_prefix@) == Ok::<
                    _,
                    Seq<char>,
                >(optional_texts(scope)),
                Err(error) => scope_of(optional_texts(self.buckets), config.bucket_prefix@)
                    == Err::<Option<Seq<Seq<char>>>, _>(error@),
            },
    {
        match &self.buckets {
            Some(names) => if names.len() == 0 {
                Ok(None)
            } else {
                match resolve(names, config.bucket_prefix.as_str()) {
                    Ok(buckets) => Ok(Some(buckets)),
                    Err(error) => Err(error),
                }
            },
            None => Ok(None),
        }
    }

    /// What a request for credentials comes to.
    pub open spec fn asks(self, config: Config, request: Result<MintRequest, ToolError>) -> bool {
        let minutes = self.ttl_minutes.unwrap_or(60);
        if minutes < 15 || minutes > 720 {
            request matches Err(error) && error@ == "ttl_minutes must be between 15 and 720"@
        } else {
            match scope_of(optional_texts(self.buckets), config.bucket_prefix@) {
                Err(message) => request matches Err(error) && error@ == message,
                Ok(scope) => request matches Ok(request) && {
                    &&& request.role_arn@ == "arn:aws:iam:::role/agent-mcp"@
                    &&& session_name_form(request.session_name@)
                    &&& request.policy@ == compact_json(
                        policy_document(session_statements(scope, config.bucket_prefix@)),
                    )
                    &&& request.duration_seconds == minutes * 60
                    &&& optional_texts(request.scope) == scope
                },
            }
        }
    }

    /// What the service is asked.
    pub fn request(&self, config: &Config) -> (request: Result<MintRequest, ToolError>)
        ensures
            self.asks(*config, request),
            request matches Ok(request) ==> request.duration_seconds == 60
                * self.ttl_minutes.unwrap_or(60),
            request matches Ok(request) ==> 900 <= request.duration_seconds <= 43_200,
    {
        let minutes: i32 = self.ttl_minutes.unwrap_or(60);
        if minutes < 15 || minutes > 720 {
            return Err(
                ToolError { message: "ttl_minutes must be between 15 and 720".to_string() },
            );
        }
        let scope = match self.scope(config) {
            Ok(scope) => scope,
            Err(error) => {
                return Err(error);
            },
        };
        let policy = match &scope {
            Some(buckets) => session_policy(
                Some(buckets.as_slice()),
                config.bucket_prefix.as_str(),
            ),
            None => session_policy(None, config.bucket_prefix.as_str()),
        };
        let random = random_uuid();
        let session_name = session_name(random.as_str());
        assert(session_name@.take("agent-mcp-"@.len() as int) =~= "agent-mcp-"@);
        assert(session_name@.skip("agent-mcp-"@.len() as int) =~= random@);
        Ok(
            MintRequest {
                role_arn: "arn:aws:iam:::role/agent-mcp".to_string(),
                session_name,
                policy: policy.to_string(),
                duration_seconds: minutes * 60,
                scope,
            },
        )
    }

    /// The credentials as the tool shows them.
    pub fn report(
        &self,
        config: &Config,
        scope: &Option<Vec<String>>,
        credentials: &MintedCredentials,
    ) -> (report: Json)
        ensures
            report@ == credentials_json(*config, optional_texts(*scope), *credentials),
    {
        let scope_fields: Vec<(String, Json)> = match scope {
            Some(buckets) => vec![("buckets".to_string(), Json::texts(buckets))],
            None => vec![
                (
                    "prefix".to_string(),
                    Json::Text(config.bucket_prefix.clone().concat("*")),
                ),
            ],
        };
        proof {
            match scope {
                Some(buckets) => assert(fields_view(scope_fields@) =~= seq![
                    ("buckets"@, text_array(texts(buckets@))),
                ]),
                None => assert(fields_view(scope_fields@) =~= seq![
                    ("prefix"@, JsonView::Text(config.bucket_prefix@ + "*"@)),
                ]),
            }
        }
        let note = "credentials expire on their own; use AWS_SESSION_TOKEN alongside the key pair";
        let fields: Vec<(String, Json)> = vec![
            ("endpoint".to_string(), Json::text(config.endpoint.as_str())),
            ("region".to_string(), Json::text(config.region.as_str())),
            ("access_key_id".to_string(), Json::text(credentials.access_key_id.as_str())),
            ("secret_access_key".to_string(), Json::text(credentials.secret_access_key.as_str())),
            ("session_token".to_string(), Json::text(credentials.session_token.as_str())),
            ("expires_at".to_string(), Json::text(credentials.expires_at.as_str())),
            ("scope".to_string(), Json::Object(scope_fields)),
            ("note".to_string(), Json::text(note)),
        ];
        assert(fields_view(fields@) =~= seq![
            ("endpoint"@, JsonView::Text(config.endpoint@)),
            ("region"@, JsonView::Text(config.region@)),
            ("access_key_id"@, JsonView::Text(credentials.access_key_id@)),
            ("secret_access_key"@, JsonView::Text(credentials.secret_access_key@)),
            ("session_token"@, JsonView::Text(credentials.session_token@)),
            ("expires_at"@, JsonView::Text(credentials.expires_at@)),
            ("scope"@, scope_json(optional_texts(*scope), config.bucket_prefix@)),
            ("note"@, JsonView::Text(note@)),
        ]);
        Json::Object(fields)
    }

    /// Answers once the service has replied.
    pub fn respond(
        &self,
        config: &Config,
        request: &MintRequest,
        reply: Result<Option<MintedCredentials>, String>,
    ) -> (answered: Result<String, ToolError>)
        ensures
            outcome(answered) == match reply {
                Ok(Some(credentials)) => answer(
                    credentials_json(*config, optional_texts(request.scope), credentials),
                ),
                Ok(None) => Err("STS returned no credentials"@),
                Err(error) => Err(failure("mint_credentials (assume_role)"@, error@)),
            },
    {
        match reply {
            Ok(Some(credentials)) => json_out(
                &self.report(config, &request.scope, &credentials),
            ),
            Ok(None) => Err(ToolError { message: "STS returned no credentials".to_string() }),
            Err(error) => Err(op_err("mint_credentials (assume_role)", error.as_str())),
        }
    }
}

} // verus!

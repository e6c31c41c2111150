//! Bucket names inside the test namespace, and the access policies that confine credentials to it.
use vstd::prelude::*;
use vstd::std_specs::cmp::{PartialEqSpec, PartialEqSpecImpl};
use vstd::string::*;

use crate::json::{fields_view, items_view, object, text_array, Json, JsonView};
use crate::text::{begins_with, chars_of, holds_pair, starts_with, texts};

verus! {

/// A lowercase ASCII letter or an ASCII digit.
pub open spec fn lower_alphanumeric(c: char) -> bool {
    'a' <= c <= 'z' || '0' <= c <= '9'
}

/// A character that a bucket name may hold.
pub open spec fn name_char(c: char) -> bool {
    lower_alphanumeric(c) || c == '-' || c == '.'
}

/// Two dots, or a dot and a hyphen, stand side by side.
pub open spec fn clashing_separators(name: Seq<char>) -> bool {
    holds_pair(name, '.', '.') || holds_pair(name, '.', '-') || holds_pair(name, '-', '.')
}

/// The S3 bucket naming rules.
pub open spec fn valid_bucket_name(name: Seq<char>) -> bool {
    &&& 3 <= name.len() <= 63
    &&& forall|i: int| 0 <= i < name.len() ==> name_char(#[trigger] name[i])
    &&& !clashing_separators(name)
    &&& lower_alphanumeric(name[0])
    &&& lower_alphanumeric(name.last())
}

/// The full name that a request for `bucket` stands for.
pub open spec fn full_name(bucket: Seq<char>, prefix: Seq<char>) -> Seq<char> {
    if begins_with(bucket, prefix) {
        bucket
    } else {
        prefix + bucket
    }
}

/// Why a name is turned down.
pub open spec fn invalid_name_message(name: Seq<char>) -> Seq<char> {
    "'"@ + name
        + "' is not a valid S3 bucket name (3-63 chars, lowercase alphanumeric, hyphen or dot separators, no '..' segments)"@
}

/// A lowercase hexadecimal digit.
pub open spec fn hex_digit(c: char) -> bool {
    '0' <= c <= '9' || 'a' <= c <= 'f'
}

/// The form of a random (version 4) UUID written as bare hexadecimal digits.
pub open spec fn random_uuid_form(text: Seq<char>) -> bool {
    &&& text.len() == 32
    &&& forall|i: int| 0 <= i < text.len() ==> hex_digit(#[trigger] text[i])
    &&& text[12] == '4'
    &&& text[16] == '8' || text[16] == '9' || text[16] == 'a' || text[16] == 'b'
}

/// `uuid::Uuid::new_v4` in its simple format: 32 lowercase hexadecimal digits with the version
/// and variant digits of a random UUID. Which of them it is is left to chance.
#[verifier::external_body]
pub(crate) fn random_uuid() -> (text: String)
    ensures
        random_uuid_form(text@),
{
    uuid::Uuid::new_v4().simple().to_string()
}

fn is_lower_alphanumeric(c: char) -> (yes: bool)
    ensures
        yes == lower_alphanumeric(c),
{
    'a' <= c && c <= 'z' || '0' <= c && c <= '9'
}

/// Whether `first` and, right behind it, `second` occur in `chars`.
fn contains_pair(chars: &Vec<char>, first: char, second: char) -> (yes: bool)
    ensures
        yes == holds_pair(chars@, first, second),
{
    let mut i: usize = 1;
    while i < chars.len()
        invariant
            1 <= i,
            forall|j: int|
                0 <= j < i - 1 && j < chars@.len() - 1 ==> !(#[trigger] chars@[j] == first
                    && chars@[j + 1] == second),
        decreases chars.len() - i,
    {
        if chars[i - 1] == first && chars[i] == second {
            assert(chars@[i - 1] == first);
            return true;
        }
        i = i + 1;
    }
    false
}

/// Validates the composed name against S3 bucket naming rules.
pub fn is_valid_bucket_name(name: &str) -> (valid: bool)
    ensures
        valid == valid_bucket_name(name@),
{
    let chars = chars_of(name);
    let len: usize = chars.len();
    if len < 3 || len > 63 {
        return false;
    }
    for i in 0..len
        invariant
            len == chars.len(),
            chars@ == name@,
            forall|j: int| 0 <= j < i ==> name_char(#[trigger] chars@[j]),
    {
        let c = chars[i];
        if !(is_lower_alphanumeric(c) || c == '-' || c == '.') {
            assert(!name_char(name@[i as int]));
            return false;
        }
    }
    if contains_pair(&chars, '.', '.') || contains_pair(&chars, '.', '-') || contains_pair(
        &chars,
        '-',
        '.',
    ) {
        return false;
    }
    is_lower_alphanumeric(chars[0]) && is_lower_alphanumeric(chars[len - 1])
}

/// An S3 bucket name composed from the configured test prefix.
#[derive(Debug, Clone, Eq)]
pub struct TestBucketName(String);

impl PartialEq for TestBucketName {
    fn eq(&self, other: &Self) -> (equal: bool) {
        self.0 == other.0
    }
}

impl PartialEqSpecImpl for TestBucketName {
    open spec fn obeys_eq_spec() -> bool {
        true
    }

    open spec fn eq_spec(&self, other: &Self) -> bool {
        self@ == other@
    }
}

impl View for TestBucketName {
    type V = Seq<char>;

    closed spec fn view(&self) -> Seq<char> {
        self.0@
    }
}

impl TestBucketName {
    /// Accepts either a bare suffix (the server prefix is prepended) or a
    /// full name that already carries the prefix. Anything outside the test
    /// namespace is rejected.
    pub fn compose(bucket: &str, prefix: &str) -> (name: Result<Self, String>)
        ensures
            match name {
                Ok(name) => valid_bucket_name(full_name(bucket@, prefix@)) && name@ == full_name(
                    bucket@,
                    prefix@,
                ),
                Err(message) => !valid_bucket_name(full_name(bucket@, prefix@)) && message@
                    == invalid_name_message(full_name(bucket@, prefix@)),
            },
            name matches Ok(name) ==> (name@ == bucket@ || name@ == prefix@ + bucket@)
                && begins_with(name@, prefix@) && 3 <= name@.len() <= 63,
    {
        assert((prefix@ + bucket@).take(prefix@.len() as int) =~= prefix@);
        let full = if starts_with(bucket, prefix) {
            bucket.to_string()
        } else {
            prefix.to_string().concat(bucket)
        };
        if !is_valid_bucket_name(full.as_str()) {
            return Err(
                "'".to_string().concat(full.as_str()).concat(
                    "' is not a valid S3 bucket name (3-63 chars, lowercase alphanumeric, hyphen or dot separators, no '..' segments)",
                ),
            );
        }
        Ok(TestBucketName(full))
    }

    /// Generates a fresh, collision-resistant name inside the namespace.
    pub fn generate(prefix: &str) -> (name: Self)
        ensures
            begins_with(name@, prefix@),
            random_uuid_form(name@.skip(prefix@.len() as int)),
    {
        let name = Self::from_suffix(prefix, random_uuid().as_str());
        assert(name@.take(prefix@.len() as int) =~= prefix@);
        proof {
            assert(forall|s: Seq<char>| #[trigger] (prefix@ + s).skip(prefix@.len() as int) =~= s);
        }
        name
    }

    /// The prefix and, behind it, the suffix.
    fn from_suffix(prefix: &str, suffix: &str) -> (name: Self)
        ensures
            name@ == prefix@ + suffix@,
    {
        TestBucketName(prefix.to_string().concat(suffix))
    }

    pub fn as_str(&self) -> (name: &str)
        ensures
            name@ == self@,
    {
        self.0.as_str()
    }

    /// The name itself.
    pub fn to_string(&self) -> (name: String)
        ensures
            name@ == self@,
    {
        self.0.clone()
    }
}

/// A permission: every one of the actions, on every one of the resources.
pub struct StatementView {
    pub actions: Seq<Seq<char>>,
    pub resources: Seq<Seq<char>>,
}

/// A permission as it stands in a policy document.
pub open spec fn statement_json(statement: StatementView) -> JsonView {
    object(
        seq![
            ("Effect"@, JsonView::Text("Allow"@)),
            ("Action"@, text_array(statement.actions)),
            ("Resource"@, text_array(statement.resources)),
        ],
    )
}

/// The policy document that grants the given permissions and nothing else.
pub open spec fn policy_document(statements: Seq<StatementView>) -> JsonView {
    object(
        seq![
            ("Version"@, JsonView::Text("2012-10-17"@)),
            (
                "Statement"@,
                JsonView::Array(
                    statements.map_values(|statement: StatementView| statement_json(statement)),
                ),
            ),
        ],
    )
}

/// The resource name of a bucket, or of the buckets that a pattern stands for.
pub open spec fn bucket_arn(name: Seq<char>) -> Seq<char> {
    "arn:aws:s3:::"@ + name
}

/// The resource name of everything in a bucket.
pub open spec fn contents_arn(name: Seq<char>) -> Seq<char> {
    bucket_arn(name) + "/*"@
}

/// A bucket and what it holds, for each of the names.
pub open spec fn bucket_resources(names: Seq<Seq<char>>) -> Seq<Seq<char>> {
    Seq::new(
        2 * names.len(),
        |i: int|
            if i % 2 == 0 {
                bucket_arn(names[i / 2])
            } else {
                contents_arn(names[i / 2])
            },
    )
}

/// The permission to list the names of all buckets.
pub open spec fn listing_statement() -> StatementView {
    StatementView { actions: seq!["s3:ListAllMyBuckets"@], resources: seq![bucket_arn("*"@)] }
}

/// The permission to do everything with the given resources.
pub open spec fn full_access_statement(resources: Seq<Seq<char>>) -> StatementView {
    StatementView { actions: seq!["s3:*"@], resources }
}

/// What a session may do: everything with the given buckets, or, where none are given,
/// everything with the whole namespace and the listing of buckets.
pub open spec fn session_statements(
    buckets: Option<Seq<Seq<char>>>,
    prefix: Seq<char>,
) -> Seq<StatementView> {
    match buckets {
        Some(names) => seq![full_access_statement(bucket_resources(names))],
        None => seq![
            listing_statement(),
            full_access_statement(bucket_resources(seq![prefix + "*"@])),
        ],
    }
}

/// What the minter identity may do.
pub open spec fn minter_statements(prefix: Seq<char>) -> Seq<StatementView> {
    seq![listing_statement(), full_access_statement(bucket_resources(seq![prefix + "*"@]))]
}

/// The names that a session is scoped to.
pub open spec fn scope_names(buckets: Option<&[String]>) -> Option<Seq<Seq<char>>> {
    match buckets {
        Some(names) => Some(texts(names@)),
        None => None,
    }
}

/// A permission as it stands in a policy document.
fn statement(action: &str, resources: &Vec<String>) -> (value: Json)
    ensures
        value@ == statement_json(
            (StatementView { actions: seq![action@], resources: texts(resources@) }),
        ),
{
    let actions: Vec<String> = vec![action.to_string()];
    assert(texts(actions@) =~= seq![action@]);
    let fields: Vec<(String, Json)> = vec![
        ("Effect".to_string(), Json::Text("Allow".to_string())),
        ("Action".to_string(), Json::texts(&actions)),
        ("Resource".to_string(), Json::texts(resources)),
    ];
    assert(fields_view(fields@) =~= seq![
        ("Effect"@, JsonView::Text("Allow"@)),
        ("Action"@, text_array(seq![action@])),
        ("Resource"@, text_array(texts(resources@))),
    ]);
    Json::Object(fields)
}

/// The permission to list the names of all buckets.
fn listing() -> (value: Json)
    ensures
        value@ == statement_json(listing_statement()),
{
    let resources: Vec<String> = vec!["arn:aws:s3:::".to_string().concat("*")];
    assert(texts(resources@) =~= seq![bucket_arn("*"@)]);
    statement("s3:ListAllMyBuckets", &resources)
}

/// The permission to do everything with the buckets of these names, patterns among them.
fn full_access(names: &[String]) -> (value: Json)
    ensures
        value@ == statement_json(full_access_statement(bucket_resources(texts(names@)))),
{
    let mut resources: Vec<String> = Vec::new();
    for i in 0..names.len()
        invariant
            resources.len() == 2 * i,
            forall|j: int|
                0 <= j < 2 * i ==> (#[trigger] resources@[j])@ == bucket_resources(
                    texts(names@),
                )[j],
    {
        let arn = "arn:aws:s3:::".to_string().concat(names[i].as_str());
        resources.push(arn.clone());
        resources.push(arn.concat("/*"));
    }
    assert(texts(resources@) =~= bucket_resources(texts(names@)));
    statement("s3:*", &resources)
}

/// A policy document that grants the given permissions and nothing else.
fn document(statements: Vec<Json>, Ghost(granted): Ghost<Seq<StatementView>>) -> (value: Json)
    requires
        items_view(statements@) == granted.map_values(
            |statement: StatementView| statement_json(statement),
        ),
    ensures
        value@ == policy_document(granted),
{
    let fields: Vec<(String, Json)> = vec![
        ("Version".to_string(), Json::Text("2012-10-17".to_string())),
        ("Statement".to_string(), Json::Array(statements)),
    ];
    assert(fields_view(fields@) =~= seq![
        ("Version"@, JsonView::Text("2012-10-17"@)),
        (
            "Statement"@,
            JsonView::Array(
                granted.map_values(|statement: StatementView| statement_json(statement)),
            ),
        ),
    ]);
    Json::Object(fields)
}

/// Builds the STS session policy that constrains minted credentials.
///
/// `Some(buckets)` scopes the session to exactly those test buckets (tightest
/// scope: no bucket listing). `None` scopes it to the entire test namespace
/// prefix, including bucket listing so test harnesses can discover buckets.
pub fn session_policy(buckets: Option<&[String]>, prefix: &str) -> (policy: Json)
    ensures
        policy@ == policy_document(session_statements(scope_names(buckets), prefix@)),
{
    let ghost granted = session_statements(scope_names(buckets), prefix@);
    let mut statements: Vec<Json> = Vec::new();
    match buckets {
        Some(names) => {
            statements.push(full_access(names));
        },
        None => {
            let pattern: Vec<String> = vec![prefix.to_string().concat("*")];
            assert(texts(pattern@) =~= seq![prefix@ + "*"@]);
            statements.push(listing());
            statements.push(full_access(pattern.as_slice()));
        },
    }
    assert(items_view(statements@) =~= granted.map_values(
        |statement: StatementView| statement_json(statement),
    ));
    document(statements, Ghost(granted))
}

/// The IAM policy document the minter identity itself carries. It can only
/// see bucket names and touch objects inside the test namespace.
pub fn minter_policy(prefix: &str) -> (policy: Json)
    ensures
        policy@ == policy_document(minter_statements(prefix@)),
{
    let pattern: Vec<String> = vec![prefix.to_string().concat("*")];
    assert(texts(pattern@) =~= seq![prefix@ + "*"@]);
    let statements: Vec<Json> = vec![listing(), full_access(pattern.as_slice())];
    assert(items_view(statements@) =~= minter_statements(prefix@).map_values(
        |statement: StatementView| statement_json(statement),
    ));
    document(statements, Ghost(minter_statements(prefix@)))
}

/// Two names are equal exactly where their texts are.
pub proof fn law_names_are_equal_where_their_texts_are(one: TestBucketName, other: TestBucketName)
    ensures
        <TestBucketName as PartialEqSpec>::obeys_eq_spec(),
        PartialEqSpec::eq_spec(&one, &other) == (one@ == other@),
{
}

} // verus!

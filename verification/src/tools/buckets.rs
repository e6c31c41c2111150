//! Listing and creating buckets.
use aws_sdk_s3::types::{BucketLifecycleConfiguration, ExpirationStatus};
use aws_sdk_s3::types::{LifecycleExpiration, LifecycleRuleFilter};
use vstd::prelude::*;
use vstd::string::*;

use crate::config::{usable_prefix, Config};
use crate::json::{fields_view, items_view, object, optional_text, Json, JsonView};
use crate::policy::{
    clashing_separators, hex_digit, lower_alphanumeric, name_char, random_uuid_form,
    valid_bucket_name, TestBucketName,
};
use crate::text::{begins_with, optional, signed_decimal, signed_decimal_text, starts_with};
use crate::tools::{
    answer, bucket_outcome, chosen_bucket, compose, failure, json_out, op_err, outcome, ToolError,
};

verus! {

/// List test buckets (names beginning with the configured prefix).
#[derive(Debug)]
pub struct ListBucketsTool {}

/// A bucket as the service lists it.
#[derive(Debug)]
pub struct BucketSummary {
    pub name: Option<String>,
    pub creation_date: Option<String>,
}

/// A bucket as the service lists it.
pub struct BucketSummaryView {
    pub name: Option<Seq<char>>,
    pub creation_date: Option<Seq<char>>,
}

impl View for BucketSummary {
    type V = BucketSummaryView;

    open spec fn view(&self) -> BucketSummaryView {
        BucketSummaryView {
            name: optional(self.name),
            creation_date: optional(self.creation_date),
        }
    }
}

impl BucketSummaryView {
    /// The name, empty where the service gives none.
    pub open spec fn shown_name(self) -> Seq<char> {
        match self.name {
            Some(name) => name,
            None => Seq::empty(),
        }
    }
}

/// The buckets of a listing.
pub open spec fn summaries(buckets: Seq<BucketSummary>) -> Seq<BucketSummaryView> {
    buckets.map_values(|bucket: BucketSummary| bucket@)
}

/// The buckets of the test namespace, in the order in which they are listed.
pub open spec fn visible_buckets(
    buckets: Seq<BucketSummaryView>,
    prefix: Seq<char>,
) -> Seq<BucketSummaryView> {
    buckets.filter(|bucket: BucketSummaryView| begins_with(bucket.shown_name(), prefix))
}

/// A bucket as the tool shows it.
pub open spec fn bucket_json(bucket: BucketSummaryView) -> JsonView {
    object(
        seq![
            ("name"@, JsonView::Text(bucket.shown_name())),
            ("creation_date"@, optional_text(bucket.creation_date)),
        ],
    )
}

/// The answer to a listing.
pub open spec fn bucket_list_json(
    buckets: Seq<BucketSummaryView>,
    prefix: Seq<char>,
) -> JsonView {
    object(
        seq![
            ("prefix"@, JsonView::Text(prefix)),
            (
                "buckets"@,
                JsonView::Array(
                    visible_buckets(buckets, prefix).map_values(
                        |bucket: BucketSummaryView| bucket_json(bucket),
                    ),
                ),
            ),
        ],
    )
}

impl BucketSummary {
    /// The name, empty where the service gives none.
    fn shown_name(&self) -> (name: &str)
        ensures
            name@ == self@.shown_name(),
    {
        proof {
            reveal_strlit("");
        }
        match &self.name {
            Some(name) => name.as_str(),
            None => {
                assert(""@ =~= Seq::empty());
                ""
            },
        }
    }

    fn to_json(&self) -> (value: Json)
        ensures
            value@ == bucket_json(self@),
    {
        let fields: Vec<(String, Json)> = vec![
            ("name".to_string(), Json::text(self.shown_name())),
            ("creation_date".to_string(), Json::optional_text(&self.creation_date)),
        ];
        assert(fields_view(fields@) =~= seq![
            ("name"@, JsonView::Text(self@.shown_name())),
            ("creation_date"@, optional_text(self@.creation_date)),
        ]);
        Json::Object(fields)
    }
}

impl ListBucketsTool {
    /// The buckets of the test namespace; all others are left out.
    pub fn report(&self, config: &Config, buckets: &Vec<BucketSummary>) -> (report: Json)
        ensures
            report@ == bucket_list_json(summaries(buckets@), config.bucket_prefix@),
    {
        let prefix = config.bucket_prefix.as_str();
        let ghost all = summaries(buckets@);
        let ghost kept = |bucket: BucketSummaryView| begins_with(bucket.shown_name(), prefix@);
        let ghost shown = |bucket: BucketSummaryView| bucket_json(bucket);
        let mut listed: Vec<Json> = Vec::new();
        proof {
            reveal(Seq::filter);
            assert(items_view(listed@) =~= all.take(0).filter(kept).map_values(shown));
        }
        for i in 0..buckets.len()
            invariant
                all == summaries(buckets@),
                kept == (|bucket: BucketSummaryView| begins_with(bucket.shown_name(), prefix@)),
                shown == (|bucket: BucketSummaryView| bucket_json(bucket)),
                items_view(listed@) == all.take(i as int).filter(kept).map_values(shown),
        {
            let bucket = &buckets[i];
            proof {
                reveal(Seq::filter);
                assert(all.take(i + 1).drop_last() =~= all.take(i as int));
                assert(all.take(i + 1).last() == bucket@);
            }
            if starts_with(bucket.shown_name(), prefix) {
                let ghost before = items_view(listed@);
                listed.push(bucket.to_json());
                assert(items_view(listed@) =~= before.push(bucket_json(bucket@)));
                assert(all.take(i as int).filter(kept).push(bucket@).map_values(shown)
                    =~= all.take(i as int).filter(kept).map_values(shown).push(
                    bucket_json(bucket@),
                ));
            }
        }
        assert(all.take(all.len() as int) =~= all);
        let fields: Vec<(String, Json)> = vec![
            ("prefix".to_string(), Json::text(prefix)),
            ("buckets".to_string(), Json::Array(listed)),
        ];
        assert(fields_view(fields@) =~= seq![
            ("prefix"@, JsonView::Text(prefix@)),
            ("buckets"@, JsonView::Array(visible_buckets(all, prefix@).map_values(shown))),
        ]);
        Json::Object(fields)
    }

    /// Answers with what the service listed.
    pub fn respond(
        &self,
        config: &Config,
        reply: Result<Vec<BucketSummary>, String>,
    ) -> (answered: Result<String, ToolError>)
        ensures
            outcome(answered) == match reply {
                Ok(buckets) => answer(
                    bucket_list_json(summaries(buckets@), config.bucket_prefix@),
                ),
                Err(error) => Err(failure("list_buckets"@, error@)),
            },
    {
        match reply {
            Ok(buckets) => json_out(&self.report(config, &buckets)),
            Err(error) => Err(op_err("list_buckets", error.as_str())),
        }
    }
}

/// Create a test bucket.
#[derive(Debug)]
pub struct CreateBucketTool {
    /// Bare bucket name; the test prefix is prepended automatically.
    pub name: Option<String>,
}

/// A lifecycle rule that expires the objects whose keys have a prefix.
#[derive(Debug, PartialEq, Eq)]
pub struct RetentionRule {
    pub id: String,
    /// The rule is in force.
    pub enabled: bool,
    pub key_prefix: String,
    pub days: i32,
}

/// What a lifecycle rule says.
pub struct RetentionRuleView {
    pub id: Seq<char>,
    pub enabled: bool,
    pub key_prefix: Seq<char>,
    pub days: int,
}

impl View for RetentionRule {
    type V = RetentionRuleView;

    open spec fn view(&self) -> RetentionRuleView {
        RetentionRuleView {
            id: self.id@,
            enabled: self.enabled,
            key_prefix: self.key_prefix@,
            days: self.days as int,
        }
    }
}

#[verifier::external_type_specification]
#[verifier::external_body]
pub struct ExServiceRule(aws_sdk_s3::types::LifecycleRule);

#[verifier::external_type_specification]
#[verifier::external_body]
pub struct ExBucketLifecycleConfiguration(BucketLifecycleConfiguration);

/// What a rule in the form that the service takes says.
pub struct ServiceRuleView {
    pub id: Seq<char>,
    pub status: Seq<char>,
    pub key_prefix: Seq<char>,
    pub days: int,
}

/// What a rule in the form that the service takes says.
pub uninterp spec fn rule_content(rule: aws_sdk_s3::types::LifecycleRule) -> ServiceRuleView;

/// The rules that a lifecycle configuration holds.
pub uninterp spec fn lifecycle_rules(configuration: BucketLifecycleConfiguration) -> Seq<
    ServiceRuleView,
>;

/// `LifecycleRule::builder`: a rule with the given name and status that expires the objects whose
/// keys have the prefix after so many days. Building it fails only where no status is set. The
/// status is `ExpirationStatus::from` of its text, which keeps that text.
#[verifier::external_body]
fn service_rule(id: &str, status: &str, key_prefix: &str, days: i32) -> (built: Option<
    aws_sdk_s3::types::LifecycleRule,
>)
    ensures
        built matches Some(built) && rule_content(built) == (ServiceRuleView {
            id: id@,
            status: status@,
            key_prefix: key_prefix@,
            days: days as int,
        }),
{
    aws_sdk_s3::types::LifecycleRule::builder()
        .id(id)
        .status(ExpirationStatus::from(status))
        .filter(LifecycleRuleFilter::builder().prefix(key_prefix).build())
        .expiration(LifecycleExpiration::builder().days(days).build())
        .build()
        .ok()
}

/// `BucketLifecycleConfiguration::builder`: a configuration with that one rule. Building it
/// fails only where no rule is given.
#[verifier::external_body]
fn single_rule(rule: aws_sdk_s3::types::LifecycleRule) -> (built: Option<
    BucketLifecycleConfiguration,
>)
    ensures
        built matches Some(built) && lifecycle_rules(built) == seq![rule_content(rule)],
{
    BucketLifecycleConfiguration::builder().rules(rule).build().ok()
}

/// What became of a lifecycle rule.
#[derive(Debug)]
pub enum RetentionOutcome {
    /// The service took it.
    Applied,
    /// The service did not take it.
    Refused(String),
    /// The rule could not be put into the form that the service takes.
    NotBuilt,
}

/// A bucket that exists and waits for its lifecycle rule.
#[derive(Debug)]
pub struct RetentionStep {
    pub bucket: TestBucketName,
    pub rule: RetentionRule,
}

/// What follows once a bucket has been created.
#[derive(Debug)]
pub enum CreateStep {
    /// Put a lifecycle rule on the bucket.
    ApplyRetention(RetentionStep),
    /// Give this answer.
    Answer(String),
}

/// The answer to the creation of a bucket.
pub open spec fn created_json(bucket: Seq<char>, retention: Seq<char>) -> JsonView {
    object(
        seq![("bucket"@, JsonView::Text(bucket)), ("retention"@, JsonView::Text(retention))],
    )
}

/// The rule as the service takes it.
pub open spec fn as_sent(rule: RetentionRuleView) -> ServiceRuleView {
    ServiceRuleView {
        id: rule.id,
        status: if rule.enabled {
            "Enabled"@
        } else {
            "Disabled"@
        },
        key_prefix: rule.key_prefix,
        days: rule.days,
    }
}

/// The rule that expires every object of a test bucket after so many days.
pub open spec fn retention_rule(days: int) -> RetentionRuleView {
    RetentionRuleView { id: "agent-test-retention"@, enabled: true, key_prefix: ""@, days }
}

/// The bucket waits for the rule that expires its objects after so many days.
pub open spec fn waits(step: RetentionStep, bucket: Seq<char>, days: int) -> bool {
    step.bucket@ == bucket && step.rule@ == retention_rule(days)
}

/// What the answer says of the lifecycle rule.
pub open spec fn retention_note(days: int, outcome: RetentionOutcome) -> Seq<char> {
    match outcome {
        RetentionOutcome::Applied => signed_decimal(days) + " day lifecycle rule applied"@,
        RetentionOutcome::Refused(error) => "lifecycle rule unavailable ("@ + error@
            + "); bucket works, objects will not auto-expire"@,
        RetentionOutcome::NotBuilt =>
            "lifecycle rule unavailable; bucket works, objects will not auto-expire"@,
    }
}

impl CreateBucketTool {
    /// What a request for a bucket comes to: the one that is named, or one with a fresh name.
    pub open spec fn asks(self, config: Config, bucket: Result<TestBucketName, ToolError>) -> bool {
        match self.name {
            Some(name) => bucket_outcome(bucket) == chosen_bucket(name@, config.bucket_prefix@),
            None => bucket matches Ok(fresh) && begins_with(fresh@, config.bucket_prefix@)
                && random_uuid_form(fresh@.skip(config.bucket_prefix@.len() as int)),
        }
    }

    /// The bucket to create: the one that is named, or one with a fresh name.
    pub fn request(&self, config: &Config) -> (bucket: Result<TestBucketName, ToolError>)
        ensures
            self.asks(*config, bucket),
    {
        match &self.name {
            Some(raw) => compose(raw.as_str(), config.bucket_prefix.as_str()),
            None => Ok(TestBucketName::generate(config.bucket_prefix.as_str())),
        }
    }

    /// What follows once the service has replied to the request for `bucket`.
    pub fn created(
        &self,
        config: &Config,
        bucket: TestBucketName,
        reply: Result<(), String>,
    ) -> (step: Result<CreateStep, ToolError>)
        ensures
            match step {
                Err(failed) => reply matches Err(error) && failed@ == failure(
                    "create_bucket"@,
                    error@,
                ),
                Ok(CreateStep::ApplyRetention(waiting)) => {
                    &&& reply is Ok
                    &&& config.retention_days > 0
                    &&& waits(waiting, bucket@, config.retention_days as int)
                },
                Ok(CreateStep::Answer(text)) => {
                    &&& reply is Ok
                    &&& config.retention_days <= 0
                    &&& answer(created_json(bucket@, "disabled by configuration"@)) == Ok::<
                        _,
                        Seq<char>,
                    >(text@)
                },
            },
            step matches Ok(CreateStep::ApplyRetention(waiting)) ==> {
                &&& waiting.bucket@ == bucket@
                &&& waiting.rule.days == config.retention_days
                &&& waiting.rule.enabled
                &&& waiting.rule.key_prefix@.len() == 0
                &&& waiting.rule.id@ == "agent-test-retention"@
            },
    {
        proof {
            reveal_strlit("");
        }
        if let Err(error) = reply {
            return Err(op_err("create_bucket", error.as_str()));
        }
        if config.retention_days > 0 {
            let rule = RetentionRule {
                id: "agent-test-retention".to_string(),
                enabled: true,
                key_prefix: "".to_string(),
                days: config.retention_days,
            };
            Ok(CreateStep::ApplyRetention(RetentionStep { bucket, rule }))
        } else {
            match json_out(&created_report(&bucket, "disabled by configuration")) {
                Ok(text) => Ok(CreateStep::Answer(text)),
                Err(error) => Err(error),
            }
        }
    }
}

impl RetentionStep {
    /// The rule in the form that the service takes.
    pub fn configuration(&self) -> (configuration: Option<BucketLifecycleConfiguration>)
        ensures
            configuration matches Some(configuration) && lifecycle_rules(configuration)
                == seq![as_sent(self.rule@)],
    {
        let rule = &self.rule;
        let status = if rule.enabled {
            "Enabled"
        } else {
            "Disabled"
        };
        match service_rule(rule.id.as_str(), status, rule.key_prefix.as_str(), rule.days) {
            Some(rule) => single_rule(rule),
            None => None,
        }
    }

    /// What the answer says of the lifecycle rule.
    pub fn note(&self, outcome: &RetentionOutcome) -> (note: String)
        ensures
            note@ == retention_note(self.rule.days as int, *outcome),
    {
        match outcome {
            RetentionOutcome::Applied => signed_decimal_text(self.rule.days as i64).concat(
                " day lifecycle rule applied",
            ),
            RetentionOutcome::Refused(
                error,
            ) => "lifecycle rule unavailable (".to_string().concat(error.as_str()).concat(
                "); bucket works, objects will not auto-expire",
            ),
            RetentionOutcome::NotBuilt => {
                "lifecycle rule unavailable; bucket works, objects will not auto-expire".to_string()
            },
        }
    }

    /// Answers once it is known what became of the rule. The bucket stands either way.
    pub fn respond(&self, applied: RetentionOutcome) -> (answered: Result<String, ToolError>)
        ensures
            outcome(answered) == answer(
                created_json(self.bucket@, retention_note(self.rule.days as int, applied)),
            ),
    {
        json_out(&created_report(&self.bucket, self.note(&applied).as_str()))
    }
}

fn created_report(bucket: &TestBucketName, retention: &str) -> (report: Json)
    ensures
        report@ == created_json(bucket@, retention@),
{
    let fields: Vec<(String, Json)> = vec![
        ("bucket".to_string(), Json::text(bucket.as_str())),
        ("retention".to_string(), Json::text(retention)),
    ];
    assert(fields_view(fields@) =~= seq![
        ("bucket"@, JsonView::Text(bucket@)),
        ("retention"@, JsonView::Text(retention@)),
    ]);
    Json::Object(fields)
}

/// The listing shows a bucket exactly where the service lists it and its name is in the
/// namespace.
pub proof fn law_listing_shows_the_namespace(
    buckets: Seq<BucketSummaryView>,
    prefix: Seq<char>,
    bucket: BucketSummaryView,
)
    ensures
        visible_buckets(buckets, prefix).contains(bucket) == (buckets.contains(bucket)
            && begins_with(bucket.shown_name(), prefix)),
{
    let kept = |bucket: BucketSummaryView| begins_with(bucket.shown_name(), prefix);
    let visible = visible_buckets(buckets, prefix);
    broadcast use vstd::seq_lib::group_filter_ensures;

    if visible.contains(bucket) {
        let i = choose|i: int| 0 <= i < visible.len() && visible[i] == bucket;
        assert(kept(buckets.filter(kept)[i]));
        buckets.lemma_filter_contains_rev(kept, bucket);
    }
    if buckets.contains(bucket) && kept(bucket) {
        let i = choose|i: int| 0 <= i < buckets.len() && buckets[i] == bucket;
        assert(buckets.filter(kept).contains(buckets[i]));
    }
}

/// Behind a prefix, every text of letters and digits makes a valid name or none does, as long as
/// the length is right.
proof fn lemma_suffix_does_not_matter(prefix: Seq<char>, one: Seq<char>, other: Seq<char>)
    requires
        one.len() > 0,
        other.len() > 0,
        forall|i: int| 0 <= i < one.len() ==> lower_alphanumeric(#[trigger] one[i]),
        forall|i: int| 0 <= i < other.len() ==> lower_alphanumeric(#[trigger] other[i]),
        valid_bucket_name(prefix + one),
        3 <= prefix.len() + other.len() <= 63,
    ensures
        valid_bucket_name(prefix + other),
{
    let known = prefix + one;
    let name = prefix + other;
    assert forall|i: int| 0 <= i < name.len() implies name_char(#[trigger] name[i]) by {
        if i < prefix.len() {
            assert(name_char(known[i]));
        } else {
            assert(lower_alphanumeric(other[i - prefix.len()]));
        }
    }
    assert forall|i: int| 0 <= i < name.len() - 1 && is_separator(#[trigger] name[i])
        && is_separator(name[i + 1]) implies i + 1 < prefix.len() && known[i] == name[i]
        && known[i + 1] == name[i + 1] by {
        if i + 1 >= prefix.len() {
            assert(lower_alphanumeric(other[i + 1 - prefix.len()]));
        }
    }
    assert(!clashing_separators(name)) by {
        if clashing_separators(name) {
            let i = choose|i: int|
                0 <= i < name.len() - 1 && is_separator(#[trigger] name[i]) && is_separator(
                    name[i + 1],
                ) && !(name[i] == '-' && name[i + 1] == '-');
            assert(known[i] == name[i] && known[i + 1] == name[i + 1]);
        }
    }
    if prefix.len() > 0 {
        assert(name[0] == known[0]);
    } else {
        assert(name[0] == other[0]);
    }
    assert(name.last() == other.last());
}

/// A character that may not stand beside every other.
spec fn is_separator(c: char) -> bool {
    c == '-' || c == '.'
}

/// A fresh name is valid exactly where the prefix leaves room for the random part and could be
/// followed by plain letters. Of the prefixes that a configuration can have, those are the ones
/// that do not begin with a hyphen and are not too long.
pub proof fn law_fresh_names_are_valid(prefix: Seq<char>, random: Seq<char>)
    requires
        random_uuid_form(random),
    ensures
        valid_bucket_name(prefix + random) == (prefix.len() <= 31 && valid_bucket_name(
            prefix + "aaa"@,
        )),
        usable_prefix(prefix) ==> valid_bucket_name(prefix + random) == (prefix[0] != '-'
            && prefix.len() <= 31),
{
    reveal_strlit("aaa");
    let name = prefix + random;
    let plain = prefix + "aaa"@;
    assert forall|i: int| 0 <= i < random.len() implies lower_alphanumeric(
        #[trigger] random[i],
    ) by {
        assert(hex_digit(random[i]));
    }
    if valid_bucket_name(name) {
        lemma_suffix_does_not_matter(prefix, random, "aaa"@);
    }
    if prefix.len() <= 31 && valid_bucket_name(plain) {
        lemma_suffix_does_not_matter(prefix, "aaa"@, random);
    }
    if usable_prefix(prefix) {
        assert forall|i: int| 0 <= i < name.len() implies name_char(#[trigger] name[i]) && name[i]
            != '.' by {
            if i < prefix.len() {
                assert(name[i] == prefix[i]);
            } else {
                assert(lower_alphanumeric(random[i - prefix.len()]));
            }
        }
        assert(name[0] == prefix[0]);
        assert(name.last() == random[31]);
    }
}

} // verus!

//! Deleting a bucket: at once, or, when forced, once every object in it is gone.
use vstd::prelude::*;
use vstd::string::*;

use crate::config::Config;
use crate::json::{fields_view, object, Json, JsonView};
use crate::policy::TestBucketName;
use crate::text::{decimal, decimal_text, optional, texts};
use crate::tools::{
    answer, chosen_bucket, compose, failure, json_out, op_err, outcome, ToolError,
};

verus! {

/// A forced deletion gives up once it has deleted more objects than this.
pub const FORCE_DELETE_OBJECT_LIMIT: usize = 10_000;

/// How many keys a forced deletion lists at a time.
pub const FORCE_DELETE_PAGE_SIZE: i32 = 1000;

/// Delete a test bucket.
#[derive(Debug)]
pub struct DeleteBucketTool {
    /// Bucket name (with or without the test prefix).
    pub bucket: String,
    /// Delete every object in the bucket before removing it.
    pub force: Option<bool>,
}

/// A page of keys as the service lists them.
#[derive(Debug)]
pub struct KeyPage {
    pub keys: Vec<Option<String>>,
    pub next_token: Option<String>,
}

/// A page of keys: those that the service gives, and the token for what follows.
pub struct KeyPageView {
    pub keys: Seq<Seq<char>>,
    pub next_token: Option<Seq<char>>,
}

/// The keys that are given.
pub open spec fn given_keys(keys: Seq<Option<String>>) -> Seq<Seq<char>>
    decreases keys.len(),
{
    if keys.len() == 0 {
        Seq::empty()
    } else {
        match keys.last() {
            Some(key) => given_keys(keys.drop_last()).push(key@),
            None => given_keys(keys.drop_last()),
        }
    }
}

impl View for KeyPage {
    type V = KeyPageView;

    open spec fn view(&self) -> KeyPageView {
        KeyPageView { keys: given_keys(self.keys@), next_token: optional(self.next_token) }
    }
}

/// How far the deletion of a bucket has come.
pub enum DeleteState {
    /// A page of keys is to be listed.
    Listing { bucket: Seq<char>, token: Option<Seq<char>>, deleted: int },
    /// The first of these keys is to be deleted; behind them follows another page, if any.
    Draining { bucket: Seq<char>, keys: Seq<Seq<char>>, token: Option<Seq<char>>, deleted: int },
    /// The bucket itself is to be deleted.
    Removing { bucket: Seq<char>, deleted: int },
}

/// What follows when `keys` are left of the page, and `token` leads to the next.
pub open spec fn next_state(
    bucket: Seq<char>,
    keys: Seq<Seq<char>>,
    token: Option<Seq<char>>,
    deleted: int,
) -> DeleteState {
    if keys.len() > 0 {
        DeleteState::Draining { bucket, keys, token, deleted }
    } else if token is Some {
        DeleteState::Listing { bucket, token, deleted }
    } else {
        DeleteState::Removing { bucket, deleted }
    }
}

/// The refusal of a forced deletion that has gone too far.
pub open spec fn limit_message() -> Seq<char> {
    "refusing to force-delete more than "@ + decimal(FORCE_DELETE_OBJECT_LIMIT as nat)
        + " objects"@
}

/// What follows once the service has replied to a listing.
pub open spec fn after_listing(
    bucket: Seq<char>,
    deleted: int,
    reply: Result<KeyPageView, Seq<char>>,
) -> Result<DeleteState, Seq<char>> {
    match reply {
        Ok(page) => Ok(next_state(bucket, page.keys, page.next_token, deleted)),
        Err(error) => Err(failure("delete_bucket (list)"@, error)),
    }
}

/// What follows once the service has replied to the deletion of the first of `keys`.
pub open spec fn after_deletion(
    bucket: Seq<char>,
    keys: Seq<Seq<char>>,
    token: Option<Seq<char>>,
    deleted: int,
    reply: Result<(), Seq<char>>,
) -> Result<DeleteState, Seq<char>> {
    match reply {
        Ok(_) => if deleted + 1 > FORCE_DELETE_OBJECT_LIMIT {
            Err(limit_message())
        } else {
            Ok(next_state(bucket, keys.skip(1), token, deleted + 1))
        },
        Err(error) => Err(failure("delete_bucket (delete object)"@, error)),
    }
}

/// The answer to the deletion of a bucket.
pub open spec fn deleted_json(bucket: Seq<char>, deleted: int) -> JsonView {
    object(
        seq![
            ("bucket"@, JsonView::Text(bucket)),
            ("objects_deleted"@, JsonView::Number(deleted)),
        ],
    )
}

/// Where the deletion of a bucket begins.
pub open spec fn first_state(bucket: Seq<char>, force: Option<bool>) -> DeleteState {
    if force == Some(true) {
        DeleteState::Listing { bucket, token: None, deleted: 0 }
    } else {
        DeleteState::Removing { bucket, deleted: 0 }
    }
}

/// A page of keys is to be listed.
#[derive(Debug)]
pub struct ListingStep {
    bucket: TestBucketName,
    token: Option<String>,
    deleted: usize,
}

/// A key is to be deleted.
#[derive(Debug)]
pub struct DrainingStep {
    bucket: TestBucketName,
    keys: Vec<String>,
    position: usize,
    token: Option<String>,
    deleted: usize,
}

/// The bucket is to be deleted.
#[derive(Debug)]
pub struct RemovingStep {
    bucket: TestBucketName,
    deleted: usize,
}

/// What the service is to be asked next.
#[derive(Debug)]
pub enum DeleteStep {
    ListPage(ListingStep),
    DeleteObject(DrainingStep),
    DeleteBucket(RemovingStep),
}

impl View for ListingStep {
    type V = DeleteState;

    closed spec fn view(&self) -> DeleteState {
        DeleteState::Listing {
            bucket: self.bucket@,
            token: optional(self.token),
            deleted: self.deleted as int,
        }
    }
}

impl View for DrainingStep {
    type V = DeleteState;

    closed spec fn view(&self) -> DeleteState {
        DeleteState::Draining {
            bucket: self.bucket@,
            keys: texts(self.keys@).skip(self.position as int),
            token: optional(self.token),
            deleted: self.deleted as int,
        }
    }
}

impl View for RemovingStep {
    type V = DeleteState;

    closed spec fn view(&self) -> DeleteState {
        DeleteState::Removing { bucket: self.bucket@, deleted: self.deleted as int }
    }
}

impl View for DeleteStep {
    type V = DeleteState;

    open spec fn view(&self) -> DeleteState {
        match self {
            DeleteStep::ListPage(step) => step@,
            DeleteStep::DeleteObject(step) => step@,
            DeleteStep::DeleteBucket(step) => step@,
        }
    }
}

/// The next step, by its views.
pub open spec fn step_outcome(result: Result<DeleteStep, ToolError>) -> Result<
    DeleteState,
    Seq<char>,
> {
    match result {
        Ok(step) => Ok(step@),
        Err(error) => Err(error@),
    }
}

/// A page, by its views.
pub open spec fn page_reply(reply: Result<KeyPage, String>) -> Result<KeyPageView, Seq<char>> {
    match reply {
        Ok(page) => Ok(page@),
        Err(error) => Err(error@),
    }
}

/// A reply that carries nothing, by its views.
pub open spec fn plain_reply(reply: Result<(), String>) -> Result<(), Seq<char>> {
    match reply {
        Ok(_) => Ok(()),
        Err(error) => Err(error@),
    }
}

/// Takes the keys that are given.
fn collect_keys(keys: &Vec<Option<String>>) -> (given: Vec<String>)
    ensures
        texts(given@) == given_keys(keys@),
{
    let mut given: Vec<String> = Vec::new();
    assert(texts(given@) =~= given_keys(keys@.take(0)));
    for i in 0..keys.len()
        invariant
            texts(given@) == given_keys(keys@.take(i as int)),
    {
        assert(keys@.take(i + 1).drop_last() =~= keys@.take(i as int));
        if let Some(key) = &keys[i] {
            let ghost before = texts(given@);
            given.push(key.clone());
            assert(texts(given@) =~= before.push(key@));
        }
    }
    assert(keys@.take(keys@.len() as int) =~= keys@);
    given
}

/// Goes on to the next key, the next page or the bucket itself.
fn proceed(
    bucket: TestBucketName,
    keys: Vec<String>,
    position: usize,
    token: Option<String>,
    deleted: usize,
) -> (step: DeleteStep)
    requires
        position <= keys@.len(),
        deleted <= FORCE_DELETE_OBJECT_LIMIT,
    ensures
        step@ == next_state(
            bucket@,
            texts(keys@).skip(position as int),
            optional(token),
            deleted as int,
        ),
{
    if position < keys.len() {
        DeleteStep::DeleteObject(DrainingStep { bucket, keys, position, token, deleted })
    } else if token.is_some() {
        DeleteStep::ListPage(ListingStep { bucket, token, deleted })
    } else {
        DeleteStep::DeleteBucket(RemovingStep { bucket, deleted })
    }
}

impl DeleteBucketTool {
    /// What the first step comes to.
    pub open spec fn asks(self, config: Config, step: Result<DeleteStep, ToolError>) -> bool {
        step_outcome(step) == match chosen_bucket(self.bucket@, config.bucket_prefix@) {
            Ok(bucket) => Ok(first_state(bucket, self.force)),
            Err(error) => Err(error),
        }
    }

    /// The first step.
    pub fn begin(&self, config: &Config) -> (step: Result<DeleteStep, ToolError>)
        ensures
            self.asks(*config, step),
    {
        match compose(self.bucket.as_str(), config.bucket_prefix.as_str()) {
            Ok(bucket) => if self.force.unwrap_or(false) {
                Ok(DeleteStep::ListPage(ListingStep { bucket, token: None, deleted: 0 }))
            } else {
                Ok(DeleteStep::DeleteBucket(RemovingStep { bucket, deleted: 0 }))
            },
            Err(error) => Err(error),
        }
    }
}

impl ListingStep {
    #[verifier::type_invariant]
    spec fn within_limit(self) -> bool {
        self.deleted <= FORCE_DELETE_OBJECT_LIMIT
    }

    /// The bucket whose keys are to be listed.
    pub fn bucket(&self) -> (bucket: &TestBucketName)
        ensures
            self@ matches DeleteState::Listing { bucket: listed, .. } && bucket@ == listed,
    {
        &self.bucket
    }

    /// The token for the page, where it is not the first.
    pub fn token(&self) -> (token: &Option<String>)
        ensures
            self@ matches DeleteState::Listing { token: expected, .. } && optional(*token)
                == expected,
    {
        &self.token
    }

    /// How many keys the page may hold.
    pub fn page_size(&self) -> (size: i32)
        ensures
            size == 1000,
            self@ matches DeleteState::Listing { bucket, token, .. } && page_request(bucket, token)
                == (DeleteRequest::ListPage { bucket, token, page_size: size as int }),
    {
        FORCE_DELETE_PAGE_SIZE
    }

    /// Goes on once the service has replied.
    pub fn listed(self, reply: Result<KeyPage, String>) -> (step: Result<DeleteStep, ToolError>)
        ensures
            self@ matches DeleteState::Listing { bucket, deleted, .. } && step_outcome(step)
                == after_listing(bucket, deleted, page_reply(reply)),
            reply is Ok == step is Ok,
            (self@, reply, step) matches (
                DeleteState::Listing { bucket, deleted, .. },
                Ok(page),
                Ok(next),
            ) ==> next@ == (if given_keys(page.keys@).len() > 0 {
                DeleteState::Draining {
                    bucket,
                    keys: given_keys(page.keys@),
                    token: optional(page.next_token),
                    deleted,
                }
            } else if page.next_token is Some {
                DeleteState::Listing { bucket, token: optional(page.next_token), deleted }
            } else {
                DeleteState::Removing { bucket, deleted }
            }),
    {
        proof {
            use_type_invariant(&self);
        }
        match reply {
            Ok(page) => {
                let keys = collect_keys(&page.keys);
                assert(texts(keys@).skip(0) =~= texts(keys@));
                Ok(proceed(self.bucket, keys, 0, page.next_token, self.deleted))
            },
            Err(error) => Err(op_err("delete_bucket (list)", error.as_str())),
        }
    }
}

impl DrainingStep {
    #[verifier::type_invariant]
    spec fn within_limit(self) -> bool {
        self.deleted <= FORCE_DELETE_OBJECT_LIMIT && self.position < self.keys.len()
    }

    /// The bucket that holds the key.
    pub fn bucket(&self) -> (bucket: &TestBucketName)
        ensures
            self@ matches DeleteState::Draining { bucket: drained, .. } && bucket@ == drained,
    {
        &self.bucket
    }

    /// The key that is to be deleted.
    pub fn key(&self) -> (key: &str)
        ensures
            self@ matches DeleteState::Draining { keys, .. } && keys.len() > 0 && key@ == keys[0],
    {
        proof {
            use_type_invariant(self);
        }
        self.keys[self.position].as_str()
    }

    /// Goes on once the service has replied.
    pub fn deleted(self, reply: Result<(), String>) -> (step: Result<DeleteStep, ToolError>)
        ensures
            self@ matches DeleteState::Draining { bucket, keys, token, deleted } && step_outcome(
                step,
            ) == after_deletion(bucket, keys, token, deleted, plain_reply(reply)),
            (self@, reply, step) matches (
                DeleteState::Draining { bucket, keys, token, deleted },
                Ok(_),
                Ok(next),
            ) ==> deleted < 10_000 && next@ == (if keys.len() > 1 {
                DeleteState::Draining { bucket, keys: keys.skip(1), token, deleted: deleted + 1 }
            } else if token is Some {
                DeleteState::Listing { bucket, token, deleted: deleted + 1 }
            } else {
                DeleteState::Removing { bucket, deleted: deleted + 1 }
            }),
    {
        proof {
            use_type_invariant(&self);
        }
        match reply {
            Ok(_) => {
                let deleted: usize = self.deleted + 1;
                if deleted > FORCE_DELETE_OBJECT_LIMIT {
                    return Err(
                        ToolError {
                            message: "refusing to force-delete more than ".to_string().concat(
                                decimal_text(FORCE_DELETE_OBJECT_LIMIT as u64).as_str(),
                            ).concat(" objects"),
                        },
                    );
                }
                assert(texts(self.keys@).skip(self.position as int).skip(1) =~= texts(
                    self.keys@,
                ).skip(self.position + 1));
                Ok(proceed(self.bucket, self.keys, self.position + 1, self.token, deleted))
            },
            Err(error) => Err(op_err("delete_bucket (delete object)", error.as_str())),
        }
    }
}

impl RemovingStep {
    /// The bucket that is to be deleted.
    pub fn bucket(&self) -> (bucket: &TestBucketName)
        ensures
            self@ matches DeleteState::Removing { bucket: removed, .. } && bucket@ == removed,
    {
        &self.bucket
    }

    /// The answer once the bucket is gone.
    pub fn report(&self) -> (report: Json)
        ensures
            self@ matches DeleteState::Removing { bucket, deleted } && report@ == deleted_json(
                bucket,
                deleted,
            ),
    {
        let fields: Vec<(String, Json)> = vec![
            ("bucket".to_string(), Json::text(self.bucket.as_str())),
            ("objects_deleted".to_string(), Json::Unsigned(self.deleted as u64)),
        ];
        assert(fields_view(fields@) =~= seq![
            ("bucket"@, JsonView::Text(self.bucket@)),
            ("objects_deleted"@, JsonView::Number(self.deleted as int)),
        ]);
        Json::Object(fields)
    }

    /// Answers once the service has replied.
    pub fn respond(&self, reply: Result<(), String>) -> (answered: Result<String, ToolError>)
        ensures
            self@ matches DeleteState::Removing { bucket, deleted } && outcome(answered)
                == match reply {
                Ok(_) => answer(deleted_json(bucket, deleted)),
                Err(error) => Err(failure("delete_bucket"@, error@)),
            },
    {
        match reply {
            Ok(_) => json_out(&self.report()),
            Err(error) => Err(op_err("delete_bucket", error.as_str())),
        }
    }
}

/// What the service is asked in the course of a deletion.
pub enum DeleteRequest {
    ListPage { bucket: Seq<char>, token: Option<Seq<char>>, page_size: int },
    DeleteObject { bucket: Seq<char>, key: Seq<char> },
    DeleteBucket { bucket: Seq<char> },
}

/// The request for a page of keys.
pub open spec fn page_request(bucket: Seq<char>, token: Option<Seq<char>>) -> DeleteRequest {
    DeleteRequest::ListPage { bucket, token, page_size: 1000 }
}

/// How many keys are left of the page at hand.
pub open spec fn keys_left(state: DeleteState) -> nat {
    match state {
        DeleteState::Draining { keys, .. } => keys.len(),
        _ => 0,
    }
}

/// All that the service is asked, from `state` on, when it answers the listings with `pages`
/// and carries out every deletion.
pub open spec fn requests(state: DeleteState, pages: Seq<KeyPageView>) -> Seq<DeleteRequest>
    decreases pages.len(), keys_left(state),
{
    match state {
        DeleteState::Listing { bucket, token, deleted } => {
            let request = seq![page_request(bucket, token)];
            if pages.len() == 0 {
                request
            } else {
                match after_listing(bucket, deleted, Ok(pages[0])) {
                    Ok(next) => request + requests(next, pages.skip(1)),
                    Err(_) => request,
                }
            }
        },
        DeleteState::Draining { bucket, keys, token, deleted } => {
            if keys.len() == 0 {
                Seq::empty()
            } else {
                let request = seq![DeleteRequest::DeleteObject { bucket, key: keys[0] }];
                match after_deletion(bucket, keys, token, deleted, Ok(())) {
                    Ok(next) => request + requests(next, pages),
                    Err(_) => request,
                }
            }
        },
        DeleteState::Removing { bucket, .. } => seq![DeleteRequest::DeleteBucket { bucket }],
    }
}

/// How a deletion ends, when the service answers the listings with `pages` and carries out every
/// deletion: with the count of the answer, or with a refusal. It has not ended where the pages
/// run out.
pub open spec fn ending(state: DeleteState, pages: Seq<KeyPageView>) -> Option<
    Result<int, Seq<char>>,
>
    decreases pages.len(), keys_left(state),
{
    match state {
        DeleteState::Listing { bucket, deleted, .. } => if pages.len() == 0 {
            None
        } else {
            match after_listing(bucket, deleted, Ok(pages[0])) {
                Ok(next) => ending(next, pages.skip(1)),
                Err(message) => Some(Err(message)),
            }
        },
        DeleteState::Draining { bucket, keys, token, deleted } => if keys.len() == 0 {
            None
        } else {
            match after_deletion(bucket, keys, token, deleted, Ok(())) {
                Ok(next) => ending(next, pages),
                Err(message) => Some(Err(message)),
            }
        },
        DeleteState::Removing { deleted, .. } => Some(Ok(deleted)),
    }
}

/// The pages follow on one another: every one but the last leads to a next.
pub open spec fn complete_listing(pages: Seq<KeyPageView>) -> bool {
    &&& pages.len() > 0
    &&& forall|i: int|
        0 <= i < pages.len() ==> ((#[trigger] pages[i]).next_token is None <==> i == pages.len() - 1)
}

/// How many keys the pages give.
pub open spec fn key_count(pages: Seq<KeyPageView>) -> nat
    decreases pages.len(),
{
    if pages.len() == 0 {
        0
    } else {
        pages[0].keys.len() + key_count(pages.skip(1))
    }
}

/// The deletion of each of the keys, in order.
pub open spec fn deletions(bucket: Seq<char>, keys: Seq<Seq<char>>) -> Seq<DeleteRequest> {
    keys.map_values(|key: Seq<char>| DeleteRequest::DeleteObject { bucket, key })
}

/// Page by page, the listing and the deletion of what is listed; at last the bucket.
pub open spec fn emptying(
    bucket: Seq<char>,
    token: Option<Seq<char>>,
    pages: Seq<KeyPageView>,
) -> Seq<DeleteRequest>
    decreases pages.len(),
{
    if pages.len() == 0 {
        seq![DeleteRequest::DeleteBucket { bucket }]
    } else {
        seq![page_request(bucket, token)] + deletions(bucket, pages[0].keys)
            + emptying(bucket, pages[0].next_token, pages.skip(1))
    }
}

/// Within the limit, the keys of a page are deleted one by one, and then the next thing is done.
proof fn lemma_page_is_drained(
    bucket: Seq<char>,
    keys: Seq<Seq<char>>,
    token: Option<Seq<char>>,
    deleted: int,
    pages: Seq<KeyPageView>,
)
    requires
        deleted + keys.len() <= FORCE_DELETE_OBJECT_LIMIT,
    ensures
        requests(next_state(bucket, keys, token, deleted), pages) == deletions(bucket, keys)
            + requests(
            next_state(bucket, Seq::empty(), token, deleted + keys.len()),
            pages,
        ),
        ending(next_state(bucket, keys, token, deleted), pages) == ending(
            next_state(bucket, Seq::empty(), token, deleted + keys.len()),
            pages,
        ),
    decreases keys.len(),
{
    if keys.len() == 0 {
        assert(keys =~= Seq::empty());
        assert(deletions(bucket, keys) =~= Seq::empty());
        assert(deletions(bucket, keys) + requests(
            next_state(bucket, Seq::empty(), token, deleted),
            pages,
        ) =~= requests(next_state(bucket, Seq::empty(), token, deleted), pages));
    } else {
        lemma_page_is_drained(bucket, keys.skip(1), token, deleted + 1, pages);
        let rest = requests(
            next_state(bucket, Seq::empty(), token, deleted + keys.len()),
            pages,
        );
        let request = seq![DeleteRequest::DeleteObject { bucket, key: keys[0] }];
        assert(deletions(bucket, keys) =~= request + deletions(bucket, keys.skip(1)));
        assert(request + (deletions(bucket, keys.skip(1)) + rest) =~= deletions(bucket, keys)
            + rest);
    }
}

/// A listing within the limit is followed to its end, whatever was deleted before.
proof fn lemma_listing_is_emptied(
    bucket: Seq<char>,
    token: Option<Seq<char>>,
    deleted: int,
    pages: Seq<KeyPageView>,
)
    requires
        complete_listing(pages),
        deleted + key_count(pages) <= FORCE_DELETE_OBJECT_LIMIT,
    ensures
        requests(DeleteState::Listing { bucket, token, deleted }, pages) == emptying(
            bucket,
            token,
            pages,
        ),
        ending(DeleteState::Listing { bucket, token, deleted }, pages) == Some(
            Ok::<int, Seq<char>>(deleted + key_count(pages)),
        ),
    decreases pages.len(),
{
    let page = pages[0];
    let rest = pages.skip(1);
    let state = next_state(
        bucket,
        Seq::empty(),
        page.next_token,
        deleted + page.keys.len(),
    );
    lemma_page_is_drained(bucket, page.keys, page.next_token, deleted, rest);
    if rest.len() == 0 {
        assert(page.next_token is None);
        assert(key_count(rest) == 0);
    } else {
        assert(page.next_token is Some);
        assert forall|i: int| 0 <= i < rest.len() implies ((#[trigger] rest[i]).next_token is None
            <==> i == rest.len() - 1) by {
            assert(rest[i] == pages[i + 1]);
        }
        lemma_listing_is_emptied(bucket, page.next_token, deleted + page.keys.len(), rest);
    }
    assert(requests(state, rest) == emptying(bucket, page.next_token, rest));
    let request = seq![page_request(bucket, token)];
    assert(request + (deletions(bucket, page.keys) + requests(state, rest)) =~= request
        + deletions(bucket, page.keys) + requests(state, rest));
}

/// A forced deletion of a bucket with no more objects than the limit deletes each listed object
/// once, in the order of the listing, and removes the bucket once all of them are gone. The answer
/// counts them all.
pub proof fn law_forced_deletion_empties_the_bucket(bucket: Seq<char>, pages: Seq<KeyPageView>)
    requires
        complete_listing(pages),
        key_count(pages) <= FORCE_DELETE_OBJECT_LIMIT,
    ensures
        requests(first_state(bucket, Some(true)), pages) == emptying(bucket, None, pages),
        ending(first_state(bucket, Some(true)), pages) == Some(
            Ok::<int, Seq<char>>(key_count(pages) as int),
        ),
{
    lemma_listing_is_emptied(bucket, None, 0, pages);
}

/// Past the limit, the deletion of a page ends with the first object beyond it.
proof fn lemma_page_is_broken_off(
    bucket: Seq<char>,
    keys: Seq<Seq<char>>,
    token: Option<Seq<char>>,
    deleted: int,
    pages: Seq<KeyPageView>,
)
    requires
        0 <= deleted <= FORCE_DELETE_OBJECT_LIMIT < deleted + keys.len(),
    ensures
        requests(next_state(bucket, keys, token, deleted), pages) == deletions(
            bucket,
            keys.take(FORCE_DELETE_OBJECT_LIMIT + 1 - deleted),
        ),
        ending(next_state(bucket, keys, token, deleted), pages) == Some(
            Err::<int, Seq<char>>(limit_message()),
        ),
    decreases keys.len(),
{
    let request = seq![DeleteRequest::DeleteObject { bucket, key: keys[0] }];
    let cut = keys.take(FORCE_DELETE_OBJECT_LIMIT + 1 - deleted);
    if deleted == FORCE_DELETE_OBJECT_LIMIT {
        assert(deletions(bucket, cut) =~= request);
    } else {
        lemma_page_is_broken_off(bucket, keys.skip(1), token, deleted + 1, pages);
        let rest = keys.skip(1).take(FORCE_DELETE_OBJECT_LIMIT - deleted);
        assert(cut.skip(1) =~= rest);
        assert(deletions(bucket, cut) =~= request + deletions(bucket, rest));
    }
}

proof fn lemma_overfull_listing_is_broken_off(
    bucket: Seq<char>,
    token: Option<Seq<char>>,
    deleted: int,
    pages: Seq<KeyPageView>,
)
    requires
        complete_listing(pages),
        0 <= deleted <= FORCE_DELETE_OBJECT_LIMIT < deleted + key_count(pages),
    ensures
        ({
            let asked = requests(DeleteState::Listing { bucket, token, deleted }, pages);
            &&& !asked.contains(DeleteRequest::DeleteBucket { bucket })
            &&& deleted + deletion_count(asked) == FORCE_DELETE_OBJECT_LIMIT + 1
        }),
        ending(DeleteState::Listing { bucket, token, deleted }, pages) == Some(
            Err::<int, Seq<char>>(limit_message()),
        ),
    decreases pages.len(),
{
    let page = pages[0];
    let rest = pages.skip(1);
    let request = page_request(bucket, token);
    let removal = DeleteRequest::DeleteBucket { bucket };
    let follows = requests(next_state(bucket, page.keys, page.next_token, deleted), rest);
    lemma_count_of_first(request, follows);
    lemma_contains_behind_first(request, follows, removal);
    if deleted + page.keys.len() > FORCE_DELETE_OBJECT_LIMIT {
        lemma_page_is_broken_off(bucket, page.keys, page.next_token, deleted, rest);
        lemma_deletions_are_counted(
            bucket,
            page.keys.take(FORCE_DELETE_OBJECT_LIMIT + 1 - deleted),
        );
    } else {
        assert(rest.len() == 0 ==> key_count(rest) == 0);
        assert(page.next_token is Some);
        assert forall|i: int| 0 <= i < rest.len() implies ((#[trigger] rest[i]).next_token is None
            <==> i == rest.len() - 1) by {
            assert(rest[i] == pages[i + 1]);
        }
        lemma_page_is_drained(bucket, page.keys, page.next_token, deleted, rest);
        lemma_overfull_listing_is_broken_off(
            bucket,
            page.next_token,
            deleted + page.keys.len(),
            rest,
        );
        lemma_deletions_are_counted(bucket, page.keys);
        let later = requests(
            DeleteState::Listing {
                bucket,
                token: page.next_token,
                deleted: deleted + page.keys.len(),
            },
            rest,
        );
        assert(follows == deletions(bucket, page.keys) + later);
        Seq::filter_distributes_over_add(
            deletions(bucket, page.keys),
            later,
            |request: DeleteRequest| request is DeleteObject,
        );
        if follows.contains(removal) {
            let i = choose|i: int| 0 <= i < follows.len() && follows[i] == removal;
            if i < page.keys.len() {
                assert(deletions(bucket, page.keys)[i] == removal);
            } else {
                assert(later[i - page.keys.len()] == removal);
            }
        }
    }
}

/// A forced deletion of a bucket with more objects than the limit is broken off with the first
/// object beyond the limit and refused, and the bucket stays.
pub proof fn law_forced_deletion_of_too_much_keeps_the_bucket(
    bucket: Seq<char>,
    pages: Seq<KeyPageView>,
)
    requires
        complete_listing(pages),
        key_count(pages) > FORCE_DELETE_OBJECT_LIMIT,
    ensures
        ({
            let asked = requests(first_state(bucket, Some(true)), pages);
            &&& !asked.contains(DeleteRequest::DeleteBucket { bucket })
            &&& deletion_count(asked) == FORCE_DELETE_OBJECT_LIMIT + 1
        }),
        ending(first_state(bucket, Some(true)), pages) == Some(
            Err::<int, Seq<char>>(limit_message()),
        ),
{
    lemma_overfull_listing_is_broken_off(bucket, None, 0, pages);
}

/// Without force the bucket itself is all that the service is asked to delete.
pub proof fn law_unforced_deletion_touches_no_object(
    bucket: Seq<char>,
    force: Option<bool>,
    pages: Seq<KeyPageView>,
)
    requires
        force != Some(true),
    ensures
        requests(first_state(bucket, force), pages) == seq![DeleteRequest::DeleteBucket { bucket }],
{
}

/// The bucket that a request is about.
pub open spec fn request_bucket(request: DeleteRequest) -> Seq<char> {
    match request {
        DeleteRequest::ListPage { bucket, .. } => bucket,
        DeleteRequest::DeleteObject { bucket, .. } => bucket,
        DeleteRequest::DeleteBucket { bucket } => bucket,
    }
}

/// The bucket that a deletion is about.
pub open spec fn state_bucket(state: DeleteState) -> Seq<char> {
    match state {
        DeleteState::Listing { bucket, .. } => bucket,
        DeleteState::Draining { bucket, .. } => bucket,
        DeleteState::Removing { bucket, .. } => bucket,
    }
}

/// How many objects have been deleted.
pub open spec fn deleted_so_far(state: DeleteState) -> int {
    match state {
        DeleteState::Listing { deleted, .. } => deleted,
        DeleteState::Draining { deleted, .. } => deleted,
        DeleteState::Removing { deleted, .. } => deleted,
    }
}

/// Whatever the service lists, a deletion never asks it about another bucket.
pub proof fn law_deletion_keeps_to_its_bucket(state: DeleteState, pages: Seq<KeyPageView>)
    ensures
        forall|i: int|
            0 <= i < requests(state, pages).len() ==> request_bucket(
                #[trigger] requests(state, pages)[i],
            ) == state_bucket(state),
    decreases pages.len(), keys_left(state),
{
    match state {
        DeleteState::Listing { bucket, token, deleted } => {
            if pages.len() > 0 {
                let next = after_listing(bucket, deleted, Ok(pages[0]))->Ok_0;
                law_deletion_keeps_to_its_bucket(next, pages.skip(1));
                assert(forall|i: int|
                    1 <= i < requests(state, pages).len() ==> #[trigger] requests(state, pages)[i]
                        == requests(next, pages.skip(1))[i - 1]);
            }
        },
        DeleteState::Draining { bucket, keys, token, deleted } => {
            let next = after_deletion(bucket, keys, token, deleted, Ok(()));
            if keys.len() > 0 && next is Ok {
                law_deletion_keeps_to_its_bucket(next->Ok_0, pages);
                assert(forall|i: int|
                    1 <= i < requests(state, pages).len() ==> #[trigger] requests(state, pages)[i]
                        == requests(next->Ok_0, pages)[i - 1]);
            }
        },
        DeleteState::Removing { .. } => {},
    }
}

/// How many objects the requests delete.
pub open spec fn deletion_count(requests: Seq<DeleteRequest>) -> nat {
    requests.filter(|request: DeleteRequest| request is DeleteObject).len()
}

/// The answer counts the objects that were deleted.
pub proof fn law_answer_counts_the_deleted_objects(state: DeleteState, pages: Seq<KeyPageView>)
    ensures
        ending(state, pages) matches Some(Ok(count)) ==> count == deleted_so_far(state)
            + deletion_count(requests(state, pages)),
    decreases pages.len(), keys_left(state),
{
    match state {
        DeleteState::Listing { bucket, token, deleted } => {
            if pages.len() > 0 {
                let next = after_listing(bucket, deleted, Ok(pages[0]))->Ok_0;
                law_answer_counts_the_deleted_objects(next, pages.skip(1));
                lemma_count_of_first(
                    page_request(bucket, token),
                    requests(next, pages.skip(1)),
                );
            }
        },
        DeleteState::Draining { bucket, keys, token, deleted } => {
            let next = after_deletion(bucket, keys, token, deleted, Ok(()));
            if keys.len() > 0 && next is Ok {
                law_answer_counts_the_deleted_objects(next->Ok_0, pages);
                lemma_count_of_first(
                    DeleteRequest::DeleteObject { bucket, key: keys[0] },
                    requests(next->Ok_0, pages),
                );
            }
        },
        DeleteState::Removing { bucket, .. } => {
            let request = DeleteRequest::DeleteBucket { bucket };
            lemma_count_of_first(request, Seq::empty());
            assert(seq![request] + Seq::<DeleteRequest>::empty() =~= seq![request]);
        },
    }
}

/// A deletion that has not gone too far deletes one object more than the limit allows at most,
/// and where it does, the bucket stays.
pub proof fn law_forced_deletion_keeps_the_limit(state: DeleteState, pages: Seq<KeyPageView>)
    requires
        0 <= deleted_so_far(state) <= FORCE_DELETE_OBJECT_LIMIT,
    ensures
        ({
            let asked = requests(state, pages);
            &&& deleted_so_far(state) + deletion_count(asked) <= FORCE_DELETE_OBJECT_LIMIT + 1
            &&& asked.contains(DeleteRequest::DeleteBucket { bucket: state_bucket(state) })
                ==> deleted_so_far(state) + deletion_count(asked) <= FORCE_DELETE_OBJECT_LIMIT
        }),
    decreases pages.len(), keys_left(state),
{
    match state {
        DeleteState::Listing { bucket, token, deleted } => {
            let request = page_request(bucket, token);
            lemma_count_of_first(request, Seq::empty());
            if pages.len() > 0 {
                let next = after_listing(bucket, deleted, Ok(pages[0]))->Ok_0;
                law_forced_deletion_keeps_the_limit(next, pages.skip(1));
                lemma_count_of_first(request, requests(next, pages.skip(1)));
                lemma_contains_behind_first(
                    request,
                    requests(next, pages.skip(1)),
                    DeleteRequest::DeleteBucket { bucket },
                );
            } else {
                assert(seq![request] + Seq::<DeleteRequest>::empty() =~= seq![request]);
            }
        },
        DeleteState::Draining { bucket, keys, token, deleted } => {
            if keys.len() == 0 {
                reveal(Seq::filter);
            } else {
                let request = DeleteRequest::DeleteObject { bucket, key: keys[0] };
                let next = after_deletion(bucket, keys, token, deleted, Ok(()));
                lemma_count_of_first(request, Seq::empty());
                assert(seq![request] + Seq::<DeleteRequest>::empty() =~= seq![request]);
                if next is Ok {
                    law_forced_deletion_keeps_the_limit(next->Ok_0, pages);
                    lemma_count_of_first(request, requests(next->Ok_0, pages));
                    lemma_contains_behind_first(
                        request,
                        requests(next->Ok_0, pages),
                        DeleteRequest::DeleteBucket { bucket },
                    );
                }
            }
        },
        DeleteState::Removing { bucket, .. } => {
            let request = DeleteRequest::DeleteBucket { bucket };
            lemma_count_of_first(request, Seq::empty());
            assert(seq![request] + Seq::<DeleteRequest>::empty() =~= seq![request]);
        },
    }
}

proof fn lemma_count_of_first(first: DeleteRequest, rest: Seq<DeleteRequest>)
    ensures
        deletion_count(seq![first] + rest) == deletion_count(rest) + (if first is DeleteObject {
            1int
        } else {
            0int
        }),
        deletion_count(Seq::empty()) == 0,
{
    let is_deletion = |request: DeleteRequest| request is DeleteObject;
    Seq::filter_distributes_over_add(seq![first], rest, is_deletion);
    reveal(Seq::filter);
    assert(seq![first].drop_last() =~= Seq::empty());
    assert(Seq::<DeleteRequest>::empty().filter(is_deletion) =~= Seq::empty());
}

proof fn lemma_deletions_are_counted(bucket: Seq<char>, keys: Seq<Seq<char>>)
    ensures
        deletion_count(deletions(bucket, keys)) == keys.len(),
        !deletions(bucket, keys).contains(DeleteRequest::DeleteBucket { bucket }),
    decreases keys.len(),
{
    let all = deletions(bucket, keys);
    if keys.len() == 0 {
        lemma_count_of_first(DeleteRequest::DeleteBucket { bucket }, all);
        assert(all =~= Seq::empty());
    } else {
        let first = DeleteRequest::DeleteObject { bucket, key: keys[0] };
        lemma_deletions_are_counted(bucket, keys.skip(1));
        lemma_count_of_first(first, deletions(bucket, keys.skip(1)));
        assert(all =~= seq![first] + deletions(bucket, keys.skip(1)));
        lemma_contains_behind_first(
            first,
            deletions(bucket, keys.skip(1)),
            DeleteRequest::DeleteBucket { bucket },
        );
    }
}

proof fn lemma_contains_behind_first(
    first: DeleteRequest,
    rest: Seq<DeleteRequest>,
    wanted: DeleteRequest,
)
    requires
        first != wanted,
    ensures
        (seq![first] + rest).contains(wanted) ==> rest.contains(wanted),
{
    let all = seq![first] + rest;
    if all.contains(wanted) {
        let i = choose|i: int| 0 <= i < all.len() && all[i] == wanted;
        assert(rest[i - 1] == wanted);
    }
}

} // verus!

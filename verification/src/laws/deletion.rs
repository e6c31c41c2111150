//! What the deletion of a bucket asks, page by page and key by key.
use vstd::prelude::*;
use vstd::string::*;

use crate::config::Config;
use crate::text::{decimal, optional};
use crate::tools::chosen_bucket;
use crate::tools::delete_bucket::{
    after_deletion, after_listing, complete_listing, deleted_so_far, deletion_count, deletions,
    emptying, first_state, given_keys, key_count, keys_left,
    law_forced_deletion_empties_the_bucket, limit_message, next_state, page_reply, page_request,
    plain_reply, request_bucket, requests, state_bucket, step_outcome, DeleteBucketTool,
    DeleteRequest, DeleteState, DeleteStep, KeyPage, KeyPageView,
};
use crate::tools::ToolError;

verus! {

/// The keys of a page are all those that the service gives, each of them, in order, and no others.
pub proof fn law_pages_give_every_key(
    keys: Seq<Option<String>>,
    more: Seq<Option<String>>,
    key: String,
)
    ensures
        given_keys(Seq::empty()) == Seq::<Seq<char>>::empty(),
        given_keys(seq![Some(key)]) == seq![key@],
        given_keys(seq![None]) == Seq::<Seq<char>>::empty(),
        given_keys(keys + more) == given_keys(keys) + given_keys(more),
        forall|i: int|
            0 <= i < keys.len() && (#[trigger] keys[i]) is Some ==> given_keys(keys).contains(
                keys[i]->Some_0@,
            ),
        (forall|i: int| 0 <= i < keys.len() ==> (#[trigger] keys[i]) is Some) ==> given_keys(
            keys,
        ).len() == keys.len() && forall|i: int|
            0 <= i < keys.len() ==> #[trigger] given_keys(keys)[i] == keys[i]->Some_0@,
{
    assert(given_keys(Seq::<Option<String>>::empty()) =~= Seq::<Seq<char>>::empty());
    assert(seq![Some(key)].drop_last() =~= Seq::<Option<String>>::empty());
    assert(given_keys(seq![Some(key)]) =~= seq![key@]);
    assert(seq![None::<String>].drop_last() =~= Seq::<Option<String>>::empty());
    assert(given_keys(seq![None]) =~= Seq::<Seq<char>>::empty());
    lemma_keys_of_both(keys, more);
    lemma_every_key(keys);
}

proof fn lemma_keys_of_both(keys: Seq<Option<String>>, more: Seq<Option<String>>)
    ensures
        given_keys(keys + more) == given_keys(keys) + given_keys(more),
    decreases more.len(),
{
    if more.len() == 0 {
        assert(keys + more =~= keys);
        assert(given_keys(keys) + given_keys(more) =~= given_keys(keys));
    } else {
        lemma_keys_of_both(keys, more.drop_last());
        assert((keys + more).drop_last() =~= keys + more.drop_last());
        assert((keys + more).last() == more.last());
        assert(given_keys(keys + more) =~= given_keys(keys) + given_keys(more));
    }
}

proof fn lemma_every_key(keys: Seq<Option<String>>)
    ensures
        forall|i: int|
            0 <= i < keys.len() && (#[trigger] keys[i]) is Some ==> given_keys(keys).contains(
                keys[i]->Some_0@,
            ),
        (forall|i: int| 0 <= i < keys.len() ==> (#[trigger] keys[i]) is Some) ==> given_keys(
            keys,
        ).len() == keys.len() && forall|i: int|
            0 <= i < keys.len() ==> #[trigger] given_keys(keys)[i] == keys[i]->Some_0@,
    decreases keys.len(),
{
    if keys.len() > 0 {
        let front = keys.drop_last();
        lemma_every_key(front);
        let given = given_keys(keys);
        assert forall|i: int| 0 <= i < keys.len() && (#[trigger] keys[i]) is Some implies given.contains(
            keys[i]->Some_0@,
        ) by {
            if i < front.len() {
                assert(front[i] == keys[i]);
                let k = choose|k: int|
                    0 <= k < given_keys(front).len() && given_keys(front)[k] == keys[i]->Some_0@;
                assert(given[k] == keys[i]->Some_0@);
            } else {
                assert(given[given.len() - 1] == keys[i]->Some_0@);
            }
        }
        if forall|i: int| 0 <= i < keys.len() ==> (#[trigger] keys[i]) is Some {
            assert forall|i: int| 0 <= i < front.len() implies (#[trigger] front[i]) is Some by {
                assert(keys[i] is Some);
            }
            assert(keys[keys.len() - 1] is Some);
            assert forall|i: int| 0 <= i < keys.len() implies #[trigger] given[i]
                == keys[i]->Some_0@ by {
                if i < front.len() {
                    assert(given_keys(front)[i] == front[i]->Some_0@);
                }
            }
        }
    }
}

/// A page shows the keys that it gives and the token for what follows; replies show what they
/// carry.
pub proof fn law_replies_show(page: KeyPage, error: String, step: DeleteStep, failed: ToolError)
    ensures
        page@.keys == given_keys(page.keys@),
        page@.next_token == optional(page.next_token),
        page_reply(Ok(page)) == Ok::<KeyPageView, Seq<char>>(page@),
        page_reply(Err(error)) == Err::<KeyPageView, Seq<char>>(error@),
        plain_reply(Ok(())) == Ok::<(), Seq<char>>(()),
        plain_reply(Err(error)) == Err::<(), Seq<char>>(error@),
        step_outcome(Ok(step)) == Ok::<DeleteState, Seq<char>>(step@),
        step_outcome(Err(failed)) == Err::<DeleteState, Seq<char>>(failed.message@),
{
}

/// A deletion begins with the first page where it is forced, and else with the bucket itself.
pub proof fn law_deletion_begins(
    tool: DeleteBucketTool,
    config: Config,
    step: Result<DeleteStep, ToolError>,
)
    requires
        tool.asks(config, step),
    ensures
        match (chosen_bucket(tool.bucket@, config.bucket_prefix@), step) {
            (Ok(bucket), Ok(step)) => step@ == if tool.force == Some(true) {
                DeleteState::Listing { bucket, token: None, deleted: 0 }
            } else {
                DeleteState::Removing { bucket, deleted: 0 }
            },
            (Err(message), Err(failed)) => failed.message@ == message,
            _ => false,
        },
        first_state(tool.bucket@, Some(true)) == (DeleteState::Listing {
            bucket: tool.bucket@,
            token: None,
            deleted: 0,
        }),
        first_state(tool.bucket@, Some(false)) == (DeleteState::Removing {
            bucket: tool.bucket@,
            deleted: 0,
        }),
        first_state(tool.bucket@, None) == (DeleteState::Removing {
            bucket: tool.bucket@,
            deleted: 0,
        }),
{
}

/// What is left to do decides what follows: a key, else a page, else the bucket. A page that is
/// listed is what is left to do; a failed listing ends the deletion.
pub proof fn law_listing_leads_on(
    bucket: Seq<char>,
    keys: Seq<Seq<char>>,
    token: Option<Seq<char>>,
    deleted: int,
    error: Seq<char>,
)
    ensures
        after_listing(bucket, deleted, Ok(KeyPageView { keys, next_token: token })) == Ok::<
            DeleteState,
            Seq<char>,
        >(
            if keys.len() > 0 {
                DeleteState::Draining { bucket, keys, token, deleted }
            } else if token is Some {
                DeleteState::Listing { bucket, token, deleted }
            } else {
                DeleteState::Removing { bucket, deleted }
            },
        ),
        next_state(bucket, keys, token, deleted) == after_listing(
            bucket,
            deleted,
            Ok(KeyPageView { keys, next_token: token }),
        )->Ok_0,
        after_listing(bucket, deleted, Err(error)) == Err::<DeleteState, Seq<char>>(
            "delete_bucket (list) failed: "@ + error,
        ),
{
    reveal_strlit("delete_bucket (list)");
    reveal_strlit(" failed: ");
    reveal_strlit("delete_bucket (list) failed: ");
    assert("delete_bucket (list)"@ + " failed: "@ =~= "delete_bucket (list) failed: "@);
}

/// A key that is deleted counts, and the keys behind it are left. With the first deletion beyond
/// ten thousand the deletion is refused. A failed deletion ends it.
pub proof fn law_deletion_leads_on(
    bucket: Seq<char>,
    key: Seq<char>,
    rest: Seq<Seq<char>>,
    token: Option<Seq<char>>,
    deleted: int,
    error: Seq<char>,
)
    ensures
        after_deletion(bucket, seq![key] + rest, token, deleted, Ok(())) == if deleted < 10_000 {
            Ok::<DeleteState, Seq<char>>(
                if rest.len() > 0 {
                    DeleteState::Draining { bucket, keys: rest, token, deleted: deleted + 1 }
                } else if token is Some {
                    DeleteState::Listing { bucket, token, deleted: deleted + 1 }
                } else {
                    DeleteState::Removing { bucket, deleted: deleted + 1 }
                },
            )
        } else {
            Err::<DeleteState, Seq<char>>("refusing to force-delete more than 10000 objects"@)
        },
        after_deletion(bucket, seq![key] + rest, token, deleted, Err(error)) == Err::<
            DeleteState,
            Seq<char>,
        >("delete_bucket (delete object) failed: "@ + error),
{
    assert((seq![key] + rest).skip(1) =~= rest);
    reveal_strlit("delete_bucket (delete object)");
    reveal_strlit(" failed: ");
    reveal_strlit("delete_bucket (delete object) failed: ");
    assert("delete_bucket (delete object)"@ + " failed: "@
        =~= "delete_bucket (delete object) failed: "@);
    law_limit_message();
}

/// The refusal names the limit.
pub proof fn law_limit_message()
    ensures
        limit_message() == "refusing to force-delete more than 10000 objects"@,
{
    reveal_strlit("refusing to force-delete more than ");
    reveal_strlit(" objects");
    reveal_strlit("refusing to force-delete more than 10000 objects");
    assert(decimal(10_000) =~= seq!['1', '0', '0', '0', '0']) by {
        reveal_with_fuel(decimal, 6);
    }
    assert(limit_message() =~= "refusing to force-delete more than 10000 objects"@);
}

/// What a request is about, and how far a deletion has come.
pub proof fn law_requests_and_states(
    bucket: Seq<char>,
    key: Seq<char>,
    keys: Seq<Seq<char>>,
    token: Option<Seq<char>>,
    deleted: int,
)
    ensures
        page_request(bucket, token) == (DeleteRequest::ListPage { bucket, token, page_size: 1000 }),
        request_bucket(DeleteRequest::ListPage { bucket, token, page_size: 1000 }) == bucket,
        request_bucket(DeleteRequest::DeleteObject { bucket, key }) == bucket,
        request_bucket(DeleteRequest::DeleteBucket { bucket }) == bucket,
        state_bucket(DeleteState::Listing { bucket, token, deleted }) == bucket,
        state_bucket(DeleteState::Draining { bucket, keys, token, deleted }) == bucket,
        state_bucket(DeleteState::Removing { bucket, deleted }) == bucket,
        deleted_so_far(DeleteState::Listing { bucket, token, deleted }) == deleted,
        deleted_so_far(DeleteState::Draining { bucket, keys, token, deleted }) == deleted,
        deleted_so_far(DeleteState::Removing { bucket, deleted }) == deleted,
        keys_left(DeleteState::Draining { bucket, keys, token, deleted }) == keys.len(),
        deletions(bucket, keys).len() == keys.len(),
        forall|i: int|
            0 <= i < keys.len() ==> #[trigger] deletions(bucket, keys)[i]
                == (DeleteRequest::DeleteObject { bucket, key: keys[i] }),
{
}

/// The pages of a listing give the keys of the first and those of the others; a listing is
/// complete where only its last page leads to no other.
pub proof fn law_listings(page: KeyPageView, pages: Seq<KeyPageView>)
    ensures
        key_count(Seq::empty()) == 0,
        key_count(seq![page] + pages) == page.keys.len() + key_count(pages),
        complete_listing(pages) == (pages.len() > 0 && pages[pages.len() - 1].next_token is None
            && forall|i: int|
            0 <= i < pages.len() - 1 ==> (#[trigger] pages[i]).next_token is Some),
{
    assert((seq![page] + pages).skip(1) =~= pages);
    if pages.len() > 0 && pages[pages.len() - 1].next_token is None && forall|i: int|
        0 <= i < pages.len() - 1 ==> (#[trigger] pages[i]).next_token is Some {
        assert(complete_listing(pages));
    }
}

/// The requests from a state on: the page, key or bucket at hand, and then what follows.
pub proof fn law_requests_follow_the_states(
    bucket: Seq<char>,
    key: Seq<char>,
    rest: Seq<Seq<char>>,
    token: Option<Seq<char>>,
    deleted: int,
    page: KeyPageView,
    pages: Seq<KeyPageView>,
)
    ensures
        requests(DeleteState::Listing { bucket, token, deleted }, seq![page] + pages) == seq![
            DeleteRequest::ListPage { bucket, token, page_size: 1000 },
        ] + requests(
            if page.keys.len() > 0 {
                DeleteState::Draining {
                    bucket,
                    keys: page.keys,
                    token: page.next_token,
                    deleted,
                }
            } else if page.next_token is Some {
                DeleteState::Listing { bucket, token: page.next_token, deleted }
            } else {
                DeleteState::Removing { bucket, deleted }
            },
            pages,
        ),
        deleted < 10_000 ==> requests(
            DeleteState::Draining { bucket, keys: seq![key] + rest, token, deleted },
            pages,
        ) == seq![DeleteRequest::DeleteObject { bucket, key }] + requests(
            if rest.len() > 0 {
                DeleteState::Draining { bucket, keys: rest, token, deleted: deleted + 1 }
            } else if token is Some {
                DeleteState::Listing { bucket, token, deleted: deleted + 1 }
            } else {
                DeleteState::Removing { bucket, deleted: deleted + 1 }
            },
            pages,
        ),
        deleted >= 10_000 ==> requests(
            DeleteState::Draining { bucket, keys: seq![key] + rest, token, deleted },
            pages,
        ) == seq![DeleteRequest::DeleteObject { bucket, key }],
        requests(DeleteState::Removing { bucket, deleted }, pages) == seq![
            DeleteRequest::DeleteBucket { bucket },
        ],
{
    assert((seq![page] + pages).skip(1) =~= pages);
    assert((seq![key] + rest).skip(1) =~= rest);
    assert((seq![key] + rest)[0] == key);
}

/// A forced deletion of a bucket with no more than ten thousand objects asks for the deletion of
/// every key on every page, of nothing that is on no page, and at last, and only then, for that of
/// the bucket. It asks for as many deletions as there are keys.
pub proof fn law_forced_deletion_reaches_every_key(bucket: Seq<char>, pages: Seq<KeyPageView>)
    requires
        pages.len() > 0,
        forall|i: int| 0 <= i < pages.len() - 1 ==> (#[trigger] pages[i]).next_token is Some,
        pages[pages.len() - 1].next_token is None,
        key_count(pages) <= 10_000,
    ensures
        ({
            let asked = requests(
                DeleteState::Listing { bucket, token: None, deleted: 0 },
                pages,
            );
            &&& asked.len() > 0
            &&& asked[asked.len() - 1] == (DeleteRequest::DeleteBucket { bucket })
            &&& forall|i: int| 0 <= i < asked.len() - 1 ==> !((#[trigger] asked[i]) is DeleteBucket)
            &&& forall|p: int, k: int|
                0 <= p < pages.len() && 0 <= k < pages[p].keys.len() ==> asked.contains(
                    DeleteRequest::DeleteObject { bucket, key: #[trigger] pages[p].keys[k] },
                )
            &&& forall|i: int|
                0 <= i < asked.len() && (#[trigger] asked[i]) is DeleteObject ==> exists|
                    p: int,
                    k: int,
                |
                    0 <= p < pages.len() && 0 <= k < pages[p].keys.len()
                        && #[trigger] pages[p].keys[k] == asked[i]->DeleteObject_key
            &&& asked.len() == pages.len() + key_count(pages) + 1
        }),
{
    assert(complete_listing(pages));
    law_forced_deletion_empties_the_bucket(bucket, pages);
    lemma_emptying(bucket, None, pages);
}

/// What emptying a bucket asks for.
spec fn asks_for_all(
    bucket: Seq<char>,
    pages: Seq<KeyPageView>,
    asked: Seq<DeleteRequest>,
) -> bool {
    &&& asked.len() == pages.len() + key_count(pages) + 1
    &&& asked[asked.len() - 1] == (DeleteRequest::DeleteBucket { bucket })
    &&& forall|i: int| 0 <= i < asked.len() - 1 ==> !((#[trigger] asked[i]) is DeleteBucket)
    &&& forall|p: int, k: int|
        0 <= p < pages.len() && 0 <= k < pages[p].keys.len() ==> asked.contains(
            DeleteRequest::DeleteObject { bucket, key: #[trigger] pages[p].keys[k] },
        )
    &&& forall|i: int|
        0 <= i < asked.len() && (#[trigger] asked[i]) is DeleteObject ==> exists|p: int, k: int|
            0 <= p < pages.len() && 0 <= k < pages[p].keys.len() && #[trigger] pages[p].keys[k]
                == asked[i]->DeleteObject_key
}

proof fn lemma_emptying(bucket: Seq<char>, token: Option<Seq<char>>, pages: Seq<KeyPageView>)
    ensures
        asks_for_all(bucket, pages, emptying(bucket, token, pages)),
    decreases pages.len(),
{
    let asked = emptying(bucket, token, pages);
    if pages.len() > 0 {
        let page = pages[0];
        let rest = pages.skip(1);
        let later = emptying(bucket, page.next_token, rest);
        let count = page.keys.len() as int;
        lemma_emptying(bucket, page.next_token, rest);
        let first = deletions(bucket, page.keys);
        assert(asked =~= seq![page_request(bucket, token)] + first + later);
        assert(forall|i: int| 0 <= i < count ==> #[trigger] asked[i + 1] == first[i]);
        assert(forall|i: int| 0 <= i < later.len() ==> #[trigger] asked[i + 1 + count] == later[i]);
        assert forall|i: int| 0 <= i < asked.len() - 1 implies !((
        #[trigger] asked[i]) is DeleteBucket) by {
            if 1 <= i <= count {
                assert(asked[i] == first[i - 1]);
            } else if i > count {
                assert(asked[i] == later[i - 1 - count]);
            }
        }
        assert forall|p: int, k: int|
            0 <= p < pages.len() && 0 <= k < pages[p].keys.len() implies asked.contains(
            DeleteRequest::DeleteObject { bucket, key: #[trigger] pages[p].keys[k] },
        ) by {
            let wanted = DeleteRequest::DeleteObject { bucket, key: pages[p].keys[k] };
            if p == 0 {
                assert(asked[k + 1] == wanted);
            } else {
                assert(rest[p - 1].keys[k] == pages[p].keys[k]);
                assert(later.contains(wanted));
                let i = choose|i: int| 0 <= i < later.len() && later[i] == wanted;
                assert(asked[i + 1 + count] == wanted);
            }
        }
        assert forall|i: int|
            0 <= i < asked.len() && (#[trigger] asked[i]) is DeleteObject implies exists|
            p: int,
            k: int,
        |
            0 <= p < pages.len() && 0 <= k < pages[p].keys.len() && #[trigger] pages[p].keys[k]
                == asked[i]->DeleteObject_key by {
            if 1 <= i <= count {
                assert(asked[i] == first[i - 1]);
                assert(pages[0].keys[i - 1] == asked[i]->DeleteObject_key);
            } else if i > count {
                let j = i - 1 - count;
                assert(asked[i] == later[j]);
                let (p, k) = choose|p: int, k: int|
                    0 <= p < rest.len() && 0 <= k < rest[p].keys.len() && #[trigger] rest[p].keys[k]
                        == later[j]->DeleteObject_key;
                assert(pages[p + 1].keys[k] == asked[i]->DeleteObject_key);
            }
        }
    }
}

/// How many deletions some requests hold.
pub proof fn law_deletion_counts(asked: Seq<DeleteRequest>, bucket: Seq<char>, key: Seq<char>)
    ensures
        deletion_count(Seq::empty()) == 0,
        deletion_count(asked.push(DeleteRequest::DeleteObject { bucket, key })) == deletion_count(
            asked,
        ) + 1,
        deletion_count(asked.push(DeleteRequest::DeleteBucket { bucket })) == deletion_count(asked),
{
    reveal(Seq::filter);
    let one = asked.push(DeleteRequest::DeleteObject { bucket, key });
    let other = asked.push(DeleteRequest::DeleteBucket { bucket });
    assert(one.drop_last() =~= asked);
    assert(other.drop_last() =~= asked);
}

} // verus!

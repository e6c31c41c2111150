//! What a policy grants: the wildcards in its actions and resources, and what follows for the
//! policies of this library.
use vstd::prelude::*;
use vstd::string::*;

use crate::config::usable_prefix;
use crate::policy::{
    bucket_arn, bucket_resources, contents_arn, full_access_statement, listing_statement,
    minter_statements, session_statements, valid_bucket_name, StatementView,
};
use crate::text::begins_with;
use crate::tools::access::{resolved, scope_of};
use crate::tools::chosen_bucket;

verus! {

/// `text` fits `pattern`, in which a star stands for any run of characters and a question mark
/// for any one of them.
pub open spec fn fits(pattern: Seq<char>, text: Seq<char>) -> bool
    decreases pattern.len(), text.len(),
{
    if pattern.len() == 0 {
        text.len() == 0
    } else if pattern[0] == '*' {
        fits(pattern.skip(1), text) || (text.len() > 0 && fits(pattern, text.skip(1)))
    } else {
        text.len() > 0 && (pattern[0] == '?' || pattern[0] == text[0]) && fits(
            pattern.skip(1),
            text.skip(1),
        )
    }
}

/// `text` fits one of the patterns.
pub open spec fn fits_any(patterns: Seq<Seq<char>>, text: Seq<char>) -> bool {
    exists|i: int| 0 <= i < patterns.len() && #[trigger] fits(patterns[i], text)
}

/// The permission covers the action on the resource.
pub open spec fn permits(
    statement: StatementView,
    action: Seq<char>,
    resource: Seq<char>,
) -> bool {
    fits_any(statement.actions, action) && fits_any(statement.resources, resource)
}

/// One of the permissions covers the action on the resource.
pub open spec fn granted(
    statements: Seq<StatementView>,
    action: Seq<char>,
    resource: Seq<char>,
) -> bool {
    exists|i: int| 0 <= i < statements.len() && #[trigger] permits(statements[i], action, resource)
}

/// The text holds no wildcard.
pub open spec fn literal(text: Seq<char>) -> bool {
    forall|i: int| 0 <= i < text.len() ==> #[trigger] text[i] != '*' && text[i] != '?'
}

/// The listing of all bucket names.
pub open spec fn lists_buckets(action: Seq<char>, resource: Seq<char>) -> bool {
    action == "s3:ListAllMyBuckets"@ && begins_with(resource, "arn:aws:s3:::"@)
}

/// An action of the storage service on a bucket of the namespace, or on something in one.
pub open spec fn in_namespace(
    action: Seq<char>,
    resource: Seq<char>,
    prefix: Seq<char>,
) -> bool {
    begins_with(action, "s3:"@) && begins_with(resource, bucket_arn(prefix))
}

/// An action of the storage service on one of these buckets, or on something in one.
pub open spec fn in_buckets(
    action: Seq<char>,
    resource: Seq<char>,
    names: Seq<Seq<char>>,
) -> bool {
    begins_with(action, "s3:"@) && exists|i: int|
        0 <= i < names.len() && (resource == bucket_arn(#[trigger] names[i]) || begins_with(
            resource,
            bucket_arn(names[i]) + "/"@,
        ))
}

/// What a pattern begins with, up to its first wildcard, every text that fits it begins with.
proof fn lemma_fits_behind_literal(head: Seq<char>, tail: Seq<char>, text: Seq<char>)
    requires
        literal(head),
    ensures
        fits(head + tail, text) == (begins_with(text, head) && fits(
            tail,
            text.skip(head.len() as int),
        )),
    decreases head.len(),
{
    if head.len() == 0 {
        assert(head + tail =~= tail);
        assert(text.skip(0) =~= text);
        assert(text.take(0) =~= head);
    } else {
        let pattern = head + tail;
        let rest = head.skip(1);
        assert(pattern.skip(1) =~= rest + tail);
        assert(pattern[0] == head[0]);
        if text.len() > 0 {
            lemma_fits_behind_literal(rest, tail, text.skip(1));
            if head.len() <= text.len() {
                assert(text.skip(1).skip(rest.len() as int) =~= text.skip(head.len() as int));
            }
            if text[0] == head[0] {
                assert(begins_with(text, head) == begins_with(text.skip(1), rest)) by {
                    if head.len() <= text.len() {
                        assert(text.take(head.len() as int).skip(1) =~= text.skip(1).take(
                            rest.len() as int,
                        ));
                        assert(text.take(head.len() as int) =~= seq![text[0]] + text.skip(1).take(
                            rest.len() as int,
                        ));
                        assert(head =~= seq![head[0]] + rest);
                    }
                }
            } else {
                assert(begins_with(text, head) ==> text.take(head.len() as int)[0] == head[0]);
            }
        }
    }
}

/// Only the text itself fits a pattern without wildcards.
proof fn lemma_fits_literal(pattern: Seq<char>, text: Seq<char>)
    requires
        literal(pattern),
    ensures
        fits(pattern, text) == (text == pattern),
{
    lemma_fits_behind_literal(pattern, Seq::empty(), text);
    assert(pattern + Seq::<char>::empty() =~= pattern);
    if fits(pattern, text) {
        assert(text =~= text.take(pattern.len() as int));
    }
    assert(pattern.take(pattern.len() as int) =~= pattern);
}

/// Everything fits a star.
proof fn lemma_star_fits_all(text: Seq<char>)
    ensures
        fits("*"@, text),
    decreases text.len(),
{
    reveal_strlit("*");
    if text.len() == 0 {
        assert(fits("*"@.skip(1), text));
    } else {
        lemma_star_fits_all(text.skip(1));
    }
}

/// What begins with the text before it fits a star.
proof fn lemma_fits_before_star(head: Seq<char>, text: Seq<char>)
    requires
        literal(head),
    ensures
        fits(head + "*"@, text) == begins_with(text, head),
{
    lemma_fits_behind_literal(head, "*"@, text);
    if begins_with(text, head) {
        lemma_star_fits_all(text.skip(head.len() as int));
    }
}

/// Two literal texts make a literal text.
proof fn lemma_literal_concat(first: Seq<char>, second: Seq<char>)
    requires
        literal(first),
        literal(second),
    ensures
        literal(first + second),
{
    assert forall|i: int| 0 <= i < (first + second).len() implies #[trigger] (first + second)[i]
        != '*' && (first + second)[i] != '?' by {
        if i < first.len() {
            assert(first[i] != '*' && first[i] != '?');
        } else {
            assert(second[i - first.len()] != '*' && second[i - first.len()] != '?');
        }
    }
}

/// A text that begins with a longer text begins with what that one begins with.
proof fn lemma_begins_with_shorter(text: Seq<char>, head: Seq<char>, tail: Seq<char>)
    requires
        begins_with(text, head + tail),
    ensures
        begins_with(text, head),
{
    assert((head + tail).take(head.len() as int) =~= head);
    assert(text.take((head + tail).len() as int).take(head.len() as int) =~= text.take(
        head.len() as int,
    ));
}

proof fn lemma_arn_of_literal(name: Seq<char>)
    requires
        literal(name),
    ensures
        literal("arn:aws:s3:::"@),
        literal(bucket_arn(name)),
        literal(bucket_arn(name) + "/"@),
        contents_arn(name) == bucket_arn(name) + "/"@ + "*"@,
{
    reveal_strlit("arn:aws:s3:::");
    reveal_strlit("/");
    reveal_strlit("*");
    reveal_strlit("/*");
    lemma_literal_concat("arn:aws:s3:::"@, name);
    lemma_literal_concat(bucket_arn(name), "/"@);
    assert(contents_arn(name) =~= bucket_arn(name) + "/"@ + "*"@);
}

/// What the permission for all actions covers.
proof fn lemma_full_access(resources: Seq<Seq<char>>, action: Seq<char>, resource: Seq<char>)
    ensures
        permits(full_access_statement(resources), action, resource) == (begins_with(action, "s3:"@)
            && fits_any(resources, resource)),
{
    reveal_strlit("s3:");
    reveal_strlit("*");
    reveal_strlit("s3:*");
    let actions = full_access_statement(resources).actions;
    assert("s3:*"@ =~= "s3:"@ + "*"@);
    lemma_fits_before_star("s3:"@, action);
    assert(actions[0] == "s3:*"@);
    if begins_with(action, "s3:"@) {
        assert(fits(actions[0], action));
    }
}

/// What the permission to list covers.
proof fn lemma_listing(action: Seq<char>, resource: Seq<char>)
    ensures
        permits(listing_statement(), action, resource) == lists_buckets(action, resource),
{
    reveal_strlit("s3:ListAllMyBuckets");
    reveal_strlit("arn:aws:s3:::");
    let statement = listing_statement();
    lemma_fits_literal("s3:ListAllMyBuckets"@, action);
    lemma_fits_before_star("arn:aws:s3:::"@, resource);
    assert(statement.actions[0] == "s3:ListAllMyBuckets"@);
    assert(statement.resources[0] == "arn:aws:s3:::"@ + "*"@);
    if lists_buckets(action, resource) {
        assert(fits(statement.actions[0], action));
        assert(fits(statement.resources[0], resource));
    }
}

/// The resources of the namespace are those that begin with its prefix.
proof fn lemma_namespace_resources(prefix: Seq<char>, resource: Seq<char>)
    requires
        literal(prefix),
    ensures
        fits_any(bucket_resources(seq![prefix + "*"@]), resource) == begins_with(
            resource,
            bucket_arn(prefix),
        ),
{
    let resources = bucket_resources(seq![prefix + "*"@]);
    lemma_arn_of_literal(prefix);
    assert(resources[0] =~= bucket_arn(prefix) + "*"@);
    assert(resources[1] =~= bucket_arn(prefix) + ("*"@ + "/*"@));
    lemma_fits_before_star(bucket_arn(prefix), resource);
    lemma_fits_behind_literal(bucket_arn(prefix), "*"@ + "/*"@, resource);
    if begins_with(resource, bucket_arn(prefix)) {
        assert(fits(resources[0], resource));
    }
}

/// The resources of some buckets are the buckets themselves and what is in them.
proof fn lemma_bucket_resources(names: Seq<Seq<char>>, resource: Seq<char>)
    requires
        forall|i: int| 0 <= i < names.len() ==> literal(#[trigger] names[i]),
    ensures
        fits_any(bucket_resources(names), resource) == exists|i: int|
            0 <= i < names.len() && (resource == bucket_arn(#[trigger] names[i]) || begins_with(
                resource,
                bucket_arn(names[i]) + "/"@,
            )),
{
    let resources = bucket_resources(names);
    if fits_any(resources, resource) {
        let k = choose|k: int| 0 <= k < resources.len() && #[trigger] fits(resources[k], resource);
        let name = names[k / 2];
        lemma_arn_of_literal(name);
        if k % 2 == 0 {
            lemma_fits_literal(bucket_arn(name), resource);
        } else {
            lemma_fits_before_star(bucket_arn(name) + "/"@, resource);
        }
    }
    if exists|i: int|
        0 <= i < names.len() && (resource == bucket_arn(#[trigger] names[i]) || begins_with(
            resource,
            bucket_arn(names[i]) + "/"@,
        )) {
        let i = choose|i: int|
            0 <= i < names.len() && (resource == bucket_arn(#[trigger] names[i]) || begins_with(
                resource,
                bucket_arn(names[i]) + "/"@,
            ));
        let name = names[i];
        lemma_arn_of_literal(name);
        if resource == bucket_arn(name) {
            lemma_fits_literal(bucket_arn(name), resource);
            assert(resources[2 * i] == bucket_arn(name));
            assert(fits(resources[2 * i], resource));
        } else {
            lemma_fits_before_star(bucket_arn(name) + "/"@, resource);
            assert(resources[2 * i + 1] == contents_arn(name));
            assert(fits(resources[2 * i + 1], resource));
        }
    }
}

/// A valid bucket name holds no wildcard.
proof fn lemma_valid_names_are_literal(name: Seq<char>)
    requires
        valid_bucket_name(name),
    ensures
        literal(name),
{
}

/// No prefix that a configuration can have holds a wildcard.
pub proof fn lemma_usable_prefixes_are_literal(prefix: Seq<char>)
    requires
        usable_prefix(prefix),
    ensures
        literal(prefix),
{
}

/// The minter identity may list the names of buckets and do everything inside the namespace;
/// nothing else.
pub proof fn law_minter_stays_in_the_namespace(
    prefix: Seq<char>,
    action: Seq<char>,
    resource: Seq<char>,
)
    requires
        literal(prefix),
    ensures
        granted(minter_statements(prefix), action, resource) == (lists_buckets(action, resource)
            || in_namespace(action, resource, prefix)),
{
    let statements = minter_statements(prefix);
    lemma_listing(action, resource);
    lemma_full_access(bucket_resources(seq![prefix + "*"@]), action, resource);
    lemma_namespace_resources(prefix, resource);
    assert(statements[0] == listing_statement());
    assert(statements[1] == full_access_statement(bucket_resources(seq![prefix + "*"@])));
    assert(permits(statements[0], action, resource) == lists_buckets(action, resource));
    assert(permits(statements[1], action, resource) == in_namespace(action, resource, prefix));
}

/// A session for the whole namespace may do what the minter identity may do.
pub proof fn law_namespace_session_equals_minter(prefix: Seq<char>)
    ensures
        session_statements(None, prefix) == minter_statements(prefix),
{
}

/// A session for given buckets may do everything with those buckets and with what is in them;
/// nothing else.
pub proof fn law_bucket_session_is_tight(
    names: Seq<Seq<char>>,
    prefix: Seq<char>,
    action: Seq<char>,
    resource: Seq<char>,
)
    requires
        forall|i: int| 0 <= i < names.len() ==> literal(#[trigger] names[i]),
    ensures
        granted(session_statements(Some(names), prefix), action, resource) == in_buckets(
            action,
            resource,
            names,
        ),
{
    let statements = session_statements(Some(names), prefix);
    lemma_full_access(bucket_resources(names), action, resource);
    lemma_bucket_resources(names, resource);
    assert(statements[0] == full_access_statement(bucket_resources(names)));
    assert(permits(statements[0], action, resource) == in_buckets(action, resource, names));
}

/// A session for given buckets cannot list the names of all buckets; one for the whole namespace
/// can.
pub proof fn law_only_namespace_sessions_list_buckets(
    names: Seq<Seq<char>>,
    prefix: Seq<char>,
)
    requires
        forall|i: int| 0 <= i < names.len() ==> literal(#[trigger] names[i]),
        literal(prefix),
    ensures
        !granted(
            session_statements(Some(names), prefix),
            "s3:ListAllMyBuckets"@,
            bucket_arn("*"@),
        ),
        granted(session_statements(None, prefix), "s3:ListAllMyBuckets"@, bucket_arn("*"@)),
{
    let action = "s3:ListAllMyBuckets"@;
    let everything = bucket_arn("*"@);
    let scheme = "arn:aws:s3:::"@;
    reveal_strlit("*");
    reveal_strlit("/");
    assert(everything.take(scheme.len() as int) =~= scheme);
    law_namespace_session_equals_minter(prefix);
    law_minter_stays_in_the_namespace(prefix, action, everything);
    law_bucket_session_is_tight(names, prefix, action, everything);
    if in_buckets(action, everything, names) {
        let i = choose|i: int|
            0 <= i < names.len() && (everything == bucket_arn(#[trigger] names[i]) || begins_with(
                everything,
                bucket_arn(names[i]) + "/"@,
            ));
        let arn = bucket_arn(names[i]);
        if everything == arn {
            assert(arn[scheme.len() as int] == '*');
            assert(names[i].len() == 1);
            assert(names[i][0] == '*');
        } else {
            let inside = arn + "/"@;
            assert(names[i].len() == 0);
            assert(inside[scheme.len() as int] == '/');
            assert(everything.take(inside.len() as int)[scheme.len() as int] == '*');
        }
    }
}

/// The buckets that credentials are asked for are valid names inside the namespace.
pub proof fn law_resolved_buckets_are_in_the_namespace(names: Seq<Seq<char>>, prefix: Seq<char>)
    ensures
        resolved(names, prefix) matches Ok(buckets) ==> {
            &&& buckets.len() == names.len()
            &&& forall|i: int|
                0 <= i < buckets.len() ==> chosen_bucket(names[i], prefix) == Ok::<_, Seq<char>>(
                    #[trigger] buckets[i],
                ) && valid_bucket_name(buckets[i]) && begins_with(buckets[i], prefix)
        },
    decreases names.len(),
{
    if names.len() > 0 && resolved(names, prefix) is Ok {
        law_resolved_buckets_are_in_the_namespace(names.drop_last(), prefix);
        crate::tools::law_chosen_buckets_are_in_the_namespace(names.last(), prefix);
        let before = resolved(names.drop_last(), prefix)->Ok_0;
        let buckets = resolved(names, prefix)->Ok_0;
        assert(forall|i: int| 0 <= i < before.len() ==> buckets[i] == before[i]);
        assert(forall|i: int| 0 <= i < before.len() ==> names.drop_last()[i] == names[i]);
    }
}

/// Whatever buckets credentials are asked for, they grant nothing outside the namespace but the
/// listing of bucket names, and that only where they are for the whole namespace.
pub proof fn law_minted_credentials_stay_in_the_namespace(
    buckets: Option<Seq<Seq<char>>>,
    prefix: Seq<char>,
    action: Seq<char>,
    resource: Seq<char>,
)
    requires
        literal(prefix),
        scope_of(buckets, prefix) is Ok,
    ensures
        ({
            let scope = scope_of(buckets, prefix)->Ok_0;
            granted(session_statements(scope, prefix), action, resource) ==> in_namespace(
                action,
                resource,
                prefix,
            ) || (scope is None && lists_buckets(action, resource))
        }),
{
    let scope = scope_of(buckets, prefix)->Ok_0;
    match scope {
        None => {
            law_namespace_session_equals_minter(prefix);
            law_minter_stays_in_the_namespace(prefix, action, resource);
        },
        Some(names) => {
            law_resolved_buckets_are_in_the_namespace(buckets->Some_0, prefix);
            assert forall|i: int| 0 <= i < names.len() implies literal(#[trigger] names[i]) by {
                lemma_valid_names_are_literal(names[i]);
            }
            law_bucket_session_is_tight(names, prefix, action, resource);
            if in_buckets(action, resource, names) {
                let i = choose|i: int|
                    0 <= i < names.len() && (resource == bucket_arn(#[trigger] names[i])
                        || begins_with(resource, bucket_arn(names[i]) + "/"@));
                let rest = names[i].skip(prefix.len() as int);
                assert(names[i] =~= prefix + rest);
                assert(bucket_arn(names[i]) =~= bucket_arn(prefix) + rest);
                assert(bucket_arn(names[i]) + "/"@ =~= bucket_arn(prefix) + (rest + "/"@));
                if resource == bucket_arn(names[i]) {
                    assert(resource.take(bucket_arn(prefix).len() as int) =~= bucket_arn(prefix));
                } else {
                    lemma_begins_with_shorter(resource, bucket_arn(prefix), rest + "/"@);
                }
            }
        },
    }
}

/// Minted credentials grant nothing that the minter identity is not granted itself.
pub proof fn law_minted_credentials_grant_no_more_than_the_minter(
    buckets: Option<Seq<Seq<char>>>,
    prefix: Seq<char>,
    action: Seq<char>,
    resource: Seq<char>,
)
    requires
        literal(prefix),
        scope_of(buckets, prefix) is Ok,
    ensures
        granted(
            session_statements(scope_of(buckets, prefix)->Ok_0, prefix),
            action,
            resource,
        ) ==> granted(minter_statements(prefix), action, resource),
{
    law_minted_credentials_stay_in_the_namespace(buckets, prefix, action, resource);
    law_minter_stays_in_the_namespace(prefix, action, resource);
}

} // verus!

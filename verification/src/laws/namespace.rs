//! Which names and rights the namespace has.
use vstd::prelude::*;
use vstd::string::*;

use crate::grants::{
    fits, fits_any, granted, in_buckets, in_namespace, lists_buckets, literal, permits,
};
use crate::policy::{
    bucket_arn, bucket_resources, contents_arn, full_name, invalid_name_message,
    minter_statements, random_uuid_form, scope_names, session_statements, valid_bucket_name,
    StatementView, TestBucketName,
};
use crate::server::instructions_text;
use crate::text::{begins_with, texts};
use crate::tools::{bucket_outcome, chosen_bucket, ToolError};

verus! {

/// A bucket name is 3 to 63 lowercase letters, digits, hyphens and dots, with a letter or digit at
/// either end and no dot beside another dot or a hyphen.
pub proof fn law_bucket_names(name: Seq<char>)
    ensures
        valid_bucket_name(name) == {
            &&& 3 <= name.len() <= 63
            &&& forall|i: int|
                0 <= i < name.len() ==> ({
                    ||| 'a' <= #[trigger] name[i] <= 'z'
                    ||| '0' <= name[i] <= '9'
                    ||| name[i] == '-'
                    ||| name[i] == '.'
                })
            &&& forall|i: int|
                0 <= i && i + 1 < name.len() ==> !({
                    ||| #[trigger] name[i] == '.' && name[i + 1] == '.'
                    ||| name[i] == '.' && name[i + 1] == '-'
                    ||| name[i] == '-' && name[i + 1] == '.'
                })
            &&& name[0] != '-' && name[0] != '.'
            &&& name[name.len() - 1] != '-' && name[name.len() - 1] != '.'
        },
{
    if 3 <= name.len() <= 63 && forall|i: int|
        0 <= i < name.len() ==> ({
            ||| 'a' <= #[trigger] name[i] <= 'z'
            ||| '0' <= name[i] <= '9'
            ||| name[i] == '-'
            ||| name[i] == '.'
        }) {
        assert forall|i: int| 0 <= i < name.len() implies crate::policy::name_char(
            #[trigger] name[i],
        ) by {}
        assert(name[0] == name.first());
        assert(name[name.len() - 1] == name.last());
    }
    if valid_bucket_name(name) {
        assert forall|i: int| 0 <= i < name.len() implies ({
            ||| 'a' <= #[trigger] name[i] <= 'z'
            ||| '0' <= name[i] <= '9'
            ||| name[i] == '-'
            ||| name[i] == '.'
        }) by {
            assert(crate::policy::name_char(name[i]));
        }
    }
}

/// A name is valid exactly where it is valid read backwards.
pub proof fn law_names_read_backwards(name: Seq<char>)
    ensures
        valid_bucket_name(name.reverse()) == valid_bucket_name(name),
{
    lemma_backwards(name);
    lemma_backwards(name.reverse());
    assert(name.reverse().reverse() =~= name);
}

proof fn lemma_backwards(name: Seq<char>)
    ensures
        valid_bucket_name(name) ==> valid_bucket_name(name.reverse()),
{
    if valid_bucket_name(name) {
        let back = name.reverse();
        law_bucket_names(name);
        assert forall|i: int| 0 <= i < back.len() implies ({
            ||| 'a' <= #[trigger] back[i] <= 'z'
            ||| '0' <= back[i] <= '9'
            ||| back[i] == '-'
            ||| back[i] == '.'
        }) by {
            assert(back[i] == name[name.len() - 1 - i]);
        }
        assert forall|i: int| 0 <= i && i + 1 < back.len() implies !({
            ||| #[trigger] back[i] == '.' && back[i + 1] == '.'
            ||| back[i] == '.' && back[i + 1] == '-'
            ||| back[i] == '-' && back[i + 1] == '.'
        }) by {
            let j = name.len() - 2 - i;
            assert(back[i] == name[j + 1]);
            assert(back[i + 1] == name[j]);
        }
        assert(back[0] == name[name.len() - 1]);
        assert(back[back.len() - 1] == name[0]);
        law_bucket_names(back);
    }
}

/// A request stands for the name itself where that carries the prefix, and else for the name
/// behind the prefix.
pub proof fn law_full_names(bucket: Seq<char>, prefix: Seq<char>)
    ensures
        full_name(prefix + bucket, prefix) == prefix + bucket,
        begins_with(bucket, prefix) ==> full_name(bucket, prefix) == bucket,
        !begins_with(bucket, prefix) ==> full_name(bucket, prefix) == prefix + bucket,
        begins_with(full_name(bucket, prefix), prefix),
{
    assert((prefix + bucket).take(prefix.len() as int) =~= prefix);
}

/// A bucket is chosen exactly where its full name is valid; else the name is given with the rules.
pub proof fn law_chosen_buckets(bucket: Seq<char>, prefix: Seq<char>)
    ensures
        ({
            let name = if begins_with(bucket, prefix) {
                bucket
            } else {
                prefix + bucket
            };
            chosen_bucket(bucket, prefix) == if valid_bucket_name(name) {
                Ok::<Seq<char>, Seq<char>>(name)
            } else {
                Err::<Seq<char>, Seq<char>>(
                    "bucket rejected: "@ + ("'"@ + name
                        + "' is not a valid S3 bucket name (3-63 chars, lowercase alphanumeric, hyphen or dot separators, no '..' segments)"@),
                )
            }
        }),
        invalid_name_message(bucket) == "'"@ + bucket
            + "' is not a valid S3 bucket name (3-63 chars, lowercase alphanumeric, hyphen or dot separators, no '..' segments)"@,
{
}

/// A chosen bucket shows as its name, and a refusal as its message.
pub proof fn law_choices_show(name: TestBucketName, error: ToolError)
    ensures
        bucket_outcome(Ok(name)) == Ok::<Seq<char>, Seq<char>>(name@),
        bucket_outcome(Err(error)) == Err::<Seq<char>, Seq<char>>(error.message@),
{
}

/// The random part of a name is 32 lowercase hexadecimal digits.
pub proof fn law_random_parts(text: Seq<char>)
    ensures
        random_uuid_form(text) ==> text.len() == 32 && text[12] == '4' && forall|i: int|
            0 <= i < text.len() ==> ('0' <= #[trigger] text[i] <= '9' || 'a' <= text[i] <= 'f'),
{
    if random_uuid_form(text) {
        assert forall|i: int| 0 <= i < text.len() implies ('0' <= #[trigger] text[i] <= '9' || 'a'
            <= text[i] <= 'f') by {
            assert(crate::policy::hex_digit(text[i]));
        }
    }
}

/// A bucket and its contents have the resource names of the storage service.
pub proof fn law_resource_names(name: Seq<char>)
    ensures
        bucket_arn(name) == "arn:aws:s3:::"@ + name,
        contents_arn(name) == "arn:aws:s3:::"@ + name + seq!['/', '*'],
{
    reveal_strlit("/*");
    assert("/*"@ =~= seq!['/', '*']);
}

/// The resources of some names are, for each in turn, the bucket and its contents.
pub proof fn law_bucket_resources(names: Seq<Seq<char>>, name: Seq<char>)
    ensures
        bucket_resources(Seq::empty()) == Seq::<Seq<char>>::empty(),
        bucket_resources(names.push(name)) == bucket_resources(names) + seq![
            "arn:aws:s3:::"@ + name,
            "arn:aws:s3:::"@ + name + seq!['/', '*'],
        ],
{
    law_resource_names(name);
    assert(bucket_resources(Seq::empty()) =~= Seq::<Seq<char>>::empty());
    let all = bucket_resources(names.push(name));
    let before = bucket_resources(names);
    assert forall|i: int| 0 <= i < before.len() implies all[i] == before[i] by {
        assert(names.push(name)[i / 2] == names[i / 2]);
    }
    assert(all =~= before + seq![bucket_arn(name), contents_arn(name)]);
}

/// A session for given buckets has one permission, for everything with them; one for the namespace
/// has two, as the minter identity has.
pub proof fn law_session_statements(names: Seq<Seq<char>>, prefix: Seq<char>)
    ensures
        session_statements(Some(names), prefix) == seq![
            StatementView { actions: seq!["s3:*"@], resources: bucket_resources(names) },
        ],
        session_statements(None, prefix) == minter_statements(prefix),
        minter_statements(prefix) == seq![
            StatementView {
                actions: seq!["s3:ListAllMyBuckets"@],
                resources: seq!["arn:aws:s3:::*"@],
            },
            StatementView {
                actions: seq!["s3:*"@],
                resources: seq![
                    "arn:aws:s3:::"@ + prefix + seq!['*'],
                    "arn:aws:s3:::"@ + prefix + seq!['*', '/', '*'],
                ],
            },
        ],
{
    reveal_strlit("arn:aws:s3:::");
    reveal_strlit("arn:aws:s3:::*");
    reveal_strlit("*");
    let pattern = prefix + "*"@;
    law_bucket_resources(Seq::empty(), pattern);
    assert(Seq::<Seq<char>>::empty().push(pattern) =~= seq![pattern]);
    assert("arn:aws:s3:::"@ + "*"@ =~= "arn:aws:s3:::*"@);
    assert("arn:aws:s3:::"@ + pattern =~= "arn:aws:s3:::"@ + prefix + seq!['*']);
    assert("arn:aws:s3:::"@ + pattern + seq!['/', '*'] =~= "arn:aws:s3:::"@ + prefix + seq![
        '*',
        '/',
        '*',
    ]);
    let listing = minter_statements(prefix)[0];
    assert(listing.resources =~= seq!["arn:aws:s3:::*"@]);
    let access = minter_statements(prefix)[1];
    assert(access.resources =~= seq![
        "arn:aws:s3:::"@ + prefix + seq!['*'],
        "arn:aws:s3:::"@ + prefix + seq!['*', '/', '*'],
    ]);
}

/// The names that a session is scoped to are those that are given.
pub proof fn law_scope_names(names: &[String])
    ensures
        scope_names(Some(names)) == Some(texts(names@)),
        scope_names(None) is None,
{
}

/// A star fits everything, a question mark one character, and any other character itself. What
/// fits two patterns one behind the other is what fits the first and, behind it, the second.
pub proof fn law_wildcards(first: Seq<char>, second: Seq<char>, text: Seq<char>, c: char)
    ensures
        fits(Seq::empty(), text) == (text.len() == 0),
        fits(seq!['*'], text),
        fits(seq!['?'], text) == (text.len() == 1),
        c != '*' && c != '?' ==> fits(seq![c], text) == (text == seq![c]),
        fits(first + second, text) == exists|cut: int|
            0 <= cut <= text.len() && #[trigger] fits(first, text.take(cut)) && fits(
                second,
                text.skip(cut),
            ),
{
    lemma_star(text);
    assert(seq!['?'].skip(1) =~= Seq::empty());
    assert(seq![c].skip(1) =~= Seq::empty());
    if text.len() > 0 {
        assert(fits(seq!['?'].skip(1), text.skip(1)) == (text.len() == 1));
        assert(fits(seq![c].skip(1), text.skip(1)) == (text.len() == 1));
        if text.len() == 1 && text[0] == c {
            assert(text =~= seq![c]);
        }
    }
    lemma_fits_in_two(first, second, text);
    if exists|cut: int|
        0 <= cut <= text.len() && #[trigger] fits(first, text.take(cut)) && fits(
            second,
            text.skip(cut),
        ) {
        let cut = choose|cut: int|
            0 <= cut <= text.len() && #[trigger] fits(first, text.take(cut)) && fits(
                second,
                text.skip(cut),
            );
        lemma_fits_joined(first, second, text.take(cut), text.skip(cut));
        assert(text.take(cut) + text.skip(cut) =~= text);
    }
}

proof fn lemma_star(text: Seq<char>)
    ensures
        fits(seq!['*'], text),
    decreases text.len(),
{
    if text.len() == 0 {
        assert(fits(seq!['*'].skip(1), text));
    } else {
        lemma_star(text.skip(1));
    }
}

proof fn lemma_fits_in_two(first: Seq<char>, second: Seq<char>, text: Seq<char>)
    ensures
        fits(first + second, text) ==> exists|cut: int|
            0 <= cut <= text.len() && #[trigger] fits(first, text.take(cut)) && fits(
                second,
                text.skip(cut),
            ),
    decreases first.len(), text.len(),
{
    if fits(first + second, text) {
        if first.len() == 0 {
            assert(first + second =~= second);
            assert(text.skip(0) =~= text);
            assert(fits(first, text.take(0)));
        } else {
            let rest = first.skip(1);
            assert((first + second).skip(1) =~= rest + second);
            assert((first + second)[0] == first[0]);
            if first[0] == '*' && fits(rest + second, text) {
                lemma_fits_in_two(rest, second, text);
                let cut = choose|cut: int|
                    0 <= cut <= text.len() && #[trigger] fits(rest, text.take(cut)) && fits(
                        second,
                        text.skip(cut),
                    );
                assert(fits(first, text.take(cut)));
            } else if first[0] == '*' {
                let tail = text.skip(1);
                lemma_fits_in_two(first, second, tail);
                let cut = choose|cut: int|
                    0 <= cut <= tail.len() && #[trigger] fits(first, tail.take(cut)) && fits(
                        second,
                        tail.skip(cut),
                    );
                assert(text.take(cut + 1).skip(1) =~= tail.take(cut));
                assert(text.skip(cut + 1) =~= tail.skip(cut));
                assert(fits(first, text.take(cut + 1)));
            } else {
                let tail = text.skip(1);
                lemma_fits_in_two(rest, second, tail);
                let cut = choose|cut: int|
                    0 <= cut <= tail.len() && #[trigger] fits(rest, tail.take(cut)) && fits(
                        second,
                        tail.skip(cut),
                    );
                assert(text.take(cut + 1).skip(1) =~= tail.take(cut));
                assert(text.take(cut + 1)[0] == text[0]);
                assert(text.skip(cut + 1) =~= tail.skip(cut));
                assert(fits(first, text.take(cut + 1)));
            }
        }
    }
}

proof fn lemma_fits_joined(
    first: Seq<char>,
    second: Seq<char>,
    left: Seq<char>,
    right: Seq<char>,
)
    requires
        fits(first, left),
        fits(second, right),
    ensures
        fits(first + second, left + right),
    decreases first.len(), left.len(),
{
    if first.len() == 0 {
        assert(first + second =~= second);
        assert(left + right =~= right);
    } else {
        let rest = first.skip(1);
        let both = first + second;
        assert(both.skip(1) =~= rest + second);
        assert(both[0] == first[0]);
        if left.len() > 0 {
            assert((left + right).skip(1) =~= left.skip(1) + right);
            assert((left + right)[0] == left[0]);
        }
        if first[0] == '*' && fits(rest, left) {
            lemma_fits_joined(rest, second, left, right);
        } else if first[0] == '*' {
            lemma_fits_joined(first, second, left.skip(1), right);
        } else {
            lemma_fits_joined(rest, second, left.skip(1), right);
        }
    }
}

/// Something is granted exactly where one permission has an action and a resource that it fits.
pub proof fn law_grants(statements: Seq<StatementView>, action: Seq<char>, resource: Seq<char>)
    ensures
        granted(statements, action, resource) == exists|i: int, j: int, k: int|
            0 <= i < statements.len() && 0 <= j < statements[i].actions.len() && 0 <= k
                < statements[i].resources.len() && #[trigger] fits(
                statements[i].actions[j],
                action,
            ) && #[trigger] fits(statements[i].resources[k], resource),
{
    if granted(statements, action, resource) {
        let i = choose|i: int|
            0 <= i < statements.len() && #[trigger] permits(statements[i], action, resource);
        let j = choose|j: int|
            0 <= j < statements[i].actions.len() && #[trigger] fits(
                statements[i].actions[j],
                action,
            );
        let k = choose|k: int|
            0 <= k < statements[i].resources.len() && #[trigger] fits(
                statements[i].resources[k],
                resource,
            );
        assert(fits(statements[i].actions[j], action) && fits(
            statements[i].resources[k],
            resource,
        ));
    }
    if exists|i: int, j: int, k: int|
        0 <= i < statements.len() && 0 <= j < statements[i].actions.len() && 0 <= k
            < statements[i].resources.len() && #[trigger] fits(statements[i].actions[j], action)
            && #[trigger] fits(statements[i].resources[k], resource) {
        let (i, j, k) = choose|i: int, j: int, k: int|
            0 <= i < statements.len() && 0 <= j < statements[i].actions.len() && 0 <= k
                < statements[i].resources.len() && #[trigger] fits(
                statements[i].actions[j],
                action,
            ) && #[trigger] fits(statements[i].resources[k], resource);
        assert(fits_any(statements[i].actions, action));
        assert(fits_any(statements[i].resources, resource));
        assert(permits(statements[i], action, resource));
    }
}

/// What it means to list buckets, to stay in the namespace and to stay in some buckets.
pub proof fn law_rights(
    action: Seq<char>,
    resource: Seq<char>,
    prefix: Seq<char>,
    names: Seq<Seq<char>>,
)
    ensures
        lists_buckets(action, resource) == (action == "s3:ListAllMyBuckets"@ && begins_with(
            resource,
            "arn:aws:s3:::"@,
        )),
        in_namespace(action, resource, prefix) == (begins_with(action, "s3:"@) && begins_with(
            resource,
            "arn:aws:s3:::"@ + prefix,
        )),
        in_buckets(action, resource, names) == (begins_with(action, "s3:"@) && exists|i: int|
            0 <= i < names.len() && (resource == "arn:aws:s3:::"@ + #[trigger] names[i]
                || begins_with(resource, "arn:aws:s3:::"@ + names[i] + "/"@))),
        literal(prefix) == (!prefix.contains('*') && !prefix.contains('?')),
{
    if !prefix.contains('*') && !prefix.contains('?') {
        assert forall|i: int| 0 <= i < prefix.len() implies #[trigger] prefix[i] != '*'
            && prefix[i] != '?' by {}
    }
}

/// Agents are told the prefix of the namespace.
pub proof fn law_instructions(prefix: Seq<char>)
    ensures
        instructions_text(prefix) == "All operations are restricted to buckets named '"@ + prefix
            + "*'. Use mint_credentials to obtain scoped, auto-expiring keys for test code instead of handling long-lived secrets."@,
{
}

} // verus!

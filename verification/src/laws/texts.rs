//! What the notions about texts mean.
use vstd::prelude::*;
use vstd::string::*;

use crate::config::{digits_number, signed_number, unsigned_number};
use crate::text::{
    begins_with, decimal, holds_pair, optional, pieces, signed_decimal, texts, trimmed,
    trimmed_end, trimmed_start, white_space,
};

verus! {

/// A text begins with what stands at its front, and with nothing else.
pub proof fn law_texts_begin_with_their_front(text: Seq<char>, front: Seq<char>, rest: Seq<char>)
    ensures
        begins_with(front + rest, front),
        begins_with(text, front) ==> front.len() <= text.len() && text == front + text.subrange(
            front.len() as int,
            text.len() as int,
        ),
{
    assert((front + rest).take(front.len() as int) =~= front);
    if begins_with(text, front) {
        assert(text =~= text.take(front.len() as int) + text.subrange(
            front.len() as int,
            text.len() as int,
        ));
    }
}

/// A text holds a pair of characters exactly where they stand side by side somewhere in it.
pub proof fn law_pairs_stand_side_by_side(
    before: Seq<char>,
    after: Seq<char>,
    text: Seq<char>,
    first: char,
    second: char,
)
    ensures
        holds_pair(before + seq![first, second] + after, first, second),
        holds_pair(text, first, second) ==> exists|i: int|
            0 <= i && i + 1 < text.len() && #[trigger] text[i] == first && text[i + 1] == second,
{
    let whole = before + seq![first, second] + after;
    assert(whole[before.len() as int] == first);
    assert(whole[before.len() as int + 1] == second);
}

/// Of the ASCII characters, the space and the controls from tab to carriage return are white
/// space; so are the wide and the no-break space.
pub proof fn law_white_space(c: char)
    ensures
        (c as int) < 0x80 ==> white_space(c) == (c == ' ' || '\t' <= c <= '\r'),
        white_space('\u{a0}'),
        white_space('\u{3000}'),
        !white_space('\u{200b}'),
{
}

/// Trimming takes the white space off both ends and leaves what is between.
pub proof fn law_trimming(before: Seq<char>, inner: Seq<char>, after: Seq<char>)
    requires
        forall|i: int| 0 <= i < before.len() ==> white_space(#[trigger] before[i]),
        forall|i: int| 0 <= i < after.len() ==> white_space(#[trigger] after[i]),
        inner.len() > 0 ==> !white_space(inner[0]) && !white_space(inner[inner.len() - 1]),
    ensures
        trimmed(before + inner + after) == inner,
{
    lemma_leading_white_space(before, inner + after);
    assert(before + inner + after =~= before + (inner + after));
    if inner.len() > 0 {
        assert((inner + after)[0] == inner[0]);
        lemma_trailing_white_space(inner, after);
    } else {
        assert(inner + after =~= after + inner);
        lemma_leading_white_space(after, inner);
        assert(inner =~= Seq::empty());
    }
    assert(trimmed_end(inner) == inner);
}

proof fn lemma_leading_white_space(before: Seq<char>, rest: Seq<char>)
    requires
        forall|i: int| 0 <= i < before.len() ==> white_space(#[trigger] before[i]),
    ensures
        trimmed_start(before + rest) == trimmed_start(rest),
    decreases before.len(),
{
    if before.len() == 0 {
        assert(before + rest =~= rest);
    } else {
        assert((before + rest).skip(1) =~= before.skip(1) + rest);
        assert((before + rest)[0] == before[0]);
        lemma_leading_white_space(before.skip(1), rest);
    }
}

proof fn lemma_trailing_white_space(rest: Seq<char>, after: Seq<char>)
    requires
        forall|i: int| 0 <= i < after.len() ==> white_space(#[trigger] after[i]),
    ensures
        trimmed_end(rest + after) == trimmed_end(rest),
    decreases after.len(),
{
    if after.len() == 0 {
        assert(rest + after =~= rest);
    } else {
        assert((rest + after).drop_last() =~= rest + after.drop_last());
        assert((rest + after).last() == after.last());
        assert(after.last() == after[after.len() - 1]);
        lemma_trailing_white_space(rest, after.drop_last());
    }
}

/// Splitting cuts at every separator and nowhere else.
pub proof fn law_splitting(left: Seq<char>, right: Seq<char>, separator: char)
    ensures
        !left.contains(separator) ==> pieces(left, separator) == seq![left],
        pieces(left + seq![separator] + right, separator) == pieces(left, separator) + pieces(
            right,
            separator,
        ),
{
    lemma_whole_piece(left, separator);
    lemma_split_behind(left, right, separator);
}

proof fn lemma_whole_piece(text: Seq<char>, separator: char)
    ensures
        pieces(text, separator).len() > 0,
        !text.contains(separator) ==> pieces(text, separator) == seq![text],
    decreases text.len(),
{
    if text.len() == 0 {
        assert(text =~= Seq::empty());
    } else {
        let front = text.drop_last();
        lemma_whole_piece(front, separator);
        if !text.contains(separator) {
            assert(text[text.len() - 1] == text.last());
            if front.contains(separator) {
                let i = choose|i: int| 0 <= i < front.len() && front[i] == separator;
                assert(text[i] == separator);
            }
            assert(front.push(text.last()) =~= text);
            assert(pieces(text, separator) =~= seq![text]);
        }
    }
}

proof fn lemma_split_behind(left: Seq<char>, right: Seq<char>, separator: char)
    ensures
        pieces(left + seq![separator] + right, separator) == pieces(left, separator) + pieces(
            right,
            separator,
        ),
    decreases right.len(),
{
    let whole = left + seq![separator] + right;
    if right.len() == 0 {
        assert(whole.drop_last() =~= left);
        assert(whole.last() == separator);
        assert(pieces(left, separator).push(Seq::empty()) =~= pieces(left, separator) + seq![
            Seq::empty(),
        ]);
    } else {
        let front = right.drop_last();
        lemma_split_behind(left, front, separator);
        lemma_whole_piece(front, separator);
        assert(whole.drop_last() =~= left + seq![separator] + front);
        assert(whole.last() == right.last());
        assert(pieces(whole, separator) =~= pieces(left, separator) + pieces(right, separator));
    }
}

/// A number below ten is written as its digit; ten times a number and a digit is written as the
/// number and, behind it, the digit. What is written reads as the number, and begins with no
/// idle zero.
pub proof fn law_decimal_notation(number: nat, low: nat)
    requires
        low < 10,
    ensures
        decimal(low) == seq![('0' as int + low) as char],
        number > 0 ==> decimal(10 * number + low) == decimal(number) + decimal(low),
        digits_number(decimal(number)) == Some(number),
        unsigned_number(decimal(number)) == Some(number as int),
        decimal(number)[0] == '0' ==> number == 0,
{
    if number > 0 {
        let whole = 10 * number + low;
        assert(whole / 10 == number);
        assert(whole % 10 == low);
        assert(decimal(whole) =~= decimal(number) + decimal(low));
    }
    lemma_decimal_reads_back(number);
    if decimal(number)[0] == '0' {
        lemma_no_idle_zero(number);
    }
    assert(decimal(number)[0] != '+') by {
        lemma_first_is_digit(number);
    }
}

proof fn lemma_decimal_reads_back(number: nat)
    ensures
        decimal(number).len() > 0,
        digits_number(decimal(number)) == Some(number),
    decreases number,
{
    if number >= 10 {
        lemma_decimal_reads_back(number / 10);
        let high = decimal(number / 10);
        assert(decimal(number).drop_last() =~= high);
        assert(number == 10 * (number / 10) + number % 10);
    }
}

proof fn lemma_first_is_digit(number: nat)
    ensures
        decimal(number).len() > 0,
        '0' <= decimal(number)[0] <= '9',
    decreases number,
{
    if number >= 10 {
        lemma_first_is_digit(number / 10);
        assert(decimal(number)[0] == decimal(number / 10)[0]);
    }
}

proof fn lemma_no_idle_zero(number: nat)
    requires
        decimal(number)[0] == '0',
    ensures
        number == 0,
    decreases number,
{
    if number >= 10 {
        lemma_first_is_digit(number / 10);
        assert(decimal(number)[0] == decimal(number / 10)[0]);
        lemma_no_idle_zero(number / 10);
    }
}

/// A text reads as a number exactly where it is one or more digits, behind a plus sign or none;
/// for signed numbers also behind a minus sign. One digit more makes the number ten times as
/// large, and the digit larger.
pub proof fn law_reading_numbers(text: Seq<char>, c: char)
    ensures
        digits_number(text) is Some == (text.len() > 0 && forall|i: int|
            0 <= i < text.len() ==> '0' <= #[trigger] text[i] <= '9'),
        '0' <= c <= '9' ==> digits_number(seq![c]) == Some((c as int - '0' as int) as nat),
        '0' <= c <= '9' ==> (digits_number(text) matches Some(number) ==> digits_number(
            text.push(c),
        ) == Some((10 * number + (c as int - '0' as int)) as nat)),
        digits_number(text) matches Some(number) ==> {
            &&& unsigned_number(text) == Some(number as int)
            &&& unsigned_number(seq!['+'] + text) == Some(number as int)
            &&& signed_number(text) == Some(number as int)
            &&& signed_number(seq!['+'] + text) == Some(number as int)
            &&& signed_number(seq!['-'] + text) == Some(-(number as int))
        },
        unsigned_number(text) is Some ==> digits_number(text) is Some || (text[0] == '+'
            && digits_number(text.skip(1)) is Some),
        signed_number(text) is Some ==> unsigned_number(text) is Some || (text[0] == '-'
            && digits_number(text.skip(1)) is Some),
{
    lemma_digits(text);
    assert(text.push(c).drop_last() =~= text);
    assert((seq!['+'] + text).skip(1) =~= text);
    assert((seq!['-'] + text).skip(1) =~= text);
    if digits_number(text) is Some {
        assert('0' <= text[0] <= '9');
    }
}

proof fn lemma_digits(text: Seq<char>)
    ensures
        digits_number(text) is Some == (text.len() > 0 && forall|i: int|
            0 <= i < text.len() ==> '0' <= #[trigger] text[i] <= '9'),
    decreases text.len(),
{
    if text.len() > 1 {
        let front = text.drop_last();
        lemma_digits(front);
        if digits_number(text) is Some {
            assert forall|i: int| 0 <= i < text.len() implies '0' <= #[trigger] text[i] <= '9' by {
                if i < front.len() {
                    assert('0' <= front[i] <= '9');
                }
            }
        }
        if forall|i: int| 0 <= i < text.len() ==> '0' <= #[trigger] text[i] <= '9' {
            assert forall|i: int| 0 <= i < front.len() implies '0' <= #[trigger] front[i]
                <= '9' by {
                assert('0' <= text[i] <= '9');
            }
            assert('0' <= text[text.len() - 1] <= '9');
        }
    } else if text.len() == 1 {
        if digits_number(text) is Some {
            assert('0' <= text[0] <= '9');
        }
    }
}

/// A negative number is written with a minus sign before its size. What is written reads as the
/// number.
pub proof fn law_signed_notation(number: int)
    ensures
        number >= 0 ==> signed_decimal(number) == decimal(number as nat),
        number < 0 ==> signed_decimal(number) == seq!['-'] + decimal((-number) as nat),
        signed_number(signed_decimal(number)) == Some(number),
{
    reveal_strlit("-");
    assert("-"@ =~= seq!['-']);
    if number < 0 {
        let size = (-number) as nat;
        law_decimal_notation(size, 0);
        assert((seq!['-'] + decimal(size)).skip(1) =~= decimal(size));
    } else {
        law_decimal_notation(number as nat, 0);
        lemma_first_is_digit(number as nat);
    }
}

/// An optional string stands for its text; a list of strings stands for their texts, in order.
pub proof fn law_strings_stand_for_their_texts(string: String, strings: Seq<String>)
    ensures
        optional(Some(string)) == Some(string@),
        optional(None) is None,
        texts(strings).len() == strings.len(),
        forall|i: int| 0 <= i < strings.len() ==> #[trigger] texts(strings)[i] == strings[i]@,
{
}

} // verus!

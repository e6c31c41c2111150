//! Texts as sequences of characters: prefixes, white space, splitting, and decimal notation.
use vstd::prelude::*;
use vstd::string::*;
use vstd::utf8::valid_utf8;

verus! {

/// `text` begins with `prefix`.
pub open spec fn begins_with(text: Seq<char>, prefix: Seq<char>) -> bool {
    prefix.len() <= text.len() && text.take(prefix.len() as int) == prefix
}

/// `text` holds `first` and, right behind it, `second`.
pub open spec fn holds_pair(text: Seq<char>, first: char, second: char) -> bool {
    exists|i: int| 0 <= i < text.len() - 1 && #[trigger] text[i] == first && text[i + 1] == second
}

/// The text of an optional string.
pub open spec fn optional(text: Option<String>) -> Option<Seq<char>> {
    match text {
        Some(text) => Some(text@),
        None => None,
    }
}

/// The texts of a list of strings.
pub open spec fn texts(strings: Seq<String>) -> Seq<Seq<char>> {
    strings.map_values(|string: String| string@)
}

/// The characters with the Unicode property White_Space.
pub open spec fn white_space(c: char) -> bool {
    let code = c as int;
    ||| 0x9 <= code <= 0xd
    ||| code == 0x20
    ||| code == 0x85
    ||| code == 0xa0
    ||| code == 0x1680
    ||| 0x2000 <= code <= 0x200a
    ||| code == 0x2028
    ||| code == 0x2029
    ||| code == 0x202f
    ||| code == 0x205f
    ||| code == 0x3000
}

/// `char::is_whitespace`: whether the character has the Unicode property White_Space.
pub assume_specification[ char::is_whitespace ](c: char) -> (white: bool)
    ensures
        white == white_space(c),
;

/// `text` without the white space that it begins with.
pub open spec fn trimmed_start(text: Seq<char>) -> Seq<char>
    decreases text.len(),
{
    if text.len() > 0 && white_space(text[0]) {
        trimmed_start(text.skip(1))
    } else {
        text
    }
}

/// `text` without the white space that it ends with.
pub open spec fn trimmed_end(text: Seq<char>) -> Seq<char>
    decreases text.len(),
{
    if text.len() > 0 && white_space(text.last()) {
        trimmed_end(text.drop_last())
    } else {
        text
    }
}

/// `text` without the white space at its two ends.
pub open spec fn trimmed(text: Seq<char>) -> Seq<char> {
    trimmed_end(trimmed_start(text))
}

/// The pieces of `text` between the separators: one more than there are separators.
pub open spec fn pieces(text: Seq<char>, separator: char) -> Seq<Seq<char>>
    decreases text.len(),
{
    if text.len() == 0 {
        seq![Seq::empty()]
    } else {
        let before = pieces(text.drop_last(), separator);
        if text.last() == separator {
            before.push(Seq::empty())
        } else {
            before.update(before.len() - 1, before.last().push(text.last()))
        }
    }
}

/// Leading white space is dropped, and only that.
proof fn lemma_trimmed_start(text: Seq<char>)
    ensures
        ({
            let inner = trimmed_start(text);
            &&& inner.len() <= text.len()
            &&& inner == text.skip(text.len() - inner.len())
            &&& inner.len() > 0 ==> !white_space(inner[0])
        }),
    decreases text.len(),
{
    if text.len() > 0 && white_space(text[0]) {
        lemma_trimmed_start(text.skip(1));
    }
    let inner = trimmed_start(text);
    assert(inner =~= text.skip(text.len() - inner.len()));
}

/// Trailing white space is dropped, and only that.
proof fn lemma_trimmed_end(text: Seq<char>)
    ensures
        ({
            let inner = trimmed_end(text);
            &&& inner.len() <= text.len()
            &&& inner == text.take(inner.len() as int)
            &&& inner.len() > 0 ==> !white_space(inner.last())
        }),
    decreases text.len(),
{
    if text.len() > 0 && white_space(text.last()) {
        lemma_trimmed_end(text.drop_last());
    }
    let inner = trimmed_end(text);
    assert(inner =~= text.take(inner.len() as int));
}

/// A trimmed text has nothing left to trim, and holds no character that was not there before.
pub proof fn lemma_trimmed(text: Seq<char>)
    ensures
        trimmed(trimmed(text)) == trimmed(text),
        forall|c: char| #[trigger] trimmed(text).contains(c) ==> text.contains(c),
{
    let rest = trimmed_start(text);
    let inner = trimmed(text);
    lemma_trimmed_start(text);
    lemma_trimmed_end(rest);
    if inner.len() > 0 {
        assert(inner[0] == rest[0]);
    }
    assert(trimmed_start(inner) == inner);
    assert(trimmed_end(inner) == inner);
    assert forall|c: char| #[trigger] inner.contains(c) implies text.contains(c) by {
        let i = choose|i: int| 0 <= i < inner.len() && inner[i] == c;
        assert(text[text.len() - rest.len() + i] == c);
    }
}

/// No piece holds the separator.
pub proof fn lemma_pieces_hold_no_separator(text: Seq<char>, separator: char)
    ensures
        pieces(text, separator).len() > 0,
        forall|i: int|
            0 <= i < pieces(text, separator).len() ==> !(#[trigger] pieces(text, separator)[i]).contains(
                separator,
            ),
    decreases text.len(),
{
    if text.len() > 0 {
        let before = pieces(text.drop_last(), separator);
        let cut = pieces(text, separator);
        lemma_pieces_hold_no_separator(text.drop_last(), separator);
        assert forall|i: int| 0 <= i < cut.len() implies !(#[trigger] cut[i]).contains(
            separator,
        ) by {
            if i < before.len() - 1 {
                assert(cut[i] == before[i]);
            } else if text.last() == separator {
                assert(i < before.len() ==> cut[i] == before[i]);
            } else {
                assert(cut[i] == before.last().push(text.last()));
                if cut[i].contains(separator) {
                    let k = choose|k: int| 0 <= k < cut[i].len() && cut[i][k] == separator;
                    assert(before.last()[k] == separator);
                    assert(!before[before.len() - 1].contains(separator));
                }
            }
        }
    }
}

/// The character for a digit.
pub open spec fn digit(value: nat) -> char {
    (0x30 + value) as char
}

/// The decimal notation of a natural number.
pub open spec fn decimal(value: nat) -> Seq<char>
    decreases value,
{
    if value < 10 {
        seq![digit(value)]
    } else {
        decimal(value / 10).push(digit(value % 10))
    }
}

/// The decimal notation of an integer.
pub open spec fn signed_decimal(value: int) -> Seq<char> {
    if value < 0 {
        "-"@ + decimal((-value) as nat)
    } else {
        decimal(value as nat)
    }
}

/// The text that `format!("{:?}", text)` gives: quoted, with special characters escaped.
pub uninterp spec fn debug_text(text: Seq<char>) -> Seq<char>;

/// `str`'s `Debug` output: the quoted and escaped text, which depends on the text alone.
#[verifier::external_body]
pub(crate) fn debugged(text: &str) -> (quoted: String)
    ensures
        quoted@ == debug_text(text@),
{
    format!("{:?}", text)
}

/// `std::str::from_utf8`: a text exactly where the bytes are valid UTF-8, and that text's own
/// UTF-8 encoding is the bytes.
#[verifier::external_body]
pub(crate) fn utf8_text(bytes: &[u8]) -> (text: Option<&str>)
    ensures
        text is Some == valid_utf8(bytes@),
        text matches Some(text) ==> text.spec_bytes() == bytes@,
{
    std::str::from_utf8(bytes).ok()
}

/// Collects the characters of `text`.
pub(crate) fn chars_of(text: &str) -> (chars: Vec<char>)
    ensures
        chars@ == text@,
{
    let mut chars: Vec<char> = Vec::new();
    for c in it: text.chars()
        invariant
            chars@ == it.seq().take(it.index()),
            it.seq() == text@,
    {
        chars.push(c);
        assert(it.seq().take(it.index() + 1) == it.seq().take(it.index()).push(c));
    }
    assert(text@.take(text@.len() as int) == text@);
    chars
}

/// Whether two texts are the same.
pub(crate) fn same_text(left: &str, right: &str) -> (same: bool)
    ensures
        same == (left@ == right@),
{
    left.to_string() == right.to_string()
}

/// Whether `text` begins with `prefix`.
pub(crate) fn starts_with(text: &str, prefix: &str) -> (yes: bool)
    ensures
        yes == begins_with(text@, prefix@),
{
    let text_chars = chars_of(text);
    let prefix_chars = chars_of(prefix);
    if prefix_chars.len() > text_chars.len() {
        return false;
    }
    for i in 0..prefix_chars.len()
        invariant
            text_chars@ == text@,
            prefix_chars@ == prefix@,
            prefix@.len() <= text@.len(),
            forall|j: int| 0 <= j < i ==> text@[j] == prefix@[j],
    {
        if text_chars[i] != prefix_chars[i] {
            assert(text@.take(prefix@.len() as int)[i as int] != prefix@[i as int]);
            return false;
        }
    }
    assert(text@.take(prefix@.len() as int) =~= prefix@);
    true
}

/// Drops the white space at the two ends of `text`.
pub(crate) fn trim(text: &str) -> (inner: &str)
    ensures
        inner@ == trimmed(text@),
{
    let chars = chars_of(text);
    let mut from: usize = 0;
    assert(text@.skip(0) =~= text@);
    while from < chars.len() && chars[from].is_whitespace()
        invariant
            chars@ == text@,
            from <= chars.len(),
            trimmed_start(text@) == trimmed_start(text@.skip(from as int)),
        decreases chars.len() - from,
    {
        assert(text@.skip(from as int).skip(1) =~= text@.skip(from + 1));
        from = from + 1;
    }
    let ghost rest = text@.skip(from as int);
    assert(trimmed_start(text@) == rest);
    let mut to: usize = chars.len();
    assert(rest =~= text@.subrange(from as int, to as int));
    while from < to && chars[to - 1].is_whitespace()
        invariant
            chars@ == text@,
            from <= to <= chars.len(),
            trimmed_end(rest) == trimmed_end(text@.subrange(from as int, to as int)),
        decreases to - from,
    {
        assert(text@.subrange(from as int, to as int).drop_last() =~= text@.subrange(
            from as int,
            to - 1,
        ));
        to = to - 1;
    }
    text.substring_char(from, to)
}

/// Splits `text` at every separator.
pub(crate) fn split(text: &str, separator: char) -> (parts: Vec<&str>)
    ensures
        parts@.map_values(|part: &str| part@) == pieces(text@, separator),
{
    let chars = chars_of(text);
    let mut parts: Vec<&str> = Vec::new();
    let mut start: usize = 0;
    assert(text@.take(0) =~= Seq::empty());
    assert(text@.subrange(0, 0) =~= Seq::empty());
    assert(parts@.map_values(|part: &str| part@).push(Seq::empty()) =~= seq![Seq::empty()]);
    for i in 0..chars.len()
        invariant
            chars@ == text@,
            start <= i,
            pieces(text@.take(i as int), separator) == parts@.map_values(
                |part: &str| part@,
            ).push(text@.subrange(start as int, i as int)),
    {
        let ghost before = parts@.map_values(|part: &str| part@);
        let ghost next = text@.take(i + 1);
        assert(next.drop_last() =~= text@.take(i as int));
        if chars[i] == separator {
            parts.push(text.substring_char(start, i));
            assert(parts@.map_values(|part: &str| part@) =~= before.push(
                text@.subrange(start as int, i as int),
            ));
            start = i + 1;
            assert(text@.subrange(start as int, i + 1) =~= Seq::empty());
        } else {
            assert(text@.subrange(start as int, i + 1) =~= text@.subrange(
                start as int,
                i as int,
            ).push(text@[i as int]));
            let ghost old_pieces = before.push(text@.subrange(start as int, i as int));
            assert(old_pieces.update(
                old_pieces.len() - 1,
                old_pieces.last().push(text@[i as int]),
            ) =~= before.push(text@.subrange(start as int, i + 1)));
        }
    }
    assert(text@.take(chars@.len() as int) =~= text@);
    let ghost before = parts@.map_values(|part: &str| part@);
    parts.push(text.substring_char(start, chars.len()));
    assert(parts@.map_values(|part: &str| part@) =~= before.push(
        text@.subrange(start as int, text@.len() as int),
    ));
    parts
}

/// The text of one digit.
fn digit_text(value: u64) -> (text: &'static str)
    requires
        value < 10,
    ensures
        text@ == seq![digit(value as nat)],
{
    proof {
        reveal_strlit("0");
        reveal_strlit("1");
        reveal_strlit("2");
        reveal_strlit("3");
        reveal_strlit("4");
        reveal_strlit("5");
        reveal_strlit("6");
        reveal_strlit("7");
        reveal_strlit("8");
        reveal_strlit("9");
    }
    match value {
        0 => "0",
        1 => "1",
        2 => "2",
        3 => "3",
        4 => "4",
        5 => "5",
        6 => "6",
        7 => "7",
        8 => "8",
        _ => "9",
    }
}

/// Writes a natural number in decimal notation.
pub(crate) fn decimal_text(value: u64) -> (text: String)
    ensures
        text@ == decimal(value as nat),
    decreases value,
{
    if value < 10 {
        digit_text(value).to_string()
    } else {
        let text = decimal_text(value / 10).concat(digit_text(value % 10));
        assert(text@ =~= decimal(value as nat));
        text
    }
}

/// Writes an integer in decimal notation.
pub(crate) fn signed_decimal_text(value: i64) -> (text: String)
    ensures
        text@ == signed_decimal(value as int),
{
    if value < 0 {
        let size: u64 = (-(value + 1)) as u64 + 1;
        "-".to_string().concat(decimal_text(size).as_str())
    } else {
        decimal_text(value as u64)
    }
}

} // verus!

//! What holds of texts, words, lines and numbers.
use crate::text::{
    after_prefix, bytes_before, char_index, concat_of, contains_text, decimal, digit_char,
    digits_value, first_line, first_word, hex, is_space, law_decimal_digits, lemma_char_index,
    lemma_word_end, lower, parsed_number, same_but_case, splits_before, text_index, text_lines, trimmed,
    trimmed_end, trimmed_start, without_trailing, word_end,
};
use vstd::prelude::*;

verus! {

/// Whether every character is whitespace.
pub open spec fn all_space(text: Seq<char>) -> bool {
    forall|i: int| 0 <= i < text.len() ==> is_space(#[trigger] text[i])
}

/// What follows a prefix is what, after the prefix, gives the text.
pub proof fn law_a_prefix_and_the_rest_are_the_text(
    text: Seq<char>,
    prefix: Seq<char>,
    rest: Seq<char>,
)
    ensures
        after_prefix(text, prefix) == Some(rest) <==> text == prefix + rest,
{
    if text == prefix + rest {
        assert(text.take(prefix.len() as int) =~= prefix);
        assert(text.skip(prefix.len() as int) =~= rest);
    }
    if after_prefix(text, prefix) == Some(rest) {
        assert(text =~= prefix + rest);
    }
}

/// Whitespace is the tab, the four line controls after it, the space, the next line, the spaces
/// and separators of Unicode, and nothing else.
pub proof fn law_whitespace_by_number(c: char)
    ensures
        is_space(c) <==> {
            let code = c as u32;
            ||| 9 <= code <= 13
            ||| code == 32
            ||| code == 133
            ||| code == 160
            ||| code == 5760
            ||| 8192 <= code <= 8202
            ||| code == 8232
            ||| code == 8233
            ||| code == 8239
            ||| code == 8287
            ||| code == 12288
        },
{
}

proof fn lemma_trimmed_start(text: Seq<char>) -> (lead: Seq<char>)
    ensures
        text == lead + trimmed_start(text),
        all_space(lead),
        trimmed_start(text).len() > 0 ==> !is_space(trimmed_start(text)[0]),
    decreases text.len(),
{
    if text.len() > 0 && is_space(text[0]) {
        let lead = lemma_trimmed_start(text.skip(1));
        let whole = seq![text[0]] + lead;
        assert(trimmed_start(text) == trimmed_start(text.skip(1)));
        assert(text =~= seq![text[0]] + text.skip(1));
        assert(text =~= whole + trimmed_start(text));
        assert forall|i: int| 0 <= i < whole.len() implies is_space(#[trigger] whole[i]) by {
            if i > 0 {
                assert(whole[i] == lead[i - 1]);
            }
        }
        whole
    } else {
        assert(text =~= Seq::<char>::empty() + text);
        Seq::empty()
    }
}

proof fn lemma_trimmed_end(text: Seq<char>) -> (trail: Seq<char>)
    ensures
        text == trimmed_end(text) + trail,
        all_space(trail),
        trimmed_end(text).len() > 0 ==> !is_space(trimmed_end(text).last()),
    decreases text.len(),
{
    if text.len() > 0 && is_space(text.last()) {
        let trail = lemma_trimmed_end(text.drop_last());
        let whole = trail.push(text.last());
        assert(trimmed_end(text) == trimmed_end(text.drop_last()));
        assert(text =~= text.drop_last().push(text.last()));
        assert(text =~= trimmed_end(text) + whole);
        whole
    } else {
        assert(text =~= text + Seq::<char>::empty());
        Seq::empty()
    }
}

/// Trimming takes whitespace and nothing else from both ends, and leaves none there.
pub proof fn law_trimming_takes_outer_whitespace(text: Seq<char>)
    ensures
        exists|lead: Seq<char>, trail: Seq<char>| #[trigger]
            all_space(lead) && #[trigger] all_space(trail) && text == lead + trimmed(text) + trail,
        trimmed(text).len() > 0 ==> !is_space(trimmed(text)[0]) && !is_space(
            trimmed(text).last(),
        ),
        trimmed(text).len() == 0 <==> all_space(text),
{
    let lead = lemma_trimmed_start(text);
    let trail = lemma_trimmed_end(trimmed_start(text));
    assert(text =~= lead + trimmed(text) + trail);
    if trimmed(text).len() > 0 {
        assert(trimmed(text)[0] == trimmed_start(text)[0]);
        assert(text[lead.len() as int] == trimmed(text)[0]);
    } else {
        assert forall|i: int| 0 <= i < text.len() implies is_space(#[trigger] text[i]) by {
            if i < lead.len() {
                assert(text[i] == lead[i]);
            } else {
                assert(text[i] == trail[i - lead.len()]);
            }
        }
    }
}

/// A text that is trimmed already stays as it is.
pub proof fn law_trimming_is_done_once(text: Seq<char>)
    requires
        text.len() > 0 ==> !is_space(text[0]) && !is_space(text.last()),
    ensures
        trimmed(text) == text,
{
}

/// The first word is the longest run without whitespace after the whitespace in front.
pub proof fn law_the_first_word_ends_at_whitespace(text: Seq<char>)
    ensures
        ({
            let (word, rest) = first_word(text);
            &&& exists|lead: Seq<char>| #[trigger] all_space(lead) && text == lead + word + rest
            &&& forall|i: int| 0 <= i < word.len() ==> !is_space(#[trigger] word[i])
            &&& rest.len() > 0 ==> is_space(rest[0])
            &&& word.len() == 0 ==> rest.len() == 0
        }),
{
    let lead = lemma_trimmed_start(text);
    let start = trimmed_start(text);
    lemma_word(start);
    let (word, rest) = first_word(text);
    assert(text =~= lead + word + rest);
}

proof fn lemma_word(text: Seq<char>)
    ensures
        word_end(text) <= text.len(),
        forall|i: int| 0 <= i < word_end(text) ==> !is_space(#[trigger] text[i]),
        word_end(text) < text.len() ==> is_space(text[word_end(text) as int]),
    decreases text.len(),
{
    lemma_word_end(text);
    if text.len() > 0 && !is_space(text[0]) {
        lemma_word(text.skip(1));
        assert forall|i: int| 0 <= i < word_end(text) implies !is_space(#[trigger] text[i]) by {
            if i > 0 {
                assert(text[i] == text.skip(1)[i - 1]);
            }
        }
    }
}

/// A character's index is where it stands first, or the length where it does not stand.
pub proof fn law_char_index_is_the_first(text: Seq<char>, c: char, at: int)
    requires
        0 <= at < text.len(),
        text[at] == c,
        forall|i: int| 0 <= i < at ==> text[i] != c,
    ensures
        char_index(text, c) == at,
{
    lemma_char_index(text, c);
}

proof fn lemma_found(text: Seq<char>, pattern: Seq<char>)
    ensures
        text_index(text, pattern) matches Some(at) ==> at + pattern.len() <= text.len()
            && text.subrange(at as int, (at + pattern.len()) as int) == pattern,
        forall|at: int|
            #![trigger text.subrange(at, at + pattern.len())]
            0 <= at && at + pattern.len() <= text.len() && text.subrange(
                at,
                at + pattern.len(),
            ) == pattern ==> text_index(text, pattern) is Some && text_index(text, pattern)->0
                <= at,
    decreases text.len(),
{
    let length = pattern.len() as int;
    if text.len() >= length {
        assert(text.subrange(0, length) =~= text.take(length));
    }
    if text.len() > 0 && text.len() >= length && text.take(length) != pattern {
        lemma_found(text.skip(1), pattern);
        let rest = text.skip(1);
        if let Some(at) = text_index(rest, pattern) {
            let start = at as int;
            assert(rest.subrange(start, start + length) =~= text.subrange(
                start + 1,
                start + 1 + length,
            ));
        }
        assert forall|at: int|
            #![trigger text.subrange(at, at + pattern.len())]
            0 <= at && at + pattern.len() <= text.len() && text.subrange(
                at,
                at + pattern.len(),
            ) == pattern implies text_index(text, pattern) is Some && text_index(text, pattern)->0
            <= at by {
            if at > 0 {
                assert(rest.subrange(at - 1, at - 1 + length) =~= text.subrange(
                    at,
                    at + length,
                ));
            }
        }
    }
}

/// A text contains a pattern exactly where the pattern stands somewhere in it, and the index is
/// the first such place.
pub proof fn law_a_found_pattern_stands_there_first(text: Seq<char>, pattern: Seq<char>)
    ensures
        contains_text(text, pattern) <==> exists|at: int|
            #![trigger text.subrange(at, at + pattern.len())]
            0 <= at && at + pattern.len() <= text.len() && text.subrange(
                at,
                at + pattern.len(),
            ) == pattern,
        text_index(text, pattern) matches Some(first) ==> first + pattern.len() <= text.len()
            && text.subrange(first as int, first as int + pattern.len()) == pattern && forall|at: int|
            #![trigger text.subrange(at, at + pattern.len())]
            0 <= at < first ==> text.subrange(at, at + pattern.len()) != pattern,
{
    lemma_found(text, pattern);
    if let Some(first) = text_index(text, pattern) {
        assert(text.subrange(first as int, first as int + pattern.len()) == pattern);
    }
}

/// The first line, its ending and the rest are the text. The ending is a line feed, with the
/// carriage return before it where there is one; only the last line may do without.
pub proof fn law_a_line_its_ending_and_the_rest_are_the_text(text: Seq<char>)
    ensures
        ({
            let (line, rest) = first_line(text);
            &&& forall|i: int| 0 <= i < line.len() ==> #[trigger] line[i] != '\n'
            &&& text == line + seq!['\n'] + rest || text == line + seq!['\r', '\n'] + rest || (text
                == line && rest.len() == 0)
            &&& text == line + seq!['\n'] + rest && line.len() > 0 ==> line.last() != '\r'
        }),
{
    lemma_char_index(text, '\n');
    let end = char_index(text, '\n') as int;
    let (line, rest) = first_line(text);
    if end < text.len() {
        if end > 0 && text[end - 1] == '\r' {
            assert(text =~= line + seq!['\r', '\n'] + rest);
            assert((line + seq!['\n'] + rest).len() != text.len());
        } else {
            assert(text =~= line + seq!['\n'] + rest);
            if line.len() > 0 {
                assert(line.last() == text[end - 1]);
            }
        }
    } else {
        assert((line + seq!['\n'] + rest).len() != text.len());
    }
}

/// Case is that of the ASCII letters: two characters differ in case alone where they are the
/// same, or the one is the capital of the other.
pub proof fn law_case_is_that_of_ascii_letters(left: char, right: char)
    ensures
        lower(left) == lower(right) <==> left == right || ('A' <= left <= 'Z' && right as u32
            == left as u32 + 32) || ('A' <= right <= 'Z' && left as u32 == right as u32 + 32),
        same_but_case(seq![left], seq![right]) <==> lower(left) == lower(right),
{
    let one = seq![left];
    let other = seq![right];
    assert(one[0] == left && other[0] == right);
    if same_but_case(one, other) {
        assert(lower(one[0]) == lower(other[0]));
    }
}

/// Texts that differ in case alone have the same length, and differ in case alone at every
/// place.
pub proof fn law_case_is_compared_place_by_place(left: Seq<char>, right: Seq<char>)
    ensures
        same_but_case(left, right) <==> left.len() == right.len() && forall|i: int|
            0 <= i < left.len() ==> same_but_case(seq![#[trigger] left[i]], seq![right[i]]),
{
    if same_but_case(left, right) {
        assert forall|i: int| 0 <= i < left.len() implies same_but_case(
            seq![#[trigger] left[i]],
            seq![right[i]],
        ) by {
            law_case_is_that_of_ascii_letters(left[i], right[i]);
        }
    }
    if left.len() == right.len() && forall|i: int|
        0 <= i < left.len() ==> same_but_case(seq![#[trigger] left[i]], seq![right[i]]) {
        assert forall|i: int| 0 <= i < left.len() implies lower(#[trigger] left[i]) == lower(
            right[i],
        ) by {
            law_case_is_that_of_ascii_letters(left[i], right[i]);
        }
    }
}

proof fn lemma_digits_of_decimal(value: nat)
    ensures
        digits_value(decimal(value)) == value,
    decreases value,
{
    if value >= 10 {
        lemma_digits_of_decimal(value / 10);
        assert(decimal(value).drop_last() =~= decimal(value / 10));
        assert(decimal(value).last() == digit_char(value % 10));
    } else {
        assert(decimal(value).drop_last() =~= Seq::<char>::empty());
        assert(decimal(value).last() == digit_char(value));
        assert(digits_value(decimal(value).drop_last()) == 0);
    }
}

/// A number's decimal form is read back as the number, where it is within the limit, with or
/// without a plus sign.
pub proof fn law_numbers_are_read_back(value: nat, limit: nat)
    ensures
        value <= limit ==> parsed_number(decimal(value), limit) == Some(value)
            && parsed_number(seq!['+'] + decimal(value), limit) == Some(value),
        value > limit ==> parsed_number(decimal(value), limit) is None,
{
    lemma_digits_of_decimal(value);
    law_decimal_digits(value);
    let signed = seq!['+'] + decimal(value);
    assert(signed.skip(1) =~= decimal(value));
    assert(decimal(value)[0] != '+');
}

/// Only digits, at least one, after at most one plus sign are a number, and never one beyond
/// the limit.
pub proof fn law_only_digits_are_numbers(text: Seq<char>, limit: nat)
    ensures
        parsed_number(text, limit) matches Some(value) ==> {
            &&& value <= limit
            &&& text.len() > 0
            &&& forall|i: int|
                1 <= i < text.len() ==> '0' <= #[trigger] text[i] <= '9'
            &&& '0' <= text[0] <= '9' || (text[0] == '+' && text.len() > 1)
        },
        parsed_number(text, limit) is Some && '0' <= text[0] <= '9' ==> forall|digit: char|
            #![trigger text.push(digit)]
            '0' <= digit <= '9' && parsed_number(text, limit)->0 * 10 + (digit as nat - 48)
                <= limit ==> parsed_number(text.push(digit), limit) == Some(
                (parsed_number(text, limit)->0 * 10 + (digit as nat - 48)) as nat,
            ),
{
    if let Some(value) = parsed_number(text, limit) {
        assert forall|i: int| 1 <= i < text.len() implies '0' <= #[trigger] text[i] <= '9' by {
            if text[0] == '+' {
                assert(text.skip(1)[i - 1] == text[i]);
            }
        }
        if '0' <= text[0] <= '9' {
            assert forall|digit: char|
                #![trigger text.push(digit)]
                '0' <= digit <= '9' && value * 10 + (digit as nat - 48)
                    <= limit implies parsed_number(text.push(digit), limit) == Some(
                (value * 10 + (digit as nat - 48)) as nat,
            ) by {
                let longer = text.push(digit);
                assert(longer.drop_last() =~= text);
                assert(longer[0] == text[0]);
            }
        }
    }
}

/// The decimal form of a number is the form of its tens and then its last digit.
pub proof fn law_decimal_goes_digit_by_digit(tens: nat, last: nat)
    requires
        last < 10,
    ensures
        tens > 0 ==> decimal(tens * 10 + last) == decimal(tens).push((48 + last) as char),
        decimal(last) == seq![(48 + last) as char],
{
    assert((tens * 10 + last) / 10 == tens);
    assert((tens * 10 + last) % 10 == last);
}

/// A character at the end is taken off as often as it stands there, and nothing else is.
pub proof fn law_trailing_characters_are_taken_off(text: Seq<char>, c: char)
    ensures
        ({
            let kept = without_trailing(text, c);
            &&& kept.len() <= text.len()
            &&& text.take(kept.len() as int) == kept
            &&& forall|i: int| kept.len() <= i < text.len() ==> #[trigger] text[i] == c
            &&& kept.len() > 0 ==> kept.last() != c
        }),
    decreases text.len(),
{
    if text.len() > 0 && text.last() == c {
        law_trailing_characters_are_taken_off(text.drop_last(), c);
        let kept = without_trailing(text, c);
        assert(text.take(kept.len() as int) =~= text.drop_last().take(kept.len() as int));
        assert forall|i: int| kept.len() <= i < text.len() implies #[trigger] text[i] == c by {
            if i < text.len() - 1 {
                assert(text[i] == text.drop_last()[i]);
            }
        }
    } else {
        assert(text.take(text.len() as int) =~= text);
    }
}

/// The value of a hexadecimal digit.
pub open spec fn hex_value(c: char) -> int {
    if '0' <= c <= '9' {
        c as int - 48
    } else {
        c as int - 87
    }
}

/// Each byte is two lower-case hexadecimal digits, the more significant first.
pub proof fn law_hex_gives_the_bytes_back(bytes: Seq<u8>, at: int)
    requires
        0 <= at < bytes.len(),
    ensures
        hex(bytes).len() == 2 * bytes.len(),
        hex_value(hex(bytes)[2 * at]) * 16 + hex_value(hex(bytes)[2 * at + 1]) == bytes[at],
        0 <= hex_value(hex(bytes)[2 * at]) < 16,
        0 <= hex_value(hex(bytes)[2 * at + 1]) < 16,
{
    assert((2 * at) / 2 == at && (2 * at) % 2 == 0);
    assert((2 * at + 1) / 2 == at && (2 * at + 1) % 2 == 1);
}

/// Bytes are compared from the front: where two sequences first differ, the smaller byte comes
/// first, and a sequence comes before every longer one that starts with it.
pub proof fn law_the_first_difference_decides(
    shared: Seq<u8>,
    smaller: u8,
    greater: u8,
    one: Seq<u8>,
    other: Seq<u8>,
)
    requires
        smaller < greater,
    ensures
        bytes_before(shared + seq![smaller] + one, shared + seq![greater] + other),
        !bytes_before(shared + seq![greater] + other, shared + seq![smaller] + one),
        bytes_before(shared, shared + seq![smaller] + one),
        !bytes_before(shared, shared),
{
    let left = shared + seq![smaller] + one;
    let right = shared + seq![greater] + other;
    let at = shared.len() as int;
    assert(splits_before(left, right, at));
    assert(splits_before(shared, left, at));
    crate::text::lemma_bytes_before_asymmetric(left, right);
    crate::text::lemma_bytes_before_asymmetric(shared, shared);
}

/// Parts are written one after the other.
pub proof fn law_parts_follow_each_other(parts: Seq<Seq<char>>, part: Seq<char>)
    ensures
        concat_of(parts.push(part)) == concat_of(parts) + part,
        concat_of(Seq::empty()).len() == 0,
{
    assert(parts.push(part).drop_last() =~= parts);
}

/// Whether a text is a middle part between two others.
pub open spec fn framed(
    text: Seq<char>,
    head: Seq<char>,
    middle: Seq<char>,
    tail: Seq<char>,
) -> bool {
    text == head + middle + tail
}

/// Whether two texts are alike but for what stands behind a label.
#[verifier::opaque]
pub open spec fn differ_behind(
    one: Seq<char>,
    other: Seq<char>,
    label: Seq<char>,
    value: Seq<char>,
    changed: Seq<char>,
) -> bool {
    exists|head: Seq<char>, tail: Seq<char>| #[trigger]
        framed(one, head, label + value, tail) && #[trigger] framed(
            other,
            head,
            label + changed,
            tail,
        )
}

/// Texts that end with what stands behind the label.
pub proof fn lemma_differ_here(
    head: Seq<char>,
    label: Seq<char>,
    value: Seq<char>,
    changed: Seq<char>,
)
    ensures
        differ_behind(head + label + value, head + label + changed, label, value, changed),
{
    reveal(differ_behind);
    let none = Seq::<char>::empty();
    assert(head + label + value =~= head + (label + value) + none);
    assert(head + label + changed =~= head + (label + changed) + none);
    assert(framed(head + label + value, head, label + value, none));
    assert(framed(head + label + changed, head, label + changed, none));
}

/// Texts that are the label and what stands behind it.
pub proof fn lemma_differ_first(label: Seq<char>, value: Seq<char>, changed: Seq<char>)
    ensures
        differ_behind(label + value, label + changed, label, value, changed),
{
    let none = Seq::<char>::empty();
    lemma_differ_here(none, label, value, changed);
    assert(none + label =~= label);
}

/// Texts that go on alike.
pub proof fn lemma_differ_then(
    one: Seq<char>,
    other: Seq<char>,
    label: Seq<char>,
    value: Seq<char>,
    changed: Seq<char>,
    more: Seq<char>,
)
    requires
        differ_behind(one, other, label, value, changed),
    ensures
        differ_behind(one + more, other + more, label, value, changed),
{
    reveal(differ_behind);
    let (head, tail) = choose|head: Seq<char>, tail: Seq<char>| #[trigger]
        framed(one, head, label + value, tail) && #[trigger] framed(
            other,
            head,
            label + changed,
            tail,
        );
    assert(one + more =~= head + (label + value) + (tail + more));
    assert(other + more =~= head + (label + changed) + (tail + more));
    assert(framed(one + more, head, label + value, tail + more));
    assert(framed(other + more, head, label + changed, tail + more));
}

/// Texts that go on alike for two parts.
pub proof fn lemma_differ_then_two(
    one: Seq<char>,
    other: Seq<char>,
    label: Seq<char>,
    value: Seq<char>,
    changed: Seq<char>,
    first: Seq<char>,
    second: Seq<char>,
)
    requires
        differ_behind(one, other, label, value, changed),
    ensures
        differ_behind(one + first + second, other + first + second, label, value, changed),
{
    lemma_differ_then(one, other, label, value, changed, first);
    lemma_differ_then(one + first, other + first, label, value, changed, second);
}

/// Texts that go on alike for four parts.
pub proof fn lemma_differ_then_four(
    one: Seq<char>,
    other: Seq<char>,
    label: Seq<char>,
    value: Seq<char>,
    changed: Seq<char>,
    first: Seq<char>,
    second: Seq<char>,
    third: Seq<char>,
    fourth: Seq<char>,
)
    requires
        differ_behind(one, other, label, value, changed),
    ensures
        differ_behind(
            one + first + second + third + fourth,
            other + first + second + third + fourth,
            label,
            value,
            changed,
        ),
{
    lemma_differ_then_two(one, other, label, value, changed, first, second);
    lemma_differ_then_two(
        one + first + second,
        other + first + second,
        label,
        value,
        changed,
        third,
        fourth,
    );
}

/// A word is read up to the whitespace behind it, whatever whitespace stands before it.
pub proof fn law_a_word_is_read_whole(lead: Seq<char>, word: Seq<char>, rest: Seq<char>)
    requires
        all_space(lead),
        word.len() > 0,
        forall|i: int| 0 <= i < word.len() ==> !is_space(#[trigger] word[i]),
        rest.len() > 0 ==> is_space(rest[0]),
    ensures
        first_word(lead + word + rest) == (word, rest),
    decreases lead.len(),
{
    let text = lead + word + rest;
    if lead.len() > 0 {
        let less = lead.skip(1);
        assert forall|i: int| 0 <= i < less.len() implies is_space(#[trigger] less[i]) by {
            assert(less[i] == lead[i + 1]);
        }
        law_a_word_is_read_whole(less, word, rest);
        assert(text.skip(1) =~= less + word + rest);
        assert(text[0] == lead[0]);
        assert(trimmed_start(text) == trimmed_start(text.skip(1)));
    } else {
        assert(text =~= word + rest);
        assert(text[0] == word[0]);
        lemma_word(text);
        let end = word_end(text) as int;
        if end < word.len() {
            assert(text[end] == word[end]);
        }
        if end > word.len() {
            assert(text[word.len() as int] == rest[0]);
        }
        assert(text.take(end) =~= word);
        assert(text.skip(end) =~= rest);
    }
}

/// A line is read up to its ending.
pub proof fn law_a_line_is_read_whole(line: Seq<char>, rest: Seq<char>)
    requires
        forall|i: int| 0 <= i < line.len() ==> #[trigger] line[i] != '\n',
        line.len() > 0 ==> line.last() != '\r',
    ensures
        first_line(line + seq!['\r', '\n'] + rest) == (line, rest),
        first_line(line + seq!['\n'] + rest) == (line, rest),
        first_line(line) == (line, Seq::<char>::empty()),
{
    let text = line + seq!['\r', '\n'] + rest;
    let end = line.len() as int + 1;
    assert(text[end] == '\n');
    assert forall|i: int| 0 <= i < end implies #[trigger] text[i] != '\n' by {
        if i < line.len() {
            assert(text[i] == line[i]);
        }
    }
    law_char_index_is_the_first(text, '\n', end);
    assert(text[end - 1] == '\r');
    assert(first_line(text).0 =~= line);
    assert(first_line(text).1 =~= rest);
    let text = line + seq!['\n'] + rest;
    let end = line.len() as int;
    assert(text[end] == '\n');
    assert forall|i: int| 0 <= i < end implies #[trigger] text[i] != '\n' by {
        assert(text[i] == line[i]);
    }
    law_char_index_is_the_first(text, '\n', end);
    if end > 0 {
        assert(text[end - 1] == line.last());
    }
    assert(first_line(text).0 =~= line);
    assert(first_line(text).1 =~= rest);
    lemma_char_index(line, '\n');
    assert(first_line(line).0 =~= line);
    assert(first_line(line).1 =~= Seq::<char>::empty());
}

/// Text that stands nowhere earlier is found where it stands.
pub proof fn law_a_pattern_is_found_where_it_stands(text: Seq<char>, pattern: Seq<char>, at: int)
    requires
        0 <= at,
        at + pattern.len() <= text.len(),
        text.subrange(at, at + pattern.len()) == pattern,
        forall|i: int|
            #![trigger text.subrange(i, i + pattern.len())]
            0 <= i < at ==> text.subrange(i, i + pattern.len()) != pattern,
    ensures
        text_index(text, pattern) == Some(at as nat),
{
    lemma_found(text, pattern);
    let first = text_index(text, pattern)->0 as int;
    assert(text.subrange(first, first + pattern.len()) == pattern);
}

/// Texts of parts that differ in one part alone differ only behind the part before it.
pub proof fn lemma_differ_in_parts(parts: Seq<Seq<char>>, at: int, changed: Seq<char>)
    requires
        1 <= at < parts.len(),
    ensures
        differ_behind(
            concat_of(parts),
            concat_of(parts.update(at, changed)),
            parts[at - 1],
            parts[at],
            changed,
        ),
    decreases parts.len(),
{
    let other = parts.update(at, changed);
    let last = parts.len() - 1;
    if at == last {
        let label = parts[at - 1];
        let before = parts.drop_last();
        assert(other.drop_last() =~= before);
        let head = concat_of(before.drop_last());
        assert(concat_of(before) == head + label);
        lemma_differ_here(head, label, parts[at], changed);
    } else {
        lemma_differ_in_parts(parts.drop_last(), at, changed);
        assert(other.drop_last() =~= parts.drop_last().update(at, changed));
        lemma_differ_then(
            concat_of(parts.drop_last()),
            concat_of(other.drop_last()),
            parts[at - 1],
            parts[at],
            changed,
            parts.last(),
        );
    }
}

/// Texts that begin alike before they differ.
pub proof fn lemma_differ_after(
    head: Seq<char>,
    one: Seq<char>,
    other: Seq<char>,
    label: Seq<char>,
    value: Seq<char>,
    changed: Seq<char>,
)
    requires
        differ_behind(one, other, label, value, changed),
    ensures
        differ_behind(head + one, head + other, label, value, changed),
{
    reveal(differ_behind);
    let (start, tail) = choose|start: Seq<char>, tail: Seq<char>| #[trigger]
        framed(one, start, label + value, tail) && #[trigger] framed(
            other,
            start,
            label + changed,
            tail,
        );
    assert(head + one =~= (head + start) + (label + value) + tail);
    assert(head + other =~= (head + start) + (label + changed) + tail);
    assert(framed(head + one, head + start, label + value, tail));
    assert(framed(head + other, head + start, label + changed, tail));
}

/// The lines of a text are its first line and the lines of the rest.
pub proof fn law_lines_follow_each_other(line: Seq<char>, rest: Seq<char>)
    requires
        forall|i: int| 0 <= i < line.len() ==> #[trigger] line[i] != '\n',
        line.len() > 0 ==> line.last() != '\r',
    ensures
        text_lines(line + seq!['\n'] + rest) == seq![line] + text_lines(rest),
        text_lines(line + seq!['\r', '\n'] + rest) == seq![line] + text_lines(rest),
        line.len() > 0 ==> text_lines(line) == seq![line],
        text_lines(Seq::empty()).len() == 0,
{
    law_a_line_is_read_whole(line, rest);
    if line.len() > 0 {
        assert(seq![line] + text_lines(Seq::empty()) =~= seq![line]);
    }
}

} // verus!

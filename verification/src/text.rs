//! Text as sequences of characters and as UTF-8 bytes.
use vstd::prelude::*;
use vstd::utf8::{decode_utf8, encode_utf8, valid_utf8};

verus! {

/// `core::str::from_utf8`: the text that the bytes encode, if they are UTF-8.
#[verifier::external_body]
pub(crate) fn text_from_utf8(bytes: &[u8]) -> (text: Option<&str>)
    ensures
        match text {
            Some(text) => valid_utf8(bytes@) && text@ == decode_utf8(bytes@),
            None => !valid_utf8(bytes@),
        },
{
    core::str::from_utf8(bytes).ok()
}

/// Whether `left` comes before `right` where bytes are compared from the front.
pub open spec fn bytes_before(left: Seq<u8>, right: Seq<u8>) -> bool {
    exists|at: int| #[trigger] splits_before(left, right, at)
}

/// Whether `left` and `right` agree before `at`, and there `left` is smaller or ends.
pub open spec fn splits_before(left: Seq<u8>, right: Seq<u8>, at: int) -> bool {
    &&& 0 <= at <= left.len()
    &&& at < right.len()
    &&& forall|i: int| 0 <= i < at ==> left[i] == right[i]
    &&& at < left.len() ==> left[at] < right[at]
}

/// The order of texts: that of their UTF-8 bytes.
pub open spec fn text_before(left: Seq<char>, right: Seq<char>) -> bool {
    bytes_before(encode_utf8(left), encode_utf8(right))
}

/// Of two different byte sequences one comes before the other.
pub proof fn lemma_bytes_before_total(left: Seq<u8>, right: Seq<u8>)
    ensures
        bytes_before(left, right) || left == right || bytes_before(right, left),
{
    lemma_bytes_before_total_from(left, right, 0);
}

proof fn lemma_bytes_before_total_from(left: Seq<u8>, right: Seq<u8>, at: int)
    requires
        0 <= at <= left.len(),
        at <= right.len(),
        forall|i: int| 0 <= i < at ==> left[i] == right[i],
    ensures
        bytes_before(left, right) || left == right || bytes_before(right, left),
    decreases left.len() - at,
{
    if at == left.len() && at == right.len() {
        assert(left =~= right);
    } else if at == left.len() {
        assert(splits_before(left, right, at));
    } else if at == right.len() {
        assert(splits_before(right, left, at));
    } else if left[at] < right[at] {
        assert(splits_before(left, right, at));
    } else if left[at] > right[at] {
        assert(splits_before(right, left, at));
    } else {
        lemma_bytes_before_total_from(left, right, at + 1);
    }
}

/// No byte sequence comes before itself, and no two come before each other.
pub proof fn lemma_bytes_before_asymmetric(left: Seq<u8>, right: Seq<u8>)
    ensures
        bytes_before(left, right) ==> left != right && !bytes_before(right, left),
{
    if bytes_before(left, right) {
        let at = choose|at: int| #[trigger] splits_before(left, right, at);
        if bytes_before(right, left) {
            let back = choose|back: int| #[trigger] splits_before(right, left, back);
            assert(left.len() > 0 || right.len() > 0);
            if at < back {
                assert(right[at] == left[at]);
            } else if back < at {
                assert(left[back] == right[back]);
            }
        }
    }
}

/// The order of byte sequences is transitive.
pub proof fn lemma_bytes_before_transitive(first: Seq<u8>, second: Seq<u8>, third: Seq<u8>)
    requires
        bytes_before(first, second),
        bytes_before(second, third),
    ensures
        bytes_before(first, third),
{
    let one = choose|at: int| #[trigger] splits_before(first, second, at);
    let two = choose|at: int| #[trigger] splits_before(second, third, at);
    let at = if one <= two {
        one
    } else {
        two
    };
    assert(forall|i: int| 0 <= i < at ==> first[i] == second[i] && second[i] == third[i]);
    assert(splits_before(first, third, at));
}

/// Whether the bytes `left` come before the bytes `right`.
pub fn is_bytes_before(left: &[u8], right: &[u8]) -> (before: bool)
    ensures
        before == bytes_before(left@, right@),
{
    let mut at: usize = 0;
    while at < left.len() && at < right.len()
        invariant
            at <= left@.len(),
            at <= right@.len(),
            forall|i: int| 0 <= i < at ==> left@[i] == right@[i],
        decreases left@.len() - at,
    {
        if left[at] < right[at] {
            assert(splits_before(left@, right@, at as int));
            return true;
        }
        if left[at] > right[at] {
            assert(splits_before(right@, left@, at as int));
            proof {
                lemma_bytes_before_asymmetric(right@, left@);
            }
            return false;
        }
        at += 1;
    }
    if at < right.len() {
        assert(splits_before(left@, right@, at as int));
        true
    } else {
        proof {
            if at < left@.len() {
                assert(splits_before(right@, left@, at as int));
                lemma_bytes_before_asymmetric(right@, left@);
            } else {
                assert(left@ =~= right@);
                lemma_bytes_before_asymmetric(left@, right@);
            }
        }
        false
    }
}

/// Whether the text `left` comes before the text `right`.
pub fn is_text_before(left: &str, right: &str) -> (before: bool)
    ensures
        before == text_before(left@, right@),
{
    is_bytes_before(left.as_bytes(), right.as_bytes())
}

/// Whether two texts are the same.
pub fn same_text(left: &str, right: &str) -> (same: bool)
    ensures
        same == (left@ == right@),
{
    let left_bytes = left.as_bytes();
    let right_bytes = right.as_bytes();
    let mut at: usize = 0;
    while at < left_bytes.len() && at < right_bytes.len()
        invariant
            at <= left_bytes@.len(),
            at <= right_bytes@.len(),
            left_bytes@ == encode_utf8(left@),
            right_bytes@ == encode_utf8(right@),
            forall|i: int| 0 <= i < at ==> left_bytes@[i] == right_bytes@[i],
        decreases left_bytes@.len() - at,
    {
        if left_bytes[at] != right_bytes[at] {
            assert(left_bytes@[at as int] != right_bytes@[at as int]);
            return false;
        }
        at += 1;
    }
    if left_bytes.len() != right_bytes.len() {
        return false;
    }
    proof {
        assert(left_bytes@ =~= right_bytes@);
        lemma_encode_utf8_injective(left@, right@);
    }
    true
}

/// Texts with the same UTF-8 bytes are the same text.
pub proof fn lemma_encode_utf8_injective(left: Seq<char>, right: Seq<char>)
    requires
        encode_utf8(left) == encode_utf8(right),
    ensures
        left == right,
{
    broadcast use vstd::utf8::encode_utf8_decode_utf8;

    assert(decode_utf8(encode_utf8(left)) == left);
    assert(decode_utf8(encode_utf8(right)) == right);
}

// Characters.

/// `String::push`: appends the character.
pub assume_specification[ std::string::String::push ](text: &mut std::string::String, c: char)
    ensures
        final(text)@ == old(text)@.push(c),
;

/// The characters of a text.
pub fn chars_of(text: &str) -> (chars: Vec<char>)
    ensures
        chars@ == text@,
{
    let mut chars: Vec<char> = Vec::new();
    for c in it: text.chars()
        invariant
            it.seq() == text@,
            chars@ == text@.take(it.index() as int),
    {
        chars.push(c);
    }
    assert(text@.take(text@.len() as int) =~= text@);
    chars
}

/// The text of some characters.
pub fn text_of(chars: &[char]) -> (text: String)
    ensures
        text@ == chars@,
{
    let mut text = String::new();
    let mut at: usize = 0;
    while at < chars.len()
        invariant
            at <= chars@.len(),
            text@ == chars@.take(at as int),
        decreases chars@.len() - at,
    {
        text.push(chars[at]);
        at += 1;
        assert(text@ =~= chars@.take(at as int));
    }
    assert(chars@.take(at as int) =~= chars@);
    text
}

/// Appends some characters to a text.
pub fn push_chars(text: &mut String, chars: &[char])
    ensures
        final(text)@ == old(text)@ + chars@,
{
    let ghost before = text@;
    let mut at: usize = 0;
    while at < chars.len()
        invariant
            at <= chars@.len(),
            text@ == before + chars@.take(at as int),
        decreases chars@.len() - at,
    {
        text.push(chars[at]);
        at += 1;
        assert(text@ =~= before + chars@.take(at as int));
    }
    assert(chars@.take(at as int) =~= chars@);
}

/// Whether two runs of characters are the same.
pub fn same_chars(left: &[char], right: &[char]) -> (same: bool)
    ensures
        same == (left@ == right@),
{
    if left.len() != right.len() {
        return false;
    }
    let mut at: usize = 0;
    while at < left.len()
        invariant
            at <= left@.len(),
            left@.len() == right@.len(),
            forall|i: int| 0 <= i < at ==> left@[i] == right@[i],
        decreases left@.len() - at,
    {
        if left[at] != right[at] {
            assert(left@[at as int] != right@[at as int]);
            return false;
        }
        at += 1;
    }
    assert(left@ =~= right@);
    true
}

/// Whether some characters spell a text.
pub fn spells(chars: &[char], text: &str) -> (same: bool)
    ensures
        same == (chars@ == text@),
{
    let spelled = chars_of(text);
    same_chars(chars, spelled.as_slice())
}

/// The characters after a prefix, where they have it.
pub open spec fn after_prefix(text: Seq<char>, prefix: Seq<char>) -> Option<Seq<char>> {
    if prefix.len() <= text.len() && text.take(prefix.len() as int) == prefix {
        Some(text.skip(prefix.len() as int))
    } else {
        None
    }
}

/// The characters after a prefix, where they have it.
pub fn strip_prefix<'a>(chars: &'a [char], prefix: &str) -> (rest: Option<&'a [char]>)
    ensures
        match rest {
            Some(rest) => after_prefix(chars@, prefix@) == Some(rest@),
            None => after_prefix(chars@, prefix@) is None,
        },
{
    let spelled = chars_of(prefix);
    let length: usize = spelled.len();
    if chars.len() < length {
        return None;
    }
    if same_chars(&chars[0..length], spelled.as_slice()) {
        Some(&chars[length..chars.len()])
    } else {
        None
    }
}

// Whitespace.

/// Whether the character has the Unicode property `White_Space`.
pub open spec fn is_space(c: char) -> bool {
    ||| '\u{9}' <= c <= '\u{d}'
    ||| c == '\u{20}'
    ||| c == '\u{85}'
    ||| c == '\u{a0}'
    ||| c == '\u{1680}'
    ||| '\u{2000}' <= c <= '\u{200a}'
    ||| c == '\u{2028}'
    ||| c == '\u{2029}'
    ||| c == '\u{202f}'
    ||| c == '\u{205f}'
    ||| c == '\u{3000}'
}

/// Whether the character has the Unicode property `White_Space`.
pub fn is_whitespace(c: char) -> (space: bool)
    ensures
        space == is_space(c),
{
    ('\u{9}' <= c && c <= '\u{d}') || c == '\u{20}' || c == '\u{85}' || c == '\u{a0}' || c
        == '\u{1680}' || ('\u{2000}' <= c && c <= '\u{200a}') || c == '\u{2028}' || c
        == '\u{2029}' || c == '\u{202f}' || c == '\u{205f}' || c == '\u{3000}'
}

/// The text without the whitespace at its start.
pub open spec fn trimmed_start(text: Seq<char>) -> Seq<char>
    decreases text.len(),
{
    if text.len() > 0 && is_space(text[0]) {
        trimmed_start(text.skip(1))
    } else {
        text
    }
}

/// The text without the whitespace at its end.
pub open spec fn trimmed_end(text: Seq<char>) -> Seq<char>
    decreases text.len(),
{
    if text.len() > 0 && is_space(text.last()) {
        trimmed_end(text.drop_last())
    } else {
        text
    }
}

/// The text without the whitespace at its start and at its end.
pub open spec fn trimmed(text: Seq<char>) -> Seq<char> {
    trimmed_end(trimmed_start(text))
}

/// The characters without the whitespace at their start.
pub fn trim_start<'a>(chars: &'a [char]) -> (rest: &'a [char])
    ensures
        rest@ == trimmed_start(chars@),
{
    let mut at: usize = 0;
    assert(chars@.skip(0) =~= chars@);
    while at < chars.len() && is_whitespace(chars[at])
        invariant
            at <= chars@.len(),
            trimmed_start(chars@.skip(at as int)) == trimmed_start(chars@),
        ensures
            at <= chars@.len(),
            chars@.skip(at as int) == trimmed_start(chars@),
        decreases chars@.len() - at,
    {
        assert(chars@.skip(at as int).skip(1) =~= chars@.skip(at + 1));
        at += 1;
    }
    &chars[at..chars.len()]
}

/// The characters without the whitespace at their end.
pub fn trim_end<'a>(chars: &'a [char]) -> (rest: &'a [char])
    ensures
        rest@ == trimmed_end(chars@),
{
    let mut end: usize = chars.len();
    assert(chars@.take(end as int) =~= chars@);
    while end > 0 && is_whitespace(chars[end - 1])
        invariant
            end <= chars@.len(),
            trimmed_end(chars@.take(end as int)) == trimmed_end(chars@),
        ensures
            end <= chars@.len(),
            chars@.take(end as int) == trimmed_end(chars@),
        decreases end,
    {
        assert(chars@.take(end as int).drop_last() =~= chars@.take(end - 1));
        end -= 1;
    }
    &chars[0..end]
}

/// The characters without the whitespace at their start and at their end.
pub fn trim<'a>(chars: &'a [char]) -> (rest: &'a [char])
    ensures
        rest@ == trimmed(chars@),
{
    trim_end(trim_start(chars))
}

/// Where the first whitespace stands, or the length.
pub open spec fn word_end(text: Seq<char>) -> nat
    decreases text.len(),
{
    if text.len() == 0 || is_space(text[0]) {
        0
    } else {
        1 + word_end(text.skip(1))
    }
}

/// A word does not reach past its text.
pub proof fn lemma_word_end(text: Seq<char>)
    ensures
        word_end(text) <= text.len(),
    decreases text.len(),
{
    if text.len() > 0 {
        lemma_word_end(text.skip(1));
    }
}

/// The first word, empty where there is none, and what follows it.
pub open spec fn first_word(text: Seq<char>) -> (Seq<char>, Seq<char>) {
    let start = trimmed_start(text);
    (start.take(word_end(start) as int), start.skip(word_end(start) as int))
}

/// The first word, empty where there is none, and what follows it.
pub fn take_word<'a>(chars: &'a [char]) -> (taken: (&'a [char], &'a [char]))
    ensures
        (taken.0@, taken.1@) == first_word(chars@),
{
    let start = trim_start(chars);
    let mut at: usize = 0;
    assert(start@.skip(0) =~= start@);
    proof {
        lemma_word_end(start@);
    }
    while at < start.len() && !is_whitespace(start[at])
        invariant
            at <= start@.len(),
            at + word_end(start@.skip(at as int)) == word_end(start@),
        ensures
            at <= start@.len(),
            at == word_end(start@),
        decreases start@.len() - at,
    {
        assert(start@.skip(at as int).skip(1) =~= start@.skip(at + 1));
        at += 1;
    }
    (&start[0..at], &start[at..start.len()])
}

// Searching.

/// Where the character first stands, or the length.
pub open spec fn char_index(text: Seq<char>, c: char) -> nat
    decreases text.len(),
{
    if text.len() == 0 || text[0] == c {
        0
    } else {
        1 + char_index(text.skip(1), c)
    }
}

/// The first occurrence of a character is one, and none comes before it.
pub proof fn lemma_char_index(text: Seq<char>, c: char)
    ensures
        char_index(text, c) <= text.len(),
        char_index(text, c) < text.len() ==> text[char_index(text, c) as int] == c,
        forall|i: int| 0 <= i < char_index(text, c) ==> text[i] != c,
    decreases text.len(),
{
    if text.len() > 0 && text[0] != c {
        lemma_char_index(text.skip(1), c);
        assert forall|i: int| 0 <= i < char_index(text, c) implies text[i] != c by {
            if i > 0 {
                assert(text.skip(1)[i - 1] == text[i]);
            }
        }
    }
}

/// Where the character first stands, or the length.
pub fn find_char(chars: &[char], c: char) -> (at: usize)
    ensures
        at == char_index(chars@, c),
        at <= chars@.len(),
{
    let mut at: usize = 0;
    assert(chars@.skip(0) =~= chars@);
    proof {
        lemma_char_index(chars@, c);
    }
    while at < chars.len() && chars[at] != c
        invariant
            at <= chars@.len(),
            at + char_index(chars@.skip(at as int), c) == char_index(chars@, c),
        ensures
            at <= chars@.len(),
            at == char_index(chars@, c),
        decreases chars@.len() - at,
    {
        assert(chars@.skip(at as int).skip(1) =~= chars@.skip(at + 1));
        at += 1;
    }
    at
}

/// Where the pattern first stands.
pub open spec fn text_index(text: Seq<char>, pattern: Seq<char>) -> Option<nat>
    decreases text.len(),
{
    if text.len() < pattern.len() {
        None
    } else if text.take(pattern.len() as int) == pattern {
        Some(0)
    } else if text.len() == 0 {
        None
    } else {
        match text_index(text.skip(1), pattern) {
            Some(at) => Some(at + 1),
            None => None,
        }
    }
}

/// A found pattern lies inside the text.
pub proof fn lemma_text_index(text: Seq<char>, pattern: Seq<char>)
    ensures
        text_index(text, pattern) matches Some(at) ==> at + pattern.len() <= text.len(),
    decreases text.len(),
{
    if text.len() > 0 && text.len() >= pattern.len() {
        lemma_text_index(text.skip(1), pattern);
    }
}

/// Where the pattern first stands.
pub fn find_text(chars: &[char], pattern: &str) -> (found: Option<usize>)
    ensures
        match found {
            Some(at) => text_index(chars@, pattern@) == Some(at as nat) && at + pattern@.len()
                <= chars@.len(),
            None => text_index(chars@, pattern@) is None,
        },
{
    let spelled = chars_of(pattern);
    let length: usize = spelled.len();
    let mut at: usize = 0;
    assert(chars@.skip(0) =~= chars@);
    loop
        invariant
            at <= chars@.len(),
            spelled@ == pattern@,
            length == pattern@.len(),
            text_index(chars@, pattern@) == (match text_index(chars@.skip(at as int), pattern@) {
                Some(more) => Some((at + more) as nat),
                None => None,
            }),
        decreases chars@.len() - at,
    {
        if chars.len() - at < length {
            return None;
        }
        let here = &chars[at..chars.len()];
        if same_chars(&here[0..length], spelled.as_slice()) {
            return Some(at);
        }
        if at == chars.len() {
            return None;
        }
        assert(chars@.skip(at as int).skip(1) =~= chars@.skip(at + 1));
        at += 1;
    }
}

/// Whether the pattern stands anywhere in the text.
pub open spec fn contains_text(text: Seq<char>, pattern: Seq<char>) -> bool {
    text_index(text, pattern) is Some
}

// Lines.

/// The line without the carriage return at its end.
pub open spec fn without_return(line: Seq<char>) -> Seq<char> {
    if line.len() > 0 && line.last() == '\r' {
        line.drop_last()
    } else {
        line
    }
}

/// The first line, without its ending, and what follows it. A carriage return
/// belongs to the ending only before a line feed.
pub open spec fn first_line(text: Seq<char>) -> (Seq<char>, Seq<char>) {
    let end = char_index(text, '\n');
    if end < text.len() {
        (without_return(text.take(end as int)), text.skip(end as int + 1))
    } else {
        (text, Seq::empty())
    }
}

/// The lines of a text; an ending after the last line opens no other.
pub open spec fn text_lines(text: Seq<char>) -> Seq<Seq<char>>
    decreases text.len(),
{
    if text.len() == 0 {
        Seq::empty()
    } else {
        let (line, rest) = first_line(text);
        seq![line] + text_lines(rest)
    }
}

/// The first line, without its ending, and what follows it.
pub fn take_line<'a>(chars: &'a [char]) -> (taken: (&'a [char], &'a [char]))
    ensures
        (taken.0@, taken.1@) == first_line(chars@),
        chars@.len() > 0 ==> taken.1@.len() < chars@.len(),
{
    let end: usize = find_char(chars, '\n');
    if end < chars.len() {
        let rest = &chars[end + 1..chars.len()];
        if end > 0 && chars[end - 1] == '\r' {
            assert(chars@.take(end as int).drop_last() =~= chars@.take(end - 1));
            (&chars[0..end - 1], rest)
        } else {
            (&chars[0..end], rest)
        }
    } else {
        let rest = &chars[end..chars.len()];
        assert(rest@ =~= Seq::<char>::empty());
        (chars, rest)
    }
}

// ASCII case.

/// The lower-case form of an ASCII letter; any other character itself.
pub open spec fn lower(c: char) -> char {
    if 'A' <= c <= 'Z' {
        (c as u32 + 32) as char
    } else {
        c
    }
}

/// Whether two texts differ at most in the case of ASCII letters.
pub open spec fn same_but_case(left: Seq<char>, right: Seq<char>) -> bool {
    &&& left.len() == right.len()
    &&& forall|i: int| 0 <= i < left.len() ==> lower(#[trigger] left[i]) == lower(right[i])
}

fn lower_char(c: char) -> (lowered: char)
    ensures
        lowered == lower(c),
{
    if 'A' <= c && c <= 'Z' {
        (c as u8 + 32) as char
    } else {
        c
    }
}

/// Whether the characters spell a text, the case of ASCII letters apart.
pub fn spells_ignoring_case(chars: &[char], text: &str) -> (same: bool)
    ensures
        same == same_but_case(chars@, text@),
{
    let spelled = chars_of(text);
    if chars.len() != spelled.len() {
        return false;
    }
    let mut at: usize = 0;
    while at < chars.len()
        invariant
            at <= chars@.len(),
            chars@.len() == spelled@.len(),
            spelled@ == text@,
            forall|i: int| 0 <= i < at ==> lower(#[trigger] chars@[i]) == lower(text@[i]),
        decreases chars@.len() - at,
    {
        if lower_char(chars[at]) != lower_char(spelled[at]) {
            assert(lower(chars@[at as int]) != lower(text@[at as int]));
            return false;
        }
        at += 1;
    }
    true
}

// Numbers.

/// The digit of a number below ten.
pub open spec fn digit_char(value: nat) -> char {
    (48 + value) as char
}

/// The decimal form of a number, without leading zeros.
pub open spec fn decimal(value: nat) -> Seq<char>
    decreases value,
{
    if value < 10 {
        seq![digit_char(value)]
    } else {
        decimal(value / 10).push(digit_char(value % 10))
    }
}

/// A decimal form holds decimal digits, at least one.
pub proof fn law_decimal_digits(value: nat)
    ensures
        decimal(value).len() >= 1,
        forall|i: int| 0 <= i < decimal(value).len() ==> '0' <= #[trigger] decimal(value)[i] <= '9',
    decreases value,
{
    if value >= 10 {
        law_decimal_digits(value / 10);
    }
}

/// Different numbers have different decimal forms.
pub proof fn law_decimal_is_injective(left: nat, right: nat)
    requires
        decimal(left) == decimal(right),
    ensures
        left == right,
    decreases left,
{
    law_decimal_digits(left / 10);
    law_decimal_digits(right / 10);
    assert(decimal(left).last() == digit_char(left % 10));
    assert(decimal(right).last() == digit_char(right % 10));
    if left >= 10 && right >= 10 {
        assert(decimal(left).drop_last() =~= decimal(left / 10));
        assert(decimal(right).drop_last() =~= decimal(right / 10));
        law_decimal_is_injective(left / 10, right / 10);
    }
}

/// The UTF-8 bytes of two texts in a row are those of the one and those of the other.
pub proof fn lemma_encode_utf8_concat(first: Seq<char>, second: Seq<char>)
    ensures
        encode_utf8(first + second) == encode_utf8(first) + encode_utf8(second),
    decreases first.len(),
{
    if first.len() == 0 {
        assert(first + second =~= second);
        assert(encode_utf8(first) + encode_utf8(second) =~= encode_utf8(second));
    } else {
        assert((first + second).drop_first() =~= first.drop_first() + second);
        lemma_encode_utf8_concat(first.drop_first(), second);
        assert(encode_utf8(first + second) =~= encode_utf8(first) + encode_utf8(second));
    }
}

/// Appends the decimal form of a number.
pub fn push_decimal(text: &mut String, value: u64)
    ensures
        final(text)@ == old(text)@ + decimal(value as nat),
    decreases value,
{
    let ghost before = text@;
    if value >= 10 {
        push_decimal(text, value / 10);
    }
    let digit: u8 = (value % 10) as u8;
    text.push((48u8 + digit) as char);
    assert(text@ =~= before + decimal(value as nat));
}

/// The decimal form of a number.
pub fn decimal_text(value: u64) -> (text: String)
    ensures
        text@ == decimal(value as nat),
{
    let mut text = String::new();
    push_decimal(&mut text, value);
    assert(text@ =~= decimal(value as nat));
    text
}

/// Whether the character is an ASCII digit.
pub open spec fn is_digit(c: char) -> bool {
    '0' <= c <= '9'
}

/// The value of a run of ASCII digits.
pub open spec fn digits_value(digits: Seq<char>) -> nat
    decreases digits.len(),
{
    if digits.len() == 0 {
        0
    } else {
        digits_value(digits.drop_last()) * 10 + (digits.last() as nat - 48) as nat
    }
}

/// Whether every character is an ASCII digit.
pub open spec fn all_digits(text: Seq<char>) -> bool {
    forall|i: int| 0 <= i < text.len() ==> is_digit(#[trigger] text[i])
}

/// The text without the plus sign at its start.
pub open spec fn after_plus(text: Seq<char>) -> Seq<char> {
    if text.len() > 0 && text[0] == '+' {
        text.skip(1)
    } else {
        text
    }
}

/// The number that a text spells: an optional plus sign, then at least one
/// ASCII digit and nothing else, and a value up to `limit`.
pub open spec fn parsed_number(text: Seq<char>, limit: nat) -> Option<nat> {
    let digits = after_plus(text);
    if digits.len() > 0 && all_digits(digits) && digits_value(digits) <= limit {
        Some(digits_value(digits))
    } else {
        None
    }
}

proof fn lemma_digits_value_grows(digits: Seq<char>, at: int)
    requires
        0 <= at <= digits.len(),
        all_digits(digits),
    ensures
        digits_value(digits.take(at)) <= digits_value(digits),
    decreases digits.len() - at,
{
    if at < digits.len() {
        lemma_digits_value_grows(digits, at + 1);
        assert(digits.take(at + 1).drop_last() =~= digits.take(at));
        assert(is_digit(digits[at]));
    } else {
        assert(digits.take(at) =~= digits);
    }
}

/// The number that the characters spell, up to `limit`.
pub fn parse_number(chars: &[char], limit: u64) -> (number: Option<u64>)
    ensures
        match number {
            Some(number) => parsed_number(chars@, limit as nat) == Some(number as nat),
            None => parsed_number(chars@, limit as nat) is None,
        },
{
    let digits = if chars.len() > 0 && chars[0] == '+' {
        &chars[1..chars.len()]
    } else {
        chars
    };
    if digits.len() == 0 {
        return None;
    }
    let mut value: u64 = 0;
    let mut at: usize = 0;
    while at < digits.len()
        invariant
            at <= digits@.len(),
            value == digits_value(digits@.take(at as int)),
            value <= limit,
            forall|i: int| 0 <= i < at ==> is_digit(#[trigger] digits@[i]),
            digits@.len() > 0,
            digits@ == after_plus(chars@),
        decreases digits@.len() - at,
    {
        let c: char = digits[at];
        if !('0' <= c && c <= '9') {
            assert(!is_digit(digits@[at as int]));
            return None;
        }
        let digit: u64 = (c as u8 - 48) as u64;
        assert(digits@.take(at + 1).drop_last() =~= digits@.take(at as int));
        let within = value <= (u64::MAX - digit) / 10 && value * 10 + digit <= limit;
        if !within {
            proof {
                assert(digits_value(digits@.take(at + 1)) > limit);
                if all_digits(digits@) {
                    lemma_digits_value_grows(digits@, at + 1);
                }
            }
            return None;
        }
        value = value * 10 + digit;
        at += 1;
    }
    assert(digits@.take(at as int) =~= digits@);
    Some(value)
}

/// `u64::from_str` refused the text; this is what its error says.
pub uninterp spec fn u64_refusal(text: Seq<char>) -> Seq<char>;

/// `usize::from_str` refused the text; this is what its error says where `greatest` is the
/// greatest number that fits.
pub uninterp spec fn usize_refusal(text: Seq<char>, greatest: nat) -> Seq<char>;

/// `u32::from_str` refused the text; this is what its error says.
pub uninterp spec fn u32_refusal(text: Seq<char>) -> Seq<char>;

/// `u64::from_str`: an optional plus sign and only decimal digits are a number,
/// where it fits; the error of anything else is rendered as text.
#[verifier::external_body]
pub(crate) fn parse_u64(text: &str) -> (parsed: Result<u64, String>)
    ensures
        match parsed {
            Ok(value) => parsed_number(text@, u64::MAX as nat) == Some(value as nat),
            Err(error) => parsed_number(text@, u64::MAX as nat) is None && error@ == u64_refusal(
                text@,
            ),
        },
{
    text.parse::<u64>().map_err(|error| error.to_string())
}

/// `usize::from_str`, as [`parse_u64`].
#[verifier::external_body]
pub(crate) fn parse_usize(text: &str) -> (parsed: Result<usize, String>)
    ensures
        match parsed {
            Ok(value) => parsed_number(text@, usize::MAX as nat) == Some(value as nat),
            Err(error) => parsed_number(text@, usize::MAX as nat) is None && error@
                == usize_refusal(text@, usize::MAX as nat),
        },
{
    text.parse::<usize>().map_err(|error| error.to_string())
}

/// `u32::from_str`, as [`parse_u64`].
#[verifier::external_body]
pub(crate) fn parse_u32(text: &str) -> (parsed: Result<u32, String>)
    ensures
        match parsed {
            Ok(value) => parsed_number(text@, u32::MAX as nat) == Some(value as nat),
            Err(error) => parsed_number(text@, u32::MAX as nat) is None && error@ == u32_refusal(
                text@,
            ),
        },
{
    text.parse::<u32>().map_err(|error| error.to_string())
}

/// `u16::from_str` refused the text; this is what its error says.
pub uninterp spec fn u16_refusal(text: Seq<char>) -> Seq<char>;

/// `u16::from_str`, as [`parse_u64`].
#[verifier::external_body]
pub(crate) fn parse_u16(text: &str) -> (parsed: Result<u16, String>)
    ensures
        match parsed {
            Ok(value) => parsed_number(text@, u16::MAX as nat) == Some(value as nat),
            Err(error) => parsed_number(text@, u16::MAX as nat) is None && error@ == u16_refusal(
                text@,
            ),
        },
{
    text.parse::<u16>().map_err(|error| error.to_string())
}

/// How Rust's `{:?}` renders a text: in double quotes, with escapes.
pub uninterp spec fn quoted(text: Seq<char>) -> Seq<char>;

/// `format!("{:?}", text)`: the text in double quotes, with escapes.
#[verifier::external_body]
pub(crate) fn quote(text: &str) -> (rendered: String)
    ensures
        rendered@ == quoted(text@),
{
    format!("{:?}", text)
}

/// The text without a character at its end, however often it stands there.
pub open spec fn without_trailing(text: Seq<char>, c: char) -> Seq<char>
    decreases text.len(),
{
    if text.len() > 0 && text.last() == c {
        without_trailing(text.drop_last(), c)
    } else {
        text
    }
}

/// The characters without `c` at their end.
pub fn trim_end_char<'a>(chars: &'a [char], c: char) -> (rest: &'a [char])
    ensures
        rest@ == without_trailing(chars@, c),
{
    let mut end: usize = chars.len();
    assert(chars@.take(end as int) =~= chars@);
    while end > 0 && chars[end - 1] == c
        invariant
            end <= chars@.len(),
            without_trailing(chars@.take(end as int), c) == without_trailing(chars@, c),
        ensures
            end <= chars@.len(),
            chars@.take(end as int) == without_trailing(chars@, c),
        decreases end,
    {
        assert(chars@.take(end as int).drop_last() =~= chars@.take(end - 1));
        end -= 1;
    }
    &chars[0..end]
}

/// Whether the pattern stands anywhere in the text.
pub fn text_contains(text: &str, pattern: &str) -> (found: bool)
    ensures
        found == contains_text(text@, pattern@),
{
    let chars = chars_of(text);
    find_text(chars.as_slice(), pattern).is_some()
}

/// Whether the text holds nothing but whitespace.
pub fn is_blank(text: &str) -> (blank: bool)
    ensures
        blank == (trimmed(text@).len() == 0),
{
    let chars = chars_of(text);
    trim(chars.as_slice()).len() == 0
}

/// Texts by their views.
pub open spec fn texts_view(texts: Seq<&str>) -> Seq<Seq<char>> {
    texts.map_values(|text: &str| text@)
}

/// Texts one after the other.
pub open spec fn concat_of(parts: Seq<Seq<char>>) -> Seq<char>
    decreases parts.len(),
{
    if parts.len() == 0 {
        Seq::empty()
    } else {
        concat_of(parts.drop_last()) + parts.last()
    }
}

/// Puts texts one after the other.
pub fn concat(parts: &[&str]) -> (text: String)
    ensures
        text@ == concat_of(texts_view(parts@)),
{
    let ghost view = texts_view(parts@);
    let mut text = String::new();
    let mut at: usize = 0;
    assert(text@ =~= concat_of(view.take(0)));
    while at < parts.len()
        invariant
            at <= parts@.len(),
            view == texts_view(parts@),
            text@ == concat_of(view.take(at as int)),
        decreases parts@.len() - at,
    {
        text.append(parts[at]);
        assert(view.take(at + 1).drop_last() =~= view.take(at as int));
        at += 1;
    }
    assert(view.take(at as int) =~= view);
    text
}

/// An optional text by its view.
pub open spec fn optional(text: Option<String>) -> Option<Seq<char>> {
    match text {
        Some(text) => Some(text@),
        None => None,
    }
}

// Hexadecimal.

/// The lower-case hexadecimal digit of a number below sixteen.
pub open spec fn hex_digit(value: u8) -> char {
    if value < 10 {
        (48 + value) as char
    } else {
        (87 + value) as char
    }
}

/// The two hexadecimal digits of each byte, one byte after the other.
pub open spec fn hex(bytes: Seq<u8>) -> Seq<char> {
    Seq::new(
        2 * bytes.len(),
        |i: int| if i % 2 == 0 {
            hex_digit((bytes[i / 2] / 16) as u8)
        } else {
            hex_digit((bytes[i / 2] % 16) as u8)
        },
    )
}

fn hex_char(value: u8) -> (c: char)
    requires
        value < 16,
    ensures
        c == hex_digit(value),
{
    if value < 10 {
        (48u8 + value) as char
    } else {
        (87u8 + value) as char
    }
}

/// Appends the hexadecimal form of some bytes.
pub fn push_hex(text: &mut String, bytes: &[u8])
    ensures
        final(text)@ == old(text)@ + hex(bytes@),
{
    let ghost before = text@;
    let mut at: usize = 0;
    assert(hex(bytes@.take(0)) =~= Seq::<char>::empty());
    while at < bytes.len()
        invariant
            at <= bytes@.len(),
            text@ == before + hex(bytes@.take(at as int)),
        decreases bytes@.len() - at,
    {
        let byte: u8 = bytes[at];
        text.push(hex_char(byte / 16));
        text.push(hex_char(byte % 16));
        assert(hex(bytes@.take(at + 1)) =~= hex(bytes@.take(at as int)).push(
            hex_digit((byte / 16) as u8),
        ).push(hex_digit((byte % 16) as u8)));
        at += 1;
        assert(text@ =~= before + hex(bytes@.take(at as int)));
    }
    assert(bytes@.take(at as int) =~= bytes@);
}

/// The hexadecimal form of some bytes.
pub fn hex_encode(bytes: &[u8]) -> (text: String)
    ensures
        text@ == hex(bytes@),
{
    let mut text = String::new();
    push_hex(&mut text, bytes);
    assert(text@ =~= hex(bytes@));
    text
}

/// Different bytes have different hexadecimal forms.
pub proof fn law_hex_is_injective(left: Seq<u8>, right: Seq<u8>)
    requires
        hex(left) == hex(right),
    ensures
        left == right,
{
    assert(hex(left).len() == 2 * left.len() && hex(right).len() == 2 * right.len());
    assert forall|i: int| 0 <= i < left.len() implies left[i] == right[i] by {
        assert((2 * i) / 2 == i && (2 * i) % 2 == 0);
        assert((2 * i + 1) / 2 == i && (2 * i + 1) % 2 == 1);
        assert(hex(left)[2 * i] == hex_digit((left[i] / 16) as u8));
        assert(hex(right)[2 * i] == hex_digit((right[i] / 16) as u8));
        assert(hex(left)[2 * i + 1] == hex_digit((left[i] % 16) as u8));
        assert(hex(right)[2 * i + 1] == hex_digit((right[i] % 16) as u8));
        lemma_hex_digit_injective((left[i] / 16) as u8, (right[i] / 16) as u8);
        lemma_hex_digit_injective((left[i] % 16) as u8, (right[i] % 16) as u8);
    }
    assert(left =~= right);
}

proof fn lemma_hex_digit_injective(left: u8, right: u8)
    requires
        left < 16,
        right < 16,
        hex_digit(left) == hex_digit(right),
    ensures
        left == right,
{
}

/// A hexadecimal form holds only lower-case hexadecimal digits.
pub proof fn law_hex_digits(bytes: Seq<u8>, at: int)
    requires
        0 <= at < hex(bytes).len(),
    ensures
        '0' <= hex(bytes)[at] <= '9' || 'a' <= hex(bytes)[at] <= 'f',
{
}

} // verus!

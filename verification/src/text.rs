//! Character-level helpers: reading a `str` as characters, comparing and
//! trimming character slices, and writing decimal and hexadecimal digits.

use vstd::prelude::*;
use vstd::string::StringExecFns;
use vstd::std_specs::iter::IteratorSpec;

verus! {

broadcast use vstd::string::group_string_axioms;

/// Appends one character to a `String`.
///
/// Calls `String::push`; the contract claims what its documentation says: the
/// character is added at the end and nothing else changes.
#[verifier::external_body]
pub fn push_char(output: &mut String, character: char)
    ensures
        final(output)@ == old(output)@.push(character),
{
    output.push(character);
}

/// Appends a `str` to a `String`.
pub fn push_str(output: &mut String, value: &str)
    ensures
        final(output)@ == old(output)@ + value@,
{
    output.append(value);
}

/// Reads the characters of a `str` into a vector.
pub fn str_to_chars(value: &str) -> (characters: Vec<char>)
    ensures
        characters@ == value@,
{
    let mut characters: Vec<char> = Vec::new();
    let mut iterator = value.chars();
    loop
        invariant
            characters@ + iterator.remaining() == value@,
            iterator.obeys_prophetic_iter_laws(),
            iterator.decrease() is Some,
        ensures
            characters@ == value@,
        decreases iterator.decrease()->0,
    {
        let ghost before = iterator.remaining();
        match iterator.next() {
            Some(character) => {
                characters.push(character);
                assert(characters@ + iterator.remaining() =~= value@);
            },
            None => {
                assert(characters@ =~= value@);
                break ;
            },
        }
    }
    characters
}

/// True when the two character slices hold the same characters.
pub fn chars_equal(left: &[char], right: &[char]) -> (equal: bool)
    ensures
        equal == (left@ == right@),
{
    if left.len() != right.len() {
        return false;
    }
    let mut index: usize = 0;
    while index < left.len()
        invariant
            left@.len() == right@.len(),
            index <= left@.len(),
            forall|k: int| 0 <= k < index ==> left@[k] == right@[k],
        decreases left@.len() - index,
    {
        if left[index] != right[index] {
            return false;
        }
        index = index + 1;
    }
    assert(left@ =~= right@);
    true
}

/// True when the character slice spells `expected`.
pub fn chars_equal_str(text: &[char], expected: &str) -> (equal: bool)
    ensures
        equal == (text@ == expected@),
{
    let expected_chars = str_to_chars(expected);
    chars_equal(text, expected_chars.as_slice())
}

/// True when the two strings hold the same characters.
pub fn str_equals(left: &str, right: &str) -> (equal: bool)
    ensures
        equal == (left@ == right@),
{
    let left_chars = str_to_chars(left);
    chars_equal_str(left_chars.as_slice(), right)
}

/// True when `prefix` is where `text` starts.
pub open spec fn starts_with(text: Seq<char>, prefix: Seq<char>) -> bool {
    prefix.len() <= text.len() && text.subrange(0, prefix.len() as int) == prefix
}

/// True when the character slice starts with `prefix`.
pub fn chars_start_with(text: &[char], prefix: &[char]) -> (result: bool)
    ensures
        result == starts_with(text@, prefix@),
{
    if prefix.len() > text.len() {
        return false;
    }
    let head = &text[0..prefix.len()];
    chars_equal(head, prefix)
}

/// True when the character slice starts with the characters of `prefix`.
pub fn chars_start_with_str(text: &[char], prefix: &str) -> (result: bool)
    ensures
        result == starts_with(text@, prefix@),
{
    let prefix_chars = str_to_chars(prefix);
    chars_start_with(text, prefix_chars.as_slice())
}

/// The white space characters of Unicode, which `str::trim` removes.
pub open spec fn is_unicode_whitespace(c: char) -> bool {
    let v = c as u32;
    ||| 0x09 <= v <= 0x0D
    ||| v == 0x20
    ||| v == 0x85
    ||| v == 0xA0
    ||| v == 0x1680
    ||| 0x2000 <= v <= 0x200A
    ||| v == 0x2028
    ||| v == 0x2029
    ||| v == 0x202F
    ||| v == 0x205F
    ||| v == 0x3000
}

/// True for the white space characters of ASCII: tab, line feed, form feed,
/// carriage return and space.
pub open spec fn is_ascii_whitespace(c: char) -> bool {
    c == '\t' || c == '\n' || c == '\x0C' || c == '\r' || c == ' '
}

pub fn check_unicode_whitespace(c: char) -> (result: bool)
    ensures
        result == is_unicode_whitespace(c),
{
    let v = c as u32;
    (0x09 <= v && v <= 0x0D) || v == 0x20 || v == 0x85 || v == 0xA0 || v == 0x1680 || (0x2000
        <= v && v <= 0x200A) || v == 0x2028 || v == 0x2029 || v == 0x202F || v == 0x205F || v
        == 0x3000
}

pub fn check_ascii_whitespace(c: char) -> (result: bool)
    ensures
        result == is_ascii_whitespace(c),
{
    c == '\t' || c == '\n' || c == '\x0C' || c == '\r' || c == ' '
}

/// The number of leading white space characters of `text`.
pub open spec fn leading_whitespace(text: Seq<char>) -> nat
    decreases text.len(),
{
    if text.len() > 0 && is_unicode_whitespace(text[0]) {
        1 + leading_whitespace(text.drop_first())
    } else {
        0
    }
}

/// The number of trailing white space characters of `text`.
pub open spec fn trailing_whitespace(text: Seq<char>) -> nat
    decreases text.len(),
{
    if text.len() > 0 && is_unicode_whitespace(text.last()) {
        1 + trailing_whitespace(text.drop_last())
    } else {
        0
    }
}

/// `text` without its leading white space.
pub open spec fn trim_start(text: Seq<char>) -> Seq<char> {
    text.subrange(leading_whitespace(text) as int, text.len() as int)
}

/// `text` without its trailing white space.
pub open spec fn trim_end(text: Seq<char>) -> Seq<char> {
    text.subrange(0, text.len() - trailing_whitespace(text))
}

/// `text` without white space at either end, as `str::trim` gives it.
pub open spec fn trim(text: Seq<char>) -> Seq<char> {
    trim_end(trim_start(text))
}

proof fn lemma_leading_whitespace_bound(text: Seq<char>)
    ensures
        leading_whitespace(text) <= text.len(),
        forall|k: int| 0 <= k < leading_whitespace(text) ==> is_unicode_whitespace(text[k]),
        leading_whitespace(text) < text.len() ==> !is_unicode_whitespace(
            text[leading_whitespace(text) as int],
        ),
    decreases text.len(),
{
    if text.len() > 0 && is_unicode_whitespace(text[0]) {
        lemma_leading_whitespace_bound(text.drop_first());
        assert forall|k: int| 0 <= k < leading_whitespace(text) implies is_unicode_whitespace(
            text[k],
        ) by {
            if k > 0 {
                assert(text[k] == text.drop_first()[k - 1]);
            }
        }
    }
}

proof fn lemma_trailing_whitespace_bound(text: Seq<char>)
    ensures
        trailing_whitespace(text) <= text.len(),
        forall|k: int|
            text.len() - trailing_whitespace(text) <= k < text.len() ==> is_unicode_whitespace(
                text[k],
            ),
        trailing_whitespace(text) < text.len() ==> !is_unicode_whitespace(
            text[text.len() - trailing_whitespace(text) - 1],
        ),
    decreases text.len(),
{
    if text.len() > 0 && is_unicode_whitespace(text.last()) {
        lemma_trailing_whitespace_bound(text.drop_last());
        assert forall|k: int| 0 <= k < text.len() - 1 implies text.drop_last()[k] == text[k] by {}
    }
}

/// Characterises the number of leading white space characters by the loop
/// that counts them.
proof fn lemma_leading_whitespace_exact(text: Seq<char>, n: int)
    requires
        0 <= n <= text.len(),
        forall|k: int| 0 <= k < n ==> is_unicode_whitespace(text[k]),
        n == text.len() || !is_unicode_whitespace(text[n]),
    ensures
        leading_whitespace(text) == n,
    decreases n,
{
    if n > 0 {
        lemma_leading_whitespace_exact(text.drop_first(), n - 1);
    }
}

proof fn lemma_trailing_whitespace_exact(text: Seq<char>, n: int)
    requires
        0 <= n <= text.len(),
        forall|k: int| text.len() - n <= k < text.len() ==> is_unicode_whitespace(text[k]),
        n == text.len() || !is_unicode_whitespace(text[text.len() - n - 1]),
    ensures
        trailing_whitespace(text) == n,
    decreases n,
{
    if n > 0 {
        let shorter = text.drop_last();
        assert forall|k: int| shorter.len() - (n - 1) <= k < shorter.len() implies is_unicode_whitespace(
            shorter[k],
        ) by {
            assert(shorter[k] == text[k]);
        }
        lemma_trailing_whitespace_exact(shorter, n - 1);
    }
}

/// `text` without its leading white space.
pub fn chars_trim_start(text: &[char]) -> (trimmed: &[char])
    ensures
        trimmed@ == trim_start(text@),
{
    let mut start: usize = 0;
    while start < text.len() && check_unicode_whitespace(text[start])
        invariant
            start <= text@.len(),
            forall|k: int| 0 <= k < start ==> is_unicode_whitespace(text@[k]),
        decreases text@.len() - start,
    {
        start = start + 1;
    }
    proof {
        lemma_leading_whitespace_exact(text@, start as int);
    }
    &text[start..text.len()]
}

/// `text` without its trailing white space.
pub fn chars_trim_end(text: &[char]) -> (trimmed: &[char])
    ensures
        trimmed@ == trim_end(text@),
{
    let mut end: usize = text.len();
    while end > 0 && check_unicode_whitespace(text[end - 1])
        invariant
            end <= text@.len(),
            forall|k: int| end <= k < text@.len() ==> is_unicode_whitespace(text@[k]),
        decreases end,
    {
        end = end - 1;
    }
    proof {
        lemma_trailing_whitespace_exact(text@, text@.len() - end);
    }
    &text[0..end]
}

/// `text` without white space at either end.
pub fn chars_trim(text: &[char]) -> (trimmed: &[char])
    ensures
        trimmed@ == trim(text@),
{
    chars_trim_end(chars_trim_start(text))
}

/// The decimal digit character for `digit`.
pub open spec fn digit_char(digit: nat) -> char {
    (('0' as u32) + digit) as char
}

/// The decimal spelling of `n`, as `usize::to_string` gives it.
pub open spec fn decimal(n: nat) -> Seq<char>
    decreases n,
{
    if n < 10 {
        seq![digit_char(n)]
    } else {
        decimal(n / 10).push(digit_char(n % 10))
    }
}

/// The lower case hexadecimal digit character for `digit`.
pub open spec fn hex_digit_char(digit: nat) -> char {
    if digit < 10 {
        (('0' as u32) + digit) as char
    } else {
        (('a' as u32) + digit - 10) as char
    }
}

fn digit_to_char(digit: u8) -> (c: char)
    requires
        digit < 10,
    ensures
        c == digit_char(digit as nat),
{
    let code: u32 = 48u32 + digit as u32;
    assert(code == ('0' as u32) + digit);
    proof {
        assert(0x30 <= code < 0x3A);
    }
    char_from_ascii(code)
}

/// The character with the given ASCII code.
fn char_from_ascii(code: u32) -> (c: char)
    requires
        code < 0x80,
    ensures
        c == code as char,
{
    let byte: u8 = code as u8;
    byte as char
}

pub fn hex_digit_to_char(digit: u32) -> (c: char)
    requires
        digit < 16,
    ensures
        c == hex_digit_char(digit as nat),
{
    if digit < 10 {
        char_from_ascii(48 + digit)
    } else {
        char_from_ascii(97 + digit - 10)
    }
}

proof fn lemma_decimal_push(n: nat)
    requires
        n >= 10,
    ensures
        decimal(n) == decimal(n / 10).push(digit_char(n % 10)),
{
}

/// Appends the decimal spelling of `value`.
pub fn push_decimal(value: usize, output: &mut String)
    ensures
        final(output)@ == old(output)@ + decimal(value as nat),
{
    // Digits are found least significant first, then written in reverse.
    let mut digits: Vec<u8> = Vec::new();
    let mut rest: usize = value;
    let ghost mut prefixes: Seq<nat> = seq![value as nat];
    while rest >= 10
        invariant
            digits@.len() + 1 == prefixes.len(),
            prefixes[0] == value as nat,
            prefixes.last() == rest as nat,
            forall|k: int| 0 <= k < digits@.len() ==> digits@[k] < 10,
            forall|k: int|
                0 <= k < digits@.len() ==> #[trigger] prefixes[k] >= 10 && digits@[k] as nat
                    == prefixes[k] % 10 && prefixes[k + 1] == prefixes[k] / 10,
        decreases rest,
    {
        let ghost before = prefixes;
        digits.push((rest % 10) as u8);
        rest = rest / 10;
        proof {
            prefixes = prefixes.push(rest as nat);
            assert forall|k: int| 0 <= k < digits@.len() implies #[trigger] prefixes[k] >= 10
                && digits@[k] as nat == prefixes[k] % 10 && prefixes[k + 1] == prefixes[k] / 10 by {
                if k < digits@.len() - 1 {
                    assert(prefixes[k] == before[k]);
                    assert(prefixes[k + 1] == before[k + 1]);
                }
            }
        }
    }
    // decimal(prefixes[k]) == decimal(prefixes[k+1]) + digits[k]
    let ghost start = output@;
    push_char(output, digit_to_char(rest as u8));
    assert(output@ =~= start + decimal(prefixes[digits@.len() as int]));
    let mut index: usize = digits.len();
    while index > 0
        invariant
            index <= digits@.len(),
            digits@.len() + 1 == prefixes.len(),
            forall|k: int| 0 <= k < digits@.len() ==> digits@[k] < 10,
            forall|k: int|
                0 <= k < digits@.len() ==> #[trigger] prefixes[k] >= 10 && digits@[k] as nat
                    == prefixes[k] % 10 && prefixes[k + 1] == prefixes[k] / 10,
            prefixes.last() < 10,
            output@ == start + decimal(prefixes[index as int]),
        decreases index,
    {
        index = index - 1;
        push_char(output, digit_to_char(digits[index]));
        proof {
            lemma_decimal_push(prefixes[index as int]);
            assert(output@ =~= start + decimal(prefixes[index as int]));
        }
    }
}

/// A `String` holding the characters of `text`.
pub fn chars_to_string(text: &[char]) -> (result: String)
    ensures
        result@ == text@,
{
    let mut result = String::new();
    let mut index: usize = 0;
    while index < text.len()
        invariant
            index <= text@.len(),
            result@ == text@.subrange(0, index as int),
        decreases text@.len() - index,
    {
        push_char(&mut result, text[index]);
        index = index + 1;
        assert(result@ =~= text@.subrange(0, index as int));
    }
    assert(text@.subrange(0, text@.len() as int) =~= text@);
    result
}

} // verus!

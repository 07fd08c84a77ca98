//! Emits one `string_literal` record per string, `StringName` or `NodePath`
//! literal, with its escapes resolved.
//!
//! `argument_of` is what tells `self.call("late_bound")` apart from
//! `print("all done")`. One names a method, the other is prose. Counting string
//! contents as references without that distinction is what kept dead functions
//! looking alive.

use crate::index::collectors::{
    ArgumentPosition, ArgumentPositionView, CollectorContext, argument_position,
    find_argument_position, json_optional_argument_of, json_scope_field,
    write_optional_argument_of, write_scope_field,
};
use crate::index::{json_push_range_field, json_push_string_field, json_range_field, json_string_field};
use crate::linter::lib::{SourceRange, get_node_text, get_range, range_of};
use crate::node_kind::GDScriptNodeKind;
use crate::syntax::SyntaxTree;
use crate::text::{chars_start_with_str, push_char, push_str, starts_with};
use vstd::prelude::*;

verus! {

pub open spec fn is_target(kind: GDScriptNodeKind) -> bool {
    kind == GDScriptNodeKind::String || kind == GDScriptNodeKind::StringName || kind
        == GDScriptNodeKind::NodePath
}

pub fn targets(kind: GDScriptNodeKind) -> (result: bool)
    ensures
        result == is_target(kind),
{
    kind == GDScriptNodeKind::String || kind == GDScriptNodeKind::StringName || kind
        == GDScriptNodeKind::NodePath
}

/// Which literal a `string_literal` record comes from.
#[derive(Debug, Clone, Copy, PartialEq, Eq, Structural)]
pub enum LiteralKind {
    String,
    StringName,
    NodePath,
}

pub open spec fn literal_kind_name(kind: LiteralKind) -> Seq<char> {
    match kind {
        LiteralKind::String => "string"@,
        LiteralKind::StringName => "string_name"@,
        LiteralKind::NodePath => "node_path"@,
    }
}

impl LiteralKind {
    pub fn as_str(&self) -> (name: &'static str)
        ensures
            name@ == literal_kind_name(*self),
    {
        match self {
            LiteralKind::String => "string",
            LiteralKind::StringName => "string_name",
            LiteralKind::NodePath => "node_path",
        }
    }
}

pub struct StringLiteralRecord<'a> {
    pub value: String,
    /// `string`, `string_name` or `node_path`. Omitted from the output when it
    /// is a plain string.
    pub literal_kind: LiteralKind,
    pub range: SourceRange,
    pub argument_of: Option<ArgumentPosition<'a>>,
}

/// The abstract value of a `StringLiteralRecord`.
pub struct StringLiteralView {
    pub value: Seq<char>,
    pub literal_kind: LiteralKind,
    pub range: SourceRange,
    pub argument_of: Option<ArgumentPositionView>,
}

impl<'a> View for StringLiteralRecord<'a> {
    type V = StringLiteralView;

    open spec fn view(&self) -> StringLiteralView {
        StringLiteralView {
            value: self.value@,
            literal_kind: self.literal_kind,
            range: self.range,
            argument_of: match self.argument_of {
                Some(p) => Some(p@),
                None => None,
            },
        }
    }
}

pub open spec fn ends_with(text: Seq<char>, suffix: Seq<char>) -> bool {
    suffix.len() <= text.len() && text.subrange(text.len() - suffix.len(), text.len() as int)
        == suffix
}

/// `text` without the `&` of a `StringName` or the `^` of a `NodePath`.
pub open spec fn without_sigil(text: Seq<char>) -> Seq<char> {
    if starts_with(text, "&"@) || starts_with(text, "^"@) {
        text.drop_first()
    } else {
        text
    }
}

/// `text` without the delimiter `delimiter` at both ends; the closing one is
/// removed only when it is there.
pub open spec fn without_delimiter(text: Seq<char>, delimiter: Seq<char>) -> Seq<char> {
    let after = text.subrange(delimiter.len() as int, text.len() as int);
    if ends_with(after, delimiter) {
        after.subrange(0, after.len() - delimiter.len())
    } else {
        after
    }
}

/// The contents of a string literal between its delimiters. The longest
/// delimiter is tried first: triple quotes, then single characters.
pub open spec fn literal_contents(literal: Seq<char>) -> Seq<char> {
    let text = without_sigil(literal);
    if starts_with(text, "\"\"\""@) {
        without_delimiter(text, "\"\"\""@)
    } else if starts_with(text, "'''"@) {
        without_delimiter(text, "'''"@)
    } else if starts_with(text, "\""@) {
        without_delimiter(text, "\""@)
    } else if starts_with(text, "'"@) {
        without_delimiter(text, "'"@)
    } else {
        text
    }
}

/// The value of a hexadecimal digit, as `char::to_digit(16)`.
pub open spec fn hex_value(c: char) -> Option<nat> {
    let v = c as u32;
    if 0x30 <= v <= 0x39 {
        Some((v - 0x30) as nat)
    } else if 0x61 <= v <= 0x66 {
        Some((v - 0x61 + 10) as nat)
    } else if 0x41 <= v <= 0x46 {
        Some((v - 0x41 + 10) as nat)
    } else {
        None
    }
}

/// How many of the leading characters of `text`, at most `limit`, are
/// hexadecimal digits.
pub open spec fn hex_digit_count(text: Seq<char>, limit: nat) -> nat
    decreases limit,
{
    if limit == 0 || text.len() == 0 || hex_value(text[0]) is None {
        0
    } else {
        1 + hex_digit_count(text.drop_first(), (limit - 1) as nat)
    }
}

/// The number spelled by the hexadecimal digits `digits`.
pub open spec fn hex_number(digits: Seq<char>) -> nat
    decreases digits.len(),
{
    if digits.len() == 0 {
        0
    } else {
        hex_number(digits.drop_last()) * 16 + match hex_value(digits.last()) {
            Some(v) => v,
            None => 0,
        }
    }
}

/// True when `code` is a Unicode scalar value, the values `char::from_u32`
/// accepts.
pub open spec fn is_scalar_value(code: nat) -> bool {
    code < 0xD800 || (0xE000 <= code && code <= 0x10FFFF)
}

/// The character with code point `code`, or the replacement character when
/// there is none.
pub open spec fn char_or_replacement(code: nat) -> char {
    if is_scalar_value(code) {
        code as char
    } else {
        '\u{FFFD}'
    }
}

/// Resolves the escapes of `text`.
///
/// Unknown escapes keep the character that follows the backslash: the parser
/// already accepted the file, so refusing to decode here would only lose text.
/// `\u` reads up to four hexadecimal digits and `\U` up to six; a code point
/// that is no character becomes U+FFFD. A lone backslash at the end stays.
pub open spec fn decode_escapes(text: Seq<char>) -> Seq<char>
    decreases text.len(),
{
    if text.len() == 0 {
        Seq::empty()
    } else if text[0] != '\\' {
        seq![text[0]] + decode_escapes(text.drop_first())
    } else if text.len() == 1 {
        seq!['\\']
    } else {
        let escaped = text[1];
        let rest = text.subrange(2, text.len() as int);
        if escaped == 'u' || escaped == 'U' {
            let limit: nat = if escaped == 'u' {
                4
            } else {
                6
            };
            let count = hex_digit_count(rest, limit);
            proof {
                lemma_hex_digit_count_bound(rest, limit);
            }
            seq![char_or_replacement(hex_number(rest.take(count as int)))] + decode_escapes(
                rest.skip(count as int),
            )
        } else {
            seq![escape_value(escaped)] + decode_escapes(rest)
        }
    }
}

/// The character a one-letter escape stands for.
pub open spec fn escape_value(escaped: char) -> char {
    if escaped == 'n' {
        '\n'
    } else if escaped == 't' {
        '\t'
    } else if escaped == 'r' {
        '\r'
    } else if escaped == 'a' {
        '\x07'
    } else if escaped == 'b' {
        '\x08'
    } else if escaped == 'f' {
        '\x0C'
    } else if escaped == 'v' {
        '\x0B'
    } else if escaped == '0' {
        '\0'
    } else {
        escaped
    }
}

/// The contents of a string literal with its escapes resolved.
pub open spec fn decoded_literal(literal: Seq<char>) -> Seq<char> {
    decode_escapes(literal_contents(literal))
}

/// Text without a backslash decodes to itself.
pub proof fn lemma_decode_without_backslash(text: Seq<char>)
    requires
        !text.contains('\\'),
    ensures
        decode_escapes(text) == text,
    decreases text.len(),
{
    if text.len() > 0 {
        assert(text[0] != '\\');
        assert(!text.drop_first().contains('\\')) by {
            if text.drop_first().contains('\\') {
                let k = choose|k: int| 0 <= k < text.drop_first().len() && text.drop_first()[k] == '\\';
                assert(text[k + 1] == '\\');
            }
        }
        lemma_decode_without_backslash(text.drop_first());
        assert(seq![text[0]] + text.drop_first() =~= text);
    }
}

/// The character with code point `code`: `char::from_u32`, which returns
/// None exactly for the values that are no Unicode scalar value.
#[verifier::external_body]
fn char_from_u32(code: u32) -> (character: Option<char>)
    ensures
        character is Some <==> is_scalar_value(code as nat),
        character matches Some(c) ==> c as u32 == code,
{
    char::from_u32(code)
}

fn hex_digit_value(c: char) -> (value: Option<u32>)
    ensures
        match value {
            Some(v) => hex_value(c) == Some(v as nat) && v < 16,
            None => hex_value(c) is None,
        },
{
    let v = c as u32;
    if 0x30 <= v && v <= 0x39 {
        Some(v - 0x30)
    } else if 0x61 <= v && v <= 0x66 {
        Some(v - 0x61 + 10)
    } else if 0x41 <= v && v <= 0x46 {
        Some(v - 0x41 + 10)
    } else {
        None
    }
}

pub proof fn lemma_hex_digit_count_bound(text: Seq<char>, limit: nat)
    ensures
        hex_digit_count(text, limit) <= limit,
        hex_digit_count(text, limit) <= text.len(),
    decreases limit,
{
    if !(limit == 0 || text.len() == 0 || hex_value(text[0]) is None) {
        lemma_hex_digit_count_bound(text.drop_first(), (limit - 1) as nat);
    }
}

/// Characterises the digit count by the loop that reads digits.
proof fn lemma_hex_digit_count_exact(text: Seq<char>, limit: nat, n: nat)
    requires
        n <= limit,
        n <= text.len(),
        forall|k: int| 0 <= k < n ==> hex_value(#[trigger] text[k]) is Some,
        n == limit || n == text.len() || hex_value(text[n as int]) is None,
    ensures
        hex_digit_count(text, limit) == n,
    decreases n,
{
    if n > 0 {
        assert forall|k: int| 0 <= k < n - 1 implies hex_value(#[trigger] text.drop_first()[k]) is Some by {
            assert(text.drop_first()[k] == text[k + 1]);
        }
        lemma_hex_digit_count_exact(text.drop_first(), (limit - 1) as nat, (n - 1) as nat);
    }
}

pub open spec fn power_of_16(n: nat) -> nat
    decreases n,
{
    if n == 0 {
        1
    } else {
        16 * power_of_16((n - 1) as nat)
    }
}

proof fn lemma_hex_number_bound(digits: Seq<char>)
    requires
        forall|k: int| 0 <= k < digits.len() ==> hex_value(#[trigger] digits[k]) is Some,
    ensures
        hex_number(digits) < power_of_16(digits.len()),
    decreases digits.len(),
{
    if digits.len() > 0 {
        assert forall|k: int| 0 <= k < digits.drop_last().len() implies hex_value(#[trigger] digits.drop_last()[k]) is Some by {
            assert(digits.drop_last()[k] == digits[k]);
        }
        lemma_hex_number_bound(digits.drop_last());
        let v = hex_value(digits.last()).unwrap();
        let before = hex_number(digits.drop_last());
        let bound = power_of_16((digits.len() - 1) as nat);
        assert(v < 16);
        assert(before * 16 + v < 16 * bound) by (nonlinear_arith)
            requires
                before < bound,
                v < 16,
        ;
    }
}

proof fn lemma_power_of_16_six()
    ensures
        power_of_16(6) == 0x1000000,
        forall|n: nat| n <= 6 ==> #[trigger] power_of_16(n) <= 0x1000000,
{
    reveal_with_fuel(power_of_16, 7);
    assert forall|n: nat| n <= 6 implies #[trigger] power_of_16(n) <= 0x1000000 by {
        reveal_with_fuel(power_of_16, 7);
    }
}

/// Reads the digits of a `\u` or `\U` escape that start at `start`: at most
/// `digit_count` of them. Returns the character and the position after the
/// digits.
fn read_unicode_escape(characters: &[char], start: usize, digit_count: usize) -> (result: (char, usize))
    requires
        start <= characters@.len(),
        digit_count <= 6,
    ensures
        ({
            let rest = characters@.subrange(start as int, characters@.len() as int);
            let count = hex_digit_count(rest, digit_count as nat);
            &&& result.1 == start + count
            &&& result.1 <= characters@.len()
            &&& result.0 == char_or_replacement(hex_number(rest.take(count as int)))
        }),
{
    let ghost rest = characters@.subrange(start as int, characters@.len() as int);
    let available = characters.len() - start;
    let mut code_point: u32 = 0;
    let mut digits_read: usize = 0;
    let mut stopped = false;
    while !stopped && digits_read < digit_count && digits_read < available
        invariant
            available == rest.len(),
            start + available == characters@.len(),
            start + available <= usize::MAX,
            rest == characters@.subrange(start as int, characters@.len() as int),
            digits_read <= digit_count,
            digit_count <= 6,
            digits_read <= available,
            forall|k: int| 0 <= k < digits_read ==> hex_value(#[trigger] rest[k]) is Some,
            code_point as nat == hex_number(rest.take(digits_read as int)),
            stopped ==> digits_read < available && hex_value(rest[digits_read as int]) is None,
        decreases digit_count - digits_read, if stopped { 0int } else { 1int },
    {
        assert(rest[digits_read as int] == characters@[start + digits_read]);
        match hex_digit_value(characters[start + digits_read]) {
            Some(digit) => {
                proof {
                    let taken = rest.take(digits_read + 1);
                    assert(taken.drop_last() =~= rest.take(digits_read as int));
                    assert(taken.last() == rest[digits_read as int]);
                    assert forall|k: int| 0 <= k < taken.len() implies hex_value(#[trigger] taken[k]) is Some by {
                        assert(taken[k] == rest[k]);
                    }
                    lemma_hex_number_bound(taken);
                    lemma_power_of_16_six();
                    lemma_hex_number_bound(rest.take(digits_read as int));
                    assert forall|k: int| 0 <= k < digits_read implies hex_value(#[trigger] rest.take(digits_read as int)[k]) is Some by {
                        assert(rest.take(digits_read as int)[k] == rest[k]);
                    }
                }
                code_point = code_point * 16 + digit;
                digits_read = digits_read + 1;
            },
            None => {
                stopped = true;
            },
        }
    }
    proof {
        lemma_hex_digit_count_exact(rest, digit_count as nat, digits_read as nat);
    }
    let character = match char_from_u32(code_point) {
        Some(character) => {
            proof {
                vstd::utf8::char_u32_cast(character, code_point);
                assert(character == code_point as char);
                assert(character == char_or_replacement(code_point as nat));
            }
            character
        },
        None => '\u{FFFD}',
    };
    assert(character == char_or_replacement(code_point as nat));
    assert(digits_read == hex_digit_count(rest, digit_count as nat));
    (character, start + digits_read)
}

/// Appends the character a one-letter escape stands for.
fn escape_value_of(escaped: char) -> (value: char)
    ensures
        value == escape_value(escaped),
{
    if escaped == 'n' {
        '\n'
    } else if escaped == 't' {
        '\t'
    } else if escaped == 'r' {
        '\r'
    } else if escaped == 'a' {
        '\x07'
    } else if escaped == 'b' {
        '\x08'
    } else if escaped == 'f' {
        '\x0C'
    } else if escaped == 'v' {
        '\x0B'
    } else if escaped == '0' {
        '\0'
    } else {
        escaped
    }
}

/// The contents of a string literal between its delimiters.
fn strip_delimiters(literal_text: &[char]) -> (contents: &[char])
    ensures
        contents@ == literal_contents(literal_text@),
{
    proof {
        reveal_strlit("&");
        reveal_strlit("^");
    }
    let text = if chars_start_with_str(literal_text, "&") || chars_start_with_str(literal_text, "^") {
        &literal_text[1..literal_text.len()]
    } else {
        literal_text
    };
    proof {
        reveal_strlit("&");
        reveal_strlit("^");
        if starts_with(literal_text@, "&"@) || starts_with(literal_text@, "^"@) {
            assert(text@ =~= literal_text@.drop_first());
        }
    }
    if chars_start_with_str(text, "\"\"\"") {
        strip_delimiter(text, "\"\"\"")
    } else if chars_start_with_str(text, "'''") {
        strip_delimiter(text, "'''")
    } else if chars_start_with_str(text, "\"") {
        strip_delimiter(text, "\"")
    } else if chars_start_with_str(text, "'") {
        strip_delimiter(text, "'")
    } else {
        text
    }
}

fn strip_delimiter<'t>(text: &'t [char], delimiter: &str) -> (contents: &'t [char])
    requires
        starts_with(text@, delimiter@),
    ensures
        contents@ == without_delimiter(text@, delimiter@),
{
    let delimiter_chars = crate::text::str_to_chars(delimiter);
    let length = delimiter_chars.len();
    let after = &text[length..text.len()];
    if after.len() >= length {
        let tail = &after[after.len() - length..after.len()];
        if crate::text::chars_equal(tail, delimiter_chars.as_slice()) {
            return &after[0..after.len() - length];
        }
    }
    after
}

/// Returns the contents of a string literal with its escapes resolved.
///
/// Unknown escapes keep the character that follows the backslash: the parser
/// already accepted the file, so refusing to decode here would only lose text.
pub fn decode_string_literal(literal_text: &[char]) -> (decoded: String)
    ensures
        decoded@ == decoded_literal(literal_text@),
{
    let contents = strip_delimiters(literal_text);
    let mut decoded = String::new();
    let mut position: usize = 0;
    assert(contents@.subrange(0, contents@.len() as int) =~= contents@);
    assert(decoded@ + contents@ =~= contents@);
    while position < contents.len()
        invariant
            position <= contents@.len(),
            decoded@ + decode_escapes(contents@.subrange(position as int, contents@.len() as int))
                == decode_escapes(contents@),
        decreases contents@.len() - position,
    {
        let ghost rest = contents@.subrange(position as int, contents@.len() as int);
        let character = contents[position];
        if character != '\\' {
            push_char(&mut decoded, character);
            position = position + 1;
            assert(rest.drop_first() =~= contents@.subrange(position as int, contents@.len() as int));
            assert(decoded@ + decode_escapes(contents@.subrange(position as int, contents@.len() as int)) =~= decode_escapes(contents@));
            continue;
        }
        if position + 1 >= contents.len() {
            push_char(&mut decoded, '\\');
            position = contents.len();
            assert(decoded@ + decode_escapes(contents@.subrange(position as int, contents@.len() as int)) =~= decode_escapes(contents@));
            continue;
        }
        let escaped = contents[position + 1];
        let ghost after_escape = contents@.subrange(position + 2, contents@.len() as int);
        assert(rest.subrange(2, rest.len() as int) =~= after_escape);
        if escaped == 'u' || escaped == 'U' {
            let digit_count: usize = if escaped == 'u' {
                4
            } else {
                6
            };
            let (value, next) = read_unicode_escape(contents, position + 2, digit_count);
            push_char(&mut decoded, value);
            proof {
                let count = hex_digit_count(after_escape, digit_count as nat);
                assert(after_escape.skip(count as int) =~= contents@.subrange(next as int, contents@.len() as int));
            }
            position = next;
            assert(decoded@ + decode_escapes(contents@.subrange(position as int, contents@.len() as int)) =~= decode_escapes(contents@));
        } else {
            push_char(&mut decoded, escape_value_of(escaped));
            position = position + 2;
            assert(decoded@ + decode_escapes(contents@.subrange(position as int, contents@.len() as int)) =~= decode_escapes(contents@));
        }
    }
    assert(contents@.subrange(position as int, contents@.len() as int) =~= Seq::<char>::empty());
    assert(decoded@ =~= decode_escapes(contents@));
    decoded
}

/// The literal kind of each target node kind.
pub open spec fn literal_kind_of(kind: GDScriptNodeKind) -> LiteralKind {
    if kind == GDScriptNodeKind::StringName {
        LiteralKind::StringName
    } else if kind == GDScriptNodeKind::NodePath {
        LiteralKind::NodePath
    } else {
        LiteralKind::String
    }
}

/// The record for the literal `node`.
pub open spec fn string_literal_of(tree: &SyntaxTree, source: Seq<char>, node: int) -> StringLiteralView {
    StringLiteralView {
        value: decoded_literal(tree.text(source, node)),
        literal_kind: literal_kind_of(tree.kind(node)),
        range: range_of(tree, node),
        argument_of: argument_position(tree, source, node),
    }
}

pub open spec fn json_string_literal_record(record: StringLiteralView, scope: Seq<char>) -> Seq<char> {
    "{\"record\":\"string_literal\""@ + json_string_field("value"@, record.value) + (
    if record.literal_kind != LiteralKind::String {
        json_string_field("literal_kind"@, literal_kind_name(record.literal_kind))
    } else {
        Seq::empty()
    }) + json_scope_field(scope) + json_range_field("range"@, record.range)
        + json_optional_argument_of(record.argument_of) + "}\n"@
}

/// What the collector writes for the literal `node`.
pub open spec fn string_literal_output(tree: &SyntaxTree, source: Seq<char>, node: int, scope: Seq<char>) -> Seq<char> {
    json_string_literal_record(string_literal_of(tree, source, node), scope)
}

/// The record of a `&"name"` literal carries `"literal_kind":"string_name"`,
/// that of a `^"path"` literal `"literal_kind":"node_path"`, and that of a
/// plain string no `literal_kind` at all.
pub proof fn lemma_literal_kind_follows_node_kind(tree: &SyntaxTree, source: Seq<char>, node: int, scope: Seq<char>)
    ensures
        ({
            let head = "{\"record\":\"string_literal\""@ + json_string_field(
                "value"@,
                decoded_literal(tree.text(source, node)),
            );
            let tail = json_scope_field(scope) + json_range_field("range"@, range_of(tree, node))
                + json_optional_argument_of(argument_position(tree, source, node)) + "}\n"@;
            &&& tree.kind(node) == GDScriptNodeKind::StringName ==> string_literal_output(tree, source, node, scope)
                == head + json_string_field("literal_kind"@, "string_name"@) + tail
            &&& tree.kind(node) == GDScriptNodeKind::NodePath ==> string_literal_output(tree, source, node, scope)
                == head + json_string_field("literal_kind"@, "node_path"@) + tail
            &&& tree.kind(node) != GDScriptNodeKind::StringName && tree.kind(node) != GDScriptNodeKind::NodePath
                ==> string_literal_output(tree, source, node, scope) == head + tail
        }),
{
    let head = "{\"record\":\"string_literal\""@ + json_string_field(
        "value"@,
        decoded_literal(tree.text(source, node)),
    );
    let tail = json_scope_field(scope) + json_range_field("range"@, range_of(tree, node))
        + json_optional_argument_of(argument_position(tree, source, node)) + "}\n"@;
    let kind_part = if string_literal_of(tree, source, node).literal_kind != LiteralKind::String {
        json_string_field("literal_kind"@, literal_kind_name(string_literal_of(tree, source, node).literal_kind))
    } else {
        Seq::empty()
    };
    assert(string_literal_output(tree, source, node, scope) =~= head + kind_part + tail);
    assert(head + Seq::<char>::empty() + tail =~= head + tail);
}

pub fn collect(context: &CollectorContext, node: usize, output: &mut String)
    requires
        context.wf(),
        node < context.tree.len(),
    ensures
        final(output)@ == old(output)@ + string_literal_output(
            context.tree,
            context.source@,
            node as int,
            context.scope@,
        ),
{
    let tree = context.tree;
    let node_kind = tree.nodes[node].kind;
    let record = StringLiteralRecord {
        value: decode_string_literal(get_node_text(tree, node, context.source)),
        literal_kind: if node_kind == GDScriptNodeKind::StringName {
            LiteralKind::StringName
        } else if node_kind == GDScriptNodeKind::NodePath {
            LiteralKind::NodePath
        } else {
            LiteralKind::String
        },
        range: get_range(tree, node),
        argument_of: find_argument_position(context, node),
    };
    write_string_literal_record(&record, context.scope, output);
}

fn write_string_literal_record(record: &StringLiteralRecord, scope: &[char], output: &mut String)
    ensures
        final(output)@ == old(output)@ + json_string_literal_record(record@, scope@),
{
    let ghost start = output@;
    let ghost view = record@;
    push_str(output, "{\"record\":\"string_literal\"");
    json_push_string_field("value", record.value.as_str(), output);
    let ghost head = output@;
    if record.literal_kind != LiteralKind::String {
        json_push_string_field("literal_kind", record.literal_kind.as_str(), output);
    }
    let ghost after_kind = output@;
    write_scope_field(scope, output);
    json_push_range_field("range", &record.range, output);
    write_optional_argument_of(&record.argument_of, output);
    push_str(output, "}\n");
    proof {
        let kind_part = if view.literal_kind != LiteralKind::String {
            json_string_field("literal_kind"@, literal_kind_name(view.literal_kind))
        } else {
            Seq::empty()
        };
        assert(after_kind =~= head + kind_part);
        assert(output@ =~= after_kind + json_scope_field(scope@) + json_range_field("range"@, view.range)
            + json_optional_argument_of(view.argument_of) + "}\n"@);
        assert(head =~= start + "{\"record\":\"string_literal\""@ + json_string_field("value"@, view.value));
        assert(output@ =~= start + json_string_literal_record(view, scope@));
    }
}

} // verus!

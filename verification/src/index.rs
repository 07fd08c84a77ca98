//! Emits a machine-readable index of GDScript source code as JSON Lines.
//!
//! The formatter knows where everything sits in a file and nothing about what
//! any of it means. Tools that run inside Godot know the opposite: they can ask
//! the engine for every member of a class but have no source positions. The
//! index hands the syntactic half over so those tools stop guessing at it with
//! regular expressions.
//!
//! The walk visits the tree once and dispatches to collectors by node kind.
//! The one piece of state the walk carries is the scope, because per-scope
//! shadowing and inner classes are the whole point of the output.

pub mod collectors;
pub mod lines;
pub mod paths;

use crate::index::collectors::declaration::{
    extends_among, extends_base, json_optional_text_field, optional_text_view, read_extends_among,
    read_extends_base, write_optional_text_field,
};
use crate::index::collectors::{
    CollectorContext, collector_of_kind, collector_output, find_collector, run_collector,
};
use crate::linter::lib::{SourceRange, get_node_text};
use crate::node_kind::{GDScriptNodeKind, lookup_table};
use crate::parser::{ParsedSource, gdscript_has_error_at, is_gdscript_copy, parse_source, parses_into_model};
use crate::syntax::{FieldName, SyntaxTree};
use crate::text::{decimal, hex_digit_char, hex_digit_to_char, push_char, push_decimal, push_str, str_to_chars};
use vstd::prelude::*;

verus! {

/// Bumped on any breaking change to record shapes or field meanings. Adding a
/// record kind or an optional field is not breaking.
pub const INDEX_SCHEMA_VERSION: usize = 1;

// JSON writing. The record shapes are fixed and few, so the JSON is written
// by hand. Every record starts with its `record` field, so every other field
// is written with a leading comma and no separator bookkeeping is needed.

/// How one character appears inside a JSON string.
pub open spec fn json_escape_char(c: char) -> Seq<char> {
    if c == '"' {
        seq!['\\', '"']
    } else if c == '\\' {
        seq!['\\', '\\']
    } else if c == '\n' {
        seq!['\\', 'n']
    } else if c == '\r' {
        seq!['\\', 'r']
    } else if c == '\t' {
        seq!['\\', 't']
    } else if c == '\x08' {
        seq!['\\', 'b']
    } else if c == '\x0C' {
        seq!['\\', 'f']
    } else if (c as u32) < 0x20 {
        seq!['\\', 'u', '0', '0', hex_digit_char((c as u32 / 16) as nat), hex_digit_char((c as u32 % 16) as nat)]
    } else {
        seq![c]
    }
}

/// The characters of `value` as they appear inside a JSON string.
pub open spec fn json_escaped(value: Seq<char>) -> Seq<char>
    decreases value.len(),
{
    if value.len() == 0 {
        Seq::empty()
    } else {
        json_escaped(value.drop_last()) + json_escape_char(value.last())
    }
}

/// `value` as a JSON string, quotes included.
#[verifier::opaque]
pub open spec fn json_string(value: Seq<char>) -> Seq<char> {
    seq!['"'] + json_escaped(value) + seq!['"']
}

/// The start of a field: a comma, the quoted name and a colon.
pub open spec fn json_field_name(name: Seq<char>) -> Seq<char> {
    ",\""@ + name + "\":"@
}

#[verifier::opaque]
pub open spec fn json_string_field(name: Seq<char>, value: Seq<char>) -> Seq<char> {
    json_field_name(name) + json_string(value)
}

pub open spec fn json_bool(value: bool) -> Seq<char> {
    if value {
        "true"@
    } else {
        "false"@
    }
}

#[verifier::opaque]
pub open spec fn json_bool_field(name: Seq<char>, value: bool) -> Seq<char> {
    json_field_name(name) + json_bool(value)
}

#[verifier::opaque]
pub open spec fn json_usize_field(name: Seq<char>, value: usize) -> Seq<char> {
    json_field_name(name) + decimal(value as nat)
}

/// A range as a JSON object.
#[verifier::opaque]
pub open spec fn json_range(range: SourceRange) -> Seq<char> {
    "{\"start_row\":"@ + decimal(range.start_row as nat) + ",\"start_column\":"@ + decimal(
        range.start_column as nat,
    ) + ",\"end_row\":"@ + decimal(range.end_row as nat) + ",\"end_column\":"@ + decimal(
        range.end_column as nat,
    ) + ",\"start_byte\":"@ + decimal(range.start_byte as nat) + ",\"end_byte\":"@ + decimal(
        range.end_byte as nat,
    ) + "}"@
}

#[verifier::opaque]
pub open spec fn json_range_field(name: Seq<char>, range: SourceRange) -> Seq<char> {
    json_field_name(name) + json_range(range)
}

/// Appends one character as it appears inside a JSON string.
pub fn json_push_escaped_char(character: char, output: &mut String)
    ensures
        final(output)@ == old(output)@ + json_escape_char(character),
{
    let ghost start = output@;
    if character == '"' {
        push_char(output, '\\');
        push_char(output, '"');
    } else if character == '\\' {
        push_char(output, '\\');
        push_char(output, '\\');
    } else if character == '\n' {
        push_char(output, '\\');
        push_char(output, 'n');
    } else if character == '\r' {
        push_char(output, '\\');
        push_char(output, 'r');
    } else if character == '\t' {
        push_char(output, '\\');
        push_char(output, 't');
    } else if character == '\x08' {
        push_char(output, '\\');
        push_char(output, 'b');
    } else if character == '\x0C' {
        push_char(output, '\\');
        push_char(output, 'f');
    } else if (character as u32) < 0x20 {
        let code = character as u32;
        push_char(output, '\\');
        push_char(output, 'u');
        push_char(output, '0');
        push_char(output, '0');
        push_char(output, hex_digit_to_char(code / 16));
        push_char(output, hex_digit_to_char(code % 16));
    } else {
        push_char(output, character);
    }
    assert(output@ =~= start + json_escape_char(character));
}

/// Appends `value` as a JSON string, quotes included.
pub fn json_push_escaped_chars(value: &[char], output: &mut String)
    ensures
        final(output)@ == old(output)@ + json_string(value@),
{
    let ghost start = output@;
    push_char(output, '"');
    let mut index: usize = 0;
    while index < value.len()
        invariant
            index <= value@.len(),
            output@ == start + seq!['"'] + json_escaped(value@.subrange(0, index as int)),
        decreases value@.len() - index,
    {
        json_push_escaped_char(value[index], output);
        proof {
            let prefix = value@.subrange(0, index + 1);
            assert(prefix.drop_last() =~= value@.subrange(0, index as int));
            assert(prefix.last() == value@[index as int]);
        }
        index = index + 1;
        assert(output@ =~= start + seq!['"'] + json_escaped(value@.subrange(0, index as int)));
    }
    push_char(output, '"');
    assert(value@.subrange(0, value@.len() as int) =~= value@);
    reveal(json_string);
    assert(output@ =~= start + json_string(value@));
}

/// Appends `value` as a JSON string, quotes included.
pub fn json_push_escaped_string(value: &str, output: &mut String)
    ensures
        final(output)@ == old(output)@ + json_string(value@),
{
    let characters = str_to_chars(value);
    json_push_escaped_chars(characters.as_slice(), output);
}

/// Appends the start of a field: a comma, the quoted name and a colon.
pub fn json_push_field_name(name: &str, output: &mut String)
    ensures
        final(output)@ == old(output)@ + json_field_name(name@),
{
    let ghost start = output@;
    push_str(output, ",\"");
    push_str(output, name);
    push_str(output, "\":");
    assert(output@ =~= start + json_field_name(name@));
}

pub fn json_push_string_field(name: &str, value: &str, output: &mut String)
    ensures
        final(output)@ == old(output)@ + json_string_field(name@, value@),
{
    let ghost start = output@;
    json_push_field_name(name, output);
    json_push_escaped_string(value, output);
    reveal(json_string_field);
    assert(output@ =~= start + json_string_field(name@, value@));
}

/// Appends a string field whose value is a slice of the source.
pub fn json_push_text_field(name: &str, value: &[char], output: &mut String)
    ensures
        final(output)@ == old(output)@ + json_string_field(name@, value@),
{
    let ghost start = output@;
    json_push_field_name(name, output);
    json_push_escaped_chars(value, output);
    reveal(json_string_field);
    assert(output@ =~= start + json_string_field(name@, value@));
}

pub fn json_push_bool_field(name: &str, value: bool, output: &mut String)
    ensures
        final(output)@ == old(output)@ + json_bool_field(name@, value),
{
    let ghost start = output@;
    json_push_field_name(name, output);
    push_str(output, if value { "true" } else { "false" });
    reveal(json_bool_field);
    assert(output@ =~= start + json_bool_field(name@, value));
}

pub fn json_push_usize_field(name: &str, value: usize, output: &mut String)
    ensures
        final(output)@ == old(output)@ + json_usize_field(name@, value),
{
    let ghost start = output@;
    json_push_field_name(name, output);
    push_decimal(value, output);
    reveal(json_usize_field);
    assert(output@ =~= start + json_usize_field(name@, value));
}

pub fn json_push_range(range: &SourceRange, output: &mut String)
    ensures
        final(output)@ == old(output)@ + json_range(*range),
{
    let ghost start = output@;
    push_str(output, "{\"start_row\":");
    push_decimal(range.start_row, output);
    push_str(output, ",\"start_column\":");
    push_decimal(range.start_column, output);
    push_str(output, ",\"end_row\":");
    push_decimal(range.end_row, output);
    push_str(output, ",\"end_column\":");
    push_decimal(range.end_column, output);
    push_str(output, ",\"start_byte\":");
    push_decimal(range.start_byte, output);
    push_str(output, ",\"end_byte\":");
    push_decimal(range.end_byte, output);
    push_str(output, "}");
    reveal(json_range);
    assert(output@ =~= start + json_range(*range));
}

pub fn json_push_range_field(name: &str, range: &SourceRange, output: &mut String)
    ensures
        final(output)@ == old(output)@ + json_range_field(name@, *range),
{
    let ghost start = output@;
    json_push_field_name(name, output);
    json_push_range(range, output);
    reveal(json_range_field);
    assert(output@ =~= start + json_range_field(name@, *range));
}

/// What the file's own script extends: the base of its `extends` statement,
/// or of the `extends` written on its `class_name` line.
pub open spec fn file_extends(tree: &SyntaxTree, source: Seq<char>) -> Option<Seq<char>> {
    match extends_among(tree, source, 0) {
        Some(base) => Some(base),
        None => match tree.first_named_child_of_kind(0, GDScriptNodeKind::ClassName) {
            Some(class_name) => match tree.child_by_field(class_name, FieldName::Extends) {
                Some(statement) => extends_base(tree, source, statement),
                None => None,
            },
            None => None,
        },
    }
}

fn read_file_extends<'a>(context: &CollectorContext<'a>) -> (base: Option<&'a [char]>)
    requires
        context.wf(),
    ensures
        optional_text_view(base) == file_extends(context.tree, context.source@),
{
    let tree = context.tree;
    match read_extends_among(context, 0) {
        Some(base) => Some(base),
        None => match tree.find_first_named_child_of_kind(0, GDScriptNodeKind::ClassName) {
            Some(class_name) => match tree.child_by_field_name(class_name, FieldName::Extends) {
                Some(statement) => read_extends_base(context, statement),
                None => None,
            },
            None => None,
        },
    }
}

/// The `file` header record. It goes out whether or not the file parsed, so
/// a consumer can tell "no records because the file is broken" from "no
/// records because nothing matched".
#[verifier::opaque]
pub open spec fn json_file_header(display_path: Seq<char>, extends: Option<Seq<char>>, parse_error: bool) -> Seq<char> {
    "{\"record\":\"file\""@ + json_usize_field("schema"@, INDEX_SCHEMA_VERSION) + json_string_field(
        "path"@,
        display_path,
    ) + json_optional_text_field("extends"@, extends) + (if parse_error {
        json_bool_field("parse_error"@, true)
    } else {
        Seq::empty()
    }) + "}\n"@
}

pub fn write_file_header_record(display_path: &str, extends: Option<&[char]>, has_parse_error: bool, output: &mut String)
    ensures
        final(output)@ == old(output)@ + json_file_header(display_path@, optional_text_view(extends), has_parse_error),
{
    let ghost start = output@;
    push_str(output, "{\"record\":\"file\"");
    json_push_usize_field("schema", INDEX_SCHEMA_VERSION, output);
    json_push_string_field("path", display_path, output);
    write_optional_text_field("extends", extends, output);
    let ghost before_error = output@;
    if has_parse_error {
        json_push_bool_field("parse_error", true, output);
    }
    assert(output@ =~= before_error + (if has_parse_error {
        json_bool_field("parse_error"@, true)
    } else {
        Seq::<char>::empty()
    }));
    push_str(output, "}\n");
    reveal(json_file_header);
    assert(output@ =~= start + json_file_header(display_path@, optional_text_view(extends), has_parse_error));
}

/// The name `node` adds to the scope of everything inside it, when it opens
/// a scope.
///
/// Enums and signals open a scope so that their members and parameters do
/// not look like declarations at the level above them. Lambdas do not: they
/// are expressions, they often have no name, and giving half of them a scope
/// segment would make the output harder to reason about than leaving their
/// parameters in the enclosing scope.
pub open spec fn scope_name(tree: &SyntaxTree, source: Seq<char>, node: int) -> Option<Seq<char>> {
    let kind = tree.kind(node);
    if kind == GDScriptNodeKind::Function || kind == GDScriptNodeKind::ClassDefinition || kind
        == GDScriptNodeKind::InnerClass || kind == GDScriptNodeKind::Enum || kind == GDScriptNodeKind::Signal {
        match tree.child_by_field(node, FieldName::Name) {
            Some(name) => Some(tree.text(source, name)),
            None => None,
        }
    } else if kind == GDScriptNodeKind::Constructor {
        Some("_init"@)
    } else {
        None
    }
}

/// `scope` with `name` appended as its innermost segment.
pub open spec fn nested_scope(scope: Seq<char>, name: Seq<char>) -> Seq<char> {
    if scope.len() == 0 {
        name
    } else {
        scope + "."@ + name
    }
}

/// The scope of everything inside `node`, when `scope` encloses it.
pub open spec fn inner_scope(tree: &SyntaxTree, source: Seq<char>, node: int, scope: Seq<char>) -> Seq<char> {
    match scope_name(tree, source, node) {
        Some(name) => nested_scope(scope, name),
        None => scope,
    }
}

fn append_scope_segment(scope: &mut Vec<char>, name: &[char])
    ensures
        final(scope)@ == nested_scope(old(scope)@, name@),
{
    let ghost start = scope@;
    if scope.len() > 0 {
        scope.push('.');
    }
    let ghost with_dot = scope@;
    let mut index: usize = 0;
    while index < name.len()
        invariant
            index <= name@.len(),
            scope@ == with_dot + name@.subrange(0, index as int),
        decreases name@.len() - index,
    {
        scope.push(name[index]);
        index = index + 1;
        assert(scope@ =~= with_dot + name@.subrange(0, index as int));
    }
    assert(name@.subrange(0, name@.len() as int) =~= name@);
    proof {
        reveal_strlit(".");
        if start.len() > 0 {
            assert(with_dot =~= start + "."@);
        } else {
            assert(with_dot =~= start);
        }
    }
    assert(scope@ =~= nested_scope(start, name@));
}

/// Opens the scope of `node`, if it opens one.
fn enter_scope(tree: &SyntaxTree, source: &[char], node: usize, scope: &mut Vec<char>)
    requires
        tree.wf(source@.len()),
        node < tree.len(),
    ensures
        final(scope)@ == inner_scope(tree, source@, node as int, old(scope)@),
{
    let kind = tree.nodes[node].kind;
    if kind == GDScriptNodeKind::Constructor {
        let init = str_to_chars("_init");
        append_scope_segment(scope, init.as_slice());
    } else if kind == GDScriptNodeKind::Function || kind == GDScriptNodeKind::ClassDefinition || kind
        == GDScriptNodeKind::InnerClass || kind == GDScriptNodeKind::Enum || kind == GDScriptNodeKind::Signal {
        match tree.child_by_field_name(node, FieldName::Name) {
            Some(name) => append_scope_segment(scope, get_node_text(tree, name, source)),
            None => {},
        }
    }
}

/// What the collector for the kind of `node` writes for it.
pub open spec fn node_output(tree: &SyntaxTree, source: Seq<char>, node: int, scope: Seq<char>) -> Seq<char> {
    match collector_of_kind(tree.kind(node)) {
        Some(collector) => collector_output(collector, tree, source, node, scope),
        None => Seq::empty(),
    }
}

/// What the walk writes for `node` and everything under it, when `scope`
/// encloses it: the records for the node itself, then those of its children
/// in document order, inside the node's own scope. A declaration's record is
/// written with the scope that encloses it; everything below it, its own
/// parameters included, is inside it.
pub open spec fn walk_output(tree: &SyntaxTree, source: Seq<char>, node: int, scope: Seq<char>) -> Seq<char>
    decreases tree.len() - node, tree.child_count(node) + 1,
{
    node_output(tree, source, node, scope) + children_output(
        tree,
        source,
        node,
        0,
        inner_scope(tree, source, node, scope),
    )
}

/// What the walk writes for the children of `node` from position `k` on.
pub open spec fn children_output(tree: &SyntaxTree, source: Seq<char>, node: int, k: int, scope: Seq<char>) -> Seq<char>
    decreases tree.len() - node, tree.child_count(node) - k,
{
    if k < 0 || k >= tree.child_count(node) {
        Seq::empty()
    } else {
        let c = tree.child(node, k);
        let rest = children_output(tree, source, node, k + 1, scope);
        if node < c < tree.len() {
            walk_output(tree, source, c, scope) + rest
        } else {
            rest
        }
    }
}

fn visit_node(tree: &SyntaxTree, source: &[char], node: usize, scope: &mut Vec<char>, output: &mut String)
    requires
        tree.wf(source@.len()),
        tree.matches_source(source@),
        node < tree.len(),
    ensures
        final(scope)@ == old(scope)@,
        final(output)@ == old(output)@ + walk_output(tree, source@, node as int, old(scope)@),
    decreases tree.len() - node,
{
    let ghost start = output@;
    let ghost outer = scope@;
    match find_collector(tree.nodes[node].kind) {
        Some(collector) => {
            let context = CollectorContext { tree, source, scope: scope.as_slice() };
            run_collector(collector, &context, node, output);
        },
        None => {},
    }
    let ghost after_node = output@;
    assert(after_node == start + node_output(tree, source@, node as int, outer));
    let depth = scope.len();
    enter_scope(tree, source, node, scope);
    let ghost inner = scope@;
    assert(inner.subrange(0, depth as int) =~= outer);
    let children = &tree.nodes[node].children;
    let mut k: usize = 0;
    while k < children.len()
        invariant
            tree.wf(source@.len()),
            tree.matches_source(source@),
            node < tree.len(),
            children@ == tree.children(node as int),
            k <= children@.len(),
            scope@ == inner,
            output@ + children_output(tree, source@, node as int, k as int, inner)
                == after_node + children_output(tree, source@, node as int, 0, inner),
        decreases children@.len() - k,
    {
        let child = children[k];
        assert(tree.node_links_wf(node as int));
        let ghost before = output@;
        visit_node(tree, source, child, scope, output);
        assert(children_output(tree, source@, node as int, k as int, inner)
            == walk_output(tree, source@, child as int, inner) + children_output(tree, source@, node as int, k + 1, inner));
        assert(output@ + children_output(tree, source@, node as int, k + 1, inner)
            =~= before + children_output(tree, source@, node as int, k as int, inner));
        k = k + 1;
    }
    assert(children_output(tree, source@, node as int, k as int, inner) == Seq::<char>::empty());
    scope.truncate(depth);
    assert(output@ =~= start + walk_output(tree, source@, node as int, outer));
}

/// What the index of a file that parsed without errors holds: its header,
/// then every record of the walk from the root, at file level.
pub open spec fn index_output(tree: &SyntaxTree, source: Seq<char>, display_path: Seq<char>) -> Seq<char> {
    json_file_header(display_path, file_extends(tree, source), false) + walk_output(tree, source, 0, Seq::empty())
}

/// Writes the index of a parsed file. When it has parse errors only the
/// header goes out, marked with `parse_error`, and the result is false.
pub fn index_parsed(parsed: &ParsedSource, display_path: &str, output: &mut String) -> (parsed_without_errors: bool)
    requires
        parsed.wf(),
    ensures
        parsed_without_errors == !parsed.has_parse_errors,
        parsed.has_parse_errors ==> final(output)@ == old(output)@ + json_file_header(display_path@, None, true),
        !parsed.has_parse_errors ==> final(output)@ == old(output)@ + index_output(
            &parsed.tree,
            parsed.source@,
            display_path@,
        ),
{
    if parsed.has_parse_errors {
        write_file_header_record(display_path, None, true, output);
        return false;
    }
    let ghost start = output@;
    let source = parsed.source.as_slice();
    let context = CollectorContext { tree: &parsed.tree, source, scope: &[] };
    write_file_header_record(display_path, read_file_extends(&context), false, output);
    let mut scope: Vec<char> = Vec::new();
    assert(scope@ =~= Seq::<char>::empty());
    visit_node(&parsed.tree, source, 0, &mut scope, output);
    assert(output@ =~= start + index_output(&parsed.tree, parsed.source@, display_path@));
    true
}

/// Writes the index for one file: a `file` header record followed by one
/// line per content record. The records are those of the copy of the tree
/// tree-sitter builds from the source (`is_gdscript_copy`). Returns false
/// when the source could not be parsed into the model or has parse errors,
/// in which case only the header is written.
pub fn index_source(source: &str, display_path: &str, output: &mut String) -> (parsed_without_errors: bool)
    ensures
        parsed_without_errors == (parses_into_model(source@) && !gdscript_has_error_at(
            source@,
            Seq::<usize>::empty(),
        )),
        !parsed_without_errors ==> final(output)@ == old(output)@ + json_file_header(display_path@, None, true),
        parsed_without_errors ==> exists|tree: SyntaxTree|
            #![trigger is_gdscript_copy(tree, source@, lookup_table())]
            tree.wf(source@.len()) && tree.matches_source(source@) && is_gdscript_copy(tree, source@, lookup_table())
                && final(output)@ == old(output)@ + index_output(&tree, source@, display_path@),
{
    match parse_source(source) {
        Some(parsed) => index_parsed(&parsed, display_path, output),
        None => {
            write_file_header_record(display_path, None, true, output);
            false
        },
    }
}

/// No character of the escaped form of `c` is a control character.
proof fn lemma_escape_char_is_printable(c: char)
    ensures
        forall|i: int| 0 <= i < json_escape_char(c).len() ==> (#[trigger] json_escape_char(c)[i] as u32) >= 0x20,
{
    if !(c == '"' || c == '\\' || c == '\n' || c == '\r' || c == '\t' || c == '\x08' || c == '\x0C') && (c as u32) < 0x20 {
        let high = (c as u32 / 16) as nat;
        let low = (c as u32 % 16) as nat;
        assert(high < 16 && low < 16);
        assert((hex_digit_char(high) as u32) >= 0x30);
        assert((hex_digit_char(low) as u32) >= 0x30);
    }
}

/// Text written into a JSON string never breaks a line or holds another
/// control character: escaping leaves every character at or above U+0020.
/// This is what keeps each record on a line of its own.
pub proof fn lemma_escaped_text_is_printable(value: Seq<char>)
    ensures
        forall|i: int| 0 <= i < json_escaped(value).len() ==> (#[trigger] json_escaped(value)[i] as u32) >= 0x20,
    decreases value.len(),
{
    if value.len() > 0 {
        lemma_escaped_text_is_printable(value.drop_last());
        lemma_escape_char_is_printable(value.last());
        let before = json_escaped(value.drop_last());
        let last = json_escape_char(value.last());
        assert forall|i: int| 0 <= i < json_escaped(value).len() implies (#[trigger] json_escaped(value)[i] as u32)
            >= 0x20 by {
            if i < before.len() {
                assert(json_escaped(value)[i] == before[i]);
            } else {
                assert(json_escaped(value)[i] == last[i - before.len()]);
            }
        }
    }
}

/// The value of a hexadecimal digit of a JSON `\u` escape, in either case.
pub open spec fn json_hex_value(c: char) -> Option<nat> {
    let v = c as u32;
    if 0x30 <= v <= 0x39 {
        Some((v - 0x30) as nat)
    } else if 0x61 <= v <= 0x66 {
        Some((v - 0x61 + 10) as nat)
    } else if 0x41 <= v <= 0x46 {
        Some((v - 0x41 + 10) as nat)
    } else {
        None
    }
}

/// The code unit that the four hexadecimal digits `digits` spell.
pub open spec fn json_hex4(digits: Seq<char>) -> Option<nat> {
    match (
        json_hex_value(digits[0]),
        json_hex_value(digits[1]),
        json_hex_value(digits[2]),
        json_hex_value(digits[3]),
    ) {
        (Some(a), Some(b), Some(c), Some(d)) => Some(a * 4096 + b * 256 + c * 16 + d),
        _ => None,
    }
}

/// The escape character after a backslash that stands for one character
/// by itself, and that character.
pub open spec fn json_short_escape(e: char) -> Option<char> {
    if e == '"' {
        Some('"')
    } else if e == '\\' {
        Some('\\')
    } else if e == '/' {
        Some('/')
    } else if e == 'b' {
        Some('\x08')
    } else if e == 'f' {
        Some('\x0C')
    } else if e == 'n' {
        Some('\n')
    } else if e == 'r' {
        Some('\r')
    } else if e == 't' {
        Some('\t')
    } else {
        None
    }
}

/// Puts `c` in front of a decoded rest.
pub open spec fn json_prepend(c: char, rest: Option<Seq<char>>) -> Option<Seq<char>> {
    match rest {
        Some(r) => Some(seq![c] + r),
        None => None,
    }
}

/// Decodes the text between the quotes of a JSON string, as RFC 8259
/// (section 7) reads it: an unescaped quote or control character is an
/// error, and a `\u` escape of a surrogate stands only in a pair, high half
/// first. None when `text` is not such a text.
pub open spec fn json_unescaped(text: Seq<char>) -> Option<Seq<char>>
    decreases text.len(),
{
    if text.len() == 0 {
        Some(Seq::empty())
    } else if text[0] == '"' || (text[0] as u32) < 0x20 {
        None
    } else if text[0] != '\\' {
        json_prepend(text[0], json_unescaped(text.drop_first()))
    } else if text.len() < 2 {
        None
    } else if json_short_escape(text[1]) is Some {
        json_prepend(json_short_escape(text[1])->0, json_unescaped(text.subrange(2, text.len() as int)))
    } else if text[1] != 'u' || text.len() < 6 || json_hex4(text.subrange(2, 6)) is None {
        None
    } else {
        let unit = json_hex4(text.subrange(2, 6))->0;
        if unit < 0xD800 || unit > 0xDFFF {
            json_prepend(unit as char, json_unescaped(text.subrange(6, text.len() as int)))
        } else if unit <= 0xDBFF && text.len() >= 12 && text[6] == '\\' && text[7] == 'u' && json_hex4(
            text.subrange(8, 12),
        ) is Some && 0xDC00 <= json_hex4(text.subrange(8, 12))->0 <= 0xDFFF {
            let low = json_hex4(text.subrange(8, 12))->0;
            json_prepend(
                (0x10000 + (unit - 0xD800) * 0x400 + (low - 0xDC00)) as char,
                json_unescaped(text.subrange(12, text.len() as int)),
            )
        } else {
            None
        }
    }
}

/// The value a JSON string literal stands for: its text between the quotes,
/// decoded.
pub open spec fn json_string_value(literal: Seq<char>) -> Option<Seq<char>> {
    if literal.len() >= 2 && literal[0] == '"' && literal.last() == '"' {
        json_unescaped(literal.subrange(1, literal.len() - 1))
    } else {
        None
    }
}

/// Escaping `value` starts with the escape of its first character.
proof fn lemma_escaped_from_front(value: Seq<char>)
    requires
        value.len() > 0,
    ensures
        json_escaped(value) == json_escape_char(value[0]) + json_escaped(value.drop_first()),
    decreases value.len(),
{
    if value.len() == 1 {
        assert(value.drop_last() =~= Seq::<char>::empty());
        assert(value.drop_first() =~= Seq::<char>::empty());
        assert(json_escaped(value.drop_last()) =~= Seq::<char>::empty());
        assert(json_escaped(value.drop_first()) =~= Seq::<char>::empty());
        assert(json_escaped(value) =~= json_escape_char(value[0]) + json_escaped(value.drop_first()));
    } else {
        lemma_escaped_from_front(value.drop_last());
        assert(value.drop_last().drop_first() =~= value.drop_first().drop_last());
        assert(value.drop_first().last() == value.last());
        assert(json_escaped(value) =~= json_escape_char(value[0]) + json_escaped(value.drop_first()));
    }
}

/// A hexadecimal digit written for a value below 16 reads back as that value.
proof fn lemma_hex_digit_value(n: nat)
    requires
        n < 16,
    ensures
        json_hex_value(hex_digit_char(n)) == Some(n),
{
}

/// Decoding the escape of `c` followed by more text gives `c` followed by
/// the decoding of that text.
proof fn lemma_unescape_char(c: char, rest: Seq<char>)
    ensures
        json_unescaped(json_escape_char(c) + rest) == json_prepend(c, json_unescaped(rest)),
{
    let text = json_escape_char(c) + rest;
    let v = c as u32;
    if c == '"' || c == '\\' || c == '\n' || c == '\r' || c == '\t' || c == '\x08' || c == '\x0C' {
        assert(text.subrange(2, text.len() as int) =~= rest);
    } else if v < 0x20 {
        let high = (v / 16) as nat;
        let low = (v % 16) as nat;
        lemma_hex_digit_value(high);
        lemma_hex_digit_value(low);
        let digits = text.subrange(2, 6);
        assert(digits[0] == '0' && digits[1] == '0' && digits[2] == hex_digit_char(high) && digits[3]
            == hex_digit_char(low));
        assert(json_hex4(digits) == Some(high * 16 + low));
        assert(high * 16 + low == v);
        assert(text.subrange(6, text.len() as int) =~= rest);
    } else {
        assert(text.drop_first() =~= rest);
    }
}

/// JSON escaping loses nothing: decoding the escaped text of `value` gives
/// `value` back.
pub proof fn lemma_escaped_text_decodes(value: Seq<char>)
    ensures
        json_unescaped(json_escaped(value)) == Some(value),
    decreases value.len(),
{
    if value.len() == 0 {
        assert(json_escaped(value) =~= Seq::<char>::empty());
    } else {
        lemma_escaped_from_front(value);
        lemma_escaped_text_decodes(value.drop_first());
        lemma_unescape_char(value[0], json_escaped(value.drop_first()));
        assert(seq![value[0]] + value.drop_first() =~= value);
    }
}

/// A JSON string the index writes stands for exactly the text it was made
/// from.
pub proof fn lemma_json_string_round_trip(value: Seq<char>)
    ensures
        json_string_value(json_string(value)) == Some(value),
{
    reveal(json_string);
    let literal = json_string(value);
    assert(literal.subrange(1, literal.len() - 1) =~= json_escaped(value));
    lemma_escaped_text_decodes(value);
}

/// The base of the file's own script reads the same on the `file` header as
/// on the declaration of its `class_name`: `class_name Foo extends Bar` and
/// `class_name Foo` above `extends Bar` report the same. (A script that
/// writes `extends` both on its `class_name` line and on a line of its own
/// is left out: it names two bases.)
pub proof fn lemma_class_and_file_extends_agree(tree: &SyntaxTree, source: Seq<char>, class_name: int)
    requires
        tree.wf_links(),
        tree.first_named_child_of_kind(0, GDScriptNodeKind::ClassName) == Some(class_name),
        tree.child_by_field(class_name, FieldName::Extends) is Some ==> tree.first_named_child_of_kind(
            0,
            GDScriptNodeKind::Extends,
        ) is None,
    ensures
        crate::index::collectors::declaration::class_extends(tree, source, class_name) == file_extends(tree, source),
{
    tree.lemma_kind_child_is_child(0, GDScriptNodeKind::ClassName, true, tree.child_count(0) as int);
    let m = choose|m: int| 0 <= m < tree.child_count(0) && #[trigger] tree.child(0, m) == class_name;
    assert(tree.node_links_wf(0));
    assert(tree.node(class_name).parent == Some(0usize));
    tree.lemma_kind_child_is_kind(0, GDScriptNodeKind::ClassName, true, tree.child_count(0) as int);
}

} // verus!

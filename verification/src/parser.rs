//! Parses GDScript with the tree-sitter grammar and copies the result into
//! the plain `SyntaxTree` model.
//!
//! Tree-sitter's trees are opaque to verified code, so what tree-sitter
//! reports of them is named: each reading of a node is a function of the
//! source the tree was built from and of the path of child positions from
//! the root to the node (the grammar is fixed). Every node handle carries
//! that source and path as ghost state, and each trusted reading states
//! that its result is the named value at them. The copy into the model is
//! verified against those names: it holds exactly the nodes tree-sitter
//! reports, with their data and children in order (`is_gdscript_copy`), and
//! it is made exactly when every node fits the model (`parses_into_model`).

use crate::node_kind::{
    GDScriptNodeKind, LOOKUP_TABLE_SIZE, NODE_KIND_MAP_LENGTH, kind_for_symbol, lookup_table,
    map_entry_known,
};
use crate::syntax::{FieldName, SyntaxNode, SyntaxTree, byte_offset, utf8_width};
use crate::text::{str_equals, str_to_chars};
use vstd::prelude::*;

verus! {

#[verifier::external_type_specification]
#[verifier::external_body]
pub struct ExParser(tree_sitter::Parser);

#[verifier::external_type_specification]
#[verifier::external_body]
pub struct ExTree(tree_sitter::Tree);

#[verifier::external_type_specification]
#[verifier::external_body]
pub struct ExNode<'tree>(tree_sitter::Node<'tree>);

// What tree-sitter reports of the tree it builds from a source, named over
// that source and the path from the root to a node: the positions of the
// children taken at each step. The grammar is fixed, so each is a function
// of the source and the path alone.

/// The grammar symbol of the node at `path`.
pub uninterp spec fn gdscript_kind_id_at(source: Seq<char>, path: Seq<usize>) -> u16;

/// Whether the node at `path` is itself a syntax error.
pub uninterp spec fn gdscript_is_error_at(source: Seq<char>, path: Seq<usize>) -> bool;

/// Whether the node at `path` or anything inside it is a syntax error.
pub uninterp spec fn gdscript_has_error_at(source: Seq<char>, path: Seq<usize>) -> bool;

/// Whether the node at `path` is named.
pub uninterp spec fn gdscript_is_named_at(source: Seq<char>, path: Seq<usize>) -> bool;

/// The byte offset where the node at `path` starts.
pub uninterp spec fn gdscript_start_byte_at(source: Seq<char>, path: Seq<usize>) -> usize;

/// The byte offset where the node at `path` ends.
pub uninterp spec fn gdscript_end_byte_at(source: Seq<char>, path: Seq<usize>) -> usize;

/// The zero-based row and byte column where the node at `path` starts.
pub uninterp spec fn gdscript_start_point_at(source: Seq<char>, path: Seq<usize>) -> (usize, usize);

/// The zero-based row and byte column where the node at `path` ends.
pub uninterp spec fn gdscript_end_point_at(source: Seq<char>, path: Seq<usize>) -> (usize, usize);

/// The number of children of the node at `path`, named and anonymous.
pub uninterp spec fn gdscript_child_count_at(source: Seq<char>, path: Seq<usize>) -> usize;

/// Whether the node at `path` has a child at position `index`.
pub uninterp spec fn gdscript_child_exists_at(source: Seq<char>, path: Seq<usize>, index: usize) -> bool;

/// The name of the field the child at position `index` of the node at `path`
/// fills, if it fills one.
pub uninterp spec fn gdscript_field_name_at(source: Seq<char>, path: Seq<usize>, index: u32) -> Option<Seq<char>>;

/// A tree-sitter parser holding the GDScript grammar. Only
/// `gdscript_parser` makes one, after tree-sitter accepted the grammar.
pub struct GDScriptParser {
    parser: tree_sitter::Parser,
}

/// The syntax tree tree-sitter built from `source`.
pub struct GDScriptTree {
    tree: tree_sitter::Tree,
    source: Ghost<Seq<char>>,
}

impl GDScriptTree {
    /// The source the tree was built from.
    pub closed spec fn source(&self) -> Seq<char> {
        self.source@
    }
}

/// A node of the tree tree-sitter built from `source`, reached from the root
/// by `path`.
pub struct GDScriptNode<'tree> {
    node: tree_sitter::Node<'tree>,
    source: Ghost<Seq<char>>,
    path: Ghost<Seq<usize>>,
}

impl<'tree> GDScriptNode<'tree> {
    /// The source of the tree the node belongs to.
    pub closed spec fn source(&self) -> Seq<char> {
        self.source@
    }

    /// The positions of the children taken from the root to the node.
    pub closed spec fn path(&self) -> Seq<usize> {
        self.path@
    }
}

/// Creates a parser: `tree_sitter::Parser::new`. Nothing is claimed of it.
#[verifier::external_body]
fn new_parser() -> tree_sitter::Parser {
    tree_sitter::Parser::new()
}

/// Gives the parser the GDScript grammar: `tree_sitter::Parser::set_language`
/// with the language of `tree_sitter_gdscript`. The contract claims that
/// tree-sitter accepts it: it refuses a language only when the language's
/// ABI version lies outside `MIN_COMPATIBLE_LANGUAGE_VERSION..=LANGUAGE_VERSION`
/// (13 to 15 in this tree-sitter), and the grammar is generated with version
/// 14.
#[verifier::external_body]
fn set_gdscript_language(parser: &mut tree_sitter::Parser) -> (accepted: bool)
    ensures
        accepted,
{
    parser.set_language(&tree_sitter_gdscript::LANGUAGE.into()).is_ok()
}

/// Makes a parser holding the GDScript grammar.
fn gdscript_parser() -> (parser: Option<GDScriptParser>)
    ensures
        parser is Some,
{
    let mut parser = new_parser();
    if set_gdscript_language(&mut parser) {
        Some(GDScriptParser { parser })
    } else {
        None
    }
}

/// Parses `source`: `tree_sitter::Parser::parse` with no previous tree. The
/// contract claims a tree built from `source`: tree-sitter returns None only
/// when no language is set, when a timeout expired or when a cancellation
/// flag was raised, and a `GDScriptParser` holds the grammar and sets
/// neither.
#[verifier::external_body]
fn parse_text(parser: &mut GDScriptParser, source: &str) -> (parsed: Option<GDScriptTree>)
    ensures
        parsed is Some,
        parsed matches Some(t) ==> t.source() == source@,
{
    match parser.parser.parse(source, None) {
        Some(tree) => Some(GDScriptTree { tree, source: Ghost(source@) }),
        None => None,
    }
}

/// The root node of a tree: `tree_sitter::Tree::root_node`; its path is
/// empty.
#[verifier::external_body]
fn root_node<'tree>(tree: &'tree GDScriptTree) -> (root: GDScriptNode<'tree>)
    ensures
        root.source() == tree.source(),
        root.path() == Seq::<usize>::empty(),
{
    GDScriptNode { node: tree.tree.root_node(), source: Ghost(tree.source@), path: Ghost(Seq::empty()) }
}

/// Whether the node or anything inside it is a syntax error:
/// `tree_sitter::Node::has_error`.
#[verifier::external_body]
fn node_has_error(node: &GDScriptNode) -> (result: bool)
    ensures
        result == gdscript_has_error_at(node.source(), node.path()),
{
    node.node.has_error()
}

/// Whether the node itself is a syntax error: `tree_sitter::Node::is_error`.
#[verifier::external_body]
fn node_is_error(node: &GDScriptNode) -> (result: bool)
    ensures
        result == gdscript_is_error_at(node.source(), node.path()),
{
    node.node.is_error()
}

/// Whether the node is named: `tree_sitter::Node::is_named`.
#[verifier::external_body]
fn node_is_named(node: &GDScriptNode) -> (result: bool)
    ensures
        result == gdscript_is_named_at(node.source(), node.path()),
{
    node.node.is_named()
}

/// The grammar symbol of the node: `tree_sitter::Node::kind_id`.
#[verifier::external_body]
fn node_kind_id(node: &GDScriptNode) -> (result: u16)
    ensures
        result == gdscript_kind_id_at(node.source(), node.path()),
{
    node.node.kind_id()
}

/// The byte offset where the node starts: `tree_sitter::Node::start_byte`.
#[verifier::external_body]
fn node_start_byte(node: &GDScriptNode) -> (result: usize)
    ensures
        result == gdscript_start_byte_at(node.source(), node.path()),
{
    node.node.start_byte()
}

/// The byte offset where the node ends: `tree_sitter::Node::end_byte`.
#[verifier::external_body]
fn node_end_byte(node: &GDScriptNode) -> (result: usize)
    ensures
        result == gdscript_end_byte_at(node.source(), node.path()),
{
    node.node.end_byte()
}

/// The zero-based row and byte column where the node starts:
/// `tree_sitter::Node::start_position`.
#[verifier::external_body]
fn node_start_point(node: &GDScriptNode) -> (result: (usize, usize))
    ensures
        result == gdscript_start_point_at(node.source(), node.path()),
{
    let point = node.node.start_position();
    (point.row, point.column)
}

/// The zero-based row and byte column where the node ends:
/// `tree_sitter::Node::end_position`.
#[verifier::external_body]
fn node_end_point(node: &GDScriptNode) -> (result: (usize, usize))
    ensures
        result == gdscript_end_point_at(node.source(), node.path()),
{
    let point = node.node.end_position();
    (point.row, point.column)
}

/// The number of children, named and anonymous:
/// `tree_sitter::Node::child_count`. Tree-sitter counts children in a `u32`.
#[verifier::external_body]
fn node_child_count(node: &GDScriptNode) -> (count: usize)
    ensures
        count == gdscript_child_count_at(node.source(), node.path()),
        count <= u32::MAX,
{
    node.node.child_count()
}

/// The child at position `index`: `tree_sitter::Node::child`; its path is
/// the node's followed by `index`. Tree-sitter takes the position as a
/// `u32`, so larger positions are not asked for.
#[verifier::external_body]
fn node_child<'tree>(node: &GDScriptNode<'tree>, index: usize) -> (child: Option<GDScriptNode<'tree>>)
    requires
        index <= u32::MAX,
    ensures
        child is Some == gdscript_child_exists_at(node.source(), node.path(), index),
        child matches Some(c) ==> c.source() == node.source() && c.path() == node.path().push(index),
{
    match node.node.child(index) {
        Some(c) => Some(GDScriptNode { node: c, source: Ghost(node.source@), path: Ghost(node.path@.push(index)) }),
        None => None,
    }
}

/// The name of the field that the child at position `index` fills:
/// `tree_sitter::Node::field_name_for_child`.
#[verifier::external_body]
fn node_field_name_for_child(node: &GDScriptNode, index: u32) -> (name: Option<&'static str>)
    ensures
        match name {
            Some(n) => gdscript_field_name_at(node.source(), node.path(), index) == Some(n@),
            None => gdscript_field_name_at(node.source(), node.path(), index) is None,
        },
{
    node.node.field_name_for_child(index)
}

/// The field spelled `name`, among those the index reads.
pub open spec fn field_named(name: Seq<char>) -> Option<FieldName> {
    if name == "name"@ {
        Some(FieldName::Name)
    } else if name == "left"@ {
        Some(FieldName::Left)
    } else if name == "right"@ {
        Some(FieldName::Right)
    } else if name == "op"@ {
        Some(FieldName::Op)
    } else if name == "value"@ {
        Some(FieldName::Value)
    } else if name == "condition"@ {
        Some(FieldName::Condition)
    } else if name == "type"@ {
        Some(FieldName::Type)
    } else if name == "return_type"@ {
        Some(FieldName::ReturnType)
    } else if name == "parameters"@ {
        Some(FieldName::Parameters)
    } else if name == "body"@ {
        Some(FieldName::Body)
    } else if name == "arguments"@ {
        Some(FieldName::Arguments)
    } else if name == "static"@ {
        Some(FieldName::Static)
    } else if name == "extends"@ {
        Some(FieldName::Extends)
    } else {
        None
    }
}

/// Reads a field name of the grammar.
pub fn field_from_name(name: &str) -> (field: Option<FieldName>)
    ensures
        field == field_named(name@),
{
    if str_equals(name, "name") {
        Some(FieldName::Name)
    } else if str_equals(name, "left") {
        Some(FieldName::Left)
    } else if str_equals(name, "right") {
        Some(FieldName::Right)
    } else if str_equals(name, "op") {
        Some(FieldName::Op)
    } else if str_equals(name, "value") {
        Some(FieldName::Value)
    } else if str_equals(name, "condition") {
        Some(FieldName::Condition)
    } else if str_equals(name, "type") {
        Some(FieldName::Type)
    } else if str_equals(name, "return_type") {
        Some(FieldName::ReturnType)
    } else if str_equals(name, "parameters") {
        Some(FieldName::Parameters)
    } else if str_equals(name, "body") {
        Some(FieldName::Body)
    } else if str_equals(name, "arguments") {
        Some(FieldName::Arguments)
    } else if str_equals(name, "static") {
        Some(FieldName::Static)
    } else if str_equals(name, "extends") {
        Some(FieldName::Extends)
    } else {
        None
    }
}

/// A parsed source: its characters, the syntax tree and whether the tree
/// holds syntax errors.
pub struct ParsedSource {
    pub source: Vec<char>,
    pub tree: SyntaxTree,
    pub has_parse_errors: bool,
}

impl ParsedSource {
    /// The tree is well formed and its extents agree with the source.
    pub open spec fn wf(&self) -> bool {
        &&& self.tree.wf(self.source@.len())
        &&& self.tree.matches_source(self.source@)
    }
}

pub fn char_utf8_width(c: char) -> (width: usize)
    ensures
        width == utf8_width(c),
{
    let v = c as u32;
    if v < 0x80 {
        1
    } else if v < 0x800 {
        2
    } else if v < 0x10000 {
        3
    } else {
        4
    }
}

/// Maps byte offsets of the UTF-8 encoding of `source` to character
/// offsets: entry `b` is the character that starts at byte `b` (the length
/// of `source` for the byte just past its end), or `usize::MAX` when no
/// character starts there. None exactly when the encoding is too long for
/// its length to be an entry.
pub fn build_char_index_of_byte(source: &Vec<char>) -> (table: Option<Vec<usize>>)
    ensures
        table is Some <==> byte_offset(source@, source@.len() as int) < usize::MAX,
        table matches Some(t) ==> {
            &&& t@.len() == byte_offset(source@, source@.len() as int) + 1
            &&& forall|k: int| 0 <= k <= source@.len() ==> #[trigger] t@[byte_offset(source@, k) as int] == k
            &&& forall|b: int|
                0 <= b < t@.len() && #[trigger] t@[b] != usize::MAX ==> t@[b] <= source@.len()
                    && byte_offset(source@, t@[b] as int) == b
        },
{
    let mut offsets: Vec<usize> = Vec::new();
    offsets.push(0);
    let mut total: usize = 0;
    let mut index: usize = 0;
    while index < source.len()
        invariant
            index <= source@.len(),
            offsets@.len() == index + 1,
            total == byte_offset(source@, index as int),
            forall|k: int| 0 <= k <= index ==> #[trigger] offsets@[k] == byte_offset(source@, k),
        decreases source@.len() - index,
    {
        let width = char_utf8_width(source[index]);
        if total > usize::MAX - width {
            proof {
                lemma_byte_offset_monotone(source@, index + 1, source@.len() as int);
            }
            return None;
        }
        total = total + width;
        offsets.push(total);
        index = index + 1;
    }
    if total == usize::MAX {
        return None;
    }
    let mut table: Vec<usize> = Vec::new();
    let mut filled: usize = 0;
    while filled <= total
        invariant
            filled <= total + 1,
            total < usize::MAX,
            table@.len() == filled,
            forall|b: int| 0 <= b < filled ==> table@[b] == usize::MAX,
        decreases total + 1 - filled,
    {
        table.push(usize::MAX);
        filled = filled + 1;
    }
    let mut position: usize = 0;
    while position < offsets.len()
        invariant
            position <= offsets@.len(),
            offsets@.len() == source@.len() + 1,
            table@.len() == total + 1,
            total == byte_offset(source@, source@.len() as int),
            forall|k: int| 0 <= k < offsets@.len() ==> #[trigger] offsets@[k] == byte_offset(source@, k),
            forall|k: int| 0 <= k < position ==> #[trigger] table@[byte_offset(source@, k) as int] == k,
            forall|b: int|
                0 <= b < table@.len() && #[trigger] table@[b] != usize::MAX ==> table@[b]
                    <= source@.len() && byte_offset(source@, table@[b] as int) == b,
        decreases offsets@.len() - position,
    {
        let offset = offsets[position];
        proof {
            lemma_byte_offset_monotone(source@, position as int, source@.len() as int);
            assert forall|k: int| 0 <= k < position implies byte_offset(source@, k) < offset by {
                lemma_byte_offset_increasing(source@, k, position as int);
            }
        }
        table.set(offset, position);
        position = position + 1;
    }
    Some(table)
}

proof fn lemma_byte_offset_monotone(text: Seq<char>, i: int, j: int)
    requires
        0 <= i <= j,
    ensures
        byte_offset(text, i) <= byte_offset(text, j),
    decreases j - i,
{
    if i < j {
        lemma_byte_offset_monotone(text, i, j - 1);
    }
}

/// Every character takes at least one byte.
proof fn lemma_byte_offset_increasing(text: Seq<char>, i: int, j: int)
    requires
        0 <= i < j,
    ensures
        byte_offset(text, i) < byte_offset(text, j),
    decreases j - i,
{
    if i < j - 1 {
        lemma_byte_offset_increasing(text, i, j - 1);
    }
}

/// The character that starts at byte `byte`, by the table `table` of
/// `build_char_index_of_byte`; None when no character starts there.
pub open spec fn char_of_byte_in(table: Seq<usize>, byte: usize) -> Option<usize> {
    if byte < table.len() && table[byte as int] != usize::MAX {
        Some(table[byte as int])
    } else {
        None
    }
}

/// Looks up the character that starts at byte `byte`.
fn char_at_byte(table: &Vec<usize>, byte: usize) -> (index: Option<usize>)
    ensures
        index == char_of_byte_in(table@, byte),
{
    if byte < table.len() && table[byte] != usize::MAX {
        Some(table[byte])
    } else {
        None
    }
}

/// Whether a node read from tree-sitter fits the model: every position is
/// below `usize::MAX`, both byte offsets start characters, and the start
/// comes no later than the end.
pub open spec fn reading_fits(
    start: (usize, usize),
    end: (usize, usize),
    start_byte: usize,
    end_byte: usize,
    table: Seq<usize>,
) -> bool {
    &&& start.0 != usize::MAX
    &&& start.1 != usize::MAX
    &&& end.0 != usize::MAX
    &&& end.1 != usize::MAX
    &&& char_of_byte_in(table, start_byte) is Some
    &&& char_of_byte_in(table, end_byte) is Some
    &&& char_of_byte_in(table, start_byte)->0 <= char_of_byte_in(table, end_byte)->0
}

/// The model node for what was read of a tree-sitter node, links aside:
/// None exactly when the reading does not fit the model.
fn node_from_reading(
    kind: GDScriptNodeKind,
    is_named: bool,
    start: (usize, usize),
    end: (usize, usize),
    start_byte: usize,
    end_byte: usize,
    char_of_byte: &Vec<usize>,
) -> (data: Option<SyntaxNode>)
    ensures
        data is Some <==> reading_fits(start, end, start_byte, end_byte, char_of_byte@),
        data matches Some(n) ==> {
            &&& n.kind == kind
            &&& n.is_named == is_named
            &&& n.field is None
            &&& n.parent is None
            &&& n.position == 0
            &&& n.children@.len() == 0
            &&& n.start_row == start.0
            &&& n.start_column == start.1
            &&& n.end_row == end.0
            &&& n.end_column == end.1
            &&& n.start_byte == start_byte
            &&& n.end_byte == end_byte
            &&& Some(n.start_char) == char_of_byte_in(char_of_byte@, start_byte)
            &&& Some(n.end_char) == char_of_byte_in(char_of_byte@, end_byte)
        },
{
    let (start_row, start_column) = start;
    let (end_row, end_column) = end;
    if start_row == usize::MAX || start_column == usize::MAX || end_row == usize::MAX || end_column
        == usize::MAX {
        return None;
    }
    let start_char = match char_at_byte(char_of_byte, start_byte) {
        Some(c) => c,
        None => return None,
    };
    let end_char = match char_at_byte(char_of_byte, end_byte) {
        Some(c) => c,
        None => return None,
    };
    if start_char > end_char {
        return None;
    }
    Some(
        SyntaxNode {
            kind,
            is_named,
            field: None,
            parent: None,
            position: 0,
            children: Vec::new(),
            start_row,
            start_column,
            end_row,
            end_column,
            start_byte,
            end_byte,
            start_char,
            end_char,
        },
    )
}

/// `path` leads from the root to a node of the tree tree-sitter builds from
/// `source`: each step takes a child that exists.
pub open spec fn is_tree_path(source: Seq<char>, path: Seq<usize>) -> bool
    decreases path.len(),
{
    path.len() == 0 || {
        let parent = path.drop_last();
        &&& is_tree_path(source, parent)
        &&& path.last() < gdscript_child_count_at(source, parent)
        &&& gdscript_child_exists_at(source, parent, path.last())
    }
}

/// The paths of the children of the node at `path`, from position `k` on,
/// in order.
pub open spec fn child_paths_from(source: Seq<char>, path: Seq<usize>, k: int) -> Seq<Seq<usize>>
    decreases gdscript_child_count_at(source, path) - k,
{
    if k < 0 || k >= gdscript_child_count_at(source, path) {
        Seq::empty()
    } else {
        let rest = child_paths_from(source, path, k + 1);
        if gdscript_child_exists_at(source, path, k as usize) {
            seq![path.push(k as usize)] + rest
        } else {
            rest
        }
    }
}

/// The paths of the children of the node at `path`, in order.
pub open spec fn child_paths(source: Seq<char>, path: Seq<usize>) -> Seq<Seq<usize>> {
    child_paths_from(source, path, 0)
}

/// The field the node at `path` fills in its parent, among those the index
/// reads.
pub open spec fn field_of_path(source: Seq<char>, path: Seq<usize>) -> Option<FieldName> {
    if path.len() == 0 {
        None
    } else {
        match gdscript_field_name_at(source, path.drop_last(), path.last() as u32) {
            Some(name) => field_named(name),
            None => None,
        }
    }
}

/// Byte `b` is where a character of `source` starts, or just past its end.
pub open spec fn char_boundary(source: Seq<char>, b: int) -> bool {
    exists|k: int| 0 <= k <= source.len() && #[trigger] byte_offset(source, k) == b
}

/// What tree-sitter reports of the node at `path` fits the model: every
/// position is below `usize::MAX`, both byte offsets fall on character
/// boundaries, and the start comes no later than the end.
pub open spec fn node_fits(source: Seq<char>, path: Seq<usize>) -> bool {
    let start = gdscript_start_point_at(source, path);
    let end = gdscript_end_point_at(source, path);
    &&& start.0 != usize::MAX
    &&& start.1 != usize::MAX
    &&& end.0 != usize::MAX
    &&& end.1 != usize::MAX
    &&& char_boundary(source, gdscript_start_byte_at(source, path) as int)
    &&& char_boundary(source, gdscript_end_byte_at(source, path) as int)
    &&& gdscript_start_byte_at(source, path) <= gdscript_end_byte_at(source, path)
}

/// Every node of the tree of `source` fits the model.
pub open spec fn model_fits(source: Seq<char>) -> bool {
    forall|path: Seq<usize>| #[trigger] is_tree_path(source, path) ==> node_fits(source, path)
}

/// The tree of `source` has at least `n` nodes.
pub open spec fn has_at_least_nodes(source: Seq<char>, n: nat) -> bool {
    exists|paths: Seq<Seq<usize>>|
        #![trigger paths.len()]
        paths.len() >= n && paths.no_duplicates() && forall|k: int|
            0 <= k < paths.len() ==> is_tree_path(source, #[trigger] paths[k])
}

/// Model node `n` holds what tree-sitter reports of the node at `path`; its
/// character offsets are those of its byte offsets (see `matches_source`).
pub open spec fn node_copies(n: SyntaxNode, source: Seq<char>, kinds: Seq<GDScriptNodeKind>, path: Seq<usize>) -> bool {
    &&& n.kind == kind_for_symbol(kinds, gdscript_kind_id_at(source, path), gdscript_is_error_at(source, path))
    &&& n.is_named == gdscript_is_named_at(source, path)
    &&& (n.start_row, n.start_column) == gdscript_start_point_at(source, path)
    &&& (n.end_row, n.end_column) == gdscript_end_point_at(source, path)
    &&& n.start_byte == gdscript_start_byte_at(source, path)
    &&& n.end_byte == gdscript_end_byte_at(source, path)
    &&& n.field == field_of_path(source, path)
}

/// The paths of the children of node `i`, by `labels`.
pub open spec fn child_labels(tree: SyntaxTree, labels: Seq<Seq<usize>>, i: int) -> Seq<Seq<usize>> {
    tree.children(i).map_values(|c: usize| labels[c as int])
}

/// `tree` copies the tree tree-sitter builds from `source`, node `i` being
/// the node at `labels[i]`: node 0 is the root, each node holds what
/// tree-sitter reports of its node, and the children of each node are the
/// children tree-sitter reports, in order.
pub open spec fn copies_with(tree: SyntaxTree, source: Seq<char>, kinds: Seq<GDScriptNodeKind>, labels: Seq<Seq<usize>>) -> bool {
    &&& tree.len() > 0
    &&& labels.len() == tree.len()
    &&& labels[0] == Seq::<usize>::empty()
    &&& forall|i: int|
        0 <= i < tree.len() ==> {
            &&& is_tree_path(source, #[trigger] labels[i])
            &&& node_copies(tree.nodes@[i], source, kinds, labels[i])
            &&& child_labels(tree, labels, i) == child_paths(source, labels[i])
        }
}

/// `tree` copies the tree tree-sitter builds from `source`, with node kinds
/// read through `kinds`.
pub open spec fn is_gdscript_copy(tree: SyntaxTree, source: Seq<char>, kinds: Seq<GDScriptNodeKind>) -> bool {
    exists|labels: Seq<Seq<usize>>| copies_with(tree, source, kinds, labels)
}

/// `table` is the table `build_char_index_of_byte` makes for `source`.
pub open spec fn is_char_table(source: Seq<char>, table: Seq<usize>) -> bool {
    &&& byte_offset(source, source.len() as int) < usize::MAX
    &&& table.len() == byte_offset(source, source.len() as int) + 1
    &&& forall|k: int| 0 <= k <= source.len() ==> #[trigger] table[byte_offset(source, k) as int] == k
    &&& forall|b: int|
        0 <= b < table.len() && #[trigger] table[b] != usize::MAX ==> table[b] <= source.len()
            && byte_offset(source, table[b] as int) == b
}

/// A character is at least one byte, so there are no more characters than
/// bytes.
proof fn lemma_byte_offset_at_least_index(text: Seq<char>, k: int)
    requires
        0 <= k,
    ensures
        byte_offset(text, k) >= k,
    decreases k,
{
    if k > 0 {
        lemma_byte_offset_at_least_index(text, k - 1);
    }
}

/// Looking a byte up in the table finds a character exactly at character
/// boundaries.
proof fn lemma_char_table_lookup(source: Seq<char>, table: Seq<usize>, b: usize)
    requires
        is_char_table(source, table),
    ensures
        char_of_byte_in(table, b) is Some <==> char_boundary(source, b as int),
        char_of_byte_in(table, b) matches Some(c) ==> c <= source.len() && byte_offset(source, c as int) == b,
{
    if char_boundary(source, b as int) {
        let k = choose|k: int| 0 <= k <= source.len() && #[trigger] byte_offset(source, k) == b;
        lemma_byte_offset_monotone(source, k, source.len() as int);
        lemma_byte_offset_at_least_index(source, source.len() as int);
        assert(table[byte_offset(source, k) as int] == k);
    }
    if char_of_byte_in(table, b) is Some {
        assert(table[b as int] != usize::MAX);
        assert(byte_offset(source, table[b as int] as int) == b);
    }
}

/// What one tree-sitter node contributes to the model, links and field
/// aside. Whether it fits the model is `node_from_reading`'s decision on
/// what tree-sitter reports of it.
fn read_node(
    node: &GDScriptNode,
    kinds: &Vec<GDScriptNodeKind>,
    char_of_byte: &Vec<usize>,
) -> (data: Option<SyntaxNode>)
    requires
        kinds@.len() == LOOKUP_TABLE_SIZE,
        is_char_table(node.source(), char_of_byte@),
    ensures
        data is Some == node_fits(node.source(), node.path()),
        data matches Some(n) ==> {
            &&& n.children@.len() == 0
            &&& n.parent is None
            &&& n.position == 0
            &&& n.start_char <= n.end_char <= node.source().len()
            &&& n.start_row < usize::MAX
            &&& n.start_column < usize::MAX
            &&& n.end_row < usize::MAX
            &&& n.end_column < usize::MAX
            &&& byte_offset(node.source(), n.start_char as int) == n.start_byte
            &&& byte_offset(node.source(), n.end_char as int) == n.end_byte
            &&& node_copies(SyntaxNode { field: field_of_path(node.source(), node.path()), ..n }, node.source(), kinds@, node.path())
        },
{
    let ghost source = node.source();
    let ghost path = node.path();
    let is_error = node_is_error(node);
    let symbol = node_kind_id(node);
    let kind = GDScriptNodeKind::kind_from_symbol(kinds, symbol, is_error);
    let is_named = node_is_named(node);
    let start = node_start_point(node);
    let end = node_end_point(node);
    let start_byte = node_start_byte(node);
    let end_byte = node_end_byte(node);
    let data = node_from_reading(kind, is_named, start, end, start_byte, end_byte, char_of_byte);
    proof {
        lemma_char_table_lookup(source, char_of_byte@, start_byte);
        lemma_char_table_lookup(source, char_of_byte@, end_byte);
        let s = char_of_byte_in(char_of_byte@, start_byte);
        let e = char_of_byte_in(char_of_byte@, end_byte);
        if s is Some && e is Some {
            if s->0 <= e->0 {
                lemma_byte_offset_monotone(source, s->0 as int, e->0 as int);
            } else {
                lemma_byte_offset_increasing(source, e->0 as int, s->0 as int);
            }
        }
    }
    data
}

/// The extent invariants of every node, in the form the copy maintains.
pub open spec fn extents_agree(tree: SyntaxTree, source: Seq<char>) -> bool {
    &&& forall|i: int| 0 <= i < tree.len() ==> #[trigger] tree.node_extent_wf(i, source.len())
    &&& tree.matches_source(source)
}

/// A work stack entry: the path of the node to copy, and its parent in the
/// model.
pub open spec fn entry_label<'tree>(entry: (GDScriptNode<'tree>, usize, Option<FieldName>)) -> (Seq<usize>, usize) {
    (entry.0.path(), entry.1)
}

pub open spec fn stack_labels<'tree>(stack: Seq<(GDScriptNode<'tree>, usize, Option<FieldName>)>) -> Seq<(Seq<usize>, usize)> {
    stack.map_values(|entry: (GDScriptNode<'tree>, usize, Option<FieldName>)| entry_label(entry))
}

/// The entries `push_children` makes for the children of the node at `path`
/// at positions `r` and above, bottom of the stack first: the last child
/// lies deepest, so that the first is popped first.
pub open spec fn child_entries_from(source: Seq<char>, path: Seq<usize>, parent: usize, r: int) -> Seq<(Seq<usize>, usize)>
    decreases gdscript_child_count_at(source, path) - r,
{
    if r < 0 || r >= gdscript_child_count_at(source, path) {
        Seq::empty()
    } else {
        let above = child_entries_from(source, path, parent, r + 1);
        if gdscript_child_exists_at(source, path, r as usize) {
            above.push((path.push(r as usize), parent))
        } else {
            above
        }
    }
}

/// The paths of the entries waiting for parent `i`, in the order they will
/// be popped.
pub open spec fn pending(entries: Seq<(Seq<usize>, usize)>, i: usize) -> Seq<Seq<usize>>
    decreases entries.len(),
{
    if entries.len() == 0 {
        Seq::empty()
    } else {
        let rest = pending(entries.drop_last(), i);
        if entries.last().1 == i {
            seq![entries.last().0] + rest
        } else {
            rest
        }
    }
}

/// The entries for the children of a node wait for its parent in the order
/// of the children, ahead of what already waited.
proof fn lemma_pending_children(
    below: Seq<(Seq<usize>, usize)>,
    source: Seq<char>,
    path: Seq<usize>,
    parent: usize,
    r: int,
    i: usize,
)
    requires
        0 <= r,
    ensures
        pending(below + child_entries_from(source, path, parent, r), i) == (if i == parent {
            child_paths_from(source, path, r)
        } else {
            Seq::<Seq<usize>>::empty()
        }) + pending(below, i),
    decreases gdscript_child_count_at(source, path) - r,
{
    let all = below + child_entries_from(source, path, parent, r);
    if r >= gdscript_child_count_at(source, path) {
        assert(all =~= below);
        assert(child_paths_from(source, path, r) =~= Seq::<Seq<usize>>::empty());
    } else {
        lemma_pending_children(below, source, path, parent, r + 1, i);
        let above = child_entries_from(source, path, parent, r + 1);
        if gdscript_child_exists_at(source, path, r as usize) {
            assert(all.drop_last() =~= below + above);
            assert(all.last() == (path.push(r as usize), parent));
        } else {
            assert(all =~= below + above);
        }
    }
}

/// The field spelled `name`, when there is a name.
pub open spec fn optional_field_named(name: Option<&str>) -> Option<FieldName> {
    match name {
        Some(n) => field_named(n@),
        None => None,
    }
}

/// Pushes a child tree-sitter reported, if it reported one, with its parent
/// `index` in the model and the field it fills.
fn push_child<'tree>(
    stack: &mut Vec<(GDScriptNode<'tree>, usize, Option<FieldName>)>,
    child: Option<GDScriptNode<'tree>>,
    index: usize,
    field_name: Option<&str>,
)
    ensures
        match child {
            Some(c) => final(stack)@ == old(stack)@.push((c, index, optional_field_named(field_name))),
            None => final(stack)@ == old(stack)@,
        },
{
    match child {
        Some(c) => {
            let field = match field_name {
                Some(name) => field_from_name(name),
                None => None,
            };
            stack.push((c, index, field));
        },
        None => {},
    }
}

/// Pushes the children of the tree-sitter node that became model node
/// `index` onto the work stack, last child first, so that they are popped in
/// document order.
fn push_children<'tree>(
    node: &GDScriptNode<'tree>,
    index: usize,
    stack: &mut Vec<(GDScriptNode<'tree>, usize, Option<FieldName>)>,
)
    ensures
        stack_labels(final(stack)@) == stack_labels(old(stack)@) + child_entries_from(
            node.source(),
            node.path(),
            index,
            0,
        ),
        final(stack)@.len() >= old(stack)@.len(),
        forall|k: int| 0 <= k < old(stack)@.len() ==> #[trigger] final(stack)@[k] == old(stack)@[k],
        forall|k: int|
            old(stack)@.len() <= k < final(stack)@.len() ==> {
                &&& (#[trigger] final(stack)@[k]).0.source() == node.source()
                &&& final(stack)@[k].2 == field_of_path(node.source(), final(stack)@[k].0.path())
            },
{
    let ghost source = node.source();
    let ghost path = node.path();
    let count = node_child_count(node);
    let mut remaining: usize = count;
    assert(stack_labels(stack@) =~= stack_labels(old(stack)@) + child_entries_from(source, path, index, count as int));
    while remaining > 0
        invariant
            remaining <= count,
            count <= u32::MAX,
            count == gdscript_child_count_at(source, path),
            source == node.source(),
            path == node.path(),
            stack_labels(stack@) == stack_labels(old(stack)@) + child_entries_from(source, path, index, remaining as int),
            stack@.len() >= old(stack)@.len(),
            forall|k: int| 0 <= k < old(stack)@.len() ==> #[trigger] stack@[k] == old(stack)@[k],
            forall|k: int|
                old(stack)@.len() <= k < stack@.len() ==> {
                    &&& (#[trigger] stack@[k]).0.source() == source
                    &&& stack@[k].2 == field_of_path(source, stack@[k].0.path())
                },
        decreases remaining,
    {
        remaining = remaining - 1;
        let ghost before = stack@;
        let child = node_child(node, remaining);
        let field_name = if child.is_some() {
            node_field_name_for_child(node, remaining as u32)
        } else {
            None
        };
        let ghost pushed = child;
        push_child(stack, child, index, field_name);
        proof {
            match pushed {
                Some(c) => {
                    assert(stack_labels(stack@) =~= stack_labels(before).push(entry_label(stack@.last())));
                    assert(c.path().drop_last() =~= path);
                },
                None => {
                    assert(stack_labels(stack@) =~= stack_labels(before));
                },
            }
        }
    }
}

/// The entries for the children of a node: each is the path of a child
/// that exists, below its parent, positions falling from the bottom of the
/// stack to the top.
proof fn lemma_child_entries(source: Seq<char>, path: Seq<usize>, parent: usize, r: int)
    requires
        0 <= r,
    ensures
        forall|k: int|
            0 <= k < child_entries_from(source, path, parent, r).len() ==> {
                let entry = #[trigger] child_entries_from(source, path, parent, r)[k];
                &&& entry.1 == parent
                &&& entry.0.len() == path.len() + 1
                &&& entry.0.drop_last() == path
                &&& r <= entry.0.last() < gdscript_child_count_at(source, path)
                &&& gdscript_child_exists_at(source, path, entry.0.last())
            },
        forall|k1: int, k2: int|
            0 <= k1 < k2 < child_entries_from(source, path, parent, r).len() ==> child_entries_from(
                source,
                path,
                parent,
                r,
            )[k1].0.last() > child_entries_from(source, path, parent, r)[k2].0.last(),
    decreases gdscript_child_count_at(source, path) - r,
{
    if r < gdscript_child_count_at(source, path) {
        lemma_child_entries(source, path, parent, r + 1);
        let above = child_entries_from(source, path, parent, r + 1);
        let all = child_entries_from(source, path, parent, r);
        if gdscript_child_exists_at(source, path, r as usize) {
            let child = path.push(r as usize);
            assert(child.drop_last() =~= path);
            assert forall|k: int| 0 <= k < all.len() implies {
                let entry = #[trigger] all[k];
                &&& entry.1 == parent
                &&& entry.0.len() == path.len() + 1
                &&& entry.0.drop_last() == path
                &&& r <= entry.0.last() < gdscript_child_count_at(source, path)
                &&& gdscript_child_exists_at(source, path, entry.0.last())
            } by {
                if k < above.len() {
                    assert(all[k] == above[k]);
                }
            }
            assert forall|k1: int, k2: int| 0 <= k1 < k2 < all.len() implies all[k1].0.last() > all[k2].0.last() by {
                assert(all[k1] == above[k1]);
                if k2 < above.len() {
                    assert(all[k2] == above[k2]);
                }
            }
        }
    }
}

/// Entries none of which waits for `i` leave nothing pending for it.
proof fn lemma_pending_none(entries: Seq<(Seq<usize>, usize)>, i: usize)
    requires
        forall|k: int| 0 <= k < entries.len() ==> (#[trigger] entries[k]).1 != i,
    ensures
        pending(entries, i) == Seq::<Seq<usize>>::empty(),
    decreases entries.len(),
{
    if entries.len() > 0 {
        lemma_pending_none(entries.drop_last(), i);
    }
}

/// Distinct paths that all lead to nodes show that many nodes.
proof fn lemma_distinct_paths_count(source: Seq<char>, labels: Seq<Seq<usize>>)
    requires
        forall|i: int, j: int| 0 <= i < j < labels.len() ==> #[trigger] labels[i] != #[trigger] labels[j],
        forall|k: int| 0 <= k < labels.len() ==> is_tree_path(source, #[trigger] labels[k]),
    ensures
        has_at_least_nodes(source, labels.len()),
{
    assert(labels.no_duplicates()) by {
        assert forall|i: int, j: int| 0 <= i < labels.len() && 0 <= j < labels.len() && i != j implies labels[i]
            != labels[j] by {
            if i < j {
                assert(labels[i] != labels[j]);
            } else {
                assert(labels[j] != labels[i]);
            }
        }
    }
    assert(labels.len() >= labels.len());
}

/// A child that exists is among the child paths from any position up to
/// its own.
proof fn lemma_child_in_child_paths(source: Seq<char>, path: Seq<usize>, k: int, r: usize)
    requires
        0 <= k <= r < gdscript_child_count_at(source, path),
        gdscript_child_exists_at(source, path, r),
    ensures
        child_paths_from(source, path, k).contains(path.push(r)),
    decreases r - k,
{
    let all = child_paths_from(source, path, k);
    if k < r {
        lemma_child_in_child_paths(source, path, k + 1, r);
        let rest = child_paths_from(source, path, k + 1);
        let m = choose|m: int| 0 <= m < rest.len() && rest[m] == path.push(r);
        if gdscript_child_exists_at(source, path, k as usize) {
            assert(all[m + 1] == path.push(r));
        } else {
            assert(all[m] == path.push(r));
        }
    } else {
        assert(all[0] == path.push(r));
    }
}

/// Every node of the tree tree-sitter builds is some node of a copy.
proof fn lemma_copy_reaches(
    tree: SyntaxTree,
    source: Seq<char>,
    kinds: Seq<GDScriptNodeKind>,
    labels: Seq<Seq<usize>>,
    path: Seq<usize>,
)
    requires
        copies_with(tree, source, kinds, labels),
        tree.wf_links(),
        is_tree_path(source, path),
    ensures
        exists|i: int| 0 <= i < tree.len() && #[trigger] labels[i] == path,
    decreases path.len(),
{
    if path.len() == 0 {
        assert(labels[0] == path);
    } else {
        let parent = path.drop_last();
        lemma_copy_reaches(tree, source, kinds, labels, parent);
        let i = choose|i: int| 0 <= i < tree.len() && #[trigger] labels[i] == parent;
        assert(path =~= parent.push(path.last()));
        lemma_child_in_child_paths(source, parent, 0, path.last());
        let paths = child_paths(source, parent);
        assert(child_labels(tree, labels, i) == paths);
        let m = choose|m: int| 0 <= m < paths.len() && paths[m] == path;
        assert(tree.node_links_wf(i));
        let c = tree.children(i)[m] as int;
        assert(child_labels(tree, labels, i)[m] == labels[c]);
        assert(labels[c] == path);
    }
}

/// A copy that could be made shows that every node fits the model and that
/// the tree has fewer nodes than the copy's limit.
proof fn lemma_copy_complete(tree: SyntaxTree, source: Seq<char>, kinds: Seq<GDScriptNodeKind>, labels: Seq<Seq<usize>>)
    requires
        copies_with(tree, source, kinds, labels),
        tree.wf(source.len()),
        tree.matches_source(source),
        tree.len() < usize::MAX,
    ensures
        model_fits(source),
        !has_at_least_nodes(source, usize::MAX as nat),
{
    broadcast use vstd::seq_lib::seq_to_set_is_finite;

    assert forall|path: Seq<usize>| #[trigger] is_tree_path(source, path) implies node_fits(source, path) by {
        lemma_copy_reaches(tree, source, kinds, labels, path);
        let i = choose|i: int| 0 <= i < tree.len() && #[trigger] labels[i] == path;
        let n = tree.nodes@[i];
        assert(tree.node_extent_wf(i, source.len()));
        assert(node_copies(n, source, kinds, labels[i]));
        assert(byte_offset(source, n.start_char as int) == n.start_byte);
        assert(byte_offset(source, n.end_char as int) == n.end_byte);
        lemma_byte_offset_monotone(source, n.start_char as int, n.end_char as int);
    }
    if has_at_least_nodes(source, usize::MAX as nat) {
        let paths = choose|paths: Seq<Seq<usize>>|
            #![trigger paths.len()]
            paths.len() >= usize::MAX as nat && paths.no_duplicates() && forall|k: int|
                0 <= k < paths.len() ==> is_tree_path(source, #[trigger] paths[k]);
        assert forall|x: Seq<usize>| paths.to_set().contains(x) implies labels.to_set().contains(x) by {
            let k = choose|k: int| 0 <= k < paths.len() && paths[k] == x;
            assert(is_tree_path(source, paths[k]));
            lemma_copy_reaches(tree, source, kinds, labels, x);
            let i = choose|i: int| 0 <= i < tree.len() && #[trigger] labels[i] == x;
            assert(labels.contains(x));
        }
        paths.unique_seq_to_set();
        labels.lemma_cardinality_of_set();
        vstd::set_lib::lemma_len_subset(paths.to_set(), labels.to_set());
        assert(false);
    }
}

/// Copies the tree tree-sitter built under `root` into the model, in
/// document order. None when a node does not fit the model, or when the
/// model would need `usize::MAX` nodes.
fn copy_tree(
    root: &GDScriptNode,
    kinds: &Vec<GDScriptNodeKind>,
    char_of_byte: &Vec<usize>,
) -> (tree: Option<SyntaxTree>)
    requires
        kinds@.len() == LOOKUP_TABLE_SIZE,
        is_char_table(root.source(), char_of_byte@),
        root.path() == Seq::<usize>::empty(),
    ensures
        tree matches Some(t) ==> {
            &&& t.wf(root.source().len())
            &&& t.matches_source(root.source())
            &&& is_gdscript_copy(t, root.source(), kinds@)
        },
        tree is Some <==> model_fits(root.source()) && !has_at_least_nodes(root.source(), usize::MAX as nat),
{
    let ghost source = root.source();
    let mut root_data = match read_node(root, kinds, char_of_byte) {
        Some(data) => data,
        None => {
            proof {
                assert(is_tree_path(source, root.path()));
            }
            return None;
        },
    };
    root_data.field = None;
    let mut tree = SyntaxTree { nodes: Vec::new() };
    tree.nodes.push(root_data);
    let ghost mut labels: Seq<Seq<usize>> = seq![Seq::<usize>::empty()];
    let mut stack: Vec<(GDScriptNode, usize, Option<FieldName>)> = Vec::new();
    push_children(root, 0, &mut stack);
    proof {
        assert(tree.node_links_wf(0));
        assert(tree.node_extent_wf(0, source.len()));
        lemma_child_entries(source, labels[0], 0, 0);
        lemma_pending_children(Seq::empty(), source, labels[0], 0, 0, 0);
        assert(stack_labels(stack@) =~= Seq::<(Seq<usize>, usize)>::empty() + child_entries_from(source, labels[0], 0, 0));
        assert(child_labels(tree, labels, 0) =~= Seq::<Seq<usize>>::empty());
        assert(field_of_path(source, labels[0]) is None);
        assert(is_tree_path(source, labels[0]));
    }
    while stack.len() > 0
        invariant
            tree.wf_links(),
            extents_agree(tree, source),
            source == root.source(),
            kinds@.len() == LOOKUP_TABLE_SIZE,
            is_char_table(source, char_of_byte@),
            labels.len() == tree.len(),
            labels[0] == Seq::<usize>::empty(),
            forall|i: int|
                0 <= i < tree.len() ==> {
                    &&& is_tree_path(source, #[trigger] labels[i])
                    &&& node_copies(tree.nodes@[i], source, kinds@, labels[i])
                    &&& child_labels(tree, labels, i) + pending(stack_labels(stack@), i as usize) == child_paths(
                        source,
                        labels[i],
                    )
                },
            forall|i: int|
                0 < i < tree.len() ==> ((#[trigger] tree.nodes@[i]).parent matches Some(p) && labels[i].len() > 0
                    && labels[i].drop_last() == labels[p as int]),
            forall|i: int, j: int| 0 <= i < j < tree.len() ==> #[trigger] labels[i] != #[trigger] labels[j],
            stack_labels(stack@).len() == stack@.len(),
            forall|k: int|
                0 <= k < stack@.len() ==> {
                    let entry = #[trigger] stack_labels(stack@)[k];
                    &&& entry.1 < tree.len()
                    &&& is_tree_path(source, entry.0)
                    &&& entry.0.len() > 0
                    &&& entry.0.drop_last() == labels[entry.1 as int]
                    &&& forall|i: int| 0 <= i < tree.len() ==> labels[i] != entry.0
                },
            forall|k: int|
                0 <= k < stack@.len() ==> {
                    &&& (#[trigger] stack@[k]).0.source() == source
                    &&& stack@[k].2 == field_of_path(source, stack@[k].0.path())
                    &&& stack@[k].1 == stack_labels(stack@)[k].1
                    &&& stack@[k].0.path() == stack_labels(stack@)[k].0
                },
            forall|k1: int, k2: int|
                0 <= k1 < k2 < stack@.len() ==> #[trigger] stack_labels(stack@)[k1].0 != #[trigger] stack_labels(
                    stack@,
                )[k2].0,
        decreases usize::MAX - tree.len(),
    {
        if tree.nodes.len() == usize::MAX {
            proof {
                assert(forall|k: int| 0 <= k < labels.len() ==> is_tree_path(source, #[trigger] labels[k]));
                lemma_distinct_paths_count(source, labels);
            }
            return None;
        }
        let ghost old_stack = stack_labels(stack@);
        let ghost old_tree = tree;
        let (node, parent, field) = stack.pop().unwrap();
        let ghost popped = (node.path(), parent);
        let ghost q = node.path();
        proof {
            assert(old_stack.last() == popped);
            assert(stack_labels(stack@) =~= old_stack.drop_last());
        }
        let mut data = match read_node(&node, kinds, char_of_byte) {
            Some(data) => data,
            None => return None,
        };
        let index = tree.nodes.len();
        let position = tree.nodes[parent].children.len();
        data.parent = Some(parent);
        data.position = position;
        data.field = field;
        let ghost before = tree;
        tree.nodes.push(data);
        tree.nodes[parent].children.push(index);
        let ghost old_labels = labels;
        proof {
            labels = labels.push(q);
            assert forall|i: int| 0 <= i < tree.len() implies #[trigger] tree.node_links_wf(i) by {
                assert(before.node_links_wf(i) || i == index);
                if i != index && i != parent {
                    assert(tree.nodes@[i] == before.nodes@[i]);
                    assert forall|k: int| 0 <= k < tree.nodes@[i].children@.len() implies ({
                        let c = #[trigger] tree.nodes@[i].children@[k] as int;
                        &&& i < c < tree.len()
                        &&& tree.nodes@[c].parent == Some(i as usize)
                        &&& tree.nodes@[c].position == k
                    }) by {
                        let c = before.nodes@[i].children@[k] as int;
                        assert(before.node_links_wf(i));
                    }
                    if i > 0 {
                        let p = before.nodes@[i].parent.unwrap() as int;
                        assert(before.node_links_wf(i));
                        if p == parent {
                            assert(tree.nodes@[p].children@ == before.nodes@[p].children@.push(index));
                        }
                    }
                } else if i == parent {
                    assert(before.node_links_wf(i));
                    assert(tree.nodes@[i].children@ == before.nodes@[i].children@.push(index));
                    assert forall|k: int| 0 <= k < tree.nodes@[i].children@.len() implies ({
                        let c = #[trigger] tree.nodes@[i].children@[k] as int;
                        &&& i < c < tree.len()
                        &&& tree.nodes@[c].parent == Some(i as usize)
                        &&& tree.nodes@[c].position == k
                    }) by {
                        if k < before.nodes@[i].children@.len() {
                            let c = before.nodes@[i].children@[k] as int;
                            assert(before.nodes@[i].children@[k] == tree.nodes@[i].children@[k]);
                        }
                    }
                    if i > 0 {
                        let p = before.nodes@[i].parent.unwrap() as int;
                        assert(tree.nodes@[p].children@ == before.nodes@[p].children@);
                    }
                } else {
                    assert(i == index);
                    assert(tree.nodes@[parent as int].children@ == before.nodes@[parent as int].children@.push(index));
                }
            }
            assert forall|i: int| 0 <= i < tree.len() implies #[trigger] tree.node_extent_wf(i, source.len()) by {
                if i < before.len() {
                    assert(before.node_extent_wf(i, source.len()));
                }
            }
            assert forall|i: int| 0 <= i < tree.len() implies {
                &&& byte_offset(source, #[trigger] tree.nodes@[i].start_char as int)
                    == tree.nodes@[i].start_byte
                &&& byte_offset(source, tree.nodes@[i].end_char as int) == tree.nodes@[i].end_byte
            } by {
                if i < before.len() {
                    assert(tree.nodes@[i].start_char == before.nodes@[i].start_char);
                }
            }
        }
        let ghost popped_stack = stack_labels(stack@);
        push_children(&node, index, &mut stack);
        proof {
            let new_stack = stack_labels(stack@);
            let entries = child_entries_from(source, q, index, 0);
            lemma_child_entries(source, q, index, 0);
            assert(new_stack == popped_stack + entries);
            assert forall|i: int| 0 <= i < tree.len() implies {
                &&& is_tree_path(source, #[trigger] labels[i])
                &&& node_copies(tree.nodes@[i], source, kinds@, labels[i])
                &&& child_labels(tree, labels, i) + pending(stack_labels(stack@), i as usize) == child_paths(
                    source,
                    labels[i],
                )
            } by {
                lemma_pending_children(popped_stack, source, q, index, 0, i as usize);
                if i == index {
                    assert forall|k: int| 0 <= k < popped_stack.len() implies (#[trigger] popped_stack[k]).1 != i as usize by {
                        assert(popped_stack[k] == old_stack[k]);
                    }
                    lemma_pending_none(popped_stack, i as usize);
                    assert(child_labels(tree, labels, i) =~= Seq::<Seq<usize>>::empty());
                    assert(pending(new_stack, i as usize) =~= child_paths(source, q));
                } else {
                    assert(pending(new_stack, i as usize) == pending(popped_stack, i as usize));
                    assert(pending(old_stack, i as usize) == (if parent == i as usize {
                        seq![q]
                    } else {
                        Seq::<Seq<usize>>::empty()
                    }) + pending(popped_stack, i as usize));
                    assert(old_tree.node_links_wf(i));
                    if i == parent as int {
                        assert(child_labels(tree, labels, i) =~= child_labels(old_tree, old_labels, i).push(q));
                    } else {
                        assert(child_labels(tree, labels, i) =~= child_labels(old_tree, old_labels, i));
                        assert(pending(old_stack, i as usize) =~= pending(popped_stack, i as usize));
                    }
                    assert(tree.nodes@[i] == old_tree.nodes@[i] || i == parent as int);
                }
            }
            let top = old_stack.len() - 1;
            assert(old_stack[top] == popped);
            assert forall|i: int| 0 < i < tree.len() implies ((#[trigger] tree.nodes@[i]).parent matches Some(p)
                && labels[i].len() > 0 && labels[i].drop_last() == labels[p as int]) by {
                if i < index as int {
                    assert(tree.nodes@[i].parent == old_tree.nodes@[i].parent);
                    assert(old_tree.node_links_wf(i));
                    assert(labels[i] == old_labels[i]);
                    let p = old_tree.nodes@[i].parent.unwrap();
                    assert(labels[p as int] == old_labels[p as int]);
                } else {
                    assert(labels[i] == q);
                    assert(labels[parent as int] == old_labels[parent as int]);
                }
            }
            assert forall|k: int| 0 <= k < stack@.len() implies {
                let entry = #[trigger] stack_labels(stack@)[k];
                &&& entry.1 < tree.len()
                &&& is_tree_path(source, entry.0)
                &&& entry.0.len() > 0
                &&& entry.0.drop_last() == labels[entry.1 as int]
                &&& forall|i: int| 0 <= i < tree.len() ==> labels[i] != entry.0
            } by {
                if k < popped_stack.len() {
                    assert(new_stack[k] == popped_stack[k]);
                    assert(popped_stack[k] == old_stack[k]);
                    let entry = old_stack[k];
                    assert(entry.0 != old_stack[top].0);
                    assert(labels[entry.1 as int] == old_labels[entry.1 as int]);
                    assert forall|i: int| 0 <= i < tree.len() implies labels[i] != entry.0 by {
                        if i < index as int {
                            assert(labels[i] == old_labels[i]);
                        }
                    }
                } else {
                    let e = entries[k - popped_stack.len()];
                    assert(new_stack[k] == e);
                    assert(e.0.drop_last() == q);
                    assert(is_tree_path(source, e.0));
                    assert forall|i: int| 0 <= i < tree.len() implies labels[i] != e.0 by {
                        if 0 < i < index as int && labels[i] == e.0 {
                            let p = tree.nodes@[i].parent.unwrap();
                            assert(labels[p as int] == q);
                            assert(old_tree.node_links_wf(i));
                            assert(labels[p as int] != labels[index as int]);
                        }
                    }
                }
            }
        }
    }
    proof {
        assert forall|i: int| 0 <= i < tree.len() implies child_labels(tree, labels, i) == child_paths(source, labels[i]) by {
            assert(stack_labels(stack@) =~= Seq::<(Seq<usize>, usize)>::empty());
            assert(child_labels(tree, labels, i) + pending(stack_labels(stack@), i as usize) == child_paths(source, labels[i]));
            assert(child_labels(tree, labels, i) + Seq::<Seq<usize>>::empty() =~= child_labels(tree, labels, i));
        }
        assert(copies_with(tree, source, kinds@, labels));
    }
    if tree.nodes.len() == usize::MAX {
        proof {
            assert(forall|k: int| 0 <= k < labels.len() ==> is_tree_path(source, #[trigger] labels[k]));
            lemma_distinct_paths_count(source, labels);
        }
        return None;
    }
    proof {
        lemma_copy_complete(tree, source, kinds@, labels);
    }
    Some(tree)
}

/// The copy of the tree of `source` into the model can be made: its UTF-8
/// encoding is short enough to index by byte, the grammar has every node
/// kind the index reads, every node fits the model, and there are fewer
/// nodes than `usize::MAX`.
pub open spec fn parses_into_model(source: Seq<char>) -> bool {
    &&& byte_offset(source, source.len() as int) < usize::MAX
    &&& forall|i: int| 0 <= i < NODE_KIND_MAP_LENGTH ==> map_entry_known(i)
    &&& model_fits(source)
    &&& !has_at_least_nodes(source, usize::MAX as nat)
}

/// Parses GDScript source into the model.
///
/// The tree is the copy of the tree tree-sitter builds from the source
/// (`is_gdscript_copy`); it may hold syntax errors, and `has_parse_errors`
/// says whether it does. None exactly when the copy cannot be made
/// (`parses_into_model`).
pub fn parse_source(source: &str) -> (parsed: Option<ParsedSource>)
    ensures
        parsed is Some <==> parses_into_model(source@),
        parsed matches Some(p) ==> {
            &&& p.source@ == source@
            &&& p.wf()
            &&& is_gdscript_copy(p.tree, source@, lookup_table())
            &&& p.has_parse_errors == gdscript_has_error_at(source@, Seq::<usize>::empty())
        },
{
    let characters = str_to_chars(source);
    let char_of_byte = match build_char_index_of_byte(&characters) {
        Some(table) => table,
        None => return None,
    };
    let kinds = match GDScriptNodeKind::populate_lookup_table() {
        Some(table) => table,
        None => return None,
    };
    let mut parser = match gdscript_parser() {
        Some(parser) => parser,
        None => return None,
    };
    let parsed_tree = match parse_text(&mut parser, source) {
        Some(tree) => tree,
        None => return None,
    };
    let root = root_node(&parsed_tree);
    let has_parse_errors = node_has_error(&root);
    let tree = match copy_tree(&root, &kinds, &char_of_byte) {
        Some(tree) => tree,
        None => return None,
    };
    Some(ParsedSource { source: characters, tree, has_parse_errors })
}

} // verus!

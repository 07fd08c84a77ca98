//! Node text and positions, in the conventions the linter prints.

use crate::syntax::{SyntaxTree, byte_offset};
use vstd::prelude::*;

verus! {

/// Both ends of one AST node, in the two coordinate systems tools need.
///
/// Rows and columns are one-based to match [`get_line_column`], so anything
/// built on this agrees with what the linter prints. Columns count bytes within
/// the line, which is what tree-sitter reports. Byte offsets come along because
/// they are the only unambiguous way to slice the source text, and a
/// consumer that needs character columns can compute them from the source and
/// the offsets.
#[derive(Debug, Clone, Copy, PartialEq, Eq, Structural)]
pub struct SourceRange {
    pub start_row: usize,
    pub start_column: usize,
    pub end_row: usize,
    pub end_column: usize,
    pub start_byte: usize,
    pub end_byte: usize,
}

/// The range of node `i`: one-based rows and columns, byte offsets as they
/// are.
pub open spec fn range_of(tree: &SyntaxTree, i: int) -> SourceRange {
    let n = tree.nodes@[i];
    SourceRange {
        start_row: (n.start_row + 1) as usize,
        start_column: (n.start_column + 1) as usize,
        end_row: (n.end_row + 1) as usize,
        end_column: (n.end_column + 1) as usize,
        start_byte: n.start_byte,
        end_byte: n.end_byte,
    }
}

/// The source text of node `i`.
pub fn get_node_text<'a>(tree: &SyntaxTree, i: usize, source: &'a [char]) -> (text: &'a [char])
    requires
        tree.wf(source@.len()),
        i < tree.len(),
    ensures
        text@ == tree.text(source@, i as int),
{
    assert(tree.node_extent_wf(i as int, source@.len()));
    &source[tree.nodes[i].start_char..tree.nodes[i].end_char]
}

/// The one-based line and column where node `i` starts.
pub fn get_line_column(tree: &SyntaxTree, i: usize) -> (line_column: (usize, usize))
    requires
        tree.wf_links(),
        i < tree.len(),
        tree.nodes@[i as int].start_row < usize::MAX,
        tree.nodes@[i as int].start_column < usize::MAX,
    ensures
        line_column.0 == tree.nodes@[i as int].start_row + 1,
        line_column.1 == tree.nodes@[i as int].start_column + 1,
        line_column.0 >= 1,
        line_column.1 >= 1,
{
    (tree.nodes[i].start_row + 1, tree.nodes[i].start_column + 1)
}

/// The range of node `i`. Rows and columns are never zero.
pub fn get_range(tree: &SyntaxTree, i: usize) -> (range: SourceRange)
    requires
        exists|len: nat| tree.wf(len),
        i < tree.len(),
    ensures
        range == range_of(tree, i as int),
        range.start_row >= 1,
        range.start_column >= 1,
        range.end_row >= 1,
        range.end_column >= 1,
{
    let ghost len = choose|len: nat| tree.wf(len);
    assert(tree.node_extent_wf(i as int, len));
    let n = &tree.nodes[i];
    SourceRange {
        start_row: n.start_row + 1,
        start_column: n.start_column + 1,
        end_row: n.end_row + 1,
        end_column: n.end_column + 1,
        start_byte: n.start_byte,
        end_byte: n.end_byte,
    }
}

/// Rows and columns are one-based, and the byte offsets of a range slice the
/// source text exactly: they are the UTF-8 offsets where the node's text
/// starts and ends.
pub proof fn lemma_range_slices_source(tree: &SyntaxTree, source: Seq<char>, i: int)
    requires
        tree.wf(source.len()),
        tree.matches_source(source),
        0 <= i < tree.len(),
    ensures
        range_of(tree, i).start_byte == byte_offset(source, tree.node(i).start_char as int),
        range_of(tree, i).end_byte == byte_offset(source, tree.node(i).end_char as int),
        tree.text(source, i) == source.subrange(tree.node(i).start_char as int, tree.node(i).end_char as int),
        range_of(tree, i).start_row >= 1,
        range_of(tree, i).start_column >= 1,
        range_of(tree, i).end_row >= 1,
        range_of(tree, i).end_column >= 1,
{
    assert(tree.node_extent_wf(i, source.len()));
    assert(byte_offset(source, tree.nodes@[i].start_char as int) == tree.nodes@[i].start_byte);
}

} // verus!

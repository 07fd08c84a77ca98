//! Emits one `comment` record per comment.
//!
//! The consumer reads comments for suppression directives such as
//! `# gdlint:ignore-next-line:unknown-member`, and binding a directive to the
//! declaration it applies to is exactly the kind of line anchoring that has
//! broken before. With comment ranges and declaration ranges in the same
//! stream, binding is an interval comparison rather than a guess.

use crate::index::collectors::{CollectorContext, json_scope_field, write_scope_field};
use crate::index::{
    json_bool_field, json_push_bool_field, json_push_range_field, json_push_text_field,
    json_range_field, json_string_field,
};
use crate::linter::lib::{SourceRange, get_node_text, get_range, range_of};
use crate::syntax::SyntaxTree;
use crate::text::{check_ascii_whitespace, is_ascii_whitespace, push_str, starts_with};
use vstd::prelude::*;

verus! {

pub struct CommentRecord<'a> {
    /// The comment as written, leading `#` included.
    pub text: &'a [char],
    pub range: SourceRange,
    pub is_documentation: bool,
    pub is_trailing: bool,
}

/// The abstract value of a `CommentRecord`.
pub struct CommentView {
    pub text: Seq<char>,
    pub range: SourceRange,
    pub is_documentation: bool,
    pub is_trailing: bool,
}

impl<'a> View for CommentRecord<'a> {
    type V = CommentView;

    open spec fn view(&self) -> CommentView {
        CommentView {
            text: self.text@,
            range: self.range,
            is_documentation: self.is_documentation,
            is_trailing: self.is_trailing,
        }
    }
}

/// True when something other than white space precedes position `position`
/// of `source` on its line.
pub open spec fn code_before_on_line(source: Seq<char>, position: int) -> bool
    decreases position,
{
    if position <= 0 || position > source.len() {
        false
    } else if source[position - 1] == '\n' {
        false
    } else if !is_ascii_whitespace(source[position - 1]) {
        true
    } else {
        code_before_on_line(source, position - 1)
    }
}

/// There is code before `position` on its line exactly when some character
/// other than a space, a tab, a carriage return, a form feed or a line
/// break lies between the start of that line and `position`: a line
/// indented with tabs and spaces has no code before its first character.
pub proof fn lemma_code_before_means_non_blank_prefix(source: Seq<char>, position: int)
    requires
        0 <= position <= source.len(),
    ensures
        code_before_on_line(source, position) <==> exists|j: int|
            0 <= j < position && !(source[j] == ' ' || source[j] == '\t' || source[j] == '\r' || source[j] == '\x0C'
                || source[j] == '\n') && forall|m: int| j < m < position ==> #[trigger] source[m] != '\n',
    decreases position,
{
    if position > 0 {
        let c = source[position - 1];
        if c == '\n' {
            assert forall|j: int|
                0 <= j < position && !(source[j] == ' ' || source[j] == '\t' || source[j] == '\r' || source[j]
                    == '\x0C' || source[j] == '\n') implies !(forall|m: int| j < m < position ==> #[trigger] source[m]
                != '\n') by {
                assert(j < position - 1);
                assert(source[position - 1] == '\n');
            }
        } else if !is_ascii_whitespace(c) {
            assert(forall|m: int| position - 1 < m < position ==> #[trigger] source[m] != '\n');
        } else {
            lemma_code_before_means_non_blank_prefix(source, position - 1);
            if code_before_on_line(source, position - 1) {
                let j = choose|j: int|
                    0 <= j < position - 1 && !(source[j] == ' ' || source[j] == '\t' || source[j] == '\r' || source[j]
                        == '\x0C' || source[j] == '\n') && forall|m: int|
                        j < m < position - 1 ==> #[trigger] source[m] != '\n';
                assert forall|m: int| j < m < position implies #[trigger] source[m] != '\n' by {
                    if m < position - 1 {
                        assert(source[m] != '\n');
                    }
                }
            } else {
                assert forall|j: int|
                    0 <= j < position && !(source[j] == ' ' || source[j] == '\t' || source[j] == '\r' || source[j]
                        == '\x0C' || source[j] == '\n') implies !(forall|m: int| j < m < position ==> #[trigger] source[m]
                    != '\n') by {
                    if forall|m: int| j < m < position ==> #[trigger] source[m] != '\n' {
                        assert(j < position - 1);
                        assert(forall|m: int| j < m < position - 1 ==> #[trigger] source[m] != '\n');
                    }
                }
            }
        }
    }
}

/// A comment is flagged `is_documentation` exactly when it opens with `##`.
pub proof fn lemma_documentation_comments_open_with_two_hashes(tree: &SyntaxTree, source: Seq<char>, node: int)
    ensures
        comment_of(tree, source, node).is_documentation <==> {
            let text = tree.text(source, node);
            text.len() >= 2 && text[0] == '#' && text[1] == '#'
        },
{
    reveal_strlit("##");
    let text = tree.text(source, node);
    if text.len() >= 2 && text[0] == '#' && text[1] == '#' {
        assert(text.subrange(0, 2) =~= "##"@);
    }
    if starts_with(text, "##"@) {
        assert(text.subrange(0, 2)[0] == text[0]);
        assert(text.subrange(0, 2)[1] == text[1]);
    }
}

/// A comment is flagged `is_trailing` exactly when something other than
/// ASCII white space precedes it on its line.
pub proof fn lemma_trailing_comments_follow_code(tree: &SyntaxTree, source: Seq<char>, node: int)
    requires
        tree.node(node).start_char <= source.len(),
    ensures
        comment_of(tree, source, node).is_trailing <==> exists|j: int|
            0 <= j < tree.node(node).start_char && !(source[j] == ' ' || source[j] == '\t' || source[j] == '\r'
                || source[j] == '\x0C' || source[j] == '\n') && forall|m: int|
                j < m < tree.node(node).start_char ==> #[trigger] source[m] != '\n',
{
    lemma_code_before_means_non_blank_prefix(source, tree.node(node).start_char as int);
}

/// The record for comment node `node`.
pub open spec fn comment_of(tree: &SyntaxTree, source: Seq<char>, node: int) -> CommentView {
    let text = tree.text(source, node);
    CommentView {
        text,
        range: range_of(tree, node),
        is_documentation: starts_with(text, "##"@),
        is_trailing: code_before_on_line(source, tree.node(node).start_char as int),
    }
}

pub open spec fn json_comment_record(record: CommentView, scope: Seq<char>) -> Seq<char> {
    "{\"record\":\"comment\""@ + json_string_field("text"@, record.text) + json_scope_field(scope)
        + json_range_field("range"@, record.range) + (if record.is_documentation {
        json_bool_field("is_documentation"@, true)
    } else {
        Seq::empty()
    }) + (if record.is_trailing {
        json_bool_field("is_trailing"@, true)
    } else {
        Seq::empty()
    }) + "}\n"@
}

/// What the collector writes for comment node `node`.
pub open spec fn comment_output(tree: &SyntaxTree, source: Seq<char>, node: int, scope: Seq<char>) -> Seq<char> {
    json_comment_record(comment_of(tree, source, node), scope)
}

pub fn collect(context: &CollectorContext, node: usize, output: &mut String)
    requires
        context.wf(),
        node < context.tree.len(),
    ensures
        final(output)@ == old(output)@ + comment_output(
            context.tree,
            context.source@,
            node as int,
            context.scope@,
        ),
{
    let tree = context.tree;
    let text = get_node_text(tree, node, context.source);
    let record = CommentRecord {
        text,
        range: get_range(tree, node),
        is_documentation: crate::text::chars_start_with_str(text, "##"),
        is_trailing: has_code_before_on_line(tree.nodes[node].start_char, context.source),
    };
    assert(record@ == comment_of(tree, context.source@, node as int));
    write_comment_record(&record, context.scope, output);
}

fn has_code_before_on_line(start: usize, source: &[char]) -> (result: bool)
    ensures
        result == code_before_on_line(source@, start as int),
{
    if start > source.len() {
        return false;
    }
    let mut scan_position = start;
    while scan_position > 0
        invariant
            scan_position <= source@.len(),
            code_before_on_line(source@, start as int) == code_before_on_line(
                source@,
                scan_position as int,
            ),
        decreases scan_position,
    {
        let previous = source[scan_position - 1];
        if previous == '\n' {
            return false;
        }
        if !check_ascii_whitespace(previous) {
            return true;
        }
        scan_position = scan_position - 1;
    }
    false
}

fn write_comment_record(record: &CommentRecord, scope: &[char], output: &mut String)
    ensures
        final(output)@ == old(output)@ + json_comment_record(record@, scope@),
{
    let ghost start = output@;
    push_str(output, "{\"record\":\"comment\"");
    json_push_text_field("text", record.text, output);
    write_scope_field(scope, output);
    json_push_range_field("range", &record.range, output);
    let ghost middle = output@;
    if record.is_documentation {
        json_push_bool_field("is_documentation", true, output);
    }
    let ghost after_documentation = output@;
    if record.is_trailing {
        json_push_bool_field("is_trailing", true, output);
    }
    let ghost after_trailing = output@;
    push_str(output, "}\n");
    assert(output@ =~= start + json_comment_record(record@, scope@));
}

} // verus!

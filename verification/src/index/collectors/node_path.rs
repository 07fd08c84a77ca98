//! Emits one `node_path` record per `$Path` or `%Name` expression, with the
//! path as Godot will read it.
//!
//! A `$Clock` at the head of a member chain already arrives as a `node_path`
//! segment. A bare one does not: `self.button = $Panel/Button`, `add_child($X)`
//! and the value of an `@onready` variable leave no other record, so a consumer
//! checking paths against the scene could see `$Panel/Button.text` and miss the
//! line that actually assigns the node. This collector writes a record for
//! every `$` and `%` expression, whatever it sits in.

use crate::index::collectors::string_literal::{decode_string_literal, decoded_literal};
use crate::index::collectors::{
    CollectorContext, ExpressionContext, expression_context, find_expression_context,
    json_context_field, json_scope_field, write_context_field, write_scope_field,
};
use crate::index::{
    json_bool_field, json_push_bool_field, json_push_range_field, json_push_string_field,
    json_range_field, json_string_field,
};
use crate::linter::lib::{SourceRange, get_node_text, get_range, range_of};
use crate::syntax::SyntaxTree;
use crate::text::{chars_to_string, chars_trim, chars_trim_start, push_str, trim, trim_start};
use vstd::prelude::*;

verus! {

pub open spec fn is_target(kind: crate::node_kind::GDScriptNodeKind) -> bool {
    kind == crate::node_kind::GDScriptNodeKind::GetNode
}

pub struct NodePathRecord {
    /// The path as Godot reads it: quotes and escapes resolved.
    pub path: String,
    /// `%Name`, a scene-unique node, rather than `$Path`.
    pub unique: bool,
    pub range: SourceRange,
    pub context: ExpressionContext,
}

/// The abstract value of a `NodePathRecord`.
pub struct NodePathView {
    pub path: Seq<char>,
    pub unique: bool,
    pub range: SourceRange,
    pub context: ExpressionContext,
}

impl View for NodePathRecord {
    type V = NodePathView;

    open spec fn view(&self) -> NodePathView {
        NodePathView { path: self.path@, unique: self.unique, range: self.range, context: self.context }
    }
}

/// The path written after the sigil. `$"Panel/With Space"` quotes the path
/// and `$Panel/Button` does not; the quoted form is a string in the grammar,
/// so it decodes like one.
pub open spec fn path_after_sigil(after_sigil: Seq<char>) -> Seq<char> {
    if after_sigil.len() > 0 && (after_sigil[0] == '"' || after_sigil[0] == '\'') {
        decoded_literal(after_sigil)
    } else {
        after_sigil
    }
}

/// The record for the `$` or `%` expression `node`; none when its text is
/// empty.
pub open spec fn node_path_of(tree: &SyntaxTree, source: Seq<char>, node: int) -> Option<NodePathView> {
    let written = trim(tree.text(source, node));
    if written.len() == 0 {
        None
    } else {
        Some(
            NodePathView {
                path: path_after_sigil(trim_start(written.subrange(1, written.len() as int))),
                unique: written[0] == '%',
                range: range_of(tree, node),
                context: expression_context(tree, source, node),
            },
        )
    }
}

pub open spec fn json_node_path_record(record: NodePathView, scope: Seq<char>) -> Seq<char> {
    "{\"record\":\"node_path\""@ + json_string_field("path"@, record.path) + (if record.unique {
        json_bool_field("unique"@, true)
    } else {
        Seq::empty()
    }) + json_scope_field(scope) + json_range_field("range"@, record.range) + json_context_field(
        record.context,
    ) + "}\n"@
}

/// What the collector writes for the node `node`.
pub open spec fn node_path_output(tree: &SyntaxTree, source: Seq<char>, node: int, scope: Seq<char>) -> Seq<char> {
    match node_path_of(tree, source, node) {
        Some(record) => json_node_path_record(record, scope),
        None => Seq::empty(),
    }
}

fn read_path(after_sigil: &[char]) -> (path: String)
    ensures
        path@ == path_after_sigil(after_sigil@),
{
    if after_sigil.len() > 0 && (after_sigil[0] == '"' || after_sigil[0] == '\'') {
        decode_string_literal(after_sigil)
    } else {
        chars_to_string(after_sigil)
    }
}

pub fn collect(context: &CollectorContext, node: usize, output: &mut String)
    requires
        context.wf(),
        node < context.tree.len(),
    ensures
        final(output)@ == old(output)@ + node_path_output(
            context.tree,
            context.source@,
            node as int,
            context.scope@,
        ),
{
    let tree = context.tree;
    let written = chars_trim(get_node_text(tree, node, context.source));
    if written.len() == 0 {
        return;
    }
    let sigil = written[0];
    let after_sigil = chars_trim_start(&written[1..written.len()]);
    let record = NodePathRecord {
        path: read_path(after_sigil),
        unique: sigil == '%',
        range: get_range(tree, node),
        context: find_expression_context(context, node),
    };
    let ghost start = output@;
    push_str(output, "{\"record\":\"node_path\"");
    json_push_string_field("path", record.path.as_str(), output);
    let ghost head = output@;
    if record.unique {
        json_push_bool_field("unique", true, output);
    }
    let ghost after_unique = output@;
    write_scope_field(context.scope, output);
    json_push_range_field("range", &record.range, output);
    write_context_field(record.context, output);
    push_str(output, "}\n");
    proof {
        let view = record@;
        assert(view == node_path_of(tree, context.source@, node as int)->0);
        let unique_part = if view.unique {
            json_bool_field("unique"@, true)
        } else {
            Seq::empty()
        };
        assert(after_unique =~= head + unique_part);
        assert(output@ =~= start + json_node_path_record(view, context.scope@));
    }
}

} // verus!

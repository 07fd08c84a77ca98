//! Emits one `reference` record per bare identifier used as a value or called
//! directly.
//!
//! Every identifier is emitted, locals and parameters included. Filtering here
//! would push the consumer back to counting occurrences: to know that `target`
//! on one line is the local declared two lines above rather than the member
//! declared at the top of the file, it needs both the declaration and the
//! occurrence, with scopes.
//!
//! Identifiers that another record already covers are skipped: declaration
//! names, the segments of a member chain, annotation names and parameter names.

use crate::index::collectors::{
    ArgumentPosition, ArgumentPositionView, ArgumentRecord, ArgumentView, CollectorContext,
    ExpressionContext, argument_position, argument_views, arguments_of, collect_arguments,
    expression_context, find_argument_position, find_expression_context, json_arguments_field,
    json_context_field, json_optional_argument_of, json_scope_field, write_arguments_field,
    write_context_field, write_optional_argument_of, write_scope_field,
};
use crate::index::{
    json_bool_field, json_push_bool_field, json_push_range_field, json_push_text_field,
    json_range_field, json_string_field,
};
use crate::linter::lib::{SourceRange, get_node_text, get_range, range_of};
use crate::node_kind::GDScriptNodeKind;
use crate::syntax::{FieldName, SyntaxTree};
use crate::text::push_str;
use vstd::prelude::*;

verus! {

pub struct ReferenceRecord<'a> {
    pub name: &'a [char],
    /// The whole call expression when this is a call, the identifier otherwise.
    pub range: SourceRange,
    pub name_range: SourceRange,
    pub is_call: bool,
    pub arguments: Vec<ArgumentRecord<'a>>,
    pub context: ExpressionContext,
    pub argument_of: Option<ArgumentPosition<'a>>,
}

/// The abstract value of a `ReferenceRecord`.
pub struct ReferenceView {
    pub name: Seq<char>,
    pub range: SourceRange,
    pub name_range: SourceRange,
    pub is_call: bool,
    pub arguments: Seq<ArgumentView>,
    pub context: ExpressionContext,
    pub argument_of: Option<ArgumentPositionView>,
}

impl<'a> View for ReferenceRecord<'a> {
    type V = ReferenceView;

    open spec fn view(&self) -> ReferenceView {
        ReferenceView {
            name: self.name@,
            range: self.range,
            name_range: self.name_range,
            is_call: self.is_call,
            arguments: argument_views(self.arguments@),
            context: self.context,
            argument_of: match self.argument_of {
                Some(p) => Some(p@),
                None => None,
            },
        }
    }
}

/// The grammar spells a declaration's name with the same node kind it uses for
/// a reference, and member chains carry their own per-segment ranges. Emitting
/// those identifiers here would report the same text twice under two meanings.
pub open spec fn is_covered(tree: &SyntaxTree, node: int, parent: int) -> bool {
    let parent_kind = tree.kind(parent);
    ||| tree.is_field_of(parent, FieldName::Name, node)
    ||| parent_kind == GDScriptNodeKind::Attribute
    ||| parent_kind == GDScriptNodeKind::AttributeCall
    ||| parent_kind == GDScriptNodeKind::AttributeSubscript
    ||| parent_kind == GDScriptNodeKind::Annotation
    ||| parent_kind == GDScriptNodeKind::Parameters
    ||| ((parent_kind == GDScriptNodeKind::Parameter || parent_kind
        == GDScriptNodeKind::VariadicParameter) && tree.first_named_child(parent) == Some(node))
    ||| (parent_kind == GDScriptNodeKind::Enumerator && tree.is_field_of(
        parent,
        FieldName::Left,
        node,
    ))
    ||| (parent_kind == GDScriptNodeKind::ForStatement && tree.is_field_of(
        parent,
        FieldName::Left,
        node,
    ))
}

/// The record for the identifier `node`, unless another record covers it.
///
/// `print(a)` is one reference to `print`, not a reference plus an unrelated
/// argument list, so the call node decides the range, the context and the
/// argument position.
pub open spec fn reference_of(tree: &SyntaxTree, source: Seq<char>, node: int) -> Option<ReferenceView> {
    match tree.node(node).parent {
        None => None,
        Some(p) => {
            let parent = p as int;
            if is_covered(tree, node, parent) {
                None
            } else if tree.kind(parent) == GDScriptNodeKind::Call && tree.first_named_child(parent)
                == Some(node) {
                Some(
                    ReferenceView {
                        name: tree.text(source, node),
                        range: range_of(tree, parent),
                        name_range: range_of(tree, node),
                        is_call: true,
                        arguments: match tree.child_by_field(parent, FieldName::Arguments) {
                            Some(a) => arguments_of(tree, source, a),
                            None => Seq::empty(),
                        },
                        context: expression_context(tree, source, parent),
                        argument_of: argument_position(tree, source, parent),
                    },
                )
            } else {
                Some(
                    ReferenceView {
                        name: tree.text(source, node),
                        range: range_of(tree, node),
                        name_range: range_of(tree, node),
                        is_call: false,
                        arguments: Seq::empty(),
                        context: expression_context(tree, source, node),
                        argument_of: argument_position(tree, source, node),
                    },
                )
            }
        },
    }
}

pub open spec fn json_reference_record(record: ReferenceView, scope: Seq<char>) -> Seq<char> {
    "{\"record\":\"reference\""@ + json_string_field("name"@, record.name) + json_scope_field(scope)
        + json_range_field("range"@, record.range) + json_range_field(
        "name_range"@,
        record.name_range,
    ) + (if record.is_call {
        json_bool_field("is_call"@, true)
    } else {
        Seq::empty()
    }) + json_arguments_field(record.arguments) + json_context_field(record.context)
        + json_optional_argument_of(record.argument_of) + "}\n"@
}

/// What the collector writes for the identifier `node`.
pub open spec fn reference_output(tree: &SyntaxTree, source: Seq<char>, node: int, scope: Seq<char>) -> Seq<char> {
    match reference_of(tree, source, node) {
        Some(record) => json_reference_record(record, scope),
        None => Seq::empty(),
    }
}

fn is_covered_by_another_record(tree: &SyntaxTree, node: usize, parent: usize) -> (result: bool)
    requires
        tree.wf_links(),
        node < tree.len(),
        parent < tree.len(),
    ensures
        result == is_covered(tree, node as int, parent as int),
{
    if tree.is_field_of_at(parent, FieldName::Name, node) {
        return true;
    }
    let parent_kind = tree.nodes[parent].kind;
    if parent_kind == GDScriptNodeKind::Attribute || parent_kind == GDScriptNodeKind::AttributeCall
        || parent_kind == GDScriptNodeKind::AttributeSubscript || parent_kind
        == GDScriptNodeKind::Annotation || parent_kind == GDScriptNodeKind::Parameters {
        return true;
    }
    if (parent_kind == GDScriptNodeKind::Parameter || parent_kind
        == GDScriptNodeKind::VariadicParameter) && is_first_named_child(tree, parent, node) {
        return true;
    }
    if parent_kind == GDScriptNodeKind::Enumerator && tree.is_field_of_at(
        parent,
        FieldName::Left,
        node,
    ) {
        return true;
    }
    if parent_kind == GDScriptNodeKind::ForStatement && tree.is_field_of_at(
        parent,
        FieldName::Left,
        node,
    ) {
        return true;
    }
    false
}

fn is_first_named_child(tree: &SyntaxTree, parent: usize, node: usize) -> (result: bool)
    requires
        tree.wf_links(),
        parent < tree.len(),
    ensures
        result == (tree.first_named_child(parent as int) == Some(node as int)),
{
    match tree.first_and_last_named_child(parent).0 {
        Some(first) => first == node,
        None => false,
    }
}

pub fn collect(context: &CollectorContext, node: usize, output: &mut String)
    requires
        context.wf(),
        node < context.tree.len(),
    ensures
        final(output)@ == old(output)@ + reference_output(
            context.tree,
            context.source@,
            node as int,
            context.scope@,
        ),
{
    let tree = context.tree;
    let parent = match tree.nodes[node].parent {
        Some(parent) => parent,
        None => return ,
    };
    assert(tree.node_links_wf(node as int));
    if is_covered_by_another_record(tree, node, parent) {
        return ;
    }
    let name_range = get_range(tree, node);
    let mut record = ReferenceRecord {
        name: get_node_text(tree, node, context.source),
        range: name_range,
        name_range,
        is_call: false,
        arguments: Vec::new(),
        context: find_expression_context(context, node),
        argument_of: find_argument_position(context, node),
    };
    if tree.nodes[parent].kind == GDScriptNodeKind::Call && is_first_named_child(tree, parent, node) {
        record.range = get_range(tree, parent);
        record.is_call = true;
        record.context = find_expression_context(context, parent);
        record.argument_of = find_argument_position(context, parent);
        match tree.child_by_field_name(parent, FieldName::Arguments) {
            Some(arguments_node) => {
                collect_arguments(context, arguments_node, &mut record.arguments);
            },
            None => {},
        }
        assert(argument_views(record.arguments@) =~= match tree.child_by_field(parent as int, FieldName::Arguments) {
            Some(a) => arguments_of(tree, context.source@, a),
            None => Seq::empty(),
        });
    } else {
        assert(argument_views(record.arguments@) =~= Seq::empty());
    }
    assert(record@ == reference_of(tree, context.source@, node as int).unwrap());
    write_reference_record(&record, context.scope, output);
}

fn write_reference_record(record: &ReferenceRecord, scope: &[char], output: &mut String)
    ensures
        final(output)@ == old(output)@ + json_reference_record(record@, scope@),
{
    let ghost start = output@;
    let ghost view = record@;
    push_str(output, "{\"record\":\"reference\"");
    json_push_text_field("name", record.name, output);
    write_scope_field(scope, output);
    json_push_range_field("range", &record.range, output);
    json_push_range_field("name_range", &record.name_range, output);
    let ghost head = output@;
    if record.is_call {
        json_push_bool_field("is_call", true, output);
    }
    let ghost after_call = output@;
    write_arguments_field(record.arguments.as_slice(), output);
    write_context_field(record.context, output);
    write_optional_argument_of(&record.argument_of, output);
    push_str(output, "}\n");
    proof {
        let call_part = if view.is_call {
            json_bool_field("is_call"@, true)
        } else {
            Seq::empty()
        };
        assert(after_call =~= head + call_part);
        assert(head =~= start + "{\"record\":\"reference\""@ + json_string_field("name"@, view.name)
            + json_scope_field(scope@) + json_range_field("range"@, view.range) + json_range_field(
            "name_range"@,
            view.name_range,
        ));
        assert(output@ =~= after_call + json_arguments_field(view.arguments) + json_context_field(
            view.context,
        ) + json_optional_argument_of(view.argument_of) + "}\n"@);
        assert(output@ =~= start + json_reference_record(view, scope@));
    }
}

} // verus!

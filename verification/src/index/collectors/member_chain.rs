//! Emits one `member_chain` record per attribute access.
//!
//! Every hop in the chain is a segment, and every segment says what it is. A
//! flat list of names loses what a consumer cannot recover: `$Clock.text` would
//! arrive as a lone `text` and look like a member of the enclosing script, and
//! `self.get_thing().field` would make `get_thing` look like a property, so
//! `field` gets checked against the wrong type.
//!
//! A consumer walking types stops at the first segment that is not `self` or
//! `identifier`. `kind` is not resolution, it is an honest signal that the chain
//! left the ground where hop-by-hop resolution is valid.

use crate::index::collectors::{
    ArgumentPosition, ArgumentPositionView, ArgumentRecord, ArgumentView, CollectorContext,
    ExpressionContext, argument_position, argument_views, arguments_of, collect_arguments,
    expression_context, find_argument_position, find_expression_context, json_arguments_field,
    json_context_field, json_optional_argument_of, json_scope_field, write_arguments_field,
    write_context_field, write_optional_argument_of, write_scope_field,
};
use crate::index::{
    json_bool_field, json_field_name, json_push_bool_field, json_push_escaped_string,
    json_push_field_name, json_push_range_field, json_push_text_field, json_range_field,
    json_string, json_string_field,
};
use crate::linter::lib::{SourceRange, get_node_text, get_range, range_of};
use crate::node_kind::GDScriptNodeKind;
use crate::syntax::{FieldName, SyntaxTree};
use crate::text::{chars_equal_str, chars_trim, push_str, trim};
use vstd::prelude::*;

verus! {

/// What one hop of a chain is.
#[derive(Debug, Clone, Copy, PartialEq, Eq, Structural)]
pub enum SegmentKind {
    Identifier,
    SelfValue,
    Call,
    NodePath,
    Subscript,
    Other,
}

pub open spec fn segment_kind_name(kind: SegmentKind) -> Seq<char> {
    match kind {
        SegmentKind::Identifier => "identifier"@,
        SegmentKind::SelfValue => "self"@,
        SegmentKind::Call => "call"@,
        SegmentKind::NodePath => "node_path"@,
        SegmentKind::Subscript => "subscript"@,
        SegmentKind::Other => "other"@,
    }
}

impl SegmentKind {
    pub fn as_str(&self) -> (name: &'static str)
        ensures
            name@ == segment_kind_name(*self),
    {
        match self {
            SegmentKind::Identifier => "identifier",
            SegmentKind::SelfValue => "self",
            SegmentKind::Call => "call",
            SegmentKind::NodePath => "node_path",
            SegmentKind::Subscript => "subscript",
            SegmentKind::Other => "other",
        }
    }
}

pub struct SegmentRecord<'a> {
    /// `identifier`, `self`, `call`, `node_path`, `subscript` or `other`.
    pub kind: SegmentKind,
    /// The member name, when the segment has one. `$Clock` and `(a + b)` do not.
    pub name: Option<&'a [char]>,
    /// The segment as written, for segments with no name.
    pub text: Option<&'a [char]>,
    pub is_call: bool,
    pub range: SourceRange,
}

pub struct MemberChainRecord<'a> {
    pub segments: Vec<SegmentRecord<'a>>,
    pub range: SourceRange,
    pub is_call: bool,
    pub arguments: Vec<ArgumentRecord<'a>>,
    pub context: ExpressionContext,
    pub argument_of: Option<ArgumentPosition<'a>>,
}

/// The abstract value of a `SegmentRecord`.
pub struct SegmentView {
    pub kind: SegmentKind,
    pub name: Option<Seq<char>>,
    pub text: Option<Seq<char>>,
    pub is_call: bool,
    pub range: SourceRange,
}

/// The abstract value of a `MemberChainRecord`.
pub struct MemberChainView {
    pub segments: Seq<SegmentView>,
    pub range: SourceRange,
    pub is_call: bool,
    pub arguments: Seq<ArgumentView>,
    pub context: ExpressionContext,
    pub argument_of: Option<ArgumentPositionView>,
}

pub open spec fn optional_view<'a>(text: Option<&'a [char]>) -> Option<Seq<char>> {
    match text {
        Some(t) => Some(t@),
        None => None,
    }
}

impl<'a> View for SegmentRecord<'a> {
    type V = SegmentView;

    open spec fn view(&self) -> SegmentView {
        SegmentView {
            kind: self.kind,
            name: optional_view(self.name),
            text: optional_view(self.text),
            is_call: self.is_call,
            range: self.range,
        }
    }
}

pub open spec fn segment_views<'a>(records: Seq<SegmentRecord<'a>>) -> Seq<SegmentView> {
    records.map_values(|r: SegmentRecord<'a>| r@)
}

impl<'a> View for MemberChainRecord<'a> {
    type V = MemberChainView;

    open spec fn view(&self) -> MemberChainView {
        MemberChainView {
            segments: segment_views(self.segments@),
            range: self.range,
            is_call: self.is_call,
            arguments: argument_views(self.arguments@),
            context: self.context,
            argument_of: match self.argument_of {
                Some(p) => Some(p@),
                None => None,
            },
        }
    }
}

/// Classifies one hop of a chain.
///
/// `super` is reported as `other` rather than as an identifier on purpose:
/// resolving through it means resolving against the base class, which this
/// index does not know. `foo()` and `foo[0]` wrap the member name together
/// with their brackets, both inside a chain and when they start one.
pub open spec fn segment_of(tree: &SyntaxTree, source: Seq<char>, node: int) -> SegmentView {
    let kind = tree.kind(node);
    let range = range_of(tree, node);
    if kind == GDScriptNodeKind::Identifier {
        let name = tree.text(source, node);
        SegmentView {
            kind: if name == "self"@ {
                SegmentKind::SelfValue
            } else if name == "super"@ {
                SegmentKind::Other
            } else {
                SegmentKind::Identifier
            },
            name: Some(name),
            text: None,
            is_call: false,
            range,
        }
    } else if kind == GDScriptNodeKind::AttributeCall || kind == GDScriptNodeKind::AttributeSubscript
        || kind == GDScriptNodeKind::Call || kind == GDScriptNodeKind::Subscript {
        let is_call = kind == GDScriptNodeKind::AttributeCall || kind == GDScriptNodeKind::Call;
        let name = match tree.first_named_child_of_kind(node, GDScriptNodeKind::Identifier) {
            Some(n) => Some(tree.text(source, n)),
            None => None,
        };
        SegmentView {
            kind: if is_call {
                SegmentKind::Call
            } else {
                SegmentKind::Subscript
            },
            name,
            text: if name is Some {
                None
            } else {
                Some(trim(tree.text(source, node)))
            },
            is_call,
            range,
        }
    } else if kind == GDScriptNodeKind::GetNode {
        SegmentView {
            kind: SegmentKind::NodePath,
            name: None,
            text: Some(trim(tree.text(source, node))),
            is_call: false,
            range,
        }
    } else {
        SegmentView {
            kind: SegmentKind::Other,
            name: None,
            text: Some(trim(tree.text(source, node))),
            is_call: false,
            range,
        }
    }
}

/// The segments of the named children among the first `k` children of the
/// attribute `node`.
pub open spec fn segments_upto(tree: &SyntaxTree, source: Seq<char>, node: int, k: int) -> Seq<SegmentView>
    decreases k,
{
    if k <= 0 {
        Seq::empty()
    } else {
        let before = segments_upto(tree, source, node, k - 1);
        let c = tree.child(node, k - 1);
        if tree.is_named(c) {
            before.push(segment_of(tree, source, c))
        } else {
            before
        }
    }
}

/// The record for the attribute `node`.
///
/// The chain is a call when its last hop is one. The arguments belong to the
/// chain rather than to the segment so that a consumer reading a call reads
/// it the same way whether it wrote `foo(1)` or `bar.foo(1)`.
pub open spec fn member_chain_of(tree: &SyntaxTree, source: Seq<char>, node: int) -> MemberChainView {
    let segments = segments_upto(tree, source, node, tree.child_count(node) as int);
    let is_call = segments.len() > 0 && segments.last().is_call;
    MemberChainView {
        segments,
        range: range_of(tree, node),
        is_call,
        arguments: if is_call {
            match tree.last_named_child(node) {
                Some(last) => match tree.child_by_field(last, FieldName::Arguments) {
                    Some(a) => arguments_of(tree, source, a),
                    None => Seq::empty(),
                },
                None => Seq::empty(),
            }
        } else {
            Seq::empty()
        },
        context: expression_context(tree, source, node),
        argument_of: argument_position(tree, source, node),
    }
}

#[verifier::opaque]
pub open spec fn json_segment(segment: SegmentView) -> Seq<char> {
    "{\"kind\":"@ + json_string(segment_kind_name(segment.kind)) + match segment.name {
        Some(name) => json_string_field("name"@, name),
        None => Seq::empty(),
    } + match segment.text {
        Some(text) => json_string_field("text"@, text),
        None => Seq::empty(),
    } + (if segment.is_call {
        json_bool_field("is_call"@, true)
    } else {
        Seq::empty()
    }) + json_range_field("range"@, segment.range) + "}"@
}

/// The JSON objects of `segments`, separated by commas.
pub open spec fn json_segment_list(segments: Seq<SegmentView>) -> Seq<char>
    decreases segments.len(),
{
    if segments.len() == 0 {
        Seq::empty()
    } else if segments.len() == 1 {
        json_segment(segments[0])
    } else {
        json_segment_list(segments.drop_last()) + ","@ + json_segment(segments.last())
    }
}

pub open spec fn json_member_chain_record(record: MemberChainView, scope: Seq<char>) -> Seq<char> {
    "{\"record\":\"member_chain\""@ + json_field_name("segments"@) + "["@ + json_segment_list(
        record.segments,
    ) + "]"@ + json_scope_field(scope) + json_range_field("range"@, record.range) + (
    if record.is_call {
        json_bool_field("is_call"@, true)
    } else {
        Seq::empty()
    }) + json_arguments_field(record.arguments) + json_context_field(record.context)
        + json_optional_argument_of(record.argument_of) + "}\n"@
}

/// What the collector writes for the attribute `node`.
pub open spec fn member_chain_output(tree: &SyntaxTree, source: Seq<char>, node: int, scope: Seq<char>) -> Seq<char> {
    json_member_chain_record(member_chain_of(tree, source, node), scope)
}

fn build_segment<'a>(context: &CollectorContext<'a>, node: usize) -> (segment: SegmentRecord<'a>)
    requires
        context.wf(),
        node < context.tree.len(),
    ensures
        segment@ == segment_of(context.tree, context.source@, node as int),
{
    let tree = context.tree;
    let node_kind = tree.nodes[node].kind;
    let range = get_range(tree, node);
    if node_kind == GDScriptNodeKind::Identifier {
        let name = get_node_text(tree, node, context.source);
        let kind = if chars_equal_str(name, "self") {
            SegmentKind::SelfValue
        } else if chars_equal_str(name, "super") {
            SegmentKind::Other
        } else {
            SegmentKind::Identifier
        };
        return SegmentRecord { kind, name: Some(name), text: None, is_call: false, range };
    }
    if node_kind == GDScriptNodeKind::AttributeCall || node_kind
        == GDScriptNodeKind::AttributeSubscript || node_kind == GDScriptNodeKind::Call || node_kind
        == GDScriptNodeKind::Subscript {
        let is_call = node_kind == GDScriptNodeKind::AttributeCall || node_kind
            == GDScriptNodeKind::Call;
        let name = match tree.find_first_named_child_of_kind(node, GDScriptNodeKind::Identifier) {
            Some(name_node) => Some(get_node_text(tree, name_node, context.source)),
            None => None,
        };
        let text = if name.is_some() {
            None
        } else {
            Some(chars_trim(get_node_text(tree, node, context.source)))
        };
        return SegmentRecord {
            kind: if is_call {
                SegmentKind::Call
            } else {
                SegmentKind::Subscript
            },
            name,
            text,
            is_call,
            range,
        };
    }
    if node_kind == GDScriptNodeKind::GetNode {
        return SegmentRecord {
            kind: SegmentKind::NodePath,
            name: None,
            text: Some(chars_trim(get_node_text(tree, node, context.source))),
            is_call: false,
            range,
        };
    }
    SegmentRecord {
        kind: SegmentKind::Other,
        name: None,
        text: Some(chars_trim(get_node_text(tree, node, context.source))),
        is_call: false,
        range,
    }
}

pub fn collect(context: &CollectorContext, node: usize, output: &mut String)
    requires
        context.wf(),
        node < context.tree.len(),
    ensures
        final(output)@ == old(output)@ + member_chain_output(
            context.tree,
            context.source@,
            node as int,
            context.scope@,
        ),
{
    let tree = context.tree;
    let mut segments: Vec<SegmentRecord> = Vec::new();
    let children = &tree.nodes[node].children;
    let mut k: usize = 0;
    while k < children.len()
        invariant
            context.wf(),
            tree == context.tree,
            node < tree.len(),
            children@ == tree.children(node as int),
            k <= children@.len(),
            segment_views(segments@) == segments_upto(tree, context.source@, node as int, k as int),
        decreases children@.len() - k,
    {
        let child = children[k];
        assert(tree.node_links_wf(node as int));
        let ghost before = segments@;
        if tree.nodes[child].is_named {
            segments.push(build_segment(context, child));
            assert(segment_views(segments@) =~= segment_views(before).push(segments@.last()@));
        }
        k = k + 1;
    }
    let ghost segment_list = segment_views(segments@);
    let is_call = segments.len() > 0 && segments[segments.len() - 1].is_call;
    assert(is_call == (segment_list.len() > 0 && segment_list.last().is_call));
    let mut arguments: Vec<ArgumentRecord> = Vec::new();
    if is_call {
        match tree.first_and_last_named_child(node).1 {
            Some(last_child) => {
                match tree.child_by_field_name(last_child, FieldName::Arguments) {
                    Some(arguments_node) => {
                        collect_arguments(context, arguments_node, &mut arguments);
                    },
                    None => {},
                }
            },
            None => {},
        }
    }
    let record = MemberChainRecord {
        segments,
        range: get_range(tree, node),
        is_call,
        arguments,
        context: find_expression_context(context, node),
        argument_of: find_argument_position(context, node),
    };
    assert(argument_views(record.arguments@) =~= member_chain_of(tree, context.source@, node as int).arguments);
    assert(record@ == member_chain_of(tree, context.source@, node as int));
    write_member_chain_record(&record, context.scope, output);
}

fn write_segment(segment: &SegmentRecord, output: &mut String)
    ensures
        final(output)@ == old(output)@ + json_segment(segment@),
{
    let ghost start = output@;
    push_str(output, "{\"kind\":");
    json_push_escaped_string(segment.kind.as_str(), output);
    let ghost after_kind = output@;
    match segment.name {
        Some(name) => json_push_text_field("name", name, output),
        None => {},
    }
    let ghost after_name = output@;
    match segment.text {
        Some(text) => json_push_text_field("text", text, output),
        None => {},
    }
    let ghost after_text = output@;
    if segment.is_call {
        json_push_bool_field("is_call", true, output);
    }
    let ghost after_call = output@;
    json_push_range_field("range", &segment.range, output);
    push_str(output, "}");
    reveal(json_segment);
    assert(output@ =~= start + json_segment(segment@));
}

fn write_member_chain_record(record: &MemberChainRecord, scope: &[char], output: &mut String)
    ensures
        final(output)@ == old(output)@ + json_member_chain_record(record@, scope@),
{
    let ghost start = output@;
    let ghost view = record@;
    push_str(output, "{\"record\":\"member_chain\"");
    json_push_field_name("segments", output);
    push_str(output, "[");
    let ghost list_start = output@;
    let mut index: usize = 0;
    while index < record.segments.len()
        invariant
            index <= record.segments@.len(),
            view == record@,
            output@ == list_start + json_segment_list(view.segments.subrange(0, index as int)),
        decreases record.segments@.len() - index,
    {
        if index > 0 {
            push_str(output, ",");
        }
        write_segment(&record.segments[index], output);
        proof {
            let prefix = view.segments.subrange(0, index + 1);
            assert(prefix.drop_last() =~= view.segments.subrange(0, index as int));
            assert(prefix.last() == record.segments@[index as int]@);
        }
        index = index + 1;
        assert(output@ =~= list_start + json_segment_list(view.segments.subrange(0, index as int)));
    }
    assert(view.segments.subrange(0, view.segments.len() as int) =~= view.segments);
    push_str(output, "]");
    write_scope_field(scope, output);
    json_push_range_field("range", &record.range, output);
    let ghost head = output@;
    if record.is_call {
        json_push_bool_field("is_call", true, output);
    }
    let ghost after_call = output@;
    write_arguments_field(record.arguments.as_slice(), output);
    write_context_field(record.context, output);
    write_optional_argument_of(&record.argument_of, output);
    push_str(output, "}\n");
    proof {
        let call_part = if view.is_call {
            json_bool_field("is_call"@, true)
        } else {
            Seq::empty()
        };
        assert(after_call =~= head + call_part);
        assert(head =~= start + "{\"record\":\"member_chain\""@ + json_field_name("segments"@) + "["@
            + json_segment_list(view.segments) + "]"@ + json_scope_field(scope@) + json_range_field(
            "range"@,
            view.range,
        ));
        assert(output@ =~= after_call + json_arguments_field(view.arguments) + json_context_field(
            view.context,
        ) + json_optional_argument_of(view.argument_of) + "}\n"@);
        assert(output@ =~= start + json_member_chain_record(view, scope@));
    }
}

} // verus!

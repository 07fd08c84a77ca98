//! The collector registry and the helpers collectors share.
//!
//! A collector names the node kinds it cares about and turns a matching node
//! into records. Collectors hold no state; the walk calls the collector whose
//! target kinds hold the kind of the node it meets.

pub mod annotation;
pub mod comment;
pub mod comparison;
pub mod declaration;
pub mod member_chain;
pub mod node_path;
pub mod reference;
pub mod string_literal;

use crate::index::{
    json_field_name, json_push_escaped_chars, json_push_field_name, json_push_range_field,
    json_push_text_field, json_range_field, json_string, json_string_field,
};
use crate::linter::lib::{SourceRange, get_node_text, get_range, range_of};
use crate::node_kind::GDScriptNodeKind;
use crate::syntax::{FieldName, SyntaxTree};
use crate::text::{chars_equal_str, chars_trim, decimal, push_decimal, push_str, trim};
use vstd::prelude::*;

verus! {

/// What every collector needs beyond the node itself.
pub struct CollectorContext<'a> {
    pub tree: &'a SyntaxTree,
    pub source: &'a [char],
    /// Dot separated enclosing declarations, empty at file level.
    pub scope: &'a [char],
}

impl<'a> CollectorContext<'a> {
    /// The tree is well formed for the source.
    pub open spec fn wf(&self) -> bool {
        &&& self.tree.wf(self.source@.len())
        &&& self.tree.matches_source(self.source@)
    }
}

/// The collectors, in registry order.
#[derive(Debug, Clone, Copy, PartialEq, Eq, Structural)]
pub enum Collector {
    Declaration,
    Reference,
    MemberChain,
    StringLiteral,
    Comparison,
    Comment,
    Annotation,
}

/// True when `collector` runs on nodes of kind `kind`.
pub open spec fn collector_targets(collector: Collector, kind: GDScriptNodeKind) -> bool {
    match collector {
        Collector::Declaration => declaration::is_target(kind),
        Collector::Reference => kind == GDScriptNodeKind::Identifier,
        Collector::MemberChain => kind == GDScriptNodeKind::Attribute,
        Collector::StringLiteral => string_literal::is_target(kind),
        Collector::Comparison => kind == GDScriptNodeKind::BinaryOperator,
        Collector::Comment => kind == GDScriptNodeKind::Comment,
        Collector::Annotation => kind == GDScriptNodeKind::Annotation,
    }
}

/// The collector that runs on nodes of kind `kind`. The target kinds of the
/// collectors do not overlap, so there is at most one.
pub open spec fn collector_of_kind(kind: GDScriptNodeKind) -> Option<Collector> {
    if declaration::is_target(kind) {
        Some(Collector::Declaration)
    } else if kind == GDScriptNodeKind::Identifier {
        Some(Collector::Reference)
    } else if kind == GDScriptNodeKind::Attribute {
        Some(Collector::MemberChain)
    } else if string_literal::is_target(kind) {
        Some(Collector::StringLiteral)
    } else if kind == GDScriptNodeKind::BinaryOperator {
        Some(Collector::Comparison)
    } else if kind == GDScriptNodeKind::Comment {
        Some(Collector::Comment)
    } else if kind == GDScriptNodeKind::Annotation {
        Some(Collector::Annotation)
    } else {
        None
    }
}

/// No two collectors share a target kind, and `collector_of_kind` names the
/// one that targets a kind.
pub proof fn lemma_collector_targets_disjoint(kind: GDScriptNodeKind, collector: Collector)
    ensures
        collector_targets(collector, kind) <==> collector_of_kind(kind) == Some(collector),
{
}

/// Finds the collector for a node kind.
pub fn find_collector(kind: GDScriptNodeKind) -> (collector: Option<Collector>)
    ensures
        collector == collector_of_kind(kind),
{
    if declaration::targets(kind) {
        Some(Collector::Declaration)
    } else if kind == GDScriptNodeKind::Identifier {
        Some(Collector::Reference)
    } else if kind == GDScriptNodeKind::Attribute {
        Some(Collector::MemberChain)
    } else if string_literal::targets(kind) {
        Some(Collector::StringLiteral)
    } else if kind == GDScriptNodeKind::BinaryOperator {
        Some(Collector::Comparison)
    } else if kind == GDScriptNodeKind::Comment {
        Some(Collector::Comment)
    } else if kind == GDScriptNodeKind::Annotation {
        Some(Collector::Annotation)
    } else {
        None
    }
}

/// What `collector` writes for the node `node`.
pub open spec fn collector_output(
    collector: Collector,
    tree: &SyntaxTree,
    source: Seq<char>,
    node: int,
    scope: Seq<char>,
) -> Seq<char> {
    match collector {
        Collector::Declaration => declaration::declaration_output(tree, source, node, scope),
        Collector::Reference => reference::reference_output(tree, source, node, scope),
        Collector::MemberChain => member_chain::member_chain_output(tree, source, node, scope),
        Collector::StringLiteral => string_literal::string_literal_output(tree, source, node, scope),
        Collector::Comparison => comparison::comparison_output(tree, source, node, scope),
        Collector::Comment => comment::comment_output(tree, source, node, scope),
        Collector::Annotation => annotation::annotation_output(tree, source, node, scope),
    }
}

/// Runs `collector` on the node `node`.
pub fn run_collector(collector: Collector, context: &CollectorContext, node: usize, output: &mut String)
    requires
        context.wf(),
        node < context.tree.len(),
    ensures
        final(output)@ == old(output)@ + collector_output(
            collector,
            context.tree,
            context.source@,
            node as int,
            context.scope@,
        ),
{
    match collector {
        Collector::Declaration => declaration::collect(context, node, output),
        Collector::Reference => reference::collect(context, node, output),
        Collector::MemberChain => member_chain::collect(context, node, output),
        Collector::StringLiteral => string_literal::collect(context, node, output),
        Collector::Comparison => comparison::collect(context, node, output),
        Collector::Comment => comment::collect(context, node, output),
        Collector::Annotation => annotation::collect(context, node, output),
    }
}

/// One argument in a call, annotation or signal emission, as written.
pub struct ArgumentRecord<'a> {
    pub text: &'a [char],
    pub range: SourceRange,
}

/// The abstract value of an `ArgumentRecord`.
pub struct ArgumentView {
    pub text: Seq<char>,
    pub range: SourceRange,
}

impl<'a> View for ArgumentRecord<'a> {
    type V = ArgumentView;

    open spec fn view(&self) -> ArgumentView {
        ArgumentView { text: self.text@, range: self.range }
    }
}

pub open spec fn argument_views<'a>(records: Seq<ArgumentRecord<'a>>) -> Seq<ArgumentView> {
    records.map_values(|r: ArgumentRecord<'a>| r@)
}

/// The arguments among the first `k` children of the arguments node `a`:
/// its named children that are not comments, trimmed.
pub open spec fn arguments_upto(tree: &SyntaxTree, source: Seq<char>, a: int, k: int) -> Seq<ArgumentView>
    decreases k,
{
    if k <= 0 {
        Seq::empty()
    } else {
        let before = arguments_upto(tree, source, a, k - 1);
        let c = tree.child(a, k - 1);
        if tree.is_named(c) && tree.kind(c) != GDScriptNodeKind::Comment {
            before.push(ArgumentView { text: trim(tree.text(source, c)), range: range_of(tree, c) })
        } else {
            before
        }
    }
}

/// The arguments of the arguments node `a`.
pub open spec fn arguments_of(tree: &SyntaxTree, source: Seq<char>, a: int) -> Seq<ArgumentView> {
    arguments_upto(tree, source, a, tree.child_count(a) as int)
}

/// Reads the arguments of an `arguments` node. Comments can appear between
/// arguments in wrapped calls, and they are not arguments.
pub fn collect_arguments<'a>(
    context: &CollectorContext<'a>,
    arguments_node: usize,
    arguments: &mut Vec<ArgumentRecord<'a>>,
)
    requires
        context.wf(),
        arguments_node < context.tree.len(),
    ensures
        argument_views(final(arguments)@) == argument_views(old(arguments)@) + arguments_of(
            context.tree,
            context.source@,
            arguments_node as int,
        ),
{
    let tree = context.tree;
    let children = &tree.nodes[arguments_node].children;
    let ghost start = argument_views(arguments@);
    let mut k: usize = 0;
    while k < children.len()
        invariant
            context.wf(),
            arguments_node < tree.len(),
            tree == context.tree,
            children@ == tree.children(arguments_node as int),
            k <= children@.len(),
            argument_views(arguments@) == start + arguments_upto(
                tree,
                context.source@,
                arguments_node as int,
                k as int,
            ),
        decreases children@.len() - k,
    {
        let child = children[k];
        assert(tree.node_links_wf(arguments_node as int));
        let ghost before = arguments@;
        if tree.nodes[child].is_named && tree.nodes[child].kind != GDScriptNodeKind::Comment {
            let text = chars_trim(get_node_text(tree, child, context.source));
            arguments.push(ArgumentRecord { text, range: get_range(tree, child) });
            assert(argument_views(arguments@) =~= argument_views(before) + seq![arguments@.last()@]);
        } else {
            assert(argument_views(arguments@) =~= argument_views(before));
        }
        k = k + 1;
    }
}

/// One argument as a JSON object.
#[verifier::opaque]
pub open spec fn json_argument(argument: ArgumentView) -> Seq<char> {
    "{\"text\":"@ + json_string(argument.text) + json_range_field("range"@, argument.range) + "}"@
}

/// The JSON objects of `arguments`, separated by commas.
pub open spec fn json_argument_list(arguments: Seq<ArgumentView>) -> Seq<char>
    decreases arguments.len(),
{
    if arguments.len() == 0 {
        Seq::empty()
    } else if arguments.len() == 1 {
        json_argument(arguments[0])
    } else {
        json_argument_list(arguments.drop_last()) + ","@ + json_argument(arguments.last())
    }
}

/// The `arguments` field; absent when there are no arguments.
#[verifier::opaque]
pub open spec fn json_arguments_field(arguments: Seq<ArgumentView>) -> Seq<char> {
    if arguments.len() == 0 {
        Seq::empty()
    } else {
        json_field_name("arguments"@) + "["@ + json_argument_list(arguments) + "]"@
    }
}

pub fn write_arguments_field(arguments: &[ArgumentRecord], output: &mut String)
    ensures
        final(output)@ == old(output)@ + json_arguments_field(argument_views(arguments@)),
{
    let ghost views = argument_views(arguments@);
    reveal(json_arguments_field);
    reveal(json_argument);
    if arguments.len() == 0 {
        assert(views.len() == 0);
        return;
    }
    let ghost start = output@;
    json_push_field_name("arguments", output);
    push_str(output, "[");
    let mut index: usize = 0;
    while index < arguments.len()
        invariant
            index <= arguments@.len(),
            views == argument_views(arguments@),
            output@ == start + json_field_name("arguments"@) + "["@ + json_argument_list(
                views.subrange(0, index as int),
            ),
        decreases arguments@.len() - index,
    {
        let ghost before = output@;
        if index > 0 {
            push_str(output, ",");
        }
        push_str(output, "{\"text\":");
        json_push_escaped_chars(arguments[index].text, output);
        json_push_range_field("range", &arguments[index].range, output);
        push_str(output, "}");
        proof {
            reveal(json_argument);
            let prefix = views.subrange(0, index + 1);
            assert(prefix.drop_last() =~= views.subrange(0, index as int));
            assert(prefix.last() == arguments@[index as int]@);
        }
        index = index + 1;
        assert(output@ =~= start + json_field_name("arguments"@) + "["@ + json_argument_list(
            views.subrange(0, index as int),
        ));
    }
    push_str(output, "]");
    assert(views.subrange(0, views.len() as int) =~= views);
    assert(output@ =~= start + json_arguments_field(views));
}

/// The `scope` field. It is always present, including when empty: a consumer
/// resolving a name has to know it looked at a file level record rather than
/// at a record whose scope was dropped.
#[verifier::opaque]
pub open spec fn json_scope_field(scope: Seq<char>) -> Seq<char> {
    json_string_field("scope"@, scope)
}

pub fn write_scope_field(scope: &[char], output: &mut String)
    ensures
        final(output)@ == old(output)@ + json_scope_field(scope@),
{
    json_push_text_field("scope", scope, output);
    reveal(json_scope_field);
}

/// Where an expression sits in the argument list that encloses it.
pub struct ArgumentPosition<'a> {
    /// The name of the thing being called, when it is a plain name.
    pub callee: Option<&'a [char]>,
    pub index: usize,
}

/// The abstract value of an `ArgumentPosition`.
pub struct ArgumentPositionView {
    pub callee: Option<Seq<char>>,
    pub index: nat,
}

impl<'a> View for ArgumentPosition<'a> {
    type V = ArgumentPositionView;

    open spec fn view(&self) -> ArgumentPositionView {
        ArgumentPositionView {
            callee: match self.callee {
                Some(c) => Some(c@),
                None => None,
            },
            index: self.index as nat,
        }
    }
}

/// Scans the first `k` children of `parent` for `node`, counting the named
/// children that are not comments: the count so far, and the count at which
/// `node` was met.
pub open spec fn argument_scan(tree: &SyntaxTree, parent: int, node: int, k: int) -> (nat, Option<nat>)
    decreases k,
{
    if k <= 0 {
        (0, None)
    } else {
        let (count, found) = argument_scan(tree, parent, node, k - 1);
        let c = tree.child(parent, k - 1);
        if tree.is_named(c) && tree.kind(c) != GDScriptNodeKind::Comment {
            if found is None && c == node {
                (count + 1, Some(count))
            } else {
                (count + 1, found)
            }
        } else {
            (count, found)
        }
    }
}

/// The callee named by the first named child of `owner`, when `owner` is a
/// call, method call or annotation and that child is a plain name.
pub open spec fn callee_of(tree: &SyntaxTree, source: Seq<char>, owner: int) -> Option<Seq<char>> {
    let owner_kind = tree.kind(owner);
    if owner_kind == GDScriptNodeKind::Call || owner_kind == GDScriptNodeKind::AttributeCall
        || owner_kind == GDScriptNodeKind::Annotation {
        match tree.first_named_child(owner) {
            Some(first) => if tree.kind(first) == GDScriptNodeKind::Identifier {
                Some(tree.text(source, first))
            } else {
                None
            },
            None => None,
        }
    } else {
        None
    }
}

/// The argument list position of `node`, or None when it is not an argument.
pub open spec fn argument_position(tree: &SyntaxTree, source: Seq<char>, node: int) -> Option<ArgumentPositionView> {
    match tree.node(node).parent {
        None => None,
        Some(parent) => if tree.kind(parent as int) != GDScriptNodeKind::Arguments {
            None
        } else {
            match argument_scan(tree, parent as int, node, tree.child_count(parent as int) as int).1 {
                None => None,
                Some(index) => match tree.node(parent as int).parent {
                    None => None,
                    Some(owner) => Some(
                        ArgumentPositionView { callee: callee_of(tree, source, owner as int), index },
                    ),
                },
            }
        },
    }
}

proof fn lemma_argument_scan_count(tree: &SyntaxTree, parent: int, node: int, k: int)
    ensures
        argument_scan(tree, parent, node, k).0 <= if k < 0 { 0 } else { k },
        argument_scan(tree, parent, node, k).1 matches Some(i) ==> i < argument_scan(tree, parent, node, k).0,
    decreases k,
{
    if k > 0 {
        lemma_argument_scan_count(tree, parent, node, k - 1);
    }
}

/// Returns the argument list position of `node`, or None when it is not an
/// argument.
///
/// Callers pass the outermost node of the expression: for a call, the call node
/// rather than its callee, since that is the node the argument list holds.
pub fn find_argument_position<'a>(context: &CollectorContext<'a>, node: usize) -> (position: Option<ArgumentPosition<'a>>)
    requires
        context.wf(),
        node < context.tree.len(),
    ensures
        match position {
            Some(p) => argument_position(context.tree, context.source@, node as int) == Some(p@),
            None => argument_position(context.tree, context.source@, node as int) is None,
        },
{
    let tree = context.tree;
    let parent = match tree.nodes[node].parent {
        Some(parent) => parent,
        None => return None,
    };
    assert(tree.node_links_wf(node as int));
    if tree.nodes[parent].kind != GDScriptNodeKind::Arguments {
        return None;
    }
    let children = &tree.nodes[parent].children;
    let mut count: usize = 0;
    let mut found: Option<usize> = None;
    let mut k: usize = 0;
    while k < children.len()
        invariant
            context.wf(),
            tree == context.tree,
            parent < tree.len(),
            children@ == tree.children(parent as int),
            k <= children@.len(),
            count as nat == argument_scan(tree, parent as int, node as int, k as int).0,
            found matches Some(i) ==> argument_scan(tree, parent as int, node as int, k as int).1 == Some(i as nat),
            found is None ==> argument_scan(tree, parent as int, node as int, k as int).1 is None,
        decreases children@.len() - k,
    {
        proof {
            lemma_argument_scan_count(tree, parent as int, node as int, k as int);
        }
        let child = children[k];
        assert(tree.node_links_wf(parent as int));
        if tree.nodes[child].is_named && tree.nodes[child].kind != GDScriptNodeKind::Comment {
            if found.is_none() && child == node {
                found = Some(count);
            }
            count = count + 1;
        }
        k = k + 1;
    }
    let index = match found {
        Some(index) => index,
        None => return None,
    };
    let owner = match tree.nodes[parent].parent {
        Some(owner) => owner,
        None => return None,
    };
    assert(tree.node_links_wf(parent as int));
    let owner_kind = tree.nodes[owner].kind;
    let mut callee: Option<&'a [char]> = None;
    if owner_kind == GDScriptNodeKind::Call || owner_kind == GDScriptNodeKind::AttributeCall
        || owner_kind == GDScriptNodeKind::Annotation {
        let (first, _) = tree.first_and_last_named_child(owner);
        match first {
            Some(first) => {
                if tree.nodes[first].kind == GDScriptNodeKind::Identifier {
                    callee = Some(get_node_text(tree, first, context.source));
                }
            },
            None => {},
        }
    }
    Some(ArgumentPosition { callee, index })
}

/// The `argument_of` field.
#[verifier::opaque]
pub open spec fn json_argument_of_field(position: ArgumentPositionView) -> Seq<char> {
    json_field_name("argument_of"@) + "{"@ + match position.callee {
        Some(callee) => "\"callee\":"@ + json_string(callee) + ","@,
        None => Seq::empty(),
    } + "\"index\":"@ + decimal(position.index) + "}"@
}

/// The `argument_of` field when there is a position, nothing otherwise.
#[verifier::opaque]
pub open spec fn json_optional_argument_of(position: Option<ArgumentPositionView>) -> Seq<char> {
    match position {
        Some(p) => json_argument_of_field(p),
        None => Seq::empty(),
    }
}

pub fn write_argument_of_field(argument_position: &ArgumentPosition, output: &mut String)
    ensures
        final(output)@ == old(output)@ + json_argument_of_field(argument_position@),
{
    let ghost start = output@;
    json_push_field_name("argument_of", output);
    push_str(output, "{");
    let ghost after_brace = output@;
    match argument_position.callee {
        Some(callee) => {
            push_str(output, "\"callee\":");
            json_push_escaped_chars(callee, output);
            push_str(output, ",");
        },
        None => {},
    }
    push_str(output, "\"index\":");
    push_decimal(argument_position.index, output);
    push_str(output, "}");
    reveal(json_argument_of_field);
    reveal(json_string);
    assert(output@ =~= start + json_argument_of_field(argument_position@));
}

/// Writes `argument_of` when there is a position.
pub fn write_optional_argument_of(argument_position: &Option<ArgumentPosition>, output: &mut String)
    ensures
        final(output)@ == old(output)@ + json_optional_argument_of(
            match argument_position {
                Some(p) => Some(p@),
                None => None,
            },
        ),
{
    reveal(json_optional_argument_of);
    match argument_position {
        Some(p) => write_argument_of_field(p, output),
        None => {},
    }
}

/// What an expression is doing where it sits.
#[derive(Debug, Clone, Copy, PartialEq, Eq, Structural)]
pub enum ExpressionContext {
    Statement,
    Condition,
    AssignmentTarget,
    AssignmentValue,
    Argument,
    ReturnValue,
    Type,
    Other,
}

/// The spelling of each context in the output.
pub open spec fn context_name(context: ExpressionContext) -> Seq<char> {
    match context {
        ExpressionContext::Statement => "statement"@,
        ExpressionContext::Condition => "condition"@,
        ExpressionContext::AssignmentTarget => "assignment_target"@,
        ExpressionContext::AssignmentValue => "assignment_value"@,
        ExpressionContext::Argument => "argument"@,
        ExpressionContext::ReturnValue => "return_value"@,
        ExpressionContext::Type => "type"@,
        ExpressionContext::Other => "other"@,
    }
}

impl ExpressionContext {
    pub fn as_str(&self) -> (name: &'static str)
        ensures
            name@ == context_name(*self),
    {
        match self {
            ExpressionContext::Statement => "statement",
            ExpressionContext::Condition => "condition",
            ExpressionContext::AssignmentTarget => "assignment_target",
            ExpressionContext::AssignmentValue => "assignment_value",
            ExpressionContext::Argument => "argument",
            ExpressionContext::ReturnValue => "return_value",
            ExpressionContext::Type => "type",
            ExpressionContext::Other => "other",
        }
    }
}

/// The `context` field.
#[verifier::opaque]
pub open spec fn json_context_field(context: ExpressionContext) -> Seq<char> {
    json_string_field("context"@, context_name(context))
}

pub fn write_context_field(context: ExpressionContext, output: &mut String)
    ensures
        final(output)@ == old(output)@ + json_context_field(context),
{
    crate::index::json_push_string_field("context", context.as_str(), output);
    reveal(json_context_field);
}

/// True when `parent` evaluates its operands for their truthiness: a
/// boolean `and`/`or` in either spelling, or a `not`/`!`.
///
/// The `not` of `is not` and `not in` is part of a comparison rather than a
/// unary operator, so it does not reach here: those spell their operator in
/// the `op` fields of a binary operator, and neither reads as `and` or `or`.
pub open spec fn is_truth_test(tree: &SyntaxTree, source: Seq<char>, parent: int) -> bool {
    if tree.kind(parent) == GDScriptNodeKind::BinaryOperator {
        match tree.child_by_field(parent, FieldName::Op) {
            Some(op) => {
                let text = tree.text(source, op);
                text == "and"@ || text == "or"@ || text == "&&"@ || text == "||"@
            },
            None => false,
        }
    } else if tree.kind(parent) == GDScriptNodeKind::UnaryOperator {
        match tree.first_child(parent) {
            Some(op) => {
                let text = tree.text(source, op);
                text == "not"@ || text == "!"@
            },
            None => false,
        }
    } else {
        false
    }
}

fn is_truth_tested_by(context: &CollectorContext, parent: usize) -> (result: bool)
    requires
        context.wf(),
        parent < context.tree.len(),
    ensures
        result == is_truth_test(context.tree, context.source@, parent as int),
{
    let tree = context.tree;
    let kind = tree.nodes[parent].kind;
    if kind == GDScriptNodeKind::BinaryOperator {
        match tree.child_by_field_name(parent, FieldName::Op) {
            Some(op) => {
                assert(tree.node_links_wf(parent as int));
                let text = get_node_text(tree, op, context.source);
                chars_equal_str(text, "and") || chars_equal_str(text, "or") || chars_equal_str(text, "&&")
                    || chars_equal_str(text, "||")
            },
            None => false,
        }
    } else if kind == GDScriptNodeKind::UnaryOperator {
        match tree.first_child_at(parent) {
            Some(op) => {
                assert(tree.node_links_wf(parent as int));
                let text = get_node_text(tree, op, context.source);
                chars_equal_str(text, "not") || chars_equal_str(text, "!")
            },
            None => false,
        }
    } else {
        false
    }
}

/// True when `ancestor` or one of its ancestors, through subscripts only, is
/// a type.
pub open spec fn type_ancestor(tree: &SyntaxTree, ancestor: int) -> bool
    decreases ancestor,
{
    if ancestor < 0 || ancestor >= tree.len() {
        false
    } else if tree.kind(ancestor) == GDScriptNodeKind::Type {
        true
    } else if tree.kind(ancestor) != GDScriptNodeKind::Subscript && tree.kind(ancestor)
        != GDScriptNodeKind::SubscriptArguments {
        false
    } else {
        match tree.node(ancestor).parent {
            Some(p) => if (p as int) < ancestor {
                type_ancestor(tree, p as int)
            } else {
                false
            },
            None => false,
        }
    }
}

/// True when the node sits in a type position, such as `Label` in
/// `var clock: Label` or `int` in `Array[int]`.
pub open spec fn is_in_type(tree: &SyntaxTree, node: int) -> bool {
    match tree.node(node).parent {
        Some(p) => type_ancestor(tree, p as int),
        None => false,
    }
}

fn is_inside_type_annotation(tree: &SyntaxTree, node: usize) -> (result: bool)
    requires
        tree.wf_links(),
        node < tree.len(),
    ensures
        result == is_in_type(tree, node as int),
{
    let mut ancestor = tree.nodes[node].parent;
    assert(tree.node_links_wf(node as int));
    loop
        invariant
            tree.wf_links(),
            ancestor matches Some(a) ==> a < tree.len(),
            is_in_type(tree, node as int) == match ancestor {
                Some(a) => type_ancestor(tree, a as int),
                None => false,
            },
        decreases match ancestor {
            Some(a) => a as int + 1,
            None => 0,
        },
    {
        match ancestor {
            None => return false,
            Some(current) => {
                let kind = tree.nodes[current].kind;
                if kind == GDScriptNodeKind::Type {
                    return true;
                }
                if kind != GDScriptNodeKind::Subscript && kind != GDScriptNodeKind::SubscriptArguments {
                    return false;
                }
                assert(tree.node_links_wf(current as int));
                ancestor = tree.nodes[current].parent;
                if current == 0 {
                    assert(ancestor is None);
                }
            },
        }
    }
}

/// What an expression is doing where it sits.
pub open spec fn expression_context(tree: &SyntaxTree, source: Seq<char>, node: int) -> ExpressionContext
    decreases node,
{
    if node < 0 || node >= tree.len() {
        ExpressionContext::Other
    } else {
        match tree.node(node).parent {
            None => ExpressionContext::Other,
            Some(p) => {
                let parent = p as int;
                let parent_kind = tree.kind(parent);
                if parent >= node {
                    ExpressionContext::Other
                } else if parent_kind == GDScriptNodeKind::ParenthesizedExpression {
                    expression_context(tree, source, parent)
                } else if is_truth_test(tree, source, parent) {
                    ExpressionContext::Condition
                } else if parent_kind == GDScriptNodeKind::Arguments {
                    ExpressionContext::Argument
                } else if parent_kind == GDScriptNodeKind::ExpressionStatement {
                    ExpressionContext::Statement
                } else if parent_kind == GDScriptNodeKind::ReturnStatement {
                    ExpressionContext::ReturnValue
                } else if (parent_kind == GDScriptNodeKind::Assignment || parent_kind
                    == GDScriptNodeKind::AugmentedAssignment) && tree.is_field_of(
                    parent,
                    FieldName::Left,
                    node,
                ) {
                    ExpressionContext::AssignmentTarget
                } else if (parent_kind == GDScriptNodeKind::Assignment || parent_kind
                    == GDScriptNodeKind::AugmentedAssignment) && tree.is_field_of(
                    parent,
                    FieldName::Right,
                    node,
                ) {
                    ExpressionContext::AssignmentValue
                } else if (parent_kind == GDScriptNodeKind::Variable || parent_kind
                    == GDScriptNodeKind::ExportVariable || parent_kind
                    == GDScriptNodeKind::OnReadyVariable || parent_kind == GDScriptNodeKind::Const)
                    && tree.is_field_of(parent, FieldName::Value, node) {
                    ExpressionContext::AssignmentValue
                } else if tree.is_field_of(parent, FieldName::Condition, node) {
                    ExpressionContext::Condition
                } else if is_in_type(tree, node) {
                    ExpressionContext::Type
                } else {
                    ExpressionContext::Other
                }
            },
        }
    }
}

/// The context of an expression follows the statement it sits in: the
/// value of a `return` is a `return_value`, an expression statement gives
/// `statement`, a call's argument list gives `argument`; and `statement` is
/// given only to an expression sitting directly in an expression statement
/// or in parentheses.
pub proof fn lemma_context_follows_parent(tree: &SyntaxTree, source: Seq<char>, node: int)
    requires
        tree.wf_links(),
        0 < node < tree.len(),
    ensures
        ({
            let parent = tree.node(node).parent.unwrap() as int;
            &&& tree.kind(parent) == GDScriptNodeKind::ReturnStatement ==> expression_context(tree, source, node)
                == ExpressionContext::ReturnValue
            &&& tree.kind(parent) == GDScriptNodeKind::ExpressionStatement ==> expression_context(
                tree,
                source,
                node,
            ) == ExpressionContext::Statement
            &&& tree.kind(parent) == GDScriptNodeKind::Arguments ==> expression_context(tree, source, node)
                == ExpressionContext::Argument
            &&& expression_context(tree, source, node) == ExpressionContext::Statement ==> tree.kind(parent)
                == GDScriptNodeKind::ExpressionStatement || tree.kind(parent)
                == GDScriptNodeKind::ParenthesizedExpression
            &&& tree.kind(parent) == GDScriptNodeKind::ParenthesizedExpression ==> expression_context(
                tree,
                source,
                node,
            ) == expression_context(tree, source, parent)
            &&& (tree.kind(parent) == GDScriptNodeKind::Assignment || tree.kind(parent)
                == GDScriptNodeKind::AugmentedAssignment) && tree.child_by_field(parent, FieldName::Left) == Some(
                node,
            ) ==> expression_context(tree, source, node) == ExpressionContext::AssignmentTarget
            &&& (tree.kind(parent) == GDScriptNodeKind::Assignment || tree.kind(parent)
                == GDScriptNodeKind::AugmentedAssignment) && tree.child_by_field(parent, FieldName::Left) != Some(
                node,
            ) && tree.child_by_field(parent, FieldName::Right) == Some(node) ==> expression_context(
                tree,
                source,
                node,
            ) == ExpressionContext::AssignmentValue
            &&& (tree.kind(parent) == GDScriptNodeKind::Variable || tree.kind(parent) == GDScriptNodeKind::Const)
                && tree.child_by_field(parent, FieldName::Value) == Some(node) ==> expression_context(
                tree,
                source,
                node,
            ) == ExpressionContext::AssignmentValue
        }),
{
    assert(tree.node_links_wf(node));
}

/// Classifies what an expression is doing where it sits.
///
/// `statement` is the value that unlocks new checks on the consumer side: an
/// expression whose context is `statement` and which is not a call does nothing
/// at runtime. `condition` unlocks another: a method named but not called in a
/// truth test is a `Callable`, which is always true, so the branch never varies.
/// Parentheses do not change what an expression is doing, only how it is
/// written, so the context of a parenthesized expression is the context of
/// the parentheses.
pub fn find_expression_context(context: &CollectorContext, node: usize) -> (result: ExpressionContext)
    requires
        context.wf(),
        node < context.tree.len(),
    ensures
        result == expression_context(context.tree, context.source@, node as int),
    decreases node,
{
    let tree = context.tree;
    let parent = match tree.nodes[node].parent {
        Some(parent) => parent,
        None => return ExpressionContext::Other,
    };
    assert(tree.node_links_wf(node as int));
    // The root has no parent, so the parent comes before `node`.
    assert(node != 0);
    let parent_kind = tree.nodes[parent].kind;
    if parent_kind == GDScriptNodeKind::ParenthesizedExpression {
        return find_expression_context(context, parent);
    }
    if is_truth_tested_by(context, parent) {
        return ExpressionContext::Condition;
    }
    if parent_kind == GDScriptNodeKind::Arguments {
        return ExpressionContext::Argument;
    }
    if parent_kind == GDScriptNodeKind::ExpressionStatement {
        return ExpressionContext::Statement;
    }
    if parent_kind == GDScriptNodeKind::ReturnStatement {
        return ExpressionContext::ReturnValue;
    }
    if parent_kind == GDScriptNodeKind::Assignment || parent_kind
        == GDScriptNodeKind::AugmentedAssignment {
        if tree.is_field_of_at(parent, FieldName::Left, node) {
            return ExpressionContext::AssignmentTarget;
        }
        if tree.is_field_of_at(parent, FieldName::Right, node) {
            return ExpressionContext::AssignmentValue;
        }
    }
    // The initializer of a declaration is an assignment in everything but
    // spelling, and consumers treat it the same way.
    if (parent_kind == GDScriptNodeKind::Variable || parent_kind == GDScriptNodeKind::ExportVariable
        || parent_kind == GDScriptNodeKind::OnReadyVariable || parent_kind
        == GDScriptNodeKind::Const) && tree.is_field_of_at(parent, FieldName::Value, node) {
        return ExpressionContext::AssignmentValue;
    }
    if tree.is_field_of_at(parent, FieldName::Condition, node) {
        return ExpressionContext::Condition;
    }
    if is_inside_type_annotation(tree, node) {
        return ExpressionContext::Type;
    }
    ExpressionContext::Other
}

/// Absent means empty, never unknown: `argument_of` is left out exactly
/// when the record is not an argument, and `arguments` exactly when there
/// are none.
pub proof fn lemma_absent_argument_fields_mean_empty(
    position: Option<ArgumentPositionView>,
    arguments: Seq<ArgumentView>,
)
    ensures
        (json_optional_argument_of(position).len() == 0) <==> position is None,
        (json_arguments_field(arguments).len() == 0) <==> arguments.len() == 0,
{
    reveal(json_optional_argument_of);
    reveal(json_argument_of_field);
    reveal(json_arguments_field);
    reveal_strlit(",\"");
}

} // verus!

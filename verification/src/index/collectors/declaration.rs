//! Emits one `declaration` record per named thing in the file.
//!
//! Annotations and modifiers are fields rather than something the consumer has
//! to recognise in source text. That is the point of the record: an
//! `@abstract func` is a declaration with an annotation, not a line that a
//! regular expression failed to match.

use crate::index::collectors::{CollectorContext, json_scope_field, write_scope_field};
use crate::index::{
    json_bool_field, json_field_name, json_push_bool_field, json_push_escaped_chars,
    json_push_field_name, json_push_range_field, json_push_string_field,
    json_push_text_field, json_range_field, json_string, json_string_field,
};
use crate::linter::lib::{SourceRange, get_node_text, get_range, range_of};
use crate::node_kind::GDScriptNodeKind;
use crate::syntax::{FieldName, SyntaxTree};
use crate::text::{chars_equal_str, chars_trim, push_str, trim};
use vstd::prelude::*;

verus! {

pub open spec fn is_target(kind: GDScriptNodeKind) -> bool {
    matches!(kind, GDScriptNodeKind::ClassName | GDScriptNodeKind::ClassDefinition | GDScriptNodeKind::InnerClass
        | GDScriptNodeKind::Variable | GDScriptNodeKind::ExportVariable | GDScriptNodeKind::OnReadyVariable
        | GDScriptNodeKind::Const | GDScriptNodeKind::Enum | GDScriptNodeKind::Enumerator | GDScriptNodeKind::Signal
        | GDScriptNodeKind::Function | GDScriptNodeKind::Constructor | GDScriptNodeKind::Lambda
        | GDScriptNodeKind::Parameters | GDScriptNodeKind::ForStatement)
}

pub fn targets(kind: GDScriptNodeKind) -> (result: bool)
    ensures
        result == is_target(kind),
{
    matches!(kind, GDScriptNodeKind::ClassName | GDScriptNodeKind::ClassDefinition | GDScriptNodeKind::InnerClass
        | GDScriptNodeKind::Variable | GDScriptNodeKind::ExportVariable | GDScriptNodeKind::OnReadyVariable
        | GDScriptNodeKind::Const | GDScriptNodeKind::Enum | GDScriptNodeKind::Enumerator | GDScriptNodeKind::Signal
        | GDScriptNodeKind::Function | GDScriptNodeKind::Constructor | GDScriptNodeKind::Lambda
        | GDScriptNodeKind::Parameters | GDScriptNodeKind::ForStatement)
}

/// The declarations that bind annotations written on the lines above them.
/// These are exactly the declarations that report annotations.
pub open spec fn absorbs_preceding_annotations(kind: GDScriptNodeKind) -> bool {
    matches!(kind, GDScriptNodeKind::Variable | GDScriptNodeKind::ExportVariable
        | GDScriptNodeKind::OnReadyVariable | GDScriptNodeKind::Const | GDScriptNodeKind::Signal
        | GDScriptNodeKind::Function | GDScriptNodeKind::Constructor)
}

pub fn absorbs_preceding(kind: GDScriptNodeKind) -> (result: bool)
    ensures
        result == absorbs_preceding_annotations(kind),
{
    matches!(kind, GDScriptNodeKind::Variable | GDScriptNodeKind::ExportVariable
        | GDScriptNodeKind::OnReadyVariable | GDScriptNodeKind::Const | GDScriptNodeKind::Signal
        | GDScriptNodeKind::Function | GDScriptNodeKind::Constructor)
}

/// True for the siblings that an annotation run may hold: anonymous
/// tokens, comments and annotations.
pub open spec fn belongs_to_annotation_run(tree: &SyntaxTree, node: int) -> bool {
    !tree.is_named(node) || tree.kind(node) == GDScriptNodeKind::Comment || tree.kind(node)
        == GDScriptNodeKind::Annotation
}

/// The position in `parent`'s children where the run of annotations and
/// comments that ends just before position `k` begins.
pub open spec fn run_begin(tree: &SyntaxTree, parent: int, k: int) -> int
    decreases k,
{
    if k <= 0 {
        0
    } else if belongs_to_annotation_run(tree, tree.child(parent, k - 1)) {
        run_begin(tree, parent, k - 1)
    } else {
        k
    }
}

/// The first child of `parent` at a position in `from..to` that is an
/// annotation.
pub open spec fn first_annotation_between(tree: &SyntaxTree, parent: int, from: int, to: int) -> Option<int>
    decreases to - from,
{
    if from >= to {
        None
    } else if tree.is_named(tree.child(parent, from)) && tree.kind(tree.child(parent, from))
        == GDScriptNodeKind::Annotation {
        Some(tree.child(parent, from))
    } else {
        first_annotation_between(tree, parent, from + 1, to)
    }
}

pub struct AnnotationRecord<'a> {
    pub name: &'a [char],
    pub arguments: Vec<&'a [char]>,
    pub range: SourceRange,
}

/// The abstract value of an `AnnotationRecord`.
pub struct AnnotationView {
    pub name: Seq<char>,
    pub arguments: Seq<Seq<char>>,
    pub range: SourceRange,
}

pub open spec fn text_views<'a>(texts: Seq<&'a [char]>) -> Seq<Seq<char>> {
    texts.map_values(|t: &'a [char]| t@)
}

impl<'a> View for AnnotationRecord<'a> {
    type V = AnnotationView;

    open spec fn view(&self) -> AnnotationView {
        AnnotationView { name: self.name@, arguments: text_views(self.arguments@), range: self.range }
    }
}

pub open spec fn annotation_views<'a>(records: Seq<AnnotationRecord<'a>>) -> Seq<AnnotationView> {
    records.map_values(|r: AnnotationRecord<'a>| r@)
}

/// The trimmed texts of the named children among the first `k` children of
/// the arguments node `arguments`.
pub open spec fn argument_texts_upto(tree: &SyntaxTree, source: Seq<char>, arguments: int, k: int) -> Seq<Seq<char>>
    decreases k,
{
    if k <= 0 {
        Seq::empty()
    } else {
        let before = argument_texts_upto(tree, source, arguments, k - 1);
        let c = tree.child(arguments, k - 1);
        if tree.is_named(c) {
            before.push(trim(tree.text(source, c)))
        } else {
            before
        }
    }
}

/// The arguments of the annotation `annotation`, as written.
pub open spec fn annotation_arguments(tree: &SyntaxTree, source: Seq<char>, annotation: int) -> Seq<Seq<char>> {
    match tree.child_by_field(annotation, FieldName::Arguments) {
        Some(arguments) => argument_texts_upto(tree, source, arguments, tree.child_count(arguments) as int),
        None => Seq::empty(),
    }
}

/// The annotation `annotation`, unless it has no name.
pub open spec fn annotation_of(tree: &SyntaxTree, source: Seq<char>, annotation: int) -> Option<AnnotationView> {
    match tree.first_named_child_of_kind(annotation, GDScriptNodeKind::Identifier) {
        Some(name) => Some(
            AnnotationView {
                name: tree.text(source, name),
                arguments: annotation_arguments(tree, source, annotation),
                range: range_of(tree, annotation),
            },
        ),
        None => None,
    }
}

/// Reads the annotation `annotation`.
pub fn read_annotation<'a>(context: &CollectorContext<'a>, annotation: usize) -> (record: Option<AnnotationRecord<'a>>)
    requires
        context.wf(),
        annotation < context.tree.len(),
    ensures
        match record {
            Some(r) => annotation_of(context.tree, context.source@, annotation as int) == Some(r@),
            None => annotation_of(context.tree, context.source@, annotation as int) is None,
        },
{
    let tree = context.tree;
    let name_node = match tree.find_first_named_child_of_kind(annotation, GDScriptNodeKind::Identifier) {
        Some(name_node) => name_node,
        None => return None,
    };
    let mut arguments: Vec<&'a [char]> = Vec::new();
    match tree.child_by_field_name(annotation, FieldName::Arguments) {
        Some(arguments_node) => {
            let children = &tree.nodes[arguments_node].children;
            let mut k: usize = 0;
            while k < children.len()
                invariant
                    context.wf(),
                    tree == context.tree,
                    arguments_node < tree.len(),
                    children@ == tree.children(arguments_node as int),
                    k <= children@.len(),
                    text_views(arguments@) == argument_texts_upto(tree, context.source@, arguments_node as int, k as int),
                decreases children@.len() - k,
            {
                let child = children[k];
                assert(tree.node_links_wf(arguments_node as int));
                let ghost before = arguments@;
                if tree.nodes[child].is_named {
                    arguments.push(chars_trim(get_node_text(tree, child, context.source)));
                    assert(text_views(arguments@) =~= text_views(before).push(arguments@.last()@));
                }
                k = k + 1;
            }
        },
        None => {
            assert(text_views(arguments@) =~= Seq::empty());
        },
    }
    Some(AnnotationRecord {
        name: get_node_text(tree, name_node, context.source),
        arguments,
        range: get_range(tree, annotation),
    })
}

/// The annotations among the children of `parent` at positions in
/// `from..to`, in order; annotations without a name are skipped.
pub open spec fn annotations_between(tree: &SyntaxTree, source: Seq<char>, parent: int, from: int, to: int) -> Seq<AnnotationView>
    decreases to - from,
{
    if to <= from {
        Seq::empty()
    } else {
        let before = annotations_between(tree, source, parent, from, to - 1);
        let c = tree.child(parent, to - 1);
        if tree.is_named(c) && tree.kind(c) == GDScriptNodeKind::Annotation {
            match annotation_of(tree, source, c) {
                Some(view) => before.push(view),
                None => before,
            }
        } else {
            before
        }
    }
}

/// Appends the annotations among the children of `parent` at positions in
/// `from..to`.
fn collect_annotations_between<'a>(
    context: &CollectorContext<'a>,
    parent: usize,
    from: usize,
    to: usize,
    annotations: &mut Vec<AnnotationRecord<'a>>,
)
    requires
        context.wf(),
        parent < context.tree.len(),
        from <= to <= context.tree.child_count(parent as int),
    ensures
        annotation_views(final(annotations)@) == annotation_views(old(annotations)@) + annotations_between(
            context.tree,
            context.source@,
            parent as int,
            from as int,
            to as int,
        ),
{
    let tree = context.tree;
    let ghost start = annotation_views(annotations@);
    let mut k: usize = from;
    assert(annotations_between(tree, context.source@, parent as int, from as int, from as int) =~= Seq::empty());
    while k < to
        invariant
            context.wf(),
            tree == context.tree,
            parent < tree.len(),
            from <= k <= to <= tree.child_count(parent as int),
            annotation_views(annotations@) == start + annotations_between(tree, context.source@, parent as int, from as int, k as int),
        decreases to - k,
    {
        let child = tree.nodes[parent].children[k];
        assert(tree.node_links_wf(parent as int));
        let ghost before = annotations@;
        if tree.nodes[child].is_named && tree.nodes[child].kind == GDScriptNodeKind::Annotation {
            match read_annotation(context, child) {
                Some(record) => {
                    annotations.push(record);
                    assert(annotation_views(annotations@) =~= annotation_views(before).push(annotations@.last()@));
                },
                None => {},
            }
        }
        k = k + 1;
    }
}

/// The JSON strings of `texts`, separated by commas.
pub open spec fn json_string_list(texts: Seq<Seq<char>>) -> Seq<char>
    decreases texts.len(),
{
    if texts.len() == 0 {
        Seq::empty()
    } else if texts.len() == 1 {
        json_string(texts[0])
    } else {
        json_string_list(texts.drop_last()) + ","@ + json_string(texts.last())
    }
}

/// The `arguments` field of an annotation; absent when there are none.
#[verifier::opaque]
pub open spec fn json_annotation_arguments(arguments: Seq<Seq<char>>) -> Seq<char> {
    if arguments.len() == 0 {
        Seq::empty()
    } else {
        json_field_name("arguments"@) + "["@ + json_string_list(arguments) + "]"@
    }
}

pub fn write_annotation_arguments(arguments: &[&[char]], output: &mut String)
    ensures
        final(output)@ == old(output)@ + json_annotation_arguments(text_views(arguments@)),
{
    reveal(json_annotation_arguments);
    let ghost texts = text_views(arguments@);
    if arguments.len() == 0 {
        return;
    }
    let ghost start = output@;
    json_push_field_name("arguments", output);
    push_str(output, "[");
    let mut index: usize = 0;
    while index < arguments.len()
        invariant
            index <= arguments@.len(),
            texts == text_views(arguments@),
            output@ == start + json_field_name("arguments"@) + "["@ + json_string_list(texts.subrange(0, index as int)),
        decreases arguments@.len() - index,
    {
        if index > 0 {
            push_str(output, ",");
        }
        json_push_escaped_chars(arguments[index], output);
        proof {
            let prefix = texts.subrange(0, index + 1);
            assert(prefix.drop_last() =~= texts.subrange(0, index as int));
        }
        index = index + 1;
        assert(output@ =~= start + json_field_name("arguments"@) + "["@ + json_string_list(texts.subrange(0, index as int)));
    }
    push_str(output, "]");
    assert(texts.subrange(0, texts.len() as int) =~= texts);
    assert(output@ =~= start + json_annotation_arguments(texts));
}

/// The type written on `node`, trimmed. `:=` is an inferred type: nothing was
/// written, and nothing can say what it would be, so there is no type.
pub open spec fn declared_type_of(tree: &SyntaxTree, source: Seq<char>, node: int) -> Option<Seq<char>> {
    match tree.child_by_field(node, FieldName::Type) {
        Some(t) => if tree.kind(t) == GDScriptNodeKind::InferredType {
            None
        } else {
            Some(trim(tree.text(source, t)))
        },
        None => None,
    }
}

fn read_declared_type<'a>(context: &CollectorContext<'a>, node: usize) -> (text: Option<&'a [char]>)
    requires
        context.wf(),
        node < context.tree.len(),
    ensures
        optional_text_view(text) == declared_type_of(context.tree, context.source@, node as int),
{
    let tree = context.tree;
    match tree.child_by_field_name(node, FieldName::Type) {
        Some(type_node) => {
            if tree.nodes[type_node].kind == GDScriptNodeKind::InferredType {
                None
            } else {
                Some(chars_trim(get_node_text(tree, type_node, context.source)))
            }
        },
        None => None,
    }
}

/// The trimmed text of the child of `node` that fills field `f`.
pub open spec fn field_text(tree: &SyntaxTree, source: Seq<char>, node: int, f: FieldName) -> Option<Seq<char>> {
    match tree.child_by_field(node, f) {
        Some(c) => Some(trim(tree.text(source, c))),
        None => None,
    }
}

fn read_field_text<'a>(context: &CollectorContext<'a>, node: usize, f: FieldName) -> (text: Option<&'a [char]>)
    requires
        context.wf(),
        node < context.tree.len(),
    ensures
        optional_text_view(text) == field_text(context.tree, context.source@, node as int, f),
{
    match context.tree.child_by_field_name(node, f) {
        Some(c) => Some(chars_trim(get_node_text(context.tree, c, context.source))),
        None => None,
    }
}

pub open spec fn optional_text_view<'a>(text: Option<&'a [char]>) -> Option<Seq<char>> {
    match text {
        Some(t) => Some(t@),
        None => None,
    }
}

/// `static var` puts the keyword in a field, `static func` does not.
pub open spec fn is_static_declaration(tree: &SyntaxTree, node: int) -> bool {
    tree.child_by_field(node, FieldName::Static) is Some || tree.first_named_child_of_kind(
        node,
        GDScriptNodeKind::KeywordStatic,
    ) is Some
}

fn has_static_modifier(tree: &SyntaxTree, node: usize) -> (result: bool)
    requires
        tree.wf_links(),
        node < tree.len(),
    ensures
        result == is_static_declaration(tree, node as int),
{
    if tree.child_by_field_name(node, FieldName::Static).is_some() {
        return true;
    }
    tree.find_first_named_child_of_kind(node, GDScriptNodeKind::KeywordStatic).is_some()
}

/// A named node that is not a comment: a statement of a body, or the base of an `extends`.
pub open spec fn is_code(tree: &SyntaxTree, node: int) -> bool {
    tree.is_named(node) && tree.kind(node) != GDScriptNodeKind::Comment
}

/// The body holds at least one statement, and every statement is `pass`.
pub open spec fn is_pass_only(tree: &SyntaxTree, body: int) -> bool {
    &&& exists|k: int| 0 <= k < tree.child_count(body) && #[trigger] is_code(tree, tree.child(body, k))
    &&& forall|k: int|
        0 <= k < tree.child_count(body) && #[trigger] is_code(tree, tree.child(body, k)) ==> tree.kind(
            tree.child(body, k),
        ) == GDScriptNodeKind::PassStatement
}

fn is_body_pass_only(tree: &SyntaxTree, body: usize) -> (result: bool)
    requires
        tree.wf_links(),
        body < tree.len(),
    ensures
        result == is_pass_only(tree, body as int),
{
    let children = &tree.nodes[body].children;
    let mut has_statement = false;
    let mut k: usize = 0;
    while k < children.len()
        invariant
            tree.wf_links(),
            body < tree.len(),
            children@ == tree.children(body as int),
            k <= children@.len(),
            has_statement <==> exists|j: int| 0 <= j < k && #[trigger] is_code(tree, tree.child(body as int, j)),
            forall|j: int|
                0 <= j < k && #[trigger] is_code(tree, tree.child(body as int, j)) ==> tree.kind(
                    tree.child(body as int, j),
                ) == GDScriptNodeKind::PassStatement,
        decreases children@.len() - k,
    {
        let child = children[k];
        assert(tree.node_links_wf(body as int));
        if tree.nodes[child].is_named && tree.nodes[child].kind != GDScriptNodeKind::Comment {
            assert(is_code(tree, tree.child(body as int, k as int)));
            if tree.nodes[child].kind != GDScriptNodeKind::PassStatement {
                return false;
            }
            has_statement = true;
        }
        k = k + 1;
    }
    has_statement
}

/// A body is pass-only exactly when it holds a `pass` and every named child
/// is a `pass` or a comment: comments are not statements.
proof fn lemma_pass_only_skips_comments(tree: &SyntaxTree, body: int)
    ensures
        is_pass_only(tree, body) <==> {
            &&& exists|k: int|
                0 <= k < tree.child_count(body) && #[trigger] tree.is_named(tree.child(body, k)) && tree.kind(
                    tree.child(body, k),
                ) == GDScriptNodeKind::PassStatement
            &&& forall|k: int|
                0 <= k < tree.child_count(body) && #[trigger] tree.is_named(tree.child(body, k)) ==> tree.kind(
                    tree.child(body, k),
                ) == GDScriptNodeKind::PassStatement || tree.kind(tree.child(body, k)) == GDScriptNodeKind::Comment
        },
{
    if is_pass_only(tree, body) {
        let k = choose|k: int| 0 <= k < tree.child_count(body) && #[trigger] is_code(tree, tree.child(body, k));
        assert(tree.is_named(tree.child(body, k)));
        assert forall|k: int| 0 <= k < tree.child_count(body) && #[trigger] tree.is_named(tree.child(body, k)) implies tree.kind(
            tree.child(body, k),
        ) == GDScriptNodeKind::PassStatement || tree.kind(tree.child(body, k)) == GDScriptNodeKind::Comment by {
            if tree.kind(tree.child(body, k)) != GDScriptNodeKind::Comment {
                assert(is_code(tree, tree.child(body, k)));
            }
        }
    }
    if (exists|k: int|
        0 <= k < tree.child_count(body) && #[trigger] tree.is_named(tree.child(body, k)) && tree.kind(
            tree.child(body, k),
        ) == GDScriptNodeKind::PassStatement) && (forall|k: int|
        0 <= k < tree.child_count(body) && #[trigger] tree.is_named(tree.child(body, k)) ==> tree.kind(
            tree.child(body, k),
        ) == GDScriptNodeKind::PassStatement || tree.kind(tree.child(body, k)) == GDScriptNodeKind::Comment) {
        let k = choose|k: int|
            0 <= k < tree.child_count(body) && #[trigger] tree.is_named(tree.child(body, k)) && tree.kind(
                tree.child(body, k),
            ) == GDScriptNodeKind::PassStatement;
        assert(is_code(tree, tree.child(body, k)));
        assert forall|k: int| 0 <= k < tree.child_count(body) && #[trigger] is_code(tree, tree.child(body, k)) implies tree.kind(
            tree.child(body, k),
        ) == GDScriptNodeKind::PassStatement by {
            assert(tree.is_named(tree.child(body, k)));
        }
    }
}

/// A function's `body_is_pass_only` holds exactly when it has a body, the
/// body holds a `pass`, and every named child of the body is a `pass` or a
/// comment: a comment, such as the one Godot's script template puts after
/// `pass`, never changes it.
pub proof fn lemma_pass_only_body_ignores_comments(tree: &SyntaxTree, source: Seq<char>, node: int)
    requires
        function_declaration(tree, source, node) is Some,
    ensures
        function_declaration(tree, source, node)->0.body_is_pass_only <==> match tree.child_by_field(
            node,
            FieldName::Body,
        ) {
            Some(body) => {
                &&& exists|k: int|
                    0 <= k < tree.child_count(body) && #[trigger] tree.is_named(tree.child(body, k))
                        && tree.kind(tree.child(body, k)) == GDScriptNodeKind::PassStatement
                &&& forall|k: int|
                    0 <= k < tree.child_count(body) && #[trigger] tree.is_named(tree.child(body, k)) ==> tree.kind(
                        tree.child(body, k),
                    ) == GDScriptNodeKind::PassStatement || tree.kind(tree.child(body, k))
                        == GDScriptNodeKind::Comment
            },
            None => false,
        },
{
    match tree.child_by_field(node, FieldName::Body) {
        Some(body) => lemma_pass_only_skips_comments(tree, body),
        None => {},
    }
}

/// True when one of `annotations` is called `name`.
pub open spec fn is_annotated_with(annotations: Seq<AnnotationView>, name: Seq<char>) -> bool {
    exists|i: int| 0 <= i < annotations.len() && #[trigger] annotations[i].name == name
}

fn has_annotation_named(annotations: &Vec<AnnotationRecord>, name: &str) -> (result: bool)
    ensures
        result == is_annotated_with(annotation_views(annotations@), name@),
{
    let ghost views = annotation_views(annotations@);
    let mut i: usize = 0;
    while i < annotations.len()
        invariant
            i <= annotations@.len(),
            views == annotation_views(annotations@),
            forall|j: int| 0 <= j < i ==> #[trigger] views[j].name != name@,
        decreases annotations@.len() - i,
    {
        if chars_equal_str(annotations[i].name, name) {
            assert(views[i as int].name == name@);
            return true;
        }
        i = i + 1;
    }
    false
}

pub struct ParameterRecord<'a> {
    pub name: &'a [char],
    pub declared_type: Option<&'a [char]>,
    pub default_value: Option<&'a [char]>,
    /// The parameter as written, type and default included.
    pub range: SourceRange,
    /// The parameter name alone.
    pub name_range: SourceRange,
}

/// The abstract value of a `ParameterRecord`.
pub struct ParameterView {
    pub name: Seq<char>,
    pub declared_type: Option<Seq<char>>,
    pub default_value: Option<Seq<char>>,
    pub range: SourceRange,
    pub name_range: SourceRange,
}

impl<'a> View for ParameterRecord<'a> {
    type V = ParameterView;

    open spec fn view(&self) -> ParameterView {
        ParameterView {
            name: self.name@,
            declared_type: optional_text_view(self.declared_type),
            default_value: optional_text_view(self.default_value),
            range: self.range,
            name_range: self.name_range,
        }
    }
}

pub open spec fn parameter_views<'a>(records: Seq<ParameterRecord<'a>>) -> Seq<ParameterView> {
    records.map_values(|r: ParameterRecord<'a>| r@)
}

/// The parameter that child `child` of a parameter list declares, if any: a
/// bare identifier, or a typed, defaulted or variadic parameter with a name.
pub open spec fn parameter_of(tree: &SyntaxTree, source: Seq<char>, child: int) -> Option<ParameterView> {
    if !tree.is_named(child) {
        None
    } else if tree.kind(child) == GDScriptNodeKind::Identifier {
        Some(
            ParameterView {
                name: tree.text(source, child),
                declared_type: None,
                default_value: None,
                range: range_of(tree, child),
                name_range: range_of(tree, child),
            },
        )
    } else if tree.kind(child) == GDScriptNodeKind::Parameter || tree.kind(child)
        == GDScriptNodeKind::VariadicParameter {
        match tree.first_named_child_of_kind(child, GDScriptNodeKind::Identifier) {
            Some(name) => Some(
                ParameterView {
                    name: tree.text(source, name),
                    declared_type: declared_type_of(tree, source, child),
                    default_value: field_text(tree, source, child, FieldName::Value),
                    range: range_of(tree, child),
                    name_range: range_of(tree, name),
                },
            ),
            None => None,
        }
    } else {
        None
    }
}

/// The parameters declared by the first `k` children of the list `list`.
pub open spec fn parameters_upto(tree: &SyntaxTree, source: Seq<char>, list: int, k: int) -> Seq<ParameterView>
    decreases k,
{
    if k <= 0 {
        Seq::empty()
    } else {
        let before = parameters_upto(tree, source, list, k - 1);
        match parameter_of(tree, source, tree.child(list, k - 1)) {
            Some(p) => before.push(p),
            None => before,
        }
    }
}

/// The parameters declared by the parameter list `list`, in order.
pub open spec fn parameters_of(tree: &SyntaxTree, source: Seq<char>, list: int) -> Seq<ParameterView> {
    parameters_upto(tree, source, list, tree.child_count(list) as int)
}

fn read_parameter<'a>(context: &CollectorContext<'a>, child: usize) -> (parameter: Option<ParameterRecord<'a>>)
    requires
        context.wf(),
        child < context.tree.len(),
    ensures
        match parameter {
            Some(p) => parameter_of(context.tree, context.source@, child as int) == Some(p@),
            None => parameter_of(context.tree, context.source@, child as int) is None,
        },
{
    let tree = context.tree;
    if !tree.nodes[child].is_named {
        return None;
    }
    let kind = tree.nodes[child].kind;
    if kind == GDScriptNodeKind::Identifier {
        let range = get_range(tree, child);
        return Some(
            ParameterRecord {
                name: get_node_text(tree, child, context.source),
                declared_type: None,
                default_value: None,
                range,
                name_range: range,
            },
        );
    }
    if kind != GDScriptNodeKind::Parameter && kind != GDScriptNodeKind::VariadicParameter {
        return None;
    }
    match tree.find_first_named_child_of_kind(child, GDScriptNodeKind::Identifier) {
        Some(name_node) => Some(
            ParameterRecord {
                name: get_node_text(tree, name_node, context.source),
                declared_type: read_declared_type(context, child),
                default_value: read_field_text(context, child, FieldName::Value),
                range: get_range(tree, child),
                name_range: get_range(tree, name_node),
            },
        ),
        None => None,
    }
}

/// Reads the parameters declared by the parameter list `list`.
fn collect_parameter_records<'a>(context: &CollectorContext<'a>, list: usize) -> (parameters: Vec<ParameterRecord<'a>>)
    requires
        context.wf(),
        list < context.tree.len(),
    ensures
        parameter_views(parameters@) == parameters_of(context.tree, context.source@, list as int),
{
    let tree = context.tree;
    let children = &tree.nodes[list].children;
    let mut parameters: Vec<ParameterRecord<'a>> = Vec::new();
    let mut k: usize = 0;
    assert(parameter_views(parameters@) =~= Seq::empty());
    while k < children.len()
        invariant
            context.wf(),
            tree == context.tree,
            list < tree.len(),
            children@ == tree.children(list as int),
            k <= children@.len(),
            parameter_views(parameters@) == parameters_upto(tree, context.source@, list as int, k as int),
        decreases children@.len() - k,
    {
        let child = children[k];
        assert(tree.node_links_wf(list as int));
        let ghost before = parameters@;
        match read_parameter(context, child) {
            Some(parameter) => {
                parameters.push(parameter);
                assert(parameter_views(parameters@) =~= parameter_views(before).push(parameters@.last()@));
            },
            None => {},
        }
        k = k + 1;
    }
    parameters
}

/// The children of an `annotations` node that a declaration reports: those
/// of a declaration that binds annotations.
pub open spec fn attached_annotations(tree: &SyntaxTree, source: Seq<char>, node: int) -> Seq<AnnotationView> {
    match tree.first_named_child_of_kind(node, GDScriptNodeKind::Annotations) {
        Some(a) => annotations_between(tree, source, a, 0, tree.child_count(a) as int),
        None => Seq::empty(),
    }
}

/// The annotations written on the lines above `node`: those of the run of
/// annotations and comments just before it among its siblings.
pub open spec fn preceding_annotations(tree: &SyntaxTree, source: Seq<char>, node: int) -> Seq<AnnotationView> {
    match tree.node(node).parent {
        Some(p) => if tree.kind(p as int) == GDScriptNodeKind::Annotations {
            Seq::empty()
        } else {
            let position = tree.node(node).position as int;
            annotations_between(tree, source, p as int, run_begin(tree, p as int, position), position)
        },
        None => Seq::empty(),
    }
}

/// Every annotation that applies to the declaration `node`, in source order:
/// those written above it and those written on its line. Only declarations
/// that bind annotations report them.
pub open spec fn declaration_annotations(tree: &SyntaxTree, source: Seq<char>, node: int) -> Seq<AnnotationView> {
    if absorbs_preceding_annotations(tree.kind(node)) {
        preceding_annotations(tree, source, node) + attached_annotations(tree, source, node)
    } else {
        Seq::empty()
    }
}

/// True when the declaration `node` reports the annotations that apply to
/// it: it is of a kind that binds them, and it has a name.
pub open spec fn binds_annotations(tree: &SyntaxTree, node: int) -> bool {
    tree.is_named(node) && absorbs_preceding_annotations(tree.kind(node)) && function_name(tree, node) is Some
}

/// The first annotation written on the lines above `node`, if it binds them.
pub open spec fn first_preceding_annotation(tree: &SyntaxTree, node: int) -> Option<int> {
    if !absorbs_preceding_annotations(tree.kind(node)) {
        None
    } else {
        match tree.node(node).parent {
            Some(p) => if tree.kind(p as int) == GDScriptNodeKind::Annotations {
                None
            } else {
                let position = tree.node(node).position as int;
                first_annotation_between(tree, p as int, run_begin(tree, p as int, position), position)
            },
            None => None,
        }
    }
}

/// The range from the start of `first` to the end of `last`.
pub open spec fn span(first: SourceRange, last: SourceRange) -> SourceRange {
    SourceRange {
        start_row: first.start_row,
        start_column: first.start_column,
        end_row: last.end_row,
        end_column: last.end_column,
        start_byte: first.start_byte,
        end_byte: last.end_byte,
    }
}

/// The range of the declaration `node`, the annotations above it included.
pub open spec fn declaration_range(tree: &SyntaxTree, node: int) -> SourceRange {
    match first_preceding_annotation(tree, node) {
        Some(a) => span(range_of(tree, a), range_of(tree, node)),
        None => range_of(tree, node),
    }
}

/// Finds where the run of annotations and comments that ends just before
/// position `k` of `parent`'s children begins.
fn find_run_begin(tree: &SyntaxTree, parent: usize, k: usize) -> (begin: usize)
    requires
        tree.wf_links(),
        parent < tree.len(),
        k <= tree.child_count(parent as int),
    ensures
        begin == run_begin(tree, parent as int, k as int),
        begin <= k,
{
    let children = &tree.nodes[parent].children;
    let mut begin = k;
    while begin > 0
        invariant
            tree.wf_links(),
            parent < tree.len(),
            children@ == tree.children(parent as int),
            begin <= k <= children@.len(),
            run_begin(tree, parent as int, k as int) == run_begin(tree, parent as int, begin as int),
        decreases begin,
    {
        let previous = children[begin - 1];
        assert(tree.node_links_wf(parent as int));
        if tree.nodes[previous].is_named && tree.nodes[previous].kind != GDScriptNodeKind::Comment
            && tree.nodes[previous].kind != GDScriptNodeKind::Annotation {
            return begin;
        }
        begin = begin - 1;
    }
    begin
}

/// Finds the first annotation among `parent`'s children at positions in
/// `from..to`.
fn find_first_annotation_between(tree: &SyntaxTree, parent: usize, from: usize, to: usize) -> (found: Option<usize>)
    requires
        tree.wf_links(),
        parent < tree.len(),
        from <= to <= tree.child_count(parent as int),
    ensures
        found matches Some(a) ==> first_annotation_between(tree, parent as int, from as int, to as int)
            == Some(a as int) && a < tree.len(),
        found is None ==> first_annotation_between(tree, parent as int, from as int, to as int) is None,
{
    let children = &tree.nodes[parent].children;
    let mut k = from;
    while k < to
        invariant
            tree.wf_links(),
            parent < tree.len(),
            children@ == tree.children(parent as int),
            from <= k <= to <= children@.len(),
            first_annotation_between(tree, parent as int, from as int, to as int)
                == first_annotation_between(tree, parent as int, k as int, to as int),
        decreases to - k,
    {
        let child = children[k];
        assert(tree.node_links_wf(parent as int));
        if tree.nodes[child].is_named && tree.nodes[child].kind == GDScriptNodeKind::Annotation {
            return Some(child);
        }
        k = k + 1;
    }
    None
}

/// Reads every annotation that applies to the declaration `node`.
fn collect_annotations<'a>(context: &CollectorContext<'a>, node: usize) -> (annotations: Vec<AnnotationRecord<'a>>)
    requires
        context.wf(),
        node < context.tree.len(),
    ensures
        annotation_views(annotations@) == declaration_annotations(context.tree, context.source@, node as int),
{
    let tree = context.tree;
    let mut annotations: Vec<AnnotationRecord<'a>> = Vec::new();
    assert(annotation_views(annotations@) =~= Seq::empty());
    if !absorbs_preceding(tree.nodes[node].kind) {
        return annotations;
    }
    match tree.nodes[node].parent {
        Some(parent) => {
            assert(node != 0);
            assert(tree.node_links_wf(node as int));
            if tree.nodes[parent].kind != GDScriptNodeKind::Annotations {
                let position = tree.nodes[node].position;
                let begin = find_run_begin(tree, parent, position);
                collect_annotations_between(context, parent, begin, position, &mut annotations);
            }
        },
        None => {},
    }
    assert(annotation_views(annotations@) =~= preceding_annotations(tree, context.source@, node as int));
    let ghost preceding = annotation_views(annotations@);
    match tree.find_first_named_child_of_kind(node, GDScriptNodeKind::Annotations) {
        Some(list) => {
            let count = tree.nodes[list].children.len();
            collect_annotations_between(context, list, 0, count, &mut annotations);
        },
        None => {},
    }
    assert(annotation_views(annotations@) =~= preceding + attached_annotations(tree, context.source@, node as int));
    annotations
}

/// Reads the range of the declaration `node`, the annotations above it
/// included.
fn read_declaration_range(tree: &SyntaxTree, node: usize) -> (range: SourceRange)
    requires
        exists|len: nat| tree.wf(len),
        node < tree.len(),
    ensures
        range == declaration_range(tree, node as int),
{
    let whole = get_range(tree, node);
    if !absorbs_preceding(tree.nodes[node].kind) {
        return whole;
    }
    match tree.nodes[node].parent {
        Some(parent) => {
            assert(node != 0);
            assert(tree.node_links_wf(node as int));
            if tree.nodes[parent].kind == GDScriptNodeKind::Annotations {
                return whole;
            }
            let position = tree.nodes[node].position;
            let begin = find_run_begin(tree, parent, position);
            match find_first_annotation_between(tree, parent, begin, position) {
                Some(first) => {
                    let start = get_range(tree, first);
                    SourceRange {
                        start_row: start.start_row,
                        start_column: start.start_column,
                        end_row: whole.end_row,
                        end_column: whole.end_column,
                        start_byte: start.start_byte,
                        end_byte: whole.end_byte,
                    }
                },
                None => whole,
            }
        },
        None => whole,
    }
}

/// What a declaration declares.
#[derive(Debug, Clone, Copy, PartialEq, Eq, Structural)]
pub enum DeclarationKind {
    Class,
    Variable,
    Constant,
    Enum,
    EnumMember,
    Signal,
    Function,
    Parameter,
}

/// The name a declaration kind has in the output.
pub open spec fn kind_name(kind: DeclarationKind) -> Seq<char> {
    match kind {
        DeclarationKind::Class => "class"@,
        DeclarationKind::Variable => "variable"@,
        DeclarationKind::Constant => "constant"@,
        DeclarationKind::Enum => "enum"@,
        DeclarationKind::EnumMember => "enum_member"@,
        DeclarationKind::Signal => "signal"@,
        DeclarationKind::Function => "function"@,
        DeclarationKind::Parameter => "parameter"@,
    }
}

impl DeclarationKind {
    pub fn as_str(&self) -> (name: &'static str)
        ensures
            name@ == kind_name(*self),
    {
        match self {
            DeclarationKind::Class => "class",
            DeclarationKind::Variable => "variable",
            DeclarationKind::Constant => "constant",
            DeclarationKind::Enum => "enum",
            DeclarationKind::EnumMember => "enum_member",
            DeclarationKind::Signal => "signal",
            DeclarationKind::Function => "function",
            DeclarationKind::Parameter => "parameter",
        }
    }
}

pub struct DeclarationRecord<'a> {
    pub kind: DeclarationKind,
    pub name: &'a [char],
    /// The whole declaration, annotations included.
    pub range: SourceRange,
    /// The identifier alone.
    pub name_range: SourceRange,
    pub annotations: Vec<AnnotationRecord<'a>>,
    pub is_static: bool,
    pub is_abstract: bool,
    pub parameters: Vec<ParameterRecord<'a>>,
    /// The declared type as written, or None when there is none or when the
    /// type is inferred with `:=`.
    pub declared_type: Option<&'a [char]>,
    pub default_value: Option<&'a [char]>,
    pub body_range: Option<SourceRange>,
    pub body_is_pass_only: bool,
    /// What a class extends, as written.
    pub extends: Option<&'a [char]>,
}

/// The abstract value of a `DeclarationRecord`.
pub struct DeclarationView {
    pub kind: DeclarationKind,
    pub name: Seq<char>,
    pub range: SourceRange,
    pub name_range: SourceRange,
    pub annotations: Seq<AnnotationView>,
    pub is_static: bool,
    pub is_abstract: bool,
    pub parameters: Seq<ParameterView>,
    pub declared_type: Option<Seq<char>>,
    pub default_value: Option<Seq<char>>,
    pub body_range: Option<SourceRange>,
    pub body_is_pass_only: bool,
    pub extends: Option<Seq<char>>,
}

impl<'a> View for DeclarationRecord<'a> {
    type V = DeclarationView;

    open spec fn view(&self) -> DeclarationView {
        DeclarationView {
            kind: self.kind,
            name: self.name@,
            range: self.range,
            name_range: self.name_range,
            annotations: annotation_views(self.annotations@),
            is_static: self.is_static,
            is_abstract: self.is_abstract,
            parameters: parameter_views(self.parameters@),
            declared_type: optional_text_view(self.declared_type),
            default_value: optional_text_view(self.default_value),
            body_range: self.body_range,
            body_is_pass_only: self.body_is_pass_only,
            extends: optional_text_view(self.extends),
        }
    }
}

/// A declaration with nothing but a kind, a name and its ranges.
pub open spec fn bare_declaration(kind: DeclarationKind, name: Seq<char>, range: SourceRange, name_range: SourceRange) -> DeclarationView {
    DeclarationView {
        kind,
        name,
        range,
        name_range,
        annotations: Seq::empty(),
        is_static: false,
        is_abstract: false,
        parameters: Seq::empty(),
        declared_type: None,
        default_value: None,
        body_range: None,
        body_is_pass_only: false,
        extends: None,
    }
}

impl<'a> DeclarationRecord<'a> {
    pub fn new(kind: DeclarationKind, name: &'a [char], range: SourceRange, name_range: SourceRange) -> (record: Self)
        ensures
            record@ == bare_declaration(kind, name@, range, name_range),
    {
        let record = DeclarationRecord {
            kind,
            name,
            range,
            name_range,
            annotations: Vec::new(),
            is_static: false,
            is_abstract: false,
            parameters: Vec::new(),
            declared_type: None,
            default_value: None,
            body_range: None,
            body_is_pass_only: false,
            extends: None,
        };
        assert(record@.annotations =~= Seq::empty());
        assert(record@.parameters =~= Seq::empty());
        record
    }
}

/// The first of the first `k` children of `node` that is code.
pub open spec fn first_code_child_upto(tree: &SyntaxTree, node: int, k: int) -> Option<int>
    decreases k,
{
    if k <= 0 {
        None
    } else {
        match first_code_child_upto(tree, node, k - 1) {
            Some(c) => Some(c),
            None => if is_code(tree, tree.child(node, k - 1)) {
                Some(tree.child(node, k - 1))
            } else {
                None
            },
        }
    }
}

/// The base an `extends` statement names, as written: a class name, a dotted
/// path or a quoted script path.
pub open spec fn extends_base(tree: &SyntaxTree, source: Seq<char>, statement: int) -> Option<Seq<char>> {
    match first_code_child_upto(tree, statement, tree.child_count(statement) as int) {
        Some(base) => Some(trim(tree.text(source, base))),
        None => None,
    }
}

/// The base named by the first `extends` statement among the named children
/// of `node`.
pub open spec fn extends_among(tree: &SyntaxTree, source: Seq<char>, node: int) -> Option<Seq<char>> {
    match tree.first_named_child_of_kind(node, GDScriptNodeKind::Extends) {
        Some(statement) => extends_base(tree, source, statement),
        None => None,
    }
}

/// What the class `node` extends. `class_name Foo extends Bar` and
/// `class_name Foo` above `extends Bar` say the same; an inner class reports
/// its own base, never the file's.
pub open spec fn class_extends(tree: &SyntaxTree, source: Seq<char>, node: int) -> Option<Seq<char>> {
    match tree.child_by_field(node, FieldName::Extends) {
        Some(statement) => extends_base(tree, source, statement),
        None => if tree.kind(node) == GDScriptNodeKind::ClassName {
            match tree.node(node).parent {
                Some(p) => extends_among(tree, source, p as int),
                None => None,
            }
        } else {
            match tree.child_by_field(node, FieldName::Body) {
                Some(body) => extends_among(tree, source, body),
                None => None,
            }
        },
    }
}

pub fn read_extends_base<'a>(context: &CollectorContext<'a>, statement: usize) -> (base: Option<&'a [char]>)
    requires
        context.wf(),
        statement < context.tree.len(),
    ensures
        optional_text_view(base) == extends_base(context.tree, context.source@, statement as int),
{
    let tree = context.tree;
    let children = &tree.nodes[statement].children;
    let mut k: usize = 0;
    while k < children.len()
        invariant
            context.wf(),
            tree == context.tree,
            statement < tree.len(),
            children@ == tree.children(statement as int),
            k <= children@.len(),
            first_code_child_upto(tree, statement as int, k as int) is None,
        decreases children@.len() - k,
    {
        let child = children[k];
        assert(tree.node_links_wf(statement as int));
        if tree.nodes[child].is_named && tree.nodes[child].kind != GDScriptNodeKind::Comment {
            proof {
                lemma_first_code_child_settles(tree, statement as int, k as int + 1, children@.len() as int);
            }
            return Some(chars_trim(get_node_text(tree, child, context.source)));
        }
        k = k + 1;
    }
    None
}

/// Once the scan has found a child, looking further changes nothing.
proof fn lemma_first_code_child_settles(tree: &SyntaxTree, node: int, k: int, n: int)
    requires
        k <= n,
        first_code_child_upto(tree, node, k) is Some,
    ensures
        first_code_child_upto(tree, node, n) == first_code_child_upto(tree, node, k),
    decreases n - k,
{
    if k < n {
        lemma_first_code_child_settles(tree, node, k, n - 1);
    }
}

pub fn read_extends_among<'a>(context: &CollectorContext<'a>, node: usize) -> (base: Option<&'a [char]>)
    requires
        context.wf(),
        node < context.tree.len(),
    ensures
        optional_text_view(base) == extends_among(context.tree, context.source@, node as int),
{
    match context.tree.find_first_named_child_of_kind(node, GDScriptNodeKind::Extends) {
        Some(statement) => read_extends_base(context, statement),
        None => None,
    }
}

fn read_class_extends<'a>(context: &CollectorContext<'a>, node: usize) -> (base: Option<&'a [char]>)
    requires
        context.wf(),
        node < context.tree.len(),
    ensures
        optional_text_view(base) == class_extends(context.tree, context.source@, node as int),
{
    let tree = context.tree;
    match tree.child_by_field_name(node, FieldName::Extends) {
        Some(statement) => read_extends_base(context, statement),
        None => {
            if tree.nodes[node].kind == GDScriptNodeKind::ClassName {
                match tree.nodes[node].parent {
                    Some(parent) => {
                        assert(tree.node_links_wf(node as int));
                        read_extends_among(context, parent)
                    },
                    None => None,
                }
            } else {
                match tree.child_by_field_name(node, FieldName::Body) {
                    Some(body) => read_extends_among(context, body),
                    None => None,
                }
            }
        },
    }
}

pub open spec fn optional_declaration_view<'a>(record: Option<DeclarationRecord<'a>>) -> Option<DeclarationView> {
    match record {
        Some(r) => Some(r@),
        None => None,
    }
}

/// The declaration of a class: a `class_name` statement or an inner class.
pub open spec fn class_declaration(tree: &SyntaxTree, source: Seq<char>, node: int) -> Option<DeclarationView> {
    match tree.child_by_field(node, FieldName::Name) {
        Some(name) => Some(
            DeclarationView {
                extends: class_extends(tree, source, node),
                ..bare_declaration(DeclarationKind::Class, tree.text(source, name), range_of(tree, node), range_of(tree, name))
            },
        ),
        None => None,
    }
}

/// The declaration of a variable or a constant.
pub open spec fn variable_declaration(tree: &SyntaxTree, source: Seq<char>, node: int, kind: DeclarationKind) -> Option<DeclarationView> {
    match tree.child_by_field(node, FieldName::Name) {
        Some(name) => {
            let annotations = declaration_annotations(tree, source, node);
            Some(
                DeclarationView {
                    annotations,
                    is_static: is_static_declaration(tree, node),
                    is_abstract: is_annotated_with(annotations, "abstract"@),
                    declared_type: declared_type_of(tree, source, node),
                    default_value: field_text(tree, source, node, FieldName::Value),
                    ..bare_declaration(kind, tree.text(source, name), declaration_range(tree, node), range_of(tree, name))
                },
            )
        },
        None => None,
    }
}

/// The declaration of a named enum. An enum without a name declares its
/// members straight into the enclosing scope, so there is nothing to name.
pub open spec fn enum_declaration(tree: &SyntaxTree, source: Seq<char>, node: int) -> Option<DeclarationView> {
    match tree.child_by_field(node, FieldName::Name) {
        Some(name) => Some(bare_declaration(DeclarationKind::Enum, tree.text(source, name), range_of(tree, node), range_of(tree, name))),
        None => None,
    }
}

pub open spec fn enum_member_declaration(tree: &SyntaxTree, source: Seq<char>, node: int) -> Option<DeclarationView> {
    match tree.child_by_field(node, FieldName::Left) {
        Some(name) => Some(
            DeclarationView {
                default_value: field_text(tree, source, node, FieldName::Right),
                ..bare_declaration(DeclarationKind::EnumMember, tree.text(source, name), range_of(tree, node), range_of(tree, name))
            },
        ),
        None => None,
    }
}

/// The parameters in the `parameters` field of `node`.
pub open spec fn parameter_field(tree: &SyntaxTree, source: Seq<char>, node: int) -> Seq<ParameterView> {
    match tree.child_by_field(node, FieldName::Parameters) {
        Some(list) => parameters_of(tree, source, list),
        None => Seq::empty(),
    }
}

pub open spec fn signal_declaration(tree: &SyntaxTree, source: Seq<char>, node: int) -> Option<DeclarationView> {
    match tree.child_by_field(node, FieldName::Name) {
        Some(name) => Some(
            DeclarationView {
                annotations: declaration_annotations(tree, source, node),
                parameters: parameter_field(tree, source, node),
                ..bare_declaration(DeclarationKind::Signal, tree.text(source, name), declaration_range(tree, node), range_of(tree, name))
            },
        ),
        None => None,
    }
}

/// The name of a function. A constructor has no name field: `_init` is a
/// keyword token in the grammar. An anonymous lambda has no name at all.
pub open spec fn function_name(tree: &SyntaxTree, node: int) -> Option<int> {
    if tree.kind(node) == GDScriptNodeKind::Constructor {
        tree.first_child_of_kind(node, GDScriptNodeKind::NameInit)
    } else {
        tree.child_by_field(node, FieldName::Name)
    }
}

pub open spec fn function_declaration(tree: &SyntaxTree, source: Seq<char>, node: int) -> Option<DeclarationView> {
    match function_name(tree, node) {
        Some(name) => {
            let annotations = declaration_annotations(tree, source, node);
            let body = tree.child_by_field(node, FieldName::Body);
            Some(
                DeclarationView {
                    annotations,
                    is_static: is_static_declaration(tree, node),
                    is_abstract: is_annotated_with(annotations, "abstract"@),
                    parameters: parameter_field(tree, source, node),
                    declared_type: field_text(tree, source, node, FieldName::ReturnType),
                    body_range: match body {
                        Some(b) => Some(range_of(tree, b)),
                        None => None,
                    },
                    body_is_pass_only: match body {
                        Some(b) => is_pass_only(tree, b),
                        None => false,
                    },
                    ..bare_declaration(DeclarationKind::Function, tree.text(source, name), declaration_range(tree, node), range_of(tree, name))
                },
            )
        },
        None => None,
    }
}

/// A `for` binding declares a name that lives for the loop. The grammar has
/// no declaration node for it, but resolving names per scope needs it as
/// much as it needs a `var`.
pub open spec fn loop_variable_declaration(tree: &SyntaxTree, source: Seq<char>, node: int) -> Option<DeclarationView> {
    match tree.child_by_field(node, FieldName::Left) {
        Some(name) => Some(
            DeclarationView {
                declared_type: declared_type_of(tree, source, node),
                ..bare_declaration(DeclarationKind::Variable, tree.text(source, name), range_of(tree, name), range_of(tree, name))
            },
        ),
        None => None,
    }
}

/// The declaration the node `node` makes, for every target kind but a
/// parameter list.
pub open spec fn declaration_of(tree: &SyntaxTree, source: Seq<char>, node: int) -> Option<DeclarationView> {
    let kind = tree.kind(node);
    if kind == GDScriptNodeKind::ClassName || kind == GDScriptNodeKind::ClassDefinition || kind
        == GDScriptNodeKind::InnerClass {
        class_declaration(tree, source, node)
    } else if kind == GDScriptNodeKind::Variable || kind == GDScriptNodeKind::ExportVariable || kind
        == GDScriptNodeKind::OnReadyVariable {
        variable_declaration(tree, source, node, DeclarationKind::Variable)
    } else if kind == GDScriptNodeKind::Const {
        variable_declaration(tree, source, node, DeclarationKind::Constant)
    } else if kind == GDScriptNodeKind::Enum {
        enum_declaration(tree, source, node)
    } else if kind == GDScriptNodeKind::Enumerator {
        enum_member_declaration(tree, source, node)
    } else if kind == GDScriptNodeKind::Signal {
        signal_declaration(tree, source, node)
    } else if kind == GDScriptNodeKind::Function || kind == GDScriptNodeKind::Constructor || kind
        == GDScriptNodeKind::Lambda {
        function_declaration(tree, source, node)
    } else if kind == GDScriptNodeKind::ForStatement {
        loop_variable_declaration(tree, source, node)
    } else {
        None
    }
}

fn collect_class<'a>(context: &CollectorContext<'a>, node: usize) -> (record: Option<DeclarationRecord<'a>>)
    requires
        context.wf(),
        node < context.tree.len(),
    ensures
        optional_declaration_view(record) == class_declaration(context.tree, context.source@, node as int),
{
    let tree = context.tree;
    let name_node = match tree.child_by_field_name(node, FieldName::Name) {
        Some(name_node) => name_node,
        None => return None,
    };
    let mut record = DeclarationRecord::new(
        DeclarationKind::Class,
        get_node_text(tree, name_node, context.source),
        get_range(tree, node),
        get_range(tree, name_node),
    );
    record.extends = read_class_extends(context, node);
    Some(record)
}

fn collect_variable<'a>(context: &CollectorContext<'a>, node: usize, kind: DeclarationKind) -> (record: Option<DeclarationRecord<'a>>)
    requires
        context.wf(),
        node < context.tree.len(),
    ensures
        optional_declaration_view(record) == variable_declaration(context.tree, context.source@, node as int, kind),
{
    let tree = context.tree;
    let name_node = match tree.child_by_field_name(node, FieldName::Name) {
        Some(name_node) => name_node,
        None => return None,
    };
    let mut record = DeclarationRecord::new(
        kind,
        get_node_text(tree, name_node, context.source),
        read_declaration_range(tree, node),
        get_range(tree, name_node),
    );
    record.annotations = collect_annotations(context, node);
    record.is_abstract = has_annotation_named(&record.annotations, "abstract");
    record.is_static = has_static_modifier(tree, node);
    record.declared_type = read_declared_type(context, node);
    record.default_value = read_field_text(context, node, FieldName::Value);
    Some(record)
}

fn collect_enum<'a>(context: &CollectorContext<'a>, node: usize) -> (record: Option<DeclarationRecord<'a>>)
    requires
        context.wf(),
        node < context.tree.len(),
    ensures
        optional_declaration_view(record) == enum_declaration(context.tree, context.source@, node as int),
{
    let tree = context.tree;
    match tree.child_by_field_name(node, FieldName::Name) {
        Some(name_node) => Some(
            DeclarationRecord::new(
                DeclarationKind::Enum,
                get_node_text(tree, name_node, context.source),
                get_range(tree, node),
                get_range(tree, name_node),
            ),
        ),
        None => None,
    }
}

fn collect_enum_member<'a>(context: &CollectorContext<'a>, node: usize) -> (record: Option<DeclarationRecord<'a>>)
    requires
        context.wf(),
        node < context.tree.len(),
    ensures
        optional_declaration_view(record) == enum_member_declaration(context.tree, context.source@, node as int),
{
    let tree = context.tree;
    let name_node = match tree.child_by_field_name(node, FieldName::Left) {
        Some(name_node) => name_node,
        None => return None,
    };
    let mut record = DeclarationRecord::new(
        DeclarationKind::EnumMember,
        get_node_text(tree, name_node, context.source),
        get_range(tree, node),
        get_range(tree, name_node),
    );
    record.default_value = read_field_text(context, node, FieldName::Right);
    Some(record)
}

fn read_parameter_field<'a>(context: &CollectorContext<'a>, node: usize) -> (parameters: Vec<ParameterRecord<'a>>)
    requires
        context.wf(),
        node < context.tree.len(),
    ensures
        parameter_views(parameters@) == parameter_field(context.tree, context.source@, node as int),
{
    match context.tree.child_by_field_name(node, FieldName::Parameters) {
        Some(list) => collect_parameter_records(context, list),
        None => {
            let parameters: Vec<ParameterRecord<'a>> = Vec::new();
            assert(parameter_views(parameters@) =~= Seq::empty());
            parameters
        },
    }
}

fn collect_signal<'a>(context: &CollectorContext<'a>, node: usize) -> (record: Option<DeclarationRecord<'a>>)
    requires
        context.wf(),
        node < context.tree.len(),
    ensures
        optional_declaration_view(record) == signal_declaration(context.tree, context.source@, node as int),
{
    let tree = context.tree;
    let name_node = match tree.child_by_field_name(node, FieldName::Name) {
        Some(name_node) => name_node,
        None => return None,
    };
    let mut record = DeclarationRecord::new(
        DeclarationKind::Signal,
        get_node_text(tree, name_node, context.source),
        read_declaration_range(tree, node),
        get_range(tree, name_node),
    );
    record.annotations = collect_annotations(context, node);
    record.parameters = read_parameter_field(context, node);
    Some(record)
}

fn find_function_name(tree: &SyntaxTree, node: usize) -> (name: Option<usize>)
    requires
        tree.wf_links(),
        node < tree.len(),
    ensures
        name matches Some(n) ==> function_name(tree, node as int) == Some(n as int) && n < tree.len(),
        name is None ==> function_name(tree, node as int) is None,
{
    if tree.nodes[node].kind == GDScriptNodeKind::Constructor {
        tree.find_first_child_of_kind(node, GDScriptNodeKind::NameInit)
    } else {
        tree.child_by_field_name(node, FieldName::Name)
    }
}

/// Whether the declaration `node` reports the annotations that apply to it.
pub fn binds_annotations_at(tree: &SyntaxTree, node: usize) -> (result: bool)
    requires
        tree.wf_links(),
        node < tree.len(),
    ensures
        result == binds_annotations(tree, node as int),
{
    tree.nodes[node].is_named && absorbs_preceding(tree.nodes[node].kind) && find_function_name(tree, node).is_some()
}

fn collect_function<'a>(context: &CollectorContext<'a>, node: usize) -> (record: Option<DeclarationRecord<'a>>)
    requires
        context.wf(),
        node < context.tree.len(),
    ensures
        optional_declaration_view(record) == function_declaration(context.tree, context.source@, node as int),
{
    let tree = context.tree;
    let name_node = match find_function_name(tree, node) {
        Some(name_node) => name_node,
        None => return None,
    };
    let mut record = DeclarationRecord::new(
        DeclarationKind::Function,
        get_node_text(tree, name_node, context.source),
        read_declaration_range(tree, node),
        get_range(tree, name_node),
    );
    record.annotations = collect_annotations(context, node);
    record.is_abstract = has_annotation_named(&record.annotations, "abstract");
    record.is_static = has_static_modifier(tree, node);
    record.declared_type = read_field_text(context, node, FieldName::ReturnType);
    record.parameters = read_parameter_field(context, node);
    match tree.child_by_field_name(node, FieldName::Body) {
        Some(body) => {
            record.body_range = Some(get_range(tree, body));
            record.body_is_pass_only = is_body_pass_only(tree, body);
        },
        None => {},
    }
    Some(record)
}

fn collect_loop_variable<'a>(context: &CollectorContext<'a>, node: usize) -> (record: Option<DeclarationRecord<'a>>)
    requires
        context.wf(),
        node < context.tree.len(),
    ensures
        optional_declaration_view(record) == loop_variable_declaration(context.tree, context.source@, node as int),
{
    let tree = context.tree;
    let name_node = match tree.child_by_field_name(node, FieldName::Left) {
        Some(name_node) => name_node,
        None => return None,
    };
    let name_range = get_range(tree, name_node);
    let mut record = DeclarationRecord::new(
        DeclarationKind::Variable,
        get_node_text(tree, name_node, context.source),
        name_range,
        name_range,
    );
    record.declared_type = read_declared_type(context, node);
    Some(record)
}

/// Reads the declaration that `node` makes; a parameter list makes none of
/// its own.
pub fn read_declaration<'a>(context: &CollectorContext<'a>, node: usize) -> (record: Option<DeclarationRecord<'a>>)
    requires
        context.wf(),
        node < context.tree.len(),
    ensures
        optional_declaration_view(record) == declaration_of(context.tree, context.source@, node as int),
{
    let kind = context.tree.nodes[node].kind;
    match kind {
        GDScriptNodeKind::ClassName | GDScriptNodeKind::ClassDefinition | GDScriptNodeKind::InnerClass => collect_class(context, node),
        GDScriptNodeKind::Variable | GDScriptNodeKind::ExportVariable | GDScriptNodeKind::OnReadyVariable => collect_variable(
            context,
            node,
            DeclarationKind::Variable,
        ),
        GDScriptNodeKind::Const => collect_variable(context, node, DeclarationKind::Constant),
        GDScriptNodeKind::Enum => collect_enum(context, node),
        GDScriptNodeKind::Enumerator => collect_enum_member(context, node),
        GDScriptNodeKind::Signal => collect_signal(context, node),
        GDScriptNodeKind::Function | GDScriptNodeKind::Constructor | GDScriptNodeKind::Lambda => collect_function(context, node),
        GDScriptNodeKind::ForStatement => collect_loop_variable(context, node),
        _ => None,
    }
}

/// A string field when there is a value; nothing otherwise.
#[verifier::opaque]
pub open spec fn json_optional_text_field(name: Seq<char>, value: Option<Seq<char>>) -> Seq<char> {
    match value {
        Some(v) => json_string_field(name, v),
        None => Seq::empty(),
    }
}

pub fn write_optional_text_field(name: &str, value: Option<&[char]>, output: &mut String)
    ensures
        final(output)@ == old(output)@ + json_optional_text_field(name@, optional_text_view(value)),
{
    reveal(json_optional_text_field);
    match value {
        Some(v) => json_push_text_field(name, v, output),
        None => {
            assert(output@ =~= output@ + Seq::<char>::empty());
        },
    }
}

/// One annotation inside a declaration's `annotations` array.
pub open spec fn json_annotation_object(annotation: AnnotationView) -> Seq<char> {
    "{\"name\":"@ + json_string(annotation.name) + json_annotation_arguments(annotation.arguments)
        + json_range_field("range"@, annotation.range) + "}"@
}

/// The annotation objects of `annotations`, separated by commas.
pub open spec fn json_annotation_objects(annotations: Seq<AnnotationView>) -> Seq<char>
    decreases annotations.len(),
{
    if annotations.len() == 0 {
        Seq::empty()
    } else if annotations.len() == 1 {
        json_annotation_object(annotations[0])
    } else {
        json_annotation_objects(annotations.drop_last()) + ","@ + json_annotation_object(annotations.last())
    }
}

/// The `annotations` field; absent when there are none.
#[verifier::opaque]
pub open spec fn json_annotations_field(annotations: Seq<AnnotationView>) -> Seq<char> {
    if annotations.len() == 0 {
        Seq::empty()
    } else {
        json_field_name("annotations"@) + "["@ + json_annotation_objects(annotations) + "]"@
    }
}

fn write_annotation_object(annotation: &AnnotationRecord, output: &mut String)
    ensures
        final(output)@ == old(output)@ + json_annotation_object(annotation@),
{
    let ghost start = output@;
    push_str(output, "{\"name\":");
    json_push_escaped_chars(annotation.name, output);
    write_annotation_arguments(annotation.arguments.as_slice(), output);
    json_push_range_field("range", &annotation.range, output);
    push_str(output, "}");
    assert(output@ =~= start + json_annotation_object(annotation@));
}

fn write_annotations_field(annotations: &Vec<AnnotationRecord>, output: &mut String)
    ensures
        final(output)@ == old(output)@ + json_annotations_field(annotation_views(annotations@)),
{
    reveal(json_annotations_field);
    let ghost views = annotation_views(annotations@);
    if annotations.len() == 0 {
        assert(output@ =~= output@ + Seq::<char>::empty());
        return;
    }
    let ghost start = output@;
    json_push_field_name("annotations", output);
    push_str(output, "[");
    let mut index: usize = 0;
    while index < annotations.len()
        invariant
            index <= annotations@.len(),
            views == annotation_views(annotations@),
            output@ == start + json_field_name("annotations"@) + "["@ + json_annotation_objects(views.subrange(0, index as int)),
        decreases annotations@.len() - index,
    {
        if index > 0 {
            push_str(output, ",");
        }
        write_annotation_object(&annotations[index], output);
        proof {
            let prefix = views.subrange(0, index + 1);
            assert(prefix.drop_last() =~= views.subrange(0, index as int));
        }
        index = index + 1;
        assert(output@ =~= start + json_field_name("annotations"@) + "["@ + json_annotation_objects(views.subrange(0, index as int)));
    }
    push_str(output, "]");
    assert(views.subrange(0, views.len() as int) =~= views);
    assert(output@ =~= start + json_annotations_field(views));
}

/// The `modifiers` field; absent when there are none.
#[verifier::opaque]
pub open spec fn json_modifiers_field(is_static: bool, is_abstract: bool) -> Seq<char> {
    if !is_static && !is_abstract {
        Seq::empty()
    } else {
        json_field_name("modifiers"@) + "["@ + (if is_static {
            "\"static\""@
        } else {
            Seq::empty()
        }) + (if is_static && is_abstract {
            ","@
        } else {
            Seq::empty()
        }) + (if is_abstract {
            "\"abstract\""@
        } else {
            Seq::empty()
        }) + "]"@
    }
}

fn write_modifiers_field(is_static: bool, is_abstract: bool, output: &mut String)
    ensures
        final(output)@ == old(output)@ + json_modifiers_field(is_static, is_abstract),
{
    reveal(json_modifiers_field);
    let ghost start = output@;
    if !is_static && !is_abstract {
        assert(output@ =~= start + Seq::<char>::empty());
        return;
    }
    json_push_field_name("modifiers", output);
    push_str(output, "[");
    let ghost opened = output@;
    if is_static {
        push_str(output, "\"static\"");
    }
    let ghost after_static = output@;
    if is_abstract {
        if is_static {
            push_str(output, ",");
        }
        let ghost after_comma = output@;
        push_str(output, "\"abstract\"");
        assert(output@ =~= after_static + (if is_static && is_abstract { ","@ } else { Seq::<char>::empty() }) + "\"abstract\""@);
    } else {
        assert(output@ =~= after_static + Seq::<char>::empty() + Seq::<char>::empty());
    }
    push_str(output, "]");
    assert(output@ =~= start + json_modifiers_field(is_static, is_abstract));
}

/// One parameter inside a declaration's `parameters` array.
pub open spec fn json_parameter_object(parameter: ParameterView) -> Seq<char> {
    "{\"name\":"@ + json_string(parameter.name) + json_optional_text_field("type"@, parameter.declared_type)
        + json_optional_text_field("default"@, parameter.default_value) + json_range_field(
        "range"@,
        parameter.range,
    ) + "}"@
}

/// The parameter objects of `parameters`, separated by commas.
pub open spec fn json_parameter_objects(parameters: Seq<ParameterView>) -> Seq<char>
    decreases parameters.len(),
{
    if parameters.len() == 0 {
        Seq::empty()
    } else if parameters.len() == 1 {
        json_parameter_object(parameters[0])
    } else {
        json_parameter_objects(parameters.drop_last()) + ","@ + json_parameter_object(parameters.last())
    }
}

/// The `parameters` field; absent when there are none.
#[verifier::opaque]
pub open spec fn json_parameters_field(parameters: Seq<ParameterView>) -> Seq<char> {
    if parameters.len() == 0 {
        Seq::empty()
    } else {
        json_field_name("parameters"@) + "["@ + json_parameter_objects(parameters) + "]"@
    }
}

fn write_parameter_object(parameter: &ParameterRecord, output: &mut String)
    ensures
        final(output)@ == old(output)@ + json_parameter_object(parameter@),
{
    let ghost start = output@;
    push_str(output, "{\"name\":");
    json_push_escaped_chars(parameter.name, output);
    write_optional_text_field("type", parameter.declared_type, output);
    write_optional_text_field("default", parameter.default_value, output);
    json_push_range_field("range", &parameter.range, output);
    push_str(output, "}");
    assert(output@ =~= start + json_parameter_object(parameter@));
}

fn write_parameters_field(parameters: &Vec<ParameterRecord>, output: &mut String)
    ensures
        final(output)@ == old(output)@ + json_parameters_field(parameter_views(parameters@)),
{
    reveal(json_parameters_field);
    let ghost views = parameter_views(parameters@);
    if parameters.len() == 0 {
        assert(output@ =~= output@ + Seq::<char>::empty());
        return;
    }
    let ghost start = output@;
    json_push_field_name("parameters", output);
    push_str(output, "[");
    let mut index: usize = 0;
    while index < parameters.len()
        invariant
            index <= parameters@.len(),
            views == parameter_views(parameters@),
            output@ == start + json_field_name("parameters"@) + "["@ + json_parameter_objects(views.subrange(0, index as int)),
        decreases parameters@.len() - index,
    {
        if index > 0 {
            push_str(output, ",");
        }
        write_parameter_object(&parameters[index], output);
        proof {
            let prefix = views.subrange(0, index + 1);
            assert(prefix.drop_last() =~= views.subrange(0, index as int));
        }
        index = index + 1;
        assert(output@ =~= start + json_field_name("parameters"@) + "["@ + json_parameter_objects(views.subrange(0, index as int)));
    }
    push_str(output, "]");
    assert(views.subrange(0, views.len() as int) =~= views);
    assert(output@ =~= start + json_parameters_field(views));
}

/// The `body_range` field. Every function reports it, as a range or as an
/// explicit `null`: it separates "has no body" from "is not a function",
/// which absence cannot do for both.
#[verifier::opaque]
pub open spec fn json_body_range_field(kind: DeclarationKind, body_range: Option<SourceRange>) -> Seq<char> {
    match body_range {
        Some(r) => json_range_field("body_range"@, r),
        None => if kind == DeclarationKind::Function {
            json_field_name("body_range"@) + "null"@
        } else {
            Seq::empty()
        },
    }
}

fn write_body_range_field(kind: DeclarationKind, body_range: &Option<SourceRange>, output: &mut String)
    ensures
        final(output)@ == old(output)@ + json_body_range_field(kind, *body_range),
{
    reveal(json_body_range_field);
    let ghost start = output@;
    match body_range {
        Some(r) => json_push_range_field("body_range", r, output),
        None => {
            if kind == DeclarationKind::Function {
                json_push_field_name("body_range", output);
                push_str(output, "null");
            }
            assert(output@ =~= start + json_body_range_field(kind, *body_range));
        },
    }
}

/// `body_is_pass_only`, written only when it holds.
pub open spec fn json_pass_only_field(pass_only: bool) -> Seq<char> {
    if pass_only {
        json_bool_field("body_is_pass_only"@, true)
    } else {
        Seq::empty()
    }
}

/// One `declaration` record.
#[verifier::opaque]
pub open spec fn json_declaration_record(record: DeclarationView, scope: Seq<char>) -> Seq<char> {
    "{\"record\":\"declaration\""@ + json_string_field("kind"@, kind_name(record.kind)) + json_string_field(
        "name"@,
        record.name,
    ) + json_scope_field(scope) + json_range_field("range"@, record.range) + json_range_field(
        "name_range"@,
        record.name_range,
    ) + json_optional_text_field("type"@, record.declared_type) + json_optional_text_field(
        "default"@,
        record.default_value,
    ) + json_annotations_field(record.annotations) + json_modifiers_field(record.is_static, record.is_abstract)
        + json_parameters_field(record.parameters) + json_body_range_field(record.kind, record.body_range)
        + json_pass_only_field(record.body_is_pass_only) + json_optional_text_field("extends"@, record.extends)
        + "}\n"@
}

fn write_declaration_record(record: &DeclarationRecord, scope: &[char], output: &mut String)
    ensures
        final(output)@ == old(output)@ + json_declaration_record(record@, scope@),
{
    let ghost start = output@;
    push_str(output, "{\"record\":\"declaration\"");
    json_push_string_field("kind", record.kind.as_str(), output);
    json_push_text_field("name", record.name, output);
    write_scope_field(scope, output);
    json_push_range_field("range", &record.range, output);
    json_push_range_field("name_range", &record.name_range, output);
    let ghost ranges = output@;
    write_optional_text_field("type", record.declared_type, output);
    write_optional_text_field("default", record.default_value, output);
    write_annotations_field(&record.annotations, output);
    write_modifiers_field(record.is_static, record.is_abstract, output);
    write_parameters_field(&record.parameters, output);
    write_body_range_field(record.kind, &record.body_range, output);
    let ghost before_pass = output@;
    if record.body_is_pass_only {
        json_push_bool_field("body_is_pass_only", true, output);
    }
    assert(output@ =~= before_pass + json_pass_only_field(record.body_is_pass_only));
    write_optional_text_field("extends", record.extends, output);
    push_str(output, "}\n");
    reveal(json_declaration_record);
    assert(output@ =~= start + json_declaration_record(record@, scope@));
}

/// A parameter as a declaration of its own.
pub open spec fn parameter_declaration(parameter: ParameterView) -> DeclarationView {
    DeclarationView {
        declared_type: parameter.declared_type,
        default_value: parameter.default_value,
        ..bare_declaration(DeclarationKind::Parameter, parameter.name, parameter.range, parameter.name_range)
    }
}

/// The declarations the node `node` makes: one per parameter for a parameter
/// list, so that an occurrence of a name resolves to a parameter instead of
/// to a member that happens to share it; at most one for any other node.
pub open spec fn declarations_of(tree: &SyntaxTree, source: Seq<char>, node: int) -> Seq<DeclarationView> {
    if tree.kind(node) == GDScriptNodeKind::Parameters {
        parameters_of(tree, source, node).map_values(|p: ParameterView| parameter_declaration(p))
    } else {
        match declaration_of(tree, source, node) {
            Some(d) => seq![d],
            None => Seq::empty(),
        }
    }
}

/// The records of `declarations`, one line each.
pub open spec fn json_declaration_records(declarations: Seq<DeclarationView>, scope: Seq<char>) -> Seq<char>
    decreases declarations.len(),
{
    if declarations.len() == 0 {
        Seq::empty()
    } else {
        json_declaration_records(declarations.drop_last(), scope) + json_declaration_record(
            declarations.last(),
            scope,
        )
    }
}

/// What the collector writes for the node `node`.
pub open spec fn declaration_output(tree: &SyntaxTree, source: Seq<char>, node: int, scope: Seq<char>) -> Seq<char> {
    json_declaration_records(declarations_of(tree, source, node), scope)
}

pub fn collect(context: &CollectorContext, node: usize, output: &mut String)
    requires
        context.wf(),
        node < context.tree.len(),
    ensures
        final(output)@ == old(output)@ + declaration_output(
            context.tree,
            context.source@,
            node as int,
            context.scope@,
        ),
{
    let ghost start = output@;
    if context.tree.nodes[node].kind == GDScriptNodeKind::Parameters {
        let parameters = collect_parameter_records(context, node);
        let ghost declarations = parameter_views(parameters@).map_values(|p: ParameterView| parameter_declaration(p));
        let mut index: usize = 0;
        while index < parameters.len()
            invariant
                index <= parameters@.len(),
                declarations.len() == parameters@.len(),
                declarations == parameter_views(parameters@).map_values(|p: ParameterView| parameter_declaration(p)),
                output@ == start + json_declaration_records(declarations.subrange(0, index as int), context.scope@),
            decreases parameters@.len() - index,
        {
            let parameter = &parameters[index];
            let mut record = DeclarationRecord::new(
                DeclarationKind::Parameter,
                parameter.name,
                parameter.range,
                parameter.name_range,
            );
            record.declared_type = parameter.declared_type;
            record.default_value = parameter.default_value;
            assert(record@ == declarations[index as int]);
            write_declaration_record(&record, context.scope, output);
            proof {
                let prefix = declarations.subrange(0, index + 1);
                assert(prefix.drop_last() =~= declarations.subrange(0, index as int));
            }
            index = index + 1;
        }
        assert(declarations.subrange(0, declarations.len() as int) =~= declarations);
        assert(declarations == declarations_of(context.tree, context.source@, node as int));
    } else {
        match read_declaration(context, node) {
            Some(record) => {
                write_declaration_record(&record, context.scope, output);
                assert(seq![record@].drop_last() =~= Seq::<DeclarationView>::empty());
                assert(declarations_of(context.tree, context.source@, node as int) == seq![record@]);
                assert(json_declaration_records(Seq::<DeclarationView>::empty(), context.scope@) =~= Seq::empty());
                assert(Seq::<char>::empty() + json_declaration_record(record@, context.scope@) =~= json_declaration_record(record@, context.scope@));
                assert(json_declaration_records(seq![record@], context.scope@) == json_declaration_record(record@, context.scope@));
            },
            None => {
                assert(output@ =~= start + Seq::<char>::empty());
            },
        }
    }
}

/// Absent means empty, never unknown: a declaration record leaves out a
/// field exactly when it has nothing to carry, and every function reports
/// `body_range`, as a range or as `null`.
pub proof fn lemma_absent_fields_mean_empty(record: DeclarationView)
    ensures
        (json_annotations_field(record.annotations).len() == 0) <==> record.annotations.len() == 0,
        (json_parameters_field(record.parameters).len() == 0) <==> record.parameters.len() == 0,
        (json_modifiers_field(record.is_static, record.is_abstract).len() == 0) <==> (!record.is_static
            && !record.is_abstract),
        (json_optional_text_field("type"@, record.declared_type).len() == 0) <==> record.declared_type is None,
        (json_optional_text_field("default"@, record.default_value).len() == 0) <==> record.default_value is None,
        (json_pass_only_field(record.body_is_pass_only).len() == 0) <==> !record.body_is_pass_only,
        record.kind == DeclarationKind::Function ==> json_body_range_field(record.kind, record.body_range).len() > 0,
{
    reveal(json_annotations_field);
    reveal(json_parameters_field);
    reveal(json_modifiers_field);
    reveal(json_optional_text_field);
    reveal(json_body_range_field);
    reveal(crate::index::json_string_field);
    reveal(crate::index::json_string);
    reveal(crate::index::json_bool_field);
    reveal(crate::index::json_range_field);
    reveal_strlit(",\"");
}

} // verus!

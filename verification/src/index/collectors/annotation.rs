//! Emits an `annotation` record for every annotation no declaration claims.
//!
//! Most annotations belong to a declaration and are reported on it. The rest
//! have nothing to attach to: `@tool` above a bare `extends`, or
//! `@warning_ignore(...)` above a statement inside a `match`.
//!
//! Between this record and the `annotations` field on declarations, every
//! annotation in a file is reported exactly once.

use crate::index::collectors::declaration::{
    AnnotationView, binds_annotations, binds_annotations_at, run_begin,
    annotation_of, belongs_to_annotation_run, json_annotation_arguments, read_annotation,
    write_annotation_arguments,
};
use crate::index::collectors::{CollectorContext, json_scope_field, write_scope_field};
use crate::index::{json_push_range_field, json_push_text_field, json_range_field, json_string_field};
use crate::node_kind::GDScriptNodeKind;
use crate::syntax::SyntaxTree;
use crate::text::push_str;
use vstd::prelude::*;

verus! {

/// The first sibling at or after position `k` among the children of
/// `parent` that does not belong to an annotation run.
pub open spec fn claim_target_from(tree: &SyntaxTree, parent: int, k: int) -> Option<int>
    decreases tree.child_count(parent) - k,
{
    if k < 0 || k >= tree.child_count(parent) {
        None
    } else if belongs_to_annotation_run(tree, tree.child(parent, k)) {
        claim_target_from(tree, parent, k + 1)
    } else {
        Some(tree.child(parent, k))
    }
}

/// True when a declaration already reports the annotation `annotation`.
///
/// An annotation written on the same line sits inside the declaration's
/// `annotations` node. One written above a declaration is a sibling, and the
/// declaration walks back over the whole run to claim it, so this looks past
/// the rest of the run the same way. Only the declarations that bind
/// annotations claim them.
pub open spec fn is_claimed(tree: &SyntaxTree, annotation: int) -> bool {
    match tree.node(annotation).parent {
        None => false,
        Some(p) => if tree.kind(p as int) == GDScriptNodeKind::Annotations {
            match tree.node(p as int).parent {
                Some(owner) => binds_annotations(tree, owner as int) && tree.first_named_child_of_kind(
                    owner as int,
                    GDScriptNodeKind::Annotations,
                ) == Some(p as int),
                None => false,
            }
        } else {
            match claim_target_from(tree, p as int, tree.node(annotation).position + 1) {
                Some(target) => binds_annotations(tree, target),
                None => false,
            }
        },
    }
}

pub open spec fn json_annotation_record(record: AnnotationView, scope: Seq<char>) -> Seq<char> {
    "{\"record\":\"annotation\""@ + json_string_field("name"@, record.name)
        + json_annotation_arguments(record.arguments) + json_scope_field(scope) + json_range_field(
        "range"@,
        record.range,
    ) + "}\n"@
}

/// What the collector writes for the annotation `node`.
pub open spec fn annotation_output(tree: &SyntaxTree, source: Seq<char>, node: int, scope: Seq<char>) -> Seq<char> {
    if is_claimed(tree, node) {
        Seq::empty()
    } else {
        match annotation_of(tree, source, node) {
            Some(record) => json_annotation_record(record, scope),
            None => Seq::empty(),
        }
    }
}

/// Whether a declaration already reports the annotation `node`.
fn is_claimed_by_a_declaration(tree: &SyntaxTree, node: usize) -> (result: bool)
    requires
        tree.wf_links(),
        node < tree.len(),
    ensures
        result == is_claimed(tree, node as int),
{
    let parent = match tree.nodes[node].parent {
        Some(parent) => parent,
        None => return false,
    };
    assert(tree.node_links_wf(node as int));
    if tree.nodes[parent].kind == GDScriptNodeKind::Annotations {
        assert(tree.node_links_wf(parent as int));
        return match tree.nodes[parent].parent {
            Some(owner) => {
                binds_annotations_at(tree, owner) && tree.find_first_named_child_of_kind(
                    owner,
                    GDScriptNodeKind::Annotations,
                ) == Some(parent)
            },
            None => false,
        };
    }
    let children = &tree.nodes[parent].children;
    let position = tree.nodes[node].position;
    // The root has no parent, so `node` is a child of `parent` at `position`.
    assert(node != 0);
    let count = children.len();
    assert(position < count);
    let mut k: usize = position + 1;
    while k < children.len()
        invariant
            tree.wf_links(),
            parent < tree.len(),
            node < tree.len(),
            tree.node(node as int).parent == Some(parent),
            tree.kind(parent as int) != GDScriptNodeKind::Annotations,
            children@ == tree.children(parent as int),
            k <= children@.len(),
            claim_target_from(tree, parent as int, tree.node(node as int).position + 1)
                == claim_target_from(tree, parent as int, k as int),
        decreases children@.len() - k,
    {
        let sibling = children[k];
        assert(tree.node_links_wf(parent as int));
        let sibling_kind = tree.nodes[sibling].kind;
        if tree.nodes[sibling].is_named && sibling_kind != GDScriptNodeKind::Comment && sibling_kind
            != GDScriptNodeKind::Annotation {
            assert(claim_target_from(tree, parent as int, k as int) == Some(sibling as int));
            return binds_annotations_at(tree, sibling);
        }
        k = k + 1;
    }
    false
}

pub fn collect(context: &CollectorContext, node: usize, output: &mut String)
    requires
        context.wf(),
        node < context.tree.len(),
    ensures
        final(output)@ == old(output)@ + annotation_output(
            context.tree,
            context.source@,
            node as int,
            context.scope@,
        ),
{
    if is_claimed_by_a_declaration(context.tree, node) {
        return ;
    }
    let record = match read_annotation(context, node) {
        Some(record) => record,
        None => return ,
    };
    let ghost start = output@;
    push_str(output, "{\"record\":\"annotation\"");
    json_push_text_field("name", record.name, output);
    write_annotation_arguments(record.arguments.as_slice(), output);
    write_scope_field(context.scope, output);
    json_push_range_field("range", &record.range, output);
    push_str(output, "}\n");
    assert(output@ =~= start + json_annotation_record(record@, context.scope@));
}

/// The declaration `declaration` reports the annotation node `annotation`:
/// it binds annotations, and the annotation sits either in its own
/// `annotations` list or in the run of annotations and comments just above
/// it among its siblings.
pub open spec fn reports_annotation(tree: &SyntaxTree, declaration: int, annotation: int) -> bool {
    &&& binds_annotations(tree, declaration)
    &&& match tree.node(annotation).parent {
        Some(p) => if tree.kind(p as int) == GDScriptNodeKind::Annotations {
            tree.first_named_child_of_kind(declaration, GDScriptNodeKind::Annotations) == Some(p as int)
        } else {
            &&& tree.node(declaration).parent == Some(p)
            &&& run_begin(tree, p as int, tree.node(declaration).position as int) <= tree.node(annotation).position
            &&& tree.node(annotation).position < tree.node(declaration).position
        },
        None => false,
    }
}

/// `claim_target_from` finds the first sibling at or after `k` outside the
/// run, with only run members before it.
proof fn lemma_claim_target_found(tree: &SyntaxTree, parent: int, k: int)
    requires
        tree.wf_links(),
        0 <= parent < tree.len(),
        0 <= k,
        claim_target_from(tree, parent, k) is Some,
    ensures
        ({
            let target = claim_target_from(tree, parent, k)->0;
            exists|j: int|
                #![trigger tree.child(parent, j)]
                k <= j < tree.child_count(parent) && tree.child(parent, j) == target
                    && !belongs_to_annotation_run(tree, target) && forall|m: int|
                    k <= m < j ==> belongs_to_annotation_run(tree, #[trigger] tree.child(parent, m))
        }),
    decreases tree.child_count(parent) - k,
{
    if belongs_to_annotation_run(tree, tree.child(parent, k)) {
        lemma_claim_target_found(tree, parent, k + 1);
        let target = claim_target_from(tree, parent, k)->0;
        let j = choose|j: int|
            #![trigger tree.child(parent, j)]
            k + 1 <= j < tree.child_count(parent) && tree.child(parent, j) == target
                && !belongs_to_annotation_run(tree, target) && forall|m: int|
                k + 1 <= m < j ==> belongs_to_annotation_run(tree, #[trigger] tree.child(parent, m));
        assert(forall|m: int| k <= m < j ==> belongs_to_annotation_run(tree, #[trigger] tree.child(parent, m)));
    } else {
        assert(tree.child(parent, k) == claim_target_from(tree, parent, k)->0);
    }
}

/// A sibling outside the run with only run members between `k` and it is
/// what `claim_target_from` finds.
proof fn lemma_claim_target_of(tree: &SyntaxTree, parent: int, k: int, j: int)
    requires
        0 <= k <= j < tree.child_count(parent),
        !belongs_to_annotation_run(tree, tree.child(parent, j)),
        forall|m: int| k <= m < j ==> belongs_to_annotation_run(tree, #[trigger] tree.child(parent, m)),
    ensures
        claim_target_from(tree, parent, k) == Some(tree.child(parent, j)),
    decreases j - k,
{
    if k < j {
        lemma_claim_target_of(tree, parent, k + 1, j);
    }
}

/// The run that ends before `k` begins at or before `k`.
proof fn lemma_run_begin_at_most(tree: &SyntaxTree, parent: int, k: int)
    requires
        0 <= k,
    ensures
        0 <= run_begin(tree, parent, k) <= k,
    decreases k,
{
    if k > 0 {
        lemma_run_begin_at_most(tree, parent, k - 1);
    }
}

/// The run that ends before `j` reaches back to `i` exactly when every
/// sibling from `i` up to `j` belongs to it.
proof fn lemma_run_begin(tree: &SyntaxTree, parent: int, i: int, j: int)
    requires
        0 <= i <= j,
    ensures
        run_begin(tree, parent, j) <= i <==> forall|m: int|
            i <= m < j ==> belongs_to_annotation_run(tree, #[trigger] tree.child(parent, m)),
    decreases j,
{
    lemma_run_begin_at_most(tree, parent, j);
    if j > i {
        lemma_run_begin(tree, parent, i, j - 1);
        if belongs_to_annotation_run(tree, tree.child(parent, j - 1)) {
            assert(run_begin(tree, parent, j) == run_begin(tree, parent, j - 1));
            if run_begin(tree, parent, j) <= i {
                assert forall|m: int| i <= m < j implies belongs_to_annotation_run(tree, #[trigger] tree.child(parent, m)) by {
                    if m < j - 1 {
                    }
                }
            }
        } else {
            assert(run_begin(tree, parent, j) == j);
            assert(!belongs_to_annotation_run(tree, tree.child(parent, j - 1)));
        }
    }
}

/// Every annotation is reported exactly once: by the one declaration that
/// reports it when a declaration claims it, and otherwise by a record of its
/// own.
pub proof fn lemma_each_annotation_reported_once(tree: &SyntaxTree, annotation: int)
    requires
        tree.wf_links(),
        0 <= annotation < tree.len(),
        tree.is_named(annotation),
        tree.kind(annotation) == GDScriptNodeKind::Annotation,
    ensures
        is_claimed(tree, annotation) <==> exists|d: int|
            0 <= d < tree.len() && #[trigger] reports_annotation(tree, d, annotation),
        forall|d1: int, d2: int|
            0 <= d1 < tree.len() && 0 <= d2 < tree.len() && #[trigger] reports_annotation(tree, d1, annotation)
                && #[trigger] reports_annotation(tree, d2, annotation) ==> d1 == d2,
{
    assert(tree.node_links_wf(annotation));
    match tree.node(annotation).parent {
        None => {},
        Some(p) => {
            let p = p as int;
            let position = tree.node(annotation).position as int;
            assert(tree.node_links_wf(p));
            if tree.kind(p) == GDScriptNodeKind::Annotations {
                assert forall|d: int| 0 <= d < tree.len() && #[trigger] reports_annotation(tree, d, annotation)
                    implies tree.node(p).parent matches Some(o) && o as int == d by {
                    tree.lemma_kind_child_is_child(d, GDScriptNodeKind::Annotations, true, tree.child_count(d) as int);
                    assert(tree.first_named_child_of_kind(d, GDScriptNodeKind::Annotations) == Some(p));
                    let m = choose|m: int| 0 <= m < tree.child_count(d) && #[trigger] tree.child(d, m) == p;
                    assert(tree.node_links_wf(d));
                    assert(tree.nodes@[d].children@[m] as int == p);
                }
                match tree.node(p).parent {
                    Some(owner) => {
                        assert(owner < p);
                        if is_claimed(tree, annotation) {
                            assert(reports_annotation(tree, owner as int, annotation));
                        }
                        if exists|d: int| 0 <= d < tree.len() && #[trigger] reports_annotation(tree, d, annotation) {
                            let d = choose|d: int| 0 <= d < tree.len() && #[trigger] reports_annotation(tree, d, annotation);
                            assert(d == owner);
                            assert(is_claimed(tree, annotation));
                        }
                    },
                    None => {
                        assert(!is_claimed(tree, annotation));
                    },
                }
            } else {
                assert(belongs_to_annotation_run(tree, tree.child(p, position)));
                assert forall|d: int| 0 <= d < tree.len() && #[trigger] reports_annotation(tree, d, annotation)
                    implies claim_target_from(tree, p, position + 1) == Some(d) by {
                    assert(tree.node_links_wf(d));
                    let j = tree.node(d).position as int;
                    lemma_run_begin(tree, p, position, j);
                    lemma_claim_target_of(tree, p, position + 1, j);
                }
                if is_claimed(tree, annotation) {
                    lemma_claim_target_found(tree, p, position + 1);
                    let target = claim_target_from(tree, p, position + 1)->0;
                    let j = choose|j: int|
                        #![trigger tree.child(p, j)]
                        position + 1 <= j < tree.child_count(p) && tree.child(p, j) == target
                            && !belongs_to_annotation_run(tree, target) && forall|m: int|
                            position + 1 <= m < j ==> belongs_to_annotation_run(tree, #[trigger] tree.child(p, m));
                    lemma_run_begin(tree, p, position, j);
                    assert(reports_annotation(tree, target, annotation));
                }
            }
        },
    }
}

} // verus!

//! Emits one `comparison` record per comparison expression.
//!
//! Every comparison is emitted, not only those against `null`. The linter's
//! `comparison-with-itself` rule wants the same data, so the record earns its
//! place beyond any single consumer.

use crate::index::collectors::{CollectorContext, json_scope_field, write_scope_field};
use crate::index::{
    json_field_name, json_push_escaped_chars, json_push_field_name, json_push_range_field,
    json_push_string_field, json_range_field, json_string, json_string_field,
};
use crate::linter::lib::{SourceRange, get_node_text, get_range, range_of};
use crate::syntax::{FieldName, SyntaxTree};
use crate::text::{chars_trim, push_char, push_str, str_equals, trim};
use vstd::prelude::*;

verus! {

pub struct ComparisonOperand<'a> {
    pub text: &'a [char],
    pub range: SourceRange,
}

pub struct ComparisonRecord<'a> {
    pub operator: String,
    pub left: ComparisonOperand<'a>,
    pub right: ComparisonOperand<'a>,
    pub range: SourceRange,
}

/// The abstract value of a `ComparisonOperand`.
pub struct OperandView {
    pub text: Seq<char>,
    pub range: SourceRange,
}

/// The abstract value of a `ComparisonRecord`.
pub struct ComparisonView {
    pub operator: Seq<char>,
    pub left: OperandView,
    pub right: OperandView,
    pub range: SourceRange,
}

impl<'a> View for ComparisonOperand<'a> {
    type V = OperandView;

    open spec fn view(&self) -> OperandView {
        OperandView { text: self.text@, range: self.range }
    }
}

impl<'a> View for ComparisonRecord<'a> {
    type V = ComparisonView;

    open spec fn view(&self) -> ComparisonView {
        ComparisonView {
            operator: self.operator@,
            left: self.left@,
            right: self.right@,
            range: self.range,
        }
    }
}

/// The texts of the operator tokens among the first `k` children of `node`,
/// separated by spaces.
pub open spec fn operator_upto(tree: &SyntaxTree, source: Seq<char>, node: int, k: int) -> Seq<char>
    decreases k,
{
    if k <= 0 {
        Seq::empty()
    } else {
        let before = operator_upto(tree, source, node, k - 1);
        let c = tree.child(node, k - 1);
        if tree.node(c).field == Some(FieldName::Op) {
            if before.len() > 0 {
                before.push(' ') + tree.text(source, c)
            } else {
                tree.text(source, c)
            }
        } else {
            before
        }
    }
}

/// True for the operators that compare.
pub open spec fn is_comparison_operator(operator: Seq<char>) -> bool {
    operator == "=="@ || operator == "!="@ || operator == "<"@ || operator == "<="@ || operator
        == ">"@ || operator == ">="@ || operator == "in"@ || operator == "is"@ || operator
        == "not in"@ || operator == "is not"@
}

/// The operator when the binary expression `node` compares.
///
/// `not in` and `is not` are spelled with two operator tokens in the grammar,
/// and reporting either of them as its positive form would invert the meaning.
pub open spec fn comparison_operator(tree: &SyntaxTree, source: Seq<char>, node: int) -> Option<Seq<char>> {
    let operator = operator_upto(tree, source, node, tree.child_count(node) as int);
    if is_comparison_operator(operator) {
        Some(operator)
    } else {
        None
    }
}

/// With exactly one operator token among the children, at position `m`,
/// the operator read from the first `k` children is that token once `k`
/// passes it.
proof fn lemma_one_operator_token(tree: &SyntaxTree, source: Seq<char>, node: int, m: int, k: int)
    requires
        0 <= m < tree.child_count(node),
        tree.node(tree.child(node, m)).field == Some(FieldName::Op),
        forall|j: int|
            0 <= j < tree.child_count(node) && j != m ==> #[trigger] tree.node(tree.child(node, j)).field
                != Some(FieldName::Op),
        0 <= k <= tree.child_count(node),
    ensures
        operator_upto(tree, source, node, k) == (if m < k {
            tree.text(source, tree.child(node, m))
        } else {
            Seq::<char>::empty()
        }),
    decreases k,
{
    if k > 0 {
        lemma_one_operator_token(tree, source, node, m, k - 1);
        if k - 1 != m {
            assert(tree.node(tree.child(node, k - 1)).field != Some(FieldName::Op));
        }
    }
}

/// With exactly two operator tokens, at positions `m1 < m2`, the operator
/// is their texts joined by a space once `k` passes both.
proof fn lemma_two_operator_tokens(tree: &SyntaxTree, source: Seq<char>, node: int, m1: int, m2: int, k: int)
    requires
        0 <= m1 < m2 < tree.child_count(node),
        tree.node(tree.child(node, m1)).field == Some(FieldName::Op),
        tree.node(tree.child(node, m2)).field == Some(FieldName::Op),
        tree.text(source, tree.child(node, m1)).len() > 0,
        forall|j: int|
            0 <= j < tree.child_count(node) && j != m1 && j != m2 ==> #[trigger] tree.node(
                tree.child(node, j),
            ).field != Some(FieldName::Op),
        0 <= k <= tree.child_count(node),
    ensures
        operator_upto(tree, source, node, k) == (if m2 < k {
            tree.text(source, tree.child(node, m1)).push(' ') + tree.text(source, tree.child(node, m2))
        } else if m1 < k {
            tree.text(source, tree.child(node, m1))
        } else {
            Seq::<char>::empty()
        }),
    decreases k,
{
    if k > 0 {
        lemma_two_operator_tokens(tree, source, node, m1, m2, k - 1);
        if k - 1 != m1 && k - 1 != m2 {
            assert(tree.node(tree.child(node, k - 1)).field != Some(FieldName::Op));
        }
    }
}

/// A binary expression with one operator token and both operands yields a
/// comparison record exactly when the token is one of `==`, `!=`, `<`,
/// `<=`, `>`, `>=`, `in`, `is`, and the record carries that token as its
/// operator.
pub proof fn lemma_single_token_comparisons(tree: &SyntaxTree, source: Seq<char>, node: int, m: int)
    requires
        0 <= m < tree.child_count(node),
        tree.node(tree.child(node, m)).field == Some(FieldName::Op),
        forall|j: int|
            0 <= j < tree.child_count(node) && j != m ==> #[trigger] tree.node(tree.child(node, j)).field
                != Some(FieldName::Op),
        tree.child_by_field(node, FieldName::Left) is Some,
        tree.child_by_field(node, FieldName::Right) is Some,
    ensures
        ({
            let token = tree.text(source, tree.child(node, m));
            &&& (token == "=="@ || token == "!="@ || token == "<"@ || token == "<="@ || token == ">"@ || token
                == ">="@ || token == "in"@ || token == "is"@ || token == "not in"@ || token == "is not"@)
                <==> comparison_of(tree, source, node) is Some
            &&& comparison_of(tree, source, node) matches Some(record) ==> record.operator == token
        }),
{
    lemma_one_operator_token(tree, source, node, m, tree.child_count(node) as int);
}

/// `not in` and `is not`, written as two operator tokens, are reported as
/// comparisons under their full two-word operator, never as `in` or `is`.
pub proof fn lemma_negated_comparisons(tree: &SyntaxTree, source: Seq<char>, node: int, m1: int, m2: int)
    requires
        0 <= m1 < m2 < tree.child_count(node),
        tree.node(tree.child(node, m1)).field == Some(FieldName::Op),
        tree.node(tree.child(node, m2)).field == Some(FieldName::Op),
        forall|j: int|
            0 <= j < tree.child_count(node) && j != m1 && j != m2 ==> #[trigger] tree.node(
                tree.child(node, j),
            ).field != Some(FieldName::Op),
        tree.child_by_field(node, FieldName::Left) is Some,
        tree.child_by_field(node, FieldName::Right) is Some,
        (tree.text(source, tree.child(node, m1)) == "not"@ && tree.text(source, tree.child(node, m2)) == "in"@)
            || (tree.text(source, tree.child(node, m1)) == "is"@ && tree.text(source, tree.child(node, m2))
            == "not"@),
    ensures
        comparison_of(tree, source, node) matches Some(record) && record.operator == tree.text(
            source,
            tree.child(node, m1),
        ) + " "@ + tree.text(source, tree.child(node, m2)),
{
    reveal_strlit("not");
    reveal_strlit("in");
    reveal_strlit("is");
    reveal_strlit(" ");
    reveal_strlit("not in");
    reveal_strlit("is not");
    lemma_two_operator_tokens(tree, source, node, m1, m2, tree.child_count(node) as int);
    let first = tree.text(source, tree.child(node, m1));
    let second = tree.text(source, tree.child(node, m2));
    assert(first.push(' ') + second =~= first + " "@ + second);
    if first == "not"@ {
        assert(first + " "@ + second =~= "not in"@);
    } else {
        assert(first + " "@ + second =~= "is not"@);
    }
}

/// The record for the binary expression `node`, when it compares and both
/// operands are there.
pub open spec fn comparison_of(tree: &SyntaxTree, source: Seq<char>, node: int) -> Option<ComparisonView> {
    match comparison_operator(tree, source, node) {
        None => None,
        Some(operator) => match (
            tree.child_by_field(node, FieldName::Left),
            tree.child_by_field(node, FieldName::Right),
        ) {
            (Some(left), Some(right)) => Some(
                ComparisonView {
                    operator,
                    left: OperandView {
                        text: trim(tree.text(source, left)),
                        range: range_of(tree, left),
                    },
                    right: OperandView {
                        text: trim(tree.text(source, right)),
                        range: range_of(tree, right),
                    },
                    range: range_of(tree, node),
                },
            ),
            _ => None,
        },
    }
}

#[verifier::opaque]
pub open spec fn json_operand_field(name: Seq<char>, operand: OperandView) -> Seq<char> {
    json_field_name(name) + "{\"text\":"@ + json_string(operand.text) + json_range_field(
        "range"@,
        operand.range,
    ) + "}"@
}

pub open spec fn json_comparison_record(record: ComparisonView, scope: Seq<char>) -> Seq<char> {
    "{\"record\":\"comparison\""@ + json_string_field("operator"@, record.operator)
        + json_operand_field("left"@, record.left) + json_operand_field("right"@, record.right)
        + json_scope_field(scope) + json_range_field("range"@, record.range) + "}\n"@
}

/// What the collector writes for the binary expression `node`.
pub open spec fn comparison_output(tree: &SyntaxTree, source: Seq<char>, node: int, scope: Seq<char>) -> Seq<char> {
    match comparison_of(tree, source, node) {
        Some(record) => json_comparison_record(record, scope),
        None => Seq::empty(),
    }
}

pub fn collect(context: &CollectorContext, node: usize, output: &mut String)
    requires
        context.wf(),
        node < context.tree.len(),
    ensures
        final(output)@ == old(output)@ + comparison_output(
            context.tree,
            context.source@,
            node as int,
            context.scope@,
        ),
{
    let tree = context.tree;
    let operator = match read_comparison_operator(context, node) {
        Some(operator) => operator,
        None => return ,
    };
    let left_node = match tree.child_by_field_name(node, FieldName::Left) {
        Some(left) => left,
        None => return ,
    };
    let right_node = match tree.child_by_field_name(node, FieldName::Right) {
        Some(right) => right,
        None => return ,
    };
    let record = ComparisonRecord {
        operator,
        left: ComparisonOperand {
            text: chars_trim(get_node_text(tree, left_node, context.source)),
            range: get_range(tree, left_node),
        },
        right: ComparisonOperand {
            text: chars_trim(get_node_text(tree, right_node, context.source)),
            range: get_range(tree, right_node),
        },
        range: get_range(tree, node),
    };
    write_comparison_record(&record, context.scope, output);
}

/// Returns the operator when this binary expression compares, None when it
/// does something else such as adding.
fn read_comparison_operator(context: &CollectorContext, node: usize) -> (operator: Option<String>)
    requires
        context.wf(),
        node < context.tree.len(),
    ensures
        match operator {
            Some(o) => comparison_operator(context.tree, context.source@, node as int) == Some(o@),
            None => comparison_operator(context.tree, context.source@, node as int) is None,
        },
{
    let tree = context.tree;
    let mut operator = String::new();
    let children = &tree.nodes[node].children;
    let mut k: usize = 0;
    while k < children.len()
        invariant
            context.wf(),
            tree == context.tree,
            node < tree.len(),
            children@ == tree.children(node as int),
            k <= children@.len(),
            operator@ == operator_upto(tree, context.source@, node as int, k as int),
        decreases children@.len() - k,
    {
        let child = children[k];
        assert(tree.node_links_wf(node as int));
        if tree.nodes[child].field == Some(FieldName::Op) {
            let ghost before = operator@;
            if !operator.as_str().is_empty() {
                push_char(&mut operator, ' ');
            }
            let text = get_node_text(tree, child, context.source);
            let mut index: usize = 0;
            let ghost middle = operator@;
            while index < text.len()
                invariant
                    index <= text@.len(),
                    operator@ == middle + text@.subrange(0, index as int),
                decreases text@.len() - index,
            {
                push_char(&mut operator, text[index]);
                index = index + 1;
                assert(operator@ =~= middle + text@.subrange(0, index as int));
            }
            assert(text@.subrange(0, text@.len() as int) =~= text@);
            assert(operator@ == operator_upto(tree, context.source@, node as int, k + 1));
        }
        k = k + 1;
    }
    let text = operator.as_str();
    if str_equals(text, "==") || str_equals(text, "!=") || str_equals(text, "<") || str_equals(
        text,
        "<=",
    ) || str_equals(text, ">") || str_equals(text, ">=") || str_equals(text, "in") || str_equals(
        text,
        "is",
    ) || str_equals(text, "not in") || str_equals(text, "is not") {
        Some(operator)
    } else {
        None
    }
}

fn write_operand_field(name: &str, operand: &ComparisonOperand, output: &mut String)
    ensures
        final(output)@ == old(output)@ + json_operand_field(name@, operand@),
{
    let ghost start = output@;
    json_push_field_name(name, output);
    push_str(output, "{\"text\":");
    json_push_escaped_chars(operand.text, output);
    json_push_range_field("range", &operand.range, output);
    push_str(output, "}");
    reveal(json_operand_field);
    reveal(crate::index::json_string);
    assert(output@ =~= start + json_operand_field(name@, operand@));
}

fn write_comparison_record(record: &ComparisonRecord, scope: &[char], output: &mut String)
    ensures
        final(output)@ == old(output)@ + json_comparison_record(record@, scope@),
{
    let ghost start = output@;
    push_str(output, "{\"record\":\"comparison\"");
    json_push_string_field("operator", record.operator.as_str(), output);
    write_operand_field("left", &record.left, output);
    write_operand_field("right", &record.right, output);
    write_scope_field(scope, output);
    json_push_range_field("range", &record.range, output);
    push_str(output, "}\n");
    assert(output@ =~= start + json_comparison_record(record@, scope@));
}

} // verus!

//! Every line of the index is one record.
//!
//! The output is JSON Lines: a consumer splits it on line breaks and parses
//! each line alone. That holds because every record opens with `{`, closes
//! with `}` and a line break, and holds no other line break: every text it
//! carries goes through JSON escaping, and everything else it writes is
//! fixed punctuation, field names and decimal numbers.

use crate::index::{
    json_bool_field, json_escaped, json_field_name, json_range, json_range_field,
    json_string, json_string_field, json_usize_field, lemma_escaped_text_is_printable,
};
use crate::index::collectors::comment::{CommentView, json_comment_record};
use crate::index::collectors::comparison::{ComparisonView, json_comparison_record, json_operand_field};
use crate::index::collectors::declaration::{
    AnnotationView, DeclarationView, ParameterView, json_annotation_arguments,
    json_annotation_object, json_annotation_objects, json_annotations_field, json_body_range_field,
    json_declaration_record, json_declaration_records, json_modifiers_field, json_optional_text_field,
    json_parameter_objects, json_parameters_field, json_pass_only_field,
    json_string_list,
};
use crate::index::collectors::member_chain::{
    MemberChainView, SegmentView, json_member_chain_record, json_segment, json_segment_list,
};
use crate::index::collectors::reference::{ReferenceView, json_reference_record};
use crate::index::collectors::string_literal::{StringLiteralView, json_string_literal_record};
use crate::index::collectors::annotation::json_annotation_record;
use crate::index::collectors::{
    ArgumentPositionView, ArgumentView, ExpressionContext, json_argument, json_argument_list,
    json_argument_of_field, json_arguments_field, json_context_field, json_optional_argument_of,
    json_scope_field,
};
use crate::index::collectors::{Collector, collector_of_kind};
use crate::index::{
    children_output, file_extends, index_output, inner_scope, json_file_header, node_output, walk_output,
};
use crate::linter::lib::SourceRange;
use crate::syntax::SyntaxTree;
use crate::text::{decimal, digit_char};
use vstd::prelude::*;

verus! {

/// No character of `text` ends a line.
#[verifier::opaque]
pub open spec fn on_one_line(text: Seq<char>) -> bool {
    forall|i: int| 0 <= i < text.len() ==> text[i] != '\n'
}

/// `text` is a run of whole lines, each of which starts with `{` and ends
/// with `}`.
pub open spec fn whole_record_lines(text: Seq<char>) -> bool {
    text.len() > 0 ==> {
        &&& text[0] == '{'
        &&& text.last() == '\n'
        &&& forall|i: int|
            0 <= i < text.len() && #[trigger] text[i] == '\n' ==> {
                &&& i >= 1
                &&& text[i - 1] == '}'
                &&& (i + 1 == text.len() || text[i + 1] == '{')
            }
    }
}

pub broadcast proof fn lemma_one_line_add(a: Seq<char>, b: Seq<char>)
    requires
        on_one_line(a),
        on_one_line(b),
    ensures
        #[trigger] on_one_line(a + b),
{
    reveal(on_one_line);
    assert forall|i: int| 0 <= i < (a + b).len() implies (a + b)[i] != '\n' by {
        if i < a.len() {
            assert((a + b)[i] == a[i]);
        } else {
            assert((a + b)[i] == b[i - a.len()]);
        }
    }
}

pub proof fn lemma_empty_on_one_line()
    ensures
        on_one_line(Seq::<char>::empty()),
{
    reveal(on_one_line);
}

/// Two runs of whole lines, one after the other, are a run of whole lines.
pub proof fn lemma_record_lines_add(a: Seq<char>, b: Seq<char>)
    requires
        whole_record_lines(a),
        whole_record_lines(b),
    ensures
        whole_record_lines(a + b),
{
    if a.len() == 0 {
        assert(a + b =~= b);
    } else if b.len() == 0 {
        assert(a + b =~= a);
    } else {
        let s = a + b;
        assert(s[0] == a[0]);
        assert(s.last() == b.last());
        assert forall|i: int| 0 <= i < s.len() && #[trigger] s[i] == '\n' implies {
            &&& i >= 1
            &&& s[i - 1] == '}'
            &&& (i + 1 == s.len() || s[i + 1] == '{')
        } by {
            if i < a.len() {
                assert(a[i] == '\n');
                if i + 1 == a.len() {
                    assert(s[i + 1] == b[0]);
                } else {
                    assert(s[i + 1] == a[i + 1]);
                }
                assert(s[i - 1] == a[i - 1]);
            } else {
                let j = i - a.len();
                assert(b[j] == '\n');
                // `b` opens with `{`, so its first line break is not its first character.
                assert(j != 0);
                assert(s[i - 1] == b[j - 1]);
                if i + 1 < s.len() {
                    assert(s[i + 1] == b[j + 1]);
                }
            }
        }
    }
}

/// A record: it opens with `{`, holds no line break, and ends with `}` and
/// a line break.
pub proof fn lemma_one_record(body: Seq<char>)
    requires
        body.len() > 0,
        body[0] == '{',
        on_one_line(body),
    ensures
        whole_record_lines(body + "}\n"@),
{
    reveal(on_one_line);
    reveal_strlit("}\n");
    let s = body + "}\n"@;
    assert(s[0] == body[0]);
    assert forall|i: int| 0 <= i < s.len() && #[trigger] s[i] == '\n' implies {
        &&& i >= 1
        &&& s[i - 1] == '}'
        &&& (i + 1 == s.len() || s[i + 1] == '{')
    } by {
        if i < body.len() {
            assert(s[i] == body[i]);
        } else if i == body.len() {
            assert(s[i] == '}');
        }
    }
}

pub proof fn lemma_json_string_on_one_line(value: Seq<char>)
    ensures
        on_one_line(json_string(value)),
{
    reveal(on_one_line);
    reveal(json_string);
    lemma_escaped_text_is_printable(value);
    let s = json_string(value);
    let e = json_escaped(value);
    assert forall|i: int| 0 <= i < s.len() implies s[i] != '\n' by {
        if 1 <= i < 1 + e.len() {
            assert(s[i] == e[i - 1]);
            assert((e[i - 1] as u32) >= 0x20);
        }
    }
}

pub proof fn lemma_decimal_on_one_line(n: nat)
    ensures
        on_one_line(decimal(n)),
    decreases n,
{
    reveal(on_one_line);
    if n >= 10 {
        lemma_decimal_on_one_line(n / 10);
        let d = decimal(n / 10);
        assert forall|i: int| 0 <= i < decimal(n).len() implies decimal(n)[i] != '\n' by {
            if i < d.len() {
                assert(decimal(n)[i] == d[i]);
            } else {
                assert(decimal(n)[i] == digit_char(n % 10));
            }
        }
    }
}

pub proof fn lemma_field_name_on_one_line(name: Seq<char>)
    requires
        on_one_line(name),
    ensures
        on_one_line(json_field_name(name)),
{
    broadcast use lemma_one_line_add;
    lemma_literal_pieces();
}

/// The punctuation every field is made of.
proof fn lemma_literal_pieces()
    ensures
        on_one_line(",\""@),
        on_one_line("\":"@),
        on_one_line("true"@),
        on_one_line("false"@),
        on_one_line("{\"start_row\":"@),
        on_one_line(",\"start_column\":"@),
        on_one_line(",\"end_row\":"@),
        on_one_line(",\"end_column\":"@),
        on_one_line(",\"start_byte\":"@),
        on_one_line(",\"end_byte\":"@),
        on_one_line("}"@),
        on_one_line("{"@),
        on_one_line("["@),
        on_one_line("]"@),
        on_one_line(","@),
        on_one_line("null"@),
{
    reveal(on_one_line);
    reveal_strlit(",\"");
    reveal_strlit("\":");
    reveal_strlit("true");
    reveal_strlit("false");
    reveal_strlit("{\"start_row\":");
    reveal_strlit(",\"start_column\":");
    reveal_strlit(",\"end_row\":");
    reveal_strlit(",\"end_column\":");
    reveal_strlit(",\"start_byte\":");
    reveal_strlit(",\"end_byte\":");
    reveal_strlit("}");
    reveal_strlit("{");
    reveal_strlit("[");
    reveal_strlit("]");
    reveal_strlit(",");
    reveal_strlit("null");
}

pub proof fn lemma_string_field_on_one_line(name: Seq<char>, value: Seq<char>)
    requires
        on_one_line(name),
    ensures
        on_one_line(json_string_field(name, value)),
{
    broadcast use lemma_one_line_add;
    reveal(json_string_field);
    lemma_field_name_on_one_line(name);
    lemma_json_string_on_one_line(value);
}

pub proof fn lemma_bool_field_on_one_line(name: Seq<char>, value: bool)
    requires
        on_one_line(name),
    ensures
        on_one_line(json_bool_field(name, value)),
{
    broadcast use lemma_one_line_add;
    reveal(json_bool_field);
    lemma_field_name_on_one_line(name);
    lemma_literal_pieces();
}

pub proof fn lemma_usize_field_on_one_line(name: Seq<char>, value: usize)
    requires
        on_one_line(name),
    ensures
        on_one_line(json_usize_field(name, value)),
{
    broadcast use lemma_one_line_add;
    reveal(json_usize_field);
    lemma_field_name_on_one_line(name);
    lemma_decimal_on_one_line(value as nat);
}

pub proof fn lemma_range_on_one_line(range: SourceRange)
    ensures
        on_one_line(json_range(range)),
{
    broadcast use lemma_one_line_add;
    reveal(json_range);
    lemma_literal_pieces();
    lemma_decimal_on_one_line(range.start_row as nat);
    lemma_decimal_on_one_line(range.start_column as nat);
    lemma_decimal_on_one_line(range.end_row as nat);
    lemma_decimal_on_one_line(range.end_column as nat);
    lemma_decimal_on_one_line(range.start_byte as nat);
    lemma_decimal_on_one_line(range.end_byte as nat);
}

pub proof fn lemma_range_field_on_one_line(name: Seq<char>, range: SourceRange)
    requires
        on_one_line(name),
    ensures
        on_one_line(json_range_field(name, range)),
{
    broadcast use lemma_one_line_add;
    reveal(json_range_field);
    lemma_field_name_on_one_line(name);
    lemma_range_on_one_line(range);
}

/// The names of the fields records carry, and the other fixed pieces
/// between them.
pub proof fn lemma_field_names_on_one_line()
    ensures
        on_one_line("name"@),
        on_one_line("scope"@),
        on_one_line("range"@),
        on_one_line("name_range"@),
        on_one_line("kind"@),
        on_one_line("type"@),
        on_one_line("default"@),
        on_one_line("annotations"@),
        on_one_line("arguments"@),
        on_one_line("modifiers"@),
        on_one_line("parameters"@),
        on_one_line("body_range"@),
        on_one_line("body_is_pass_only"@),
        on_one_line("extends"@),
        on_one_line("schema"@),
        on_one_line("path"@),
        on_one_line("parse_error"@),
        on_one_line("text"@),
        on_one_line("is_call"@),
        on_one_line("is_documentation"@),
        on_one_line("is_trailing"@),
        on_one_line("operator"@),
        on_one_line("left"@),
        on_one_line("right"@),
        on_one_line("value"@),
        on_one_line("literal_kind"@),
        on_one_line("segments"@),
        on_one_line("context"@),
        on_one_line("argument_of"@),
        on_one_line("unique"@),
        on_one_line("{\"kind\":"@),
        on_one_line("{\"name\":"@),
        on_one_line("{\"text\":"@),
        on_one_line("\"callee\":"@),
        on_one_line("\"index\":"@),
        on_one_line("\"static\""@),
        on_one_line("\"abstract\""@),
{
    reveal(on_one_line);
    reveal_strlit("name");
    reveal_strlit("scope");
    reveal_strlit("range");
    reveal_strlit("name_range");
    reveal_strlit("kind");
    reveal_strlit("type");
    reveal_strlit("default");
    reveal_strlit("annotations");
    reveal_strlit("arguments");
    reveal_strlit("modifiers");
    reveal_strlit("parameters");
    reveal_strlit("body_range");
    reveal_strlit("body_is_pass_only");
    reveal_strlit("extends");
    reveal_strlit("schema");
    reveal_strlit("path");
    reveal_strlit("parse_error");
    reveal_strlit("text");
    reveal_strlit("is_call");
    reveal_strlit("is_documentation");
    reveal_strlit("is_trailing");
    reveal_strlit("operator");
    reveal_strlit("left");
    reveal_strlit("right");
    reveal_strlit("value");
    reveal_strlit("literal_kind");
    reveal_strlit("segments");
    reveal_strlit("context");
    reveal_strlit("argument_of");
    reveal_strlit("unique");
    reveal_strlit("{\"kind\":");
    reveal_strlit("{\"name\":");
    reveal_strlit("{\"text\":");
    reveal_strlit("\"callee\":");
    reveal_strlit("\"index\":");
    reveal_strlit("\"static\"");
    reveal_strlit("\"abstract\"");
}

pub proof fn lemma_scope_field_on_one_line(scope: Seq<char>)
    ensures
        on_one_line(json_scope_field(scope)),
{
    reveal(json_scope_field);
    lemma_field_names_on_one_line();
    lemma_string_field_on_one_line("scope"@, scope);
}

pub proof fn lemma_context_field_on_one_line(context: ExpressionContext)
    ensures
        on_one_line(json_context_field(context)),
{
    reveal(json_context_field);
    lemma_field_names_on_one_line();
    lemma_string_field_on_one_line("context"@, crate::index::collectors::context_name(context));
}

pub proof fn lemma_argument_list_on_one_line(arguments: Seq<ArgumentView>)
    ensures
        on_one_line(json_argument_list(arguments)),
    decreases arguments.len(),
{
    broadcast use lemma_one_line_add;
    reveal(json_argument);
    lemma_literal_pieces();
    lemma_field_names_on_one_line();
    lemma_empty_on_one_line();
    if arguments.len() > 0 {
        lemma_json_string_on_one_line(arguments.last().text);
        lemma_range_field_on_one_line("range"@, arguments.last().range);
        lemma_json_string_on_one_line(arguments[0].text);
        lemma_range_field_on_one_line("range"@, arguments[0].range);
        if arguments.len() > 1 {
            lemma_argument_list_on_one_line(arguments.drop_last());
        }
    }
}

pub proof fn lemma_arguments_field_on_one_line(arguments: Seq<ArgumentView>)
    ensures
        on_one_line(json_arguments_field(arguments)),
{
    broadcast use lemma_one_line_add;
    reveal(json_arguments_field);
    lemma_empty_on_one_line();
    lemma_literal_pieces();
    lemma_field_names_on_one_line();
    lemma_field_name_on_one_line("arguments"@);
    lemma_argument_list_on_one_line(arguments);
}

pub proof fn lemma_argument_of_on_one_line(position: Option<ArgumentPositionView>)
    ensures
        on_one_line(json_optional_argument_of(position)),
{
    broadcast use lemma_one_line_add;
    reveal(json_optional_argument_of);
    reveal(json_argument_of_field);
    lemma_empty_on_one_line();
    lemma_literal_pieces();
    lemma_field_names_on_one_line();
    lemma_field_name_on_one_line("argument_of"@);
    match position {
        Some(p) => {
            lemma_decimal_on_one_line(p.index);
            match p.callee {
                Some(callee) => lemma_json_string_on_one_line(callee),
                None => {},
            }
        },
        None => {},
    }
}

pub proof fn lemma_optional_text_on_one_line(name: Seq<char>, value: Option<Seq<char>>)
    requires
        on_one_line(name),
    ensures
        on_one_line(json_optional_text_field(name, value)),
{
    reveal(json_optional_text_field);
    lemma_empty_on_one_line();
    match value {
        Some(v) => lemma_string_field_on_one_line(name, v),
        None => {},
    }
}

pub proof fn lemma_string_list_on_one_line(texts: Seq<Seq<char>>)
    ensures
        on_one_line(json_string_list(texts)),
    decreases texts.len(),
{
    broadcast use lemma_one_line_add;
    lemma_literal_pieces();
    lemma_empty_on_one_line();
    if texts.len() > 0 {
        lemma_json_string_on_one_line(texts[0]);
        lemma_json_string_on_one_line(texts.last());
        if texts.len() > 1 {
            lemma_string_list_on_one_line(texts.drop_last());
        }
    }
}

pub proof fn lemma_annotation_arguments_on_one_line(arguments: Seq<Seq<char>>)
    ensures
        on_one_line(json_annotation_arguments(arguments)),
{
    broadcast use lemma_one_line_add;
    reveal(json_annotation_arguments);
    lemma_empty_on_one_line();
    lemma_literal_pieces();
    lemma_field_names_on_one_line();
    lemma_field_name_on_one_line("arguments"@);
    lemma_string_list_on_one_line(arguments);
}

pub proof fn lemma_annotation_object_on_one_line(annotation: AnnotationView)
    ensures
        on_one_line(json_annotation_object(annotation)),
{
    broadcast use lemma_one_line_add;
    lemma_literal_pieces();
    lemma_field_names_on_one_line();
    lemma_json_string_on_one_line(annotation.name);
    lemma_annotation_arguments_on_one_line(annotation.arguments);
    lemma_range_field_on_one_line("range"@, annotation.range);
}

pub proof fn lemma_annotation_objects_on_one_line(annotations: Seq<AnnotationView>)
    ensures
        on_one_line(json_annotation_objects(annotations)),
    decreases annotations.len(),
{
    broadcast use lemma_one_line_add;
    lemma_literal_pieces();
    lemma_empty_on_one_line();
    if annotations.len() > 0 {
        lemma_annotation_object_on_one_line(annotations[0]);
        lemma_annotation_object_on_one_line(annotations.last());
        if annotations.len() > 1 {
            lemma_annotation_objects_on_one_line(annotations.drop_last());
        }
    }
}

pub proof fn lemma_parameter_objects_on_one_line(parameters: Seq<ParameterView>)
    ensures
        on_one_line(json_parameter_objects(parameters)),
    decreases parameters.len(),
{
    broadcast use lemma_one_line_add;
    lemma_literal_pieces();
    lemma_field_names_on_one_line();
    lemma_empty_on_one_line();
    if parameters.len() > 0 {
        let first = parameters[0];
        let last = parameters.last();
        lemma_json_string_on_one_line(first.name);
        lemma_optional_text_on_one_line("type"@, first.declared_type);
        lemma_optional_text_on_one_line("default"@, first.default_value);
        lemma_range_field_on_one_line("range"@, first.range);
        lemma_json_string_on_one_line(last.name);
        lemma_optional_text_on_one_line("type"@, last.declared_type);
        lemma_optional_text_on_one_line("default"@, last.default_value);
        lemma_range_field_on_one_line("range"@, last.range);
        if parameters.len() > 1 {
            lemma_parameter_objects_on_one_line(parameters.drop_last());
        }
    }
}

/// Every field a declaration may carry after its ranges.
proof fn lemma_declaration_fields_on_one_line(record: DeclarationView)
    ensures
        on_one_line(json_optional_text_field("type"@, record.declared_type)),
        on_one_line(json_optional_text_field("default"@, record.default_value)),
        on_one_line(json_annotations_field(record.annotations)),
        on_one_line(json_modifiers_field(record.is_static, record.is_abstract)),
        on_one_line(json_parameters_field(record.parameters)),
        on_one_line(json_body_range_field(record.kind, record.body_range)),
        on_one_line(json_pass_only_field(record.body_is_pass_only)),
        on_one_line(json_optional_text_field("extends"@, record.extends)),
{
    broadcast use lemma_one_line_add;
    lemma_literal_pieces();
    lemma_field_names_on_one_line();
    lemma_empty_on_one_line();
    lemma_optional_text_on_one_line("type"@, record.declared_type);
    lemma_optional_text_on_one_line("default"@, record.default_value);
    lemma_optional_text_on_one_line("extends"@, record.extends);
    reveal(json_annotations_field);
    lemma_field_name_on_one_line("annotations"@);
    lemma_annotation_objects_on_one_line(record.annotations);
    reveal(json_modifiers_field);
    lemma_field_name_on_one_line("modifiers"@);
    reveal(json_parameters_field);
    lemma_field_name_on_one_line("parameters"@);
    lemma_parameter_objects_on_one_line(record.parameters);
    reveal(json_body_range_field);
    lemma_field_name_on_one_line("body_range"@);
    match record.body_range {
        Some(r) => lemma_range_field_on_one_line("body_range"@, r),
        None => {},
    }
    lemma_bool_field_on_one_line("body_is_pass_only"@, true);
}

/// The opening of each record.
pub proof fn lemma_record_heads()
    ensures
        on_one_line("{\"record\":\"declaration\""@),
        on_one_line("{\"record\":\"reference\""@),
        on_one_line("{\"record\":\"member_chain\""@),
        on_one_line("{\"record\":\"string_literal\""@),
        on_one_line("{\"record\":\"comparison\""@),
        on_one_line("{\"record\":\"comment\""@),
        on_one_line("{\"record\":\"annotation\""@),
        on_one_line("{\"record\":\"file\""@),
        "{\"record\":\"declaration\""@[0] == '{',
        "{\"record\":\"reference\""@[0] == '{',
        "{\"record\":\"member_chain\""@[0] == '{',
        "{\"record\":\"string_literal\""@[0] == '{',
        "{\"record\":\"comparison\""@[0] == '{',
        "{\"record\":\"comment\""@[0] == '{',
        "{\"record\":\"annotation\""@[0] == '{',
        "{\"record\":\"file\""@[0] == '{',
        "{\"record\":\"declaration\""@.len() > 0,
        "{\"record\":\"reference\""@.len() > 0,
        "{\"record\":\"member_chain\""@.len() > 0,
        "{\"record\":\"string_literal\""@.len() > 0,
        "{\"record\":\"comparison\""@.len() > 0,
        "{\"record\":\"comment\""@.len() > 0,
        "{\"record\":\"annotation\""@.len() > 0,
        "{\"record\":\"file\""@.len() > 0,
{
    reveal(on_one_line);
    reveal_strlit("{\"record\":\"declaration\"");
    reveal_strlit("{\"record\":\"reference\"");
    reveal_strlit("{\"record\":\"member_chain\"");
    reveal_strlit("{\"record\":\"string_literal\"");
    reveal_strlit("{\"record\":\"comparison\"");
    reveal_strlit("{\"record\":\"comment\"");
    reveal_strlit("{\"record\":\"annotation\"");
    reveal_strlit("{\"record\":\"file\"");
}

/// A text that opens with `head` opens with `{` when `head` does.
proof fn lemma_opens_with_brace(head: Seq<char>, rest: Seq<char>)
    requires
        head.len() > 0,
        head[0] == '{',
    ensures
        (head + rest).len() > 0,
        (head + rest)[0] == '{',
{
}

pub proof fn lemma_declaration_record_is_a_line(record: DeclarationView, scope: Seq<char>)
    ensures
        whole_record_lines(json_declaration_record(record, scope)),
{
    broadcast use lemma_one_line_add;
    reveal(json_declaration_record);
    lemma_record_heads();
    lemma_field_names_on_one_line();
    lemma_declaration_fields_on_one_line(record);
    let head = "{\"record\":\"declaration\""@;
    let fields = json_string_field("kind"@, crate::index::collectors::declaration::kind_name(record.kind))
        + json_string_field("name"@, record.name) + json_scope_field(scope) + json_range_field("range"@, record.range)
        + json_range_field("name_range"@, record.name_range) + json_optional_text_field("type"@, record.declared_type)
        + json_optional_text_field("default"@, record.default_value) + json_annotations_field(record.annotations)
        + json_modifiers_field(record.is_static, record.is_abstract) + json_parameters_field(record.parameters)
        + json_body_range_field(record.kind, record.body_range) + json_pass_only_field(record.body_is_pass_only)
        + json_optional_text_field("extends"@, record.extends);
    lemma_string_field_on_one_line("kind"@, crate::index::collectors::declaration::kind_name(record.kind));
    lemma_string_field_on_one_line("name"@, record.name);
    lemma_scope_field_on_one_line(scope);
    lemma_range_field_on_one_line("range"@, record.range);
    lemma_range_field_on_one_line("name_range"@, record.name_range);
    assert(on_one_line(fields));
    lemma_opens_with_brace(head, fields);
    lemma_one_record(head + fields);
    assert(json_declaration_record(record, scope) =~= head + fields + "}\n"@);
}

pub proof fn lemma_declaration_records_are_lines(records: Seq<DeclarationView>, scope: Seq<char>)
    ensures
        whole_record_lines(json_declaration_records(records, scope)),
    decreases records.len(),
{
    if records.len() > 0 {
        lemma_declaration_records_are_lines(records.drop_last(), scope);
        lemma_declaration_record_is_a_line(records.last(), scope);
        lemma_record_lines_add(json_declaration_records(records.drop_last(), scope), json_declaration_record(records.last(), scope));
    }
}

pub proof fn lemma_reference_record_is_a_line(record: ReferenceView, scope: Seq<char>)
    ensures
        whole_record_lines(json_reference_record(record, scope)),
{
    broadcast use lemma_one_line_add;
    lemma_record_heads();
    lemma_field_names_on_one_line();
    lemma_empty_on_one_line();
    let head = "{\"record\":\"reference\""@;
    let call = if record.is_call {
        json_bool_field("is_call"@, true)
    } else {
        Seq::empty()
    };
    let fields = json_string_field("name"@, record.name) + json_scope_field(scope) + json_range_field("range"@, record.range)
        + json_range_field("name_range"@, record.name_range) + call + json_arguments_field(record.arguments)
        + json_context_field(record.context) + json_optional_argument_of(record.argument_of);
    lemma_string_field_on_one_line("name"@, record.name);
    lemma_scope_field_on_one_line(scope);
    lemma_range_field_on_one_line("range"@, record.range);
    lemma_range_field_on_one_line("name_range"@, record.name_range);
    lemma_bool_field_on_one_line("is_call"@, true);
    lemma_arguments_field_on_one_line(record.arguments);
    lemma_context_field_on_one_line(record.context);
    lemma_argument_of_on_one_line(record.argument_of);
    assert(on_one_line(fields));
    lemma_opens_with_brace(head, fields);
    lemma_one_record(head + fields);
    assert(json_reference_record(record, scope) =~= head + fields + "}\n"@);
}

pub proof fn lemma_segment_list_on_one_line(segments: Seq<SegmentView>)
    ensures
        on_one_line(json_segment_list(segments)),
    decreases segments.len(),
{
    broadcast use lemma_one_line_add;
    lemma_literal_pieces();
    lemma_empty_on_one_line();
    if segments.len() > 0 {
        lemma_segment_on_one_line(segments[0]);
        lemma_segment_on_one_line(segments.last());
        if segments.len() > 1 {
            lemma_segment_list_on_one_line(segments.drop_last());
        }
    }
}

pub proof fn lemma_segment_on_one_line(segment: SegmentView)
    ensures
        on_one_line(json_segment(segment)),
{
    broadcast use lemma_one_line_add;
    reveal(json_segment);
    lemma_literal_pieces();
    lemma_field_names_on_one_line();
    lemma_empty_on_one_line();
    lemma_json_string_on_one_line(crate::index::collectors::member_chain::segment_kind_name(segment.kind));
    match segment.name {
        Some(name) => lemma_string_field_on_one_line("name"@, name),
        None => {},
    }
    match segment.text {
        Some(text) => lemma_string_field_on_one_line("text"@, text),
        None => {},
    }
    lemma_bool_field_on_one_line("is_call"@, true);
    lemma_range_field_on_one_line("range"@, segment.range);
}

pub proof fn lemma_member_chain_record_is_a_line(record: MemberChainView, scope: Seq<char>)
    ensures
        whole_record_lines(json_member_chain_record(record, scope)),
{
    broadcast use lemma_one_line_add;
    lemma_record_heads();
    lemma_literal_pieces();
    lemma_field_names_on_one_line();
    lemma_empty_on_one_line();
    let head = "{\"record\":\"member_chain\""@;
    let call = if record.is_call {
        json_bool_field("is_call"@, true)
    } else {
        Seq::empty()
    };
    let fields = json_field_name("segments"@) + "["@ + json_segment_list(record.segments) + "]"@ + json_scope_field(scope)
        + json_range_field("range"@, record.range) + call + json_arguments_field(record.arguments)
        + json_context_field(record.context) + json_optional_argument_of(record.argument_of);
    lemma_field_name_on_one_line("segments"@);
    lemma_segment_list_on_one_line(record.segments);
    lemma_scope_field_on_one_line(scope);
    lemma_range_field_on_one_line("range"@, record.range);
    lemma_bool_field_on_one_line("is_call"@, true);
    lemma_arguments_field_on_one_line(record.arguments);
    lemma_context_field_on_one_line(record.context);
    lemma_argument_of_on_one_line(record.argument_of);
    assert(on_one_line(fields));
    lemma_opens_with_brace(head, fields);
    lemma_one_record(head + fields);
    assert(json_member_chain_record(record, scope) =~= head + fields + "}\n"@);
}

pub proof fn lemma_string_literal_record_is_a_line(record: StringLiteralView, scope: Seq<char>)
    ensures
        whole_record_lines(json_string_literal_record(record, scope)),
{
    broadcast use lemma_one_line_add;
    lemma_record_heads();
    lemma_field_names_on_one_line();
    lemma_empty_on_one_line();
    let head = "{\"record\":\"string_literal\""@;
    let kind = if record.literal_kind != crate::index::collectors::string_literal::LiteralKind::String {
        json_string_field("literal_kind"@, crate::index::collectors::string_literal::literal_kind_name(record.literal_kind))
    } else {
        Seq::empty()
    };
    let fields = json_string_field("value"@, record.value) + kind + json_scope_field(scope) + json_range_field(
        "range"@,
        record.range,
    ) + json_optional_argument_of(record.argument_of);
    lemma_string_field_on_one_line("value"@, record.value);
    lemma_string_field_on_one_line(
        "literal_kind"@,
        crate::index::collectors::string_literal::literal_kind_name(record.literal_kind),
    );
    lemma_scope_field_on_one_line(scope);
    lemma_range_field_on_one_line("range"@, record.range);
    lemma_argument_of_on_one_line(record.argument_of);
    assert(on_one_line(fields));
    lemma_opens_with_brace(head, fields);
    lemma_one_record(head + fields);
    assert(json_string_literal_record(record, scope) =~= head + fields + "}\n"@);
}

pub proof fn lemma_comparison_record_is_a_line(record: ComparisonView, scope: Seq<char>)
    ensures
        whole_record_lines(json_comparison_record(record, scope)),
{
    broadcast use lemma_one_line_add;
    lemma_record_heads();
    lemma_literal_pieces();
    lemma_field_names_on_one_line();
    let head = "{\"record\":\"comparison\""@;
    let fields = json_string_field("operator"@, record.operator) + json_operand_field("left"@, record.left)
        + json_operand_field("right"@, record.right) + json_scope_field(scope) + json_range_field(
        "range"@,
        record.range,
    );
    reveal(json_operand_field);
    lemma_string_field_on_one_line("operator"@, record.operator);
    lemma_field_name_on_one_line("left"@);
    lemma_field_name_on_one_line("right"@);
    lemma_json_string_on_one_line(record.left.text);
    lemma_json_string_on_one_line(record.right.text);
    lemma_range_field_on_one_line("range"@, record.left.range);
    lemma_range_field_on_one_line("range"@, record.right.range);
    lemma_scope_field_on_one_line(scope);
    lemma_range_field_on_one_line("range"@, record.range);
    assert(on_one_line(fields));
    lemma_opens_with_brace(head, fields);
    lemma_one_record(head + fields);
    assert(json_comparison_record(record, scope) =~= head + fields + "}\n"@);
}

pub proof fn lemma_comment_record_is_a_line(record: CommentView, scope: Seq<char>)
    ensures
        whole_record_lines(json_comment_record(record, scope)),
{
    broadcast use lemma_one_line_add;
    lemma_record_heads();
    lemma_field_names_on_one_line();
    lemma_empty_on_one_line();
    let head = "{\"record\":\"comment\""@;
    let documentation = if record.is_documentation {
        json_bool_field("is_documentation"@, true)
    } else {
        Seq::empty()
    };
    let trailing = if record.is_trailing {
        json_bool_field("is_trailing"@, true)
    } else {
        Seq::empty()
    };
    let fields = json_string_field("text"@, record.text) + json_scope_field(scope) + json_range_field("range"@, record.range)
        + documentation + trailing;
    lemma_string_field_on_one_line("text"@, record.text);
    lemma_scope_field_on_one_line(scope);
    lemma_range_field_on_one_line("range"@, record.range);
    lemma_bool_field_on_one_line("is_documentation"@, true);
    lemma_bool_field_on_one_line("is_trailing"@, true);
    assert(on_one_line(fields));
    lemma_opens_with_brace(head, fields);
    lemma_one_record(head + fields);
    assert(json_comment_record(record, scope) =~= head + fields + "}\n"@);
}

pub proof fn lemma_annotation_record_is_a_line(record: AnnotationView, scope: Seq<char>)
    ensures
        whole_record_lines(json_annotation_record(record, scope)),
{
    broadcast use lemma_one_line_add;
    lemma_record_heads();
    lemma_field_names_on_one_line();
    let head = "{\"record\":\"annotation\""@;
    let fields = json_string_field("name"@, record.name) + json_annotation_arguments(record.arguments) + json_scope_field(
        scope,
    ) + json_range_field("range"@, record.range);
    lemma_string_field_on_one_line("name"@, record.name);
    lemma_annotation_arguments_on_one_line(record.arguments);
    lemma_scope_field_on_one_line(scope);
    lemma_range_field_on_one_line("range"@, record.range);
    assert(on_one_line(fields));
    lemma_opens_with_brace(head, fields);
    lemma_one_record(head + fields);
    assert(json_annotation_record(record, scope) =~= head + fields + "}\n"@);
}

pub proof fn lemma_file_header_is_a_line(display_path: Seq<char>, extends: Option<Seq<char>>, parse_error: bool)
    ensures
        whole_record_lines(crate::index::json_file_header(display_path, extends, parse_error)),
{
    broadcast use lemma_one_line_add;
    reveal(crate::index::json_file_header);
    lemma_record_heads();
    lemma_field_names_on_one_line();
    lemma_empty_on_one_line();
    let head = "{\"record\":\"file\""@;
    let error = if parse_error {
        json_bool_field("parse_error"@, true)
    } else {
        Seq::empty()
    };
    let fields = json_usize_field("schema"@, crate::index::INDEX_SCHEMA_VERSION) + json_string_field("path"@, display_path)
        + json_optional_text_field("extends"@, extends) + error;
    lemma_usize_field_on_one_line("schema"@, crate::index::INDEX_SCHEMA_VERSION);
    lemma_string_field_on_one_line("path"@, display_path);
    lemma_optional_text_on_one_line("extends"@, extends);
    lemma_bool_field_on_one_line("parse_error"@, true);
    assert(on_one_line(fields));
    lemma_opens_with_brace(head, fields);
    lemma_one_record(head + fields);
    assert(crate::index::json_file_header(display_path, extends, parse_error) =~= head + fields + "}\n"@);
}

pub proof fn lemma_node_output_is_lines(tree: &SyntaxTree, source: Seq<char>, node: int, scope: Seq<char>)
    ensures
        whole_record_lines(node_output(tree, source, node, scope)),
{
    match collector_of_kind(tree.kind(node)) {
        Some(collector) => match collector {
            Collector::Declaration => lemma_declaration_records_are_lines(
                crate::index::collectors::declaration::declarations_of(tree, source, node),
                scope,
            ),
            Collector::Reference => match crate::index::collectors::reference::reference_of(tree, source, node) {
                Some(record) => lemma_reference_record_is_a_line(record, scope),
                None => {},
            },
            Collector::MemberChain => lemma_member_chain_record_is_a_line(
                crate::index::collectors::member_chain::member_chain_of(tree, source, node),
                scope,
            ),
            Collector::StringLiteral => lemma_string_literal_record_is_a_line(
                crate::index::collectors::string_literal::string_literal_of(tree, source, node),
                scope,
            ),
            Collector::Comparison => match crate::index::collectors::comparison::comparison_of(tree, source, node) {
                Some(record) => lemma_comparison_record_is_a_line(record, scope),
                None => {},
            },
            Collector::Comment => lemma_comment_record_is_a_line(
                crate::index::collectors::comment::comment_of(tree, source, node),
                scope,
            ),
            Collector::Annotation => {
                if !crate::index::collectors::annotation::is_claimed(tree, node) {
                    match crate::index::collectors::declaration::annotation_of(tree, source, node) {
                        Some(record) => lemma_annotation_record_is_a_line(record, scope),
                        None => {},
                    }
                }
            },
        },
        None => {},
    }
}

pub proof fn lemma_walk_is_lines(tree: &SyntaxTree, source: Seq<char>, node: int, scope: Seq<char>)
    ensures
        whole_record_lines(walk_output(tree, source, node, scope)),
    decreases tree.len() - node, tree.child_count(node) + 1,
{
    let inner = inner_scope(tree, source, node, scope);
    lemma_node_output_is_lines(tree, source, node, scope);
    lemma_children_are_lines(tree, source, node, 0, inner);
    lemma_record_lines_add(node_output(tree, source, node, scope), children_output(tree, source, node, 0, inner));
}

pub proof fn lemma_children_are_lines(tree: &SyntaxTree, source: Seq<char>, node: int, k: int, scope: Seq<char>)
    ensures
        whole_record_lines(children_output(tree, source, node, k, scope)),
    decreases tree.len() - node, tree.child_count(node) - k,
{
    if 0 <= k < tree.child_count(node) {
        let c = tree.child(node, k);
        lemma_children_are_lines(tree, source, node, k + 1, scope);
        if node < c < tree.len() {
            lemma_walk_is_lines(tree, source, c, scope);
            lemma_record_lines_add(walk_output(tree, source, c, scope), children_output(tree, source, node, k + 1, scope));
        }
    }
}

/// Every line of the index is one record: each line opens with `{` and
/// closes with `}`, and no record breaks a line, whatever the source holds.
/// The index of a file that does not parse is its header alone, one line.
pub proof fn lemma_every_line_is_one_record(tree: &SyntaxTree, source: Seq<char>, display_path: Seq<char>)
    ensures
        whole_record_lines(index_output(tree, source, display_path)),
        whole_record_lines(json_file_header(display_path, None, true)),
{
    lemma_file_header_is_a_line(display_path, file_extends(tree, source), false);
    lemma_file_header_is_a_line(display_path, None, true);
    lemma_walk_is_lines(tree, source, 0, Seq::empty());
    lemma_record_lines_add(
        json_file_header(display_path, file_extends(tree, source), false),
        walk_output(tree, source, 0, Seq::empty()),
    );
}

} // verus!

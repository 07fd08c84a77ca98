use gdscript_formatter::FormatErrors;
use gdscript_formatter::index::collectors::{Collector, CollectorContext, find_collector};
use gdscript_formatter::linter::lib::get_line_column;
use gdscript_formatter::index::collectors::node_path;
use gdscript_formatter::index::collectors::string_literal::decode_string_literal;
use gdscript_formatter::index::json_push_escaped_string;
use gdscript_formatter::index::index_source;
use gdscript_formatter::index::paths::{ProjectRootConflict, choose_project_root, res_path};
use gdscript_formatter::node_kind::GDScriptNodeKind;
use gdscript_formatter::parser::parse_source;

fn index(source: &str) -> String {
    let mut output = String::new();
    assert!(index_source(source, "res://t.gd", &mut output));
    output
}

fn chars(text: &str) -> Vec<char> {
    text.chars().collect()
}

#[test]
fn every_annotation_is_reported_exactly_once() {
    let source = "@tool\nextends Node\n\n@export\n# the speed\n@export_range(0, 10)\nvar speed := 1\n\nfunc _ready() -> void:\n\tmatch 1:\n\t\t1:\n\t\t\t@warning_ignore(\"unused_variable\")\n\t\t\tvar x := 2\n";
    let output = index(source);
    let records: Vec<&str> = output.lines().filter(|line| line.contains("\"record\":\"annotation\"")).collect();
    assert_eq!(records.len(), 1, "{}", output);
    assert!(records[0].contains("\"name\":\"tool\""));
    let speed = output
        .lines()
        .find(|line| line.contains("\"name\":\"speed\""))
        .unwrap();
    assert!(speed.contains("\"annotations\":[{\"name\":\"export\""));
    assert!(speed.contains("{\"name\":\"export_range\",\"arguments\":[\"0\",\"10\"]"));
    assert!(speed.contains("\"range\":{\"start_row\":4,\"start_column\":1,\"end_row\":7,"));
    let inner = output.lines().find(|line| line.contains("\"name\":\"x\"")).unwrap();
    assert!(inner.contains("{\"name\":\"warning_ignore\",\"arguments\":[\"\\\"unused_variable\\\"\"]"));
    assert_eq!(output.matches("\"name\":\"export\"").count(), 1);
}

#[test]
fn class_name_and_file_header_report_the_same_base() {
    let output = index("class_name Foo extends Bar\n");
    let lines: Vec<&str> = output.lines().collect();
    assert_eq!(lines[0], "{\"record\":\"file\",\"schema\":1,\"path\":\"res://t.gd\",\"extends\":\"Bar\"}");
    assert!(lines[1].starts_with("{\"record\":\"declaration\",\"kind\":\"class\",\"name\":\"Foo\""));
    assert!(lines[1].ends_with(",\"extends\":\"Bar\"}"));
}

#[test]
fn an_inner_class_never_inherits_the_file_base() {
    let output = index("extends Node\n\nclass Helper:\n\tpass\n\nclass Other extends Resource:\n\tpass\n");
    let helper = output.lines().find(|line| line.contains("\"name\":\"Helper\"")).unwrap();
    assert!(!helper.contains("\"extends\""), "{}", helper);
    let other = output.lines().find(|line| line.contains("\"name\":\"Other\"")).unwrap();
    assert!(other.ends_with(",\"extends\":\"Resource\"}"), "{}", other);
}

#[test]
fn signals_and_parameters_are_declarations() {
    let output = index("signal hit(amount: int, source)\n");
    let signal = output.lines().find(|line| line.contains("\"kind\":\"signal\"")).unwrap();
    assert!(signal.contains("\"parameters\":[{\"name\":\"amount\",\"type\":\"int\""));
    assert!(signal.contains("{\"name\":\"source\",\"range\""));
    let parameters: Vec<&str> = output.lines().filter(|line| line.contains("\"kind\":\"parameter\"")).collect();
    assert_eq!(parameters.len(), 2);
    assert!(parameters[0].contains("\"scope\":\"hit\""));
}

#[test]
fn constants_and_static_functions_carry_their_modifiers() {
    let output = index("const LIMIT: int = 3\n\nstatic func make() -> void:\n\tprint(1)\n");
    let constant = output.lines().find(|line| line.contains("\"kind\":\"constant\"")).unwrap();
    assert!(constant.contains("\"type\":\"int\",\"default\":\"3\""));
    let function = output.lines().find(|line| line.contains("\"name\":\"make\"")).unwrap();
    assert!(function.contains("\"modifiers\":[\"static\"]"));
    assert!(!function.contains("body_is_pass_only"));
}

#[test]
fn text_in_records_never_breaks_a_line() {
    let output = index("var text := \"a\\nb\\u0001\"\n# comment with \"quotes\"\n");
    for line in output.lines() {
        assert!(line.starts_with('{') && line.ends_with('}'), "{}", line);
    }
    assert!(output.contains("\"value\":\"a\\nb\\u0001\""), "{}", output);
    assert!(output.contains("\"text\":\"# comment with \\\"quotes\\\"\""), "{}", output);
}

#[test]
fn json_strings_escape_control_characters() {
    let mut output = String::new();
    json_push_escaped_string("a\"b\\c\n\r\t\u{8}\u{c}\u{1f}é", &mut output);
    assert_eq!(output, "\"a\\\"b\\\\c\\n\\r\\t\\b\\f\\u001fé\"");
}

#[test]
fn string_literals_decode_like_godot() {
    assert_eq!(decode_string_literal(&chars("\"plain\"")), "plain");
    assert_eq!(decode_string_literal(&chars("'a\\tb'")), "a\tb");
    assert_eq!(decode_string_literal(&chars("\"\\u00e9\\U01F600\"")), "é\u{1F600}");
    assert_eq!(decode_string_literal(&chars("\"keep \\q\"")), "keep q");
    assert_eq!(decode_string_literal(&chars("&\"name\"")), "name");
    assert_eq!(decode_string_literal(&chars("^\"Path/To\"")), "Path/To");
    assert_eq!(decode_string_literal(&chars("\"\"\"long\"\"\"")), "long");
}

#[test]
fn node_paths_report_the_path_godot_reads() {
    let source = "func _ready() -> void:\n\tvar button = $\"Panel/With Space\"\n\tadd_child(%Unique)\n";
    let characters = chars(source);
    let parsed = parse_source(source).unwrap();
    let tree = &parsed.tree;
    let context = CollectorContext { tree, source: &characters, scope: &chars("_ready") };
    let mut output = String::new();
    for node in 0..tree.nodes.len() {
        if tree.nodes[node].kind == GDScriptNodeKind::GetNode {
            node_path::collect(&context, node, &mut output);
        }
    }
    let lines: Vec<&str> = output.lines().collect();
    assert_eq!(lines.len(), 2, "{}", output);
    assert!(lines[0].starts_with("{\"record\":\"node_path\",\"path\":\"Panel/With Space\",\"scope\":\"_ready\""));
    assert!(lines[1].starts_with("{\"record\":\"node_path\",\"path\":\"Unique\",\"unique\":true,\"scope\":\"_ready\""));
    assert!(lines[1].ends_with(",\"context\":\"argument\"}"), "{}", lines[1]);
}

#[test]
fn res_paths_use_forward_slashes() {
    assert_eq!(res_path("hud/hud.gd"), "res://hud/hud.gd");
    assert_eq!(res_path("hud\\menus\\main.gd"), "res://hud/menus/main.gd");
}

#[test]
fn a_run_has_one_project_root_or_none() {
    let root = Some("/game".to_string());
    assert_eq!(choose_project_root(&vec![root.clone(), root.clone()]), Ok(root.clone()));
    assert_eq!(choose_project_root(&vec![None, None]), Ok(None));
    assert_eq!(
        choose_project_root(&vec![root.clone(), Some("/other".to_string())]),
        Err(ProjectRootConflict::SeveralProjects)
    );
    assert_eq!(choose_project_root(&vec![root, None]), Err(ProjectRootConflict::MixedForms));
    assert!(ProjectRootConflict::SeveralProjects.message().contains("--project-root"));
    assert!(ProjectRootConflict::MixedForms.message().contains("mix res:// paths"));
}

#[test]
fn format_errors_explain_themselves() {
    assert_eq!(FormatErrors::ParseErrors.message(), "The input GDScript code contains parse errors");
    assert!(FormatErrors::StructureChanged.message().starts_with("The formatted output is structurally different"));
}

#[test]
fn an_annotation_on_a_class_name_line_is_a_record_of_its_own() {
    let output = index("@icon(\"res://icon.svg\") class_name Foo\n");
    let annotations: Vec<&str> = output.lines().filter(|line| line.contains("\"record\":\"annotation\"")).collect();
    assert_eq!(annotations.len(), 1, "{}", output);
    assert!(annotations[0].starts_with("{\"record\":\"annotation\",\"name\":\"icon\",\"arguments\":[\"\\\"res://icon.svg\\\"\"]"));
    let class = output.lines().find(|line| line.contains("\"kind\":\"class\"")).unwrap();
    assert!(!class.contains("\"annotations\""), "{}", class);
}

#[test]
fn each_node_kind_has_at_most_one_collector() {
    assert_eq!(find_collector(GDScriptNodeKind::Identifier), Some(Collector::Reference));
    assert_eq!(find_collector(GDScriptNodeKind::Annotation), Some(Collector::Annotation));
    assert_eq!(find_collector(GDScriptNodeKind::Function), Some(Collector::Declaration));
    assert_eq!(find_collector(GDScriptNodeKind::GetNode), None);
}

#[test]
fn line_and_column_are_one_based() {
    let source = "var a := 1\nvar b := 2\n";
    let parsed = parse_source(source).unwrap();
    let tree = &parsed.tree;
    let named: Vec<usize> = tree.nodes[0]
        .children
        .iter()
        .copied()
        .filter(|&child| tree.nodes[child].is_named)
        .collect();
    assert_eq!(get_line_column(tree, named[0]), (1, 1));
    assert_eq!(get_line_column(tree, named[1]), (2, 1));
}

#[test]
fn the_grammar_knows_every_kind_the_index_reads() {
    let table = GDScriptNodeKind::populate_lookup_table().expect("every mapped kind is in the grammar");
    assert_eq!(table.len(), gdscript_formatter::node_kind::LOOKUP_TABLE_SIZE);
    assert!(table.iter().any(|&kind| kind == GDScriptNodeKind::Variable));
}

/// Reads the text of a JSON string literal back, escapes included.
fn decode_json_string(literal: &str) -> String {
    let inner: Vec<char> = literal[1..literal.len() - 1].chars().collect();
    let mut value = String::new();
    let mut k = 0;
    while k < inner.len() {
        if inner[k] != '\\' {
            value.push(inner[k]);
            k += 1;
            continue;
        }
        match inner[k + 1] {
            '"' => value.push('"'),
            '\\' => value.push('\\'),
            '/' => value.push('/'),
            'b' => value.push('\u{8}'),
            'f' => value.push('\u{c}'),
            'n' => value.push('\n'),
            'r' => value.push('\r'),
            't' => value.push('\t'),
            'u' => {
                let digits: String = inner[k + 2..k + 6].iter().collect();
                value.push(char::from_u32(u32::from_str_radix(&digits, 16).unwrap()).unwrap());
                k += 4;
            }
            other => panic!("unexpected escape {}", other),
        }
        k += 2;
    }
    value
}

#[test]
fn json_strings_decode_back_to_their_text() {
    for text in ["", "plain", "a\"b\\c", "line\nbreak\r\t", "\u{0}\u{1}\u{1f}\u{7f}", "é\u{1F600}/"] {
        let mut output = String::new();
        json_push_escaped_string(text, &mut output);
        assert!(output.starts_with('"') && output.ends_with('"'));
        assert_eq!(decode_json_string(&output), text);
    }
}

#[test]
fn the_copy_holds_every_node_in_document_order() {
    let source = "extends Node\nvar a := 1\nfunc f(x):\n\treturn x\n";
    let parsed = parse_source(source).unwrap();
    let tree = &parsed.tree;
    assert!(!parsed.has_parse_errors);
    assert!(tree.nodes.len() > 10);
    for index in 1..tree.nodes.len() {
        let parent = tree.nodes[index].parent.unwrap();
        assert!(parent < index);
        assert_eq!(tree.nodes[parent].children[tree.nodes[index].position], index);
    }
    let root_children = &tree.nodes[0].children;
    assert_eq!(root_children.len(), 3);
    assert_eq!(tree.nodes[root_children[0]].kind, GDScriptNodeKind::Extends);
    assert_eq!(tree.nodes[root_children[2]].kind, GDScriptNodeKind::Function);
    let broken = parse_source("func (:\n").unwrap();
    assert!(broken.has_parse_errors);
}

use gdscript_formatter::linter::lib::get_range;
use gdscript_formatter::node_kind::GDScriptNodeKind;
use gdscript_formatter::parser::parse_source;

/// Rows and columns are one-based to match what `gdscript-formatter lint`
/// prints, and byte offsets slice the source exactly.
#[test]
fn test_ranges_are_one_based_and_carry_byte_offsets() {
    let source = "var health := 5\n";
    let parsed = parse_source(source).unwrap();
    let tree = &parsed.tree;
    let variable_node = *tree.nodes[0]
        .children
        .iter()
        .find(|&&child| tree.nodes[child].is_named)
        .unwrap();
    assert_eq!(tree.nodes[variable_node].kind, GDScriptNodeKind::Variable);

    let range = get_range(tree, variable_node);
    assert_eq!(range.start_row, 1);
    assert_eq!(range.start_column, 1);
    assert_eq!(range.end_row, 1);
    assert_eq!(range.end_column, 16);
    assert_eq!(range.start_byte, 0);
    assert_eq!(range.end_byte, 15);
    assert_eq!(&source[range.start_byte..range.end_byte], "var health := 5");
}

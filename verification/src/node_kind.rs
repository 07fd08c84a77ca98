//! Pairs tree-sitter node kind strings with our own enum so AST nodes can be
//! classified in constant time.
//!
//! Our own enum instead of tree-sitter strings gives type safety, and it
//! separates the rest of the code from tree-sitter a little: the grammar may
//! be replaced one day, and the enum makes that change local to this file.

use vstd::prelude::*;

verus! {

/// This is how we represent GDScript AST node kinds.
///
/// We list every tree-sitter node kind that any part of the code branches
/// on. Unknown or unused kinds fall through to the Other enum member.
#[derive(Debug, Clone, Copy, PartialEq, Eq, Hash, Structural)]
pub enum GDScriptNodeKind {
    // Structural
    Body,
    ClassBody,
    MatchBody,
    GetBody,
    SetBody,

    // Declarations
    ClassName,
    Extends,
    ClassDefinition,
    InnerClass,
    Variable,
    Const,
    Enum,
    Signal,
    Function,
    Constructor,
    ExportVariable,
    OnReadyVariable,

    // Annotations and comments
    Annotation,
    Annotations,
    Comment,

    // Containers
    Array,
    Dictionary,
    EnumeratorList,
    Parameters,
    Arguments,
    SubscriptArguments,
    Condition,

    // Expressions
    Lambda,
    SetGet,
    ParenthesizedExpression,
    BinaryOperator,
    UnaryOperator,
    Call,
    Assignment,
    AugmentedAssignment,
    ExpressionStatement,

    // Control flow
    IfStatement,
    ElifStatement,
    ElseStatement,
    ForStatement,
    ReturnStatement,
    PassStatement,

    // Attribute access and method calls
    Attribute,
    AttributeCall,
    AttributeSubscript,

    // Leaf nodes with special handling
    String,
    StringName,
    NodePath,
    GetNode,
    LineContinuation,
    Enumerator,
    Identifier,
    /// true, false, null, integer, float
    Literal,
    /// typed_parameter, default_parameter, typed_default_parameter
    Parameter,
    VariadicParameter,

    // Punctuation. Tree-sitter treats these as named nodes in its concrete
    // syntax tree.
    /// ( )
    TokenParen,
    /// { }
    TokenBrace,
    /// [ ]
    TokenBracket,
    TokenDot,
    TokenComma,
    TokenColon,
    SemiColon,
    /// + - etc.
    Operator,

    // Keyword nodes
    KeywordFunc,
    KeywordStatic,

    // Type annotations
    Type,
    Subscript,
    InferredType,

    // Meta
    RegionStart,
    RegionEnd,
    Error,

    // Special identifiers used in emit_inter_child_separator to decide when to
    // skip a space.
    NameInit,
    NameSet,
    NameGet,

    /// Catch-all for tree-sitter node kinds we do not need to handle explicitly.
    Other,
}

/// The number of entries of the kind lookup table. Tree-sitter kind IDs are
/// `u16` values; the GDScript grammar has fewer kinds than this.
pub const LOOKUP_TABLE_SIZE: usize = 256;

/// The number of entries of the name map below.
pub const NODE_KIND_MAP_LENGTH: usize = 87;

/// Entry `index` of the map from every tree-sitter node kind string that the
/// code branches on to its `GDScriptNodeKind`.
pub open spec fn node_kind_map_entry(index: usize) -> (Seq<char>, GDScriptNodeKind) {
    match index {
        0 => ("body"@, GDScriptNodeKind::Body),
        1 => ("class_body"@, GDScriptNodeKind::ClassBody),
        2 => ("match_body"@, GDScriptNodeKind::MatchBody),
        3 => ("get_body"@, GDScriptNodeKind::GetBody),
        4 => ("set_body"@, GDScriptNodeKind::SetBody),
        5 => ("class_name_statement"@, GDScriptNodeKind::ClassName),
        6 => ("extends_statement"@, GDScriptNodeKind::Extends),
        7 => ("class_definition"@, GDScriptNodeKind::ClassDefinition),
        8 => ("inner_class"@, GDScriptNodeKind::InnerClass),
        9 => ("variable_statement"@, GDScriptNodeKind::Variable),
        10 => ("export_variable_statement"@, GDScriptNodeKind::ExportVariable),
        11 => ("onready_variable_statement"@, GDScriptNodeKind::OnReadyVariable),
        12 => ("const_statement"@, GDScriptNodeKind::Const),
        13 => ("enum_definition"@, GDScriptNodeKind::Enum),
        14 => ("signal_statement"@, GDScriptNodeKind::Signal),
        15 => ("function_definition"@, GDScriptNodeKind::Function),
        16 => ("constructor_definition"@, GDScriptNodeKind::Constructor),
        17 => ("annotation"@, GDScriptNodeKind::Annotation),
        18 => ("annotations"@, GDScriptNodeKind::Annotations),
        19 => ("comment"@, GDScriptNodeKind::Comment),
        20 => ("array"@, GDScriptNodeKind::Array),
        21 => ("dictionary"@, GDScriptNodeKind::Dictionary),
        22 => ("enumerator_list"@, GDScriptNodeKind::EnumeratorList),
        23 => ("parameters"@, GDScriptNodeKind::Parameters),
        24 => ("arguments"@, GDScriptNodeKind::Arguments),
        25 => ("subscript_arguments"@, GDScriptNodeKind::SubscriptArguments),
        26 => ("subscript"@, GDScriptNodeKind::Subscript),
        27 => ("type"@, GDScriptNodeKind::Type),
        28 => ("condition"@, GDScriptNodeKind::Condition),
        29 => ("conditional_expression"@, GDScriptNodeKind::Condition),
        30 => ("lambda"@, GDScriptNodeKind::Lambda),
        31 => ("setget"@, GDScriptNodeKind::SetGet),
        32 => ("parenthesized_expression"@, GDScriptNodeKind::ParenthesizedExpression),
        33 => ("binary_operator"@, GDScriptNodeKind::BinaryOperator),
        34 => ("unary_operator"@, GDScriptNodeKind::UnaryOperator),
        35 => ("call"@, GDScriptNodeKind::Call),
        36 => ("assignment"@, GDScriptNodeKind::Assignment),
        37 => ("augmented_assignment"@, GDScriptNodeKind::AugmentedAssignment),
        38 => ("expression_statement"@, GDScriptNodeKind::ExpressionStatement),
        39 => ("if_statement"@, GDScriptNodeKind::IfStatement),
        40 => ("elif_clause"@, GDScriptNodeKind::ElifStatement),
        41 => ("else_clause"@, GDScriptNodeKind::ElseStatement),
        42 => ("for_statement"@, GDScriptNodeKind::ForStatement),
        43 => ("return_statement"@, GDScriptNodeKind::ReturnStatement),
        44 => ("pass_statement"@, GDScriptNodeKind::PassStatement),
        45 => ("attribute"@, GDScriptNodeKind::Attribute),
        46 => ("attribute_call"@, GDScriptNodeKind::AttributeCall),
        47 => ("attribute_subscript"@, GDScriptNodeKind::AttributeSubscript),
        48 => ("string"@, GDScriptNodeKind::String),
        49 => ("string_name"@, GDScriptNodeKind::StringName),
        50 => ("node_path"@, GDScriptNodeKind::NodePath),
        51 => ("get_node"@, GDScriptNodeKind::GetNode),
        52 => ("line_continuation"@, GDScriptNodeKind::LineContinuation),
        53 => ("enumerator"@, GDScriptNodeKind::Enumerator),
        54 => ("identifier"@, GDScriptNodeKind::Identifier),
        55 => ("true"@, GDScriptNodeKind::Literal),
        56 => ("false"@, GDScriptNodeKind::Literal),
        57 => ("null"@, GDScriptNodeKind::Literal),
        58 => ("integer"@, GDScriptNodeKind::Literal),
        59 => ("float"@, GDScriptNodeKind::Literal),
        60 => ("typed_parameter"@, GDScriptNodeKind::Parameter),
        61 => ("default_parameter"@, GDScriptNodeKind::Parameter),
        62 => ("typed_default_parameter"@, GDScriptNodeKind::Parameter),
        63 => ("variadic_parameter"@, GDScriptNodeKind::VariadicParameter),
        64 => ("("@, GDScriptNodeKind::TokenParen),
        65 => (")"@, GDScriptNodeKind::TokenParen),
        66 => ("()"@, GDScriptNodeKind::TokenParen),
        67 => ("["@, GDScriptNodeKind::TokenBracket),
        68 => ("]"@, GDScriptNodeKind::TokenBracket),
        69 => ("{"@, GDScriptNodeKind::TokenBrace),
        70 => ("}"@, GDScriptNodeKind::TokenBrace),
        71 => ("."@, GDScriptNodeKind::TokenDot),
        72 => (","@, GDScriptNodeKind::TokenComma),
        73 => (":"@, GDScriptNodeKind::TokenColon),
        74 => (";"@, GDScriptNodeKind::SemiColon),
        75 => ("+"@, GDScriptNodeKind::Operator),
        76 => ("-"@, GDScriptNodeKind::Operator),
        77 => ("func"@, GDScriptNodeKind::KeywordFunc),
        78 => ("static_keyword"@, GDScriptNodeKind::KeywordStatic),
        79 => ("inferred_type"@, GDScriptNodeKind::InferredType),
        80 => ("region_start"@, GDScriptNodeKind::RegionStart),
        81 => ("region_end"@, GDScriptNodeKind::RegionEnd),
        82 => ("ERROR"@, GDScriptNodeKind::Error),
        83 => ("_init"@, GDScriptNodeKind::NameInit),
        84 => ("set"@, GDScriptNodeKind::NameSet),
        85 => ("get"@, GDScriptNodeKind::NameGet),
        86 => ("name"@, GDScriptNodeKind::Identifier),
        _ => (Seq::empty(), GDScriptNodeKind::Other),
    }
}

/// Entry `index` of the node kind map.
pub fn node_kind_map_entry_at(index: usize) -> (entry: (&'static str, GDScriptNodeKind))
    requires
        index < NODE_KIND_MAP_LENGTH,
    ensures
        (entry.0@, entry.1) == node_kind_map_entry(index),
{
    match index {
        0 => ("body", GDScriptNodeKind::Body),
        1 => ("class_body", GDScriptNodeKind::ClassBody),
        2 => ("match_body", GDScriptNodeKind::MatchBody),
        3 => ("get_body", GDScriptNodeKind::GetBody),
        4 => ("set_body", GDScriptNodeKind::SetBody),
        5 => ("class_name_statement", GDScriptNodeKind::ClassName),
        6 => ("extends_statement", GDScriptNodeKind::Extends),
        7 => ("class_definition", GDScriptNodeKind::ClassDefinition),
        8 => ("inner_class", GDScriptNodeKind::InnerClass),
        9 => ("variable_statement", GDScriptNodeKind::Variable),
        10 => ("export_variable_statement", GDScriptNodeKind::ExportVariable),
        11 => ("onready_variable_statement", GDScriptNodeKind::OnReadyVariable),
        12 => ("const_statement", GDScriptNodeKind::Const),
        13 => ("enum_definition", GDScriptNodeKind::Enum),
        14 => ("signal_statement", GDScriptNodeKind::Signal),
        15 => ("function_definition", GDScriptNodeKind::Function),
        16 => ("constructor_definition", GDScriptNodeKind::Constructor),
        17 => ("annotation", GDScriptNodeKind::Annotation),
        18 => ("annotations", GDScriptNodeKind::Annotations),
        19 => ("comment", GDScriptNodeKind::Comment),
        20 => ("array", GDScriptNodeKind::Array),
        21 => ("dictionary", GDScriptNodeKind::Dictionary),
        22 => ("enumerator_list", GDScriptNodeKind::EnumeratorList),
        23 => ("parameters", GDScriptNodeKind::Parameters),
        24 => ("arguments", GDScriptNodeKind::Arguments),
        25 => ("subscript_arguments", GDScriptNodeKind::SubscriptArguments),
        26 => ("subscript", GDScriptNodeKind::Subscript),
        27 => ("type", GDScriptNodeKind::Type),
        28 => ("condition", GDScriptNodeKind::Condition),
        29 => ("conditional_expression", GDScriptNodeKind::Condition),
        30 => ("lambda", GDScriptNodeKind::Lambda),
        31 => ("setget", GDScriptNodeKind::SetGet),
        32 => ("parenthesized_expression", GDScriptNodeKind::ParenthesizedExpression),
        33 => ("binary_operator", GDScriptNodeKind::BinaryOperator),
        34 => ("unary_operator", GDScriptNodeKind::UnaryOperator),
        35 => ("call", GDScriptNodeKind::Call),
        36 => ("assignment", GDScriptNodeKind::Assignment),
        37 => ("augmented_assignment", GDScriptNodeKind::AugmentedAssignment),
        38 => ("expression_statement", GDScriptNodeKind::ExpressionStatement),
        39 => ("if_statement", GDScriptNodeKind::IfStatement),
        40 => ("elif_clause", GDScriptNodeKind::ElifStatement),
        41 => ("else_clause", GDScriptNodeKind::ElseStatement),
        42 => ("for_statement", GDScriptNodeKind::ForStatement),
        43 => ("return_statement", GDScriptNodeKind::ReturnStatement),
        44 => ("pass_statement", GDScriptNodeKind::PassStatement),
        45 => ("attribute", GDScriptNodeKind::Attribute),
        46 => ("attribute_call", GDScriptNodeKind::AttributeCall),
        47 => ("attribute_subscript", GDScriptNodeKind::AttributeSubscript),
        48 => ("string", GDScriptNodeKind::String),
        49 => ("string_name", GDScriptNodeKind::StringName),
        50 => ("node_path", GDScriptNodeKind::NodePath),
        51 => ("get_node", GDScriptNodeKind::GetNode),
        52 => ("line_continuation", GDScriptNodeKind::LineContinuation),
        53 => ("enumerator", GDScriptNodeKind::Enumerator),
        54 => ("identifier", GDScriptNodeKind::Identifier),
        55 => ("true", GDScriptNodeKind::Literal),
        56 => ("false", GDScriptNodeKind::Literal),
        57 => ("null", GDScriptNodeKind::Literal),
        58 => ("integer", GDScriptNodeKind::Literal),
        59 => ("float", GDScriptNodeKind::Literal),
        60 => ("typed_parameter", GDScriptNodeKind::Parameter),
        61 => ("default_parameter", GDScriptNodeKind::Parameter),
        62 => ("typed_default_parameter", GDScriptNodeKind::Parameter),
        63 => ("variadic_parameter", GDScriptNodeKind::VariadicParameter),
        64 => ("(", GDScriptNodeKind::TokenParen),
        65 => (")", GDScriptNodeKind::TokenParen),
        66 => ("()", GDScriptNodeKind::TokenParen),
        67 => ("[", GDScriptNodeKind::TokenBracket),
        68 => ("]", GDScriptNodeKind::TokenBracket),
        69 => ("{", GDScriptNodeKind::TokenBrace),
        70 => ("}", GDScriptNodeKind::TokenBrace),
        71 => (".", GDScriptNodeKind::TokenDot),
        72 => (",", GDScriptNodeKind::TokenComma),
        73 => (":", GDScriptNodeKind::TokenColon),
        74 => (";", GDScriptNodeKind::SemiColon),
        75 => ("+", GDScriptNodeKind::Operator),
        76 => ("-", GDScriptNodeKind::Operator),
        77 => ("func", GDScriptNodeKind::KeywordFunc),
        78 => ("static_keyword", GDScriptNodeKind::KeywordStatic),
        79 => ("inferred_type", GDScriptNodeKind::InferredType),
        80 => ("region_start", GDScriptNodeKind::RegionStart),
        81 => ("region_end", GDScriptNodeKind::RegionEnd),
        82 => ("ERROR", GDScriptNodeKind::Error),
        83 => ("_init", GDScriptNodeKind::NameInit),
        84 => ("set", GDScriptNodeKind::NameSet),
        85 => ("get", GDScriptNodeKind::NameGet),
        86 => ("name", GDScriptNodeKind::Identifier),
        _ => ("", GDScriptNodeKind::Other),
    }
}

/// The symbol id that the GDScript grammar gives the node kind spelled
/// `name`, named or anonymous; 0 when the grammar has no such kind.
pub uninterp spec fn gdscript_symbol_id(name: Seq<char>, named: bool) -> u16;

/// Looks up the symbol id of a node kind in the GDScript grammar.
///
/// Calls `tree_sitter::Language::id_for_node_kind` on the language of
/// `tree_sitter_gdscript`. The contract only names the result: it is a
/// function of the kind name and of whether the kind is named, as the grammar
/// tables are fixed.
#[verifier::external_body]
fn gdscript_symbol_id_for(name: &str, named: bool) -> (id: u16)
    ensures
        id == gdscript_symbol_id(name@, named),
{
    tree_sitter::Language::new(tree_sitter_gdscript::LANGUAGE).id_for_node_kind(name, named)
}

/// The lookup table after the first `count` entries of the map are applied.
pub open spec fn lookup_table_after(count: nat) -> Seq<GDScriptNodeKind>
    decreases count,
{
    if count == 0 {
        Seq::new(LOOKUP_TABLE_SIZE as nat, |i: int| GDScriptNodeKind::Other)
    } else {
        let table = lookup_table_after((count - 1) as nat);
        let (name, kind) = node_kind_map_entry((count - 1) as usize);
        let named_id = gdscript_symbol_id(name, true);
        let anonymous_id = gdscript_symbol_id(name, false);
        let with_named = if (named_id as int) < LOOKUP_TABLE_SIZE {
            table.update(named_id as int, kind)
        } else {
            table
        };
        if (anonymous_id as int) < LOOKUP_TABLE_SIZE {
            with_named.update(anonymous_id as int, kind)
        } else {
            with_named
        }
    }
}

/// The complete lookup table from grammar symbol ids to node kinds.
pub open spec fn lookup_table() -> Seq<GDScriptNodeKind> {
    lookup_table_after(NODE_KIND_MAP_LENGTH as nat)
}

/// True when the grammar knows the `index`-th name of the map, as named or
/// as anonymous kind, with an id that fits the table.
pub open spec fn map_entry_known(index: int) -> bool {
    let name = node_kind_map_entry(index as usize).0;
    (gdscript_symbol_id(name, true) as int) < LOOKUP_TABLE_SIZE
        || (gdscript_symbol_id(name, false) as int) < LOOKUP_TABLE_SIZE
}

proof fn lemma_lookup_table_length(count: nat)
    ensures
        lookup_table_after(count).len() == LOOKUP_TABLE_SIZE,
    decreases count,
{
    if count > 0 {
        lemma_lookup_table_length((count - 1) as nat);
    }
}

/// The kind of a node from its symbol id and whether tree-sitter marked it
/// as an error node.
pub open spec fn kind_for_symbol(table: Seq<GDScriptNodeKind>, symbol: u16, is_error: bool) -> GDScriptNodeKind {
    if is_error {
        GDScriptNodeKind::Error
    } else if (symbol as int) >= LOOKUP_TABLE_SIZE {
        GDScriptNodeKind::Other
    } else {
        table[symbol as int]
    }
}

impl GDScriptNodeKind {
    /// Builds the lookup table from grammar symbol ids to node kinds.
    ///
    /// Returns None when a name of the map is unknown to the grammar, which
    /// would be an error in the map.
    pub fn populate_lookup_table() -> (table: Option<Vec<GDScriptNodeKind>>)
        ensures
            table matches Some(t) ==> t@ == lookup_table() && t@.len() == LOOKUP_TABLE_SIZE,
            table is Some <==> forall|i: int| 0 <= i < NODE_KIND_MAP_LENGTH ==> map_entry_known(i),
    {
        let mut table: Vec<GDScriptNodeKind> = Vec::new();
        let mut index: usize = 0;
        while index < LOOKUP_TABLE_SIZE
            invariant
                index <= LOOKUP_TABLE_SIZE,
                table@.len() == index,
                forall|k: int| 0 <= k < index ==> table@[k] == GDScriptNodeKind::Other,
            decreases LOOKUP_TABLE_SIZE - index,
        {
            table.push(GDScriptNodeKind::Other);
            index = index + 1;
        }
        assert(table@ =~= lookup_table_after(0));
        let mut entry_index: usize = 0;
        while entry_index < NODE_KIND_MAP_LENGTH
            invariant
                entry_index <= NODE_KIND_MAP_LENGTH,
                table@ == lookup_table_after(entry_index as nat),
                forall|i: int| 0 <= i < entry_index ==> map_entry_known(i),
            decreases NODE_KIND_MAP_LENGTH - entry_index,
        {
            proof {
                lemma_lookup_table_length(entry_index as nat);
            }
            let (name, kind) = node_kind_map_entry_at(entry_index);
            let named_id = gdscript_symbol_id_for(name, true);
            let anonymous_id = gdscript_symbol_id_for(name, false);
            if (named_id as usize) < LOOKUP_TABLE_SIZE {
                table.set(named_id as usize, kind);
            }
            if (anonymous_id as usize) < LOOKUP_TABLE_SIZE {
                table.set(anonymous_id as usize, kind);
            }
            if (named_id as usize) >= LOOKUP_TABLE_SIZE && (anonymous_id as usize) >= LOOKUP_TABLE_SIZE {
                assert(!map_entry_known(entry_index as int));
                return None;
            }
            entry_index = entry_index + 1;
        }
        proof {
            lemma_lookup_table_length(NODE_KIND_MAP_LENGTH as nat);
        }
        Some(table)
    }

    /// Reads the kind of a node from the lookup table, given its symbol id
    /// and whether tree-sitter marked it as an error.
    ///
    /// Tree-sitter uses `u16::MAX` for synthetic ERROR nodes. They are not
    /// grammar symbols, so they cannot be represented in the lookup table.
    pub fn kind_from_symbol(table: &Vec<GDScriptNodeKind>, symbol: u16, is_error: bool) -> (kind: Self)
        requires
            table@.len() == LOOKUP_TABLE_SIZE,
        ensures
            kind == kind_for_symbol(table@, symbol, is_error),
    {
        if is_error {
            return GDScriptNodeKind::Error;
        }
        if (symbol as usize) >= LOOKUP_TABLE_SIZE {
            return GDScriptNodeKind::Other;
        }
        table[symbol as usize]
    }
}

} // verus!

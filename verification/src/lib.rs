//! GDScript source indexing with verified record writing.
//!
//! The library turns GDScript source into a machine-readable index written
//! as JSON Lines: one record per declaration, reference, member chain, string
//! literal, comparison, comment and unclaimed annotation. The tree-sitter
//! GDScript grammar parses the source; everything after the parse works on a
//! plain model of the syntax tree and is verified.

pub mod cli;
pub mod index;
pub mod linter;
pub mod node_kind;
pub mod parser;
pub mod syntax;
pub mod text;

use vstd::prelude::*;

verus! {

/// Why formatting a file failed.
#[derive(Debug, Clone, Copy, PartialEq, Eq, Structural)]
pub enum FormatErrors {
    FailedToParseInput,
    ParseErrors,
    FailedToParseFormattedOutput,
    StructureChanged,
}

impl FormatErrors {
    /// The message shown to users for each error.
    pub fn message(&self) -> (message: &'static str)
        ensures
            message@ == format_error_message(*self),
    {
        match self {
            FormatErrors::FailedToParseInput => {
                "We failed to parse input, the parser did not produce a valid AST"
            },
            FormatErrors::ParseErrors => "The input GDScript code contains parse errors",
            FormatErrors::FailedToParseFormattedOutput => {
                "The parser could not parse the formatted output, it did not produce a valid AST"
            },
            FormatErrors::StructureChanged => {
                "The formatted output is structurally different from the input. Please report this to the bug tracker with a copy of the input code: https://github.com/GDQuest/GDScript-formatter/issues/"
            },
        }
    }
}

/// The message of each formatting error.
pub open spec fn format_error_message(error: FormatErrors) -> Seq<char> {
    match error {
        FormatErrors::FailedToParseInput => {
            "We failed to parse input, the parser did not produce a valid AST"@
        },
        FormatErrors::ParseErrors => "The input GDScript code contains parse errors"@,
        FormatErrors::FailedToParseFormattedOutput => {
            "The parser could not parse the formatted output, it did not produce a valid AST"@
        },
        FormatErrors::StructureChanged => {
            "The formatted output is structurally different from the input. Please report this to the bug tracker with a copy of the input code: https://github.com/GDQuest/GDScript-formatter/issues/"@
        },
    }
}

/// Selects which delimiters the formatter prefers for string literals.
#[derive(Clone, Copy, Debug, PartialEq, Eq, Structural)]
pub enum QuoteStyle {
    /// Keep the delimiters from the source code.
    Preserve,
    /// Prefer single quote delimiters.
    Single,
    /// Prefer double quote delimiters.
    Double,
}

/// The quote style named by `name`, if any.
pub open spec fn quote_style_named(name: Seq<char>) -> Option<QuoteStyle> {
    if name == "preserve"@ {
        Some(QuoteStyle::Preserve)
    } else if name == "single"@ {
        Some(QuoteStyle::Single)
    } else if name == "double"@ {
        Some(QuoteStyle::Double)
    } else {
        None
    }
}

impl QuoteStyle {
    /// Reads a quote style from its command line spelling.
    pub fn from_name(value: &str) -> (style: Option<Self>)
        ensures
            style == quote_style_named(value@),
    {
        if text::str_equals(value, "preserve") {
            Some(Self::Preserve)
        } else if text::str_equals(value, "single") {
            Some(Self::Single)
        } else if text::str_equals(value, "double") {
            Some(Self::Double)
        } else {
            None
        }
    }
}

} // verus!

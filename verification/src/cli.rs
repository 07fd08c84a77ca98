//! Command-line argument parsing for the formatter, the linter and the index.
//!
//! The parser reads the argument list and says what to run: a command with
//! its options, a help page, the version, or an error with its message. The
//! program around it prints and exits; nothing here does.
//!
//! The first argument after the program name optionally selects a command:
//! `lint` or `index`. Without one, the formatter runs. Options are read left
//! to right; `--` ends them, and everything after it is a file path.

use crate::text::{chars_equal_str, chars_to_string, push_char, push_str, str_to_chars};
use crate::QuoteStyle;
use crate::quote_style_named;
use vstd::prelude::*;

verus! {

/// The command whose options are being read.
#[derive(Debug, Clone, Copy, PartialEq, Eq, Structural)]
pub enum ActiveCommand {
    Format,
    Lint,
    Index,
}

/// The command selected on the command line, with its options.
pub enum Command {
    /// Format GDScript files according to the official style guide.
    Format {
        /// Print the formatted output to stdout instead of writing files.
        do_print_to_stdout: bool,
        /// Print one status line for each processed file.
        use_verbose_output: bool,
        /// Only check whether the files are formatted.
        do_check_formatted_only: bool,
        /// Use spaces for indentation instead of tabs, when set.
        use_spaces: Option<bool>,
        /// Spaces per indent level.
        indent_size: Option<usize>,
        /// Re-parse the output and check it has the structure of the input.
        use_verify_structure: bool,
        /// Reorder code to follow the style guide's order of elements.
        do_reorder_code: bool,
        /// Maximum line length before wrapping.
        max_line_length: Option<usize>,
        /// Blank lines between top-level definitions.
        blank_lines_around_definitions: Option<u16>,
        /// Extra indent level for continuation lines.
        continuation_indent_level: Option<u16>,
        /// Preferred string delimiters.
        quote_style: Option<QuoteStyle>,
    },
    /// Lint GDScript files for style and convention issues.
    Lint {
        /// Comma-separated linter rule names to disable.
        disabled_linter_rules: Option<String>,
        /// Maximum line length for the linter.
        max_line_length: Option<usize>,
        /// List the available rules and stop.
        do_list_rules: bool,
        /// Print lint output in a human-readable format.
        do_pretty_print: bool,
    },
    /// Write a machine-readable index of GDScript files to stdout.
    Index {
        /// Directory the res:// paths are relative to.
        project_root: Option<String>,
    },
}

/// The parsed command line: inputs, exclusions, and exactly one command.
pub struct CliArguments {
    /// Input files or directories.
    pub input_file_paths: Vec<String>,
    /// Files or directories to skip during discovery.
    pub excluded_paths: Vec<String>,
    /// Which command to run.
    pub command: Command,
}

/// What the command line asks for.
pub enum CliRequest {
    /// Run a command.
    Run(CliArguments),
    /// Print the help page of a command.
    Help(ActiveCommand),
    /// Print the version.
    Version,
}

/// A command line the parser refuses.
pub enum ArgumentError {
    /// An option the active command does not have, as written.
    UnexpectedArgument(String),
    /// An option that takes a value came last.
    MissingValue(&'static str),
    /// An option that takes no value was given one with `=`.
    UnexpectedValue(&'static str),
    /// A numeric option got something that is not a number in range.
    InvalidNumber(&'static str, String),
    /// `--quote-style` got something other than a style name.
    InvalidQuoteStyle(String),
}

/// The abstract value of a `Command`.
pub enum CommandView {
    Format {
        do_print_to_stdout: bool,
        use_verbose_output: bool,
        do_check_formatted_only: bool,
        use_spaces: Option<bool>,
        indent_size: Option<usize>,
        use_verify_structure: bool,
        do_reorder_code: bool,
        max_line_length: Option<usize>,
        blank_lines_around_definitions: Option<u16>,
        continuation_indent_level: Option<u16>,
        quote_style: Option<QuoteStyle>,
    },
    Lint {
        disabled_linter_rules: Option<Seq<char>>,
        max_line_length: Option<usize>,
        do_list_rules: bool,
        do_pretty_print: bool,
    },
    Index { project_root: Option<Seq<char>> },
}

/// The abstract value of a `CliArguments`.
pub struct CliArgumentsView {
    pub input_file_paths: Seq<Seq<char>>,
    pub excluded_paths: Seq<Seq<char>>,
    pub command: CommandView,
}

/// The abstract value of a `CliRequest`.
pub enum CliRequestView {
    Run(CliArgumentsView),
    Help(ActiveCommand),
    Version,
}

/// The abstract value of an `ArgumentError`.
pub enum ArgumentErrorView {
    UnexpectedArgument(Seq<char>),
    MissingValue(Seq<char>),
    UnexpectedValue(Seq<char>),
    InvalidNumber(Seq<char>, Seq<char>),
    InvalidQuoteStyle(Seq<char>),
}

pub open spec fn string_views(strings: Seq<String>) -> Seq<Seq<char>> {
    strings.map_values(|s: String| s@)
}

pub open spec fn optional_string_view(value: Option<String>) -> Option<Seq<char>> {
    match value {
        Some(s) => Some(s@),
        None => None,
    }
}

impl View for Command {
    type V = CommandView;

    open spec fn view(&self) -> CommandView {
        match self {
            Command::Format {
                do_print_to_stdout,
                use_verbose_output,
                do_check_formatted_only,
                use_spaces,
                indent_size,
                use_verify_structure,
                do_reorder_code,
                max_line_length,
                blank_lines_around_definitions,
                continuation_indent_level,
                quote_style,
            } => CommandView::Format {
                do_print_to_stdout: *do_print_to_stdout,
                use_verbose_output: *use_verbose_output,
                do_check_formatted_only: *do_check_formatted_only,
                use_spaces: *use_spaces,
                indent_size: *indent_size,
                use_verify_structure: *use_verify_structure,
                do_reorder_code: *do_reorder_code,
                max_line_length: *max_line_length,
                blank_lines_around_definitions: *blank_lines_around_definitions,
                continuation_indent_level: *continuation_indent_level,
                quote_style: *quote_style,
            },
            Command::Lint { disabled_linter_rules, max_line_length, do_list_rules, do_pretty_print } => CommandView::Lint {
                disabled_linter_rules: optional_string_view(*disabled_linter_rules),
                max_line_length: *max_line_length,
                do_list_rules: *do_list_rules,
                do_pretty_print: *do_pretty_print,
            },
            Command::Index { project_root } => CommandView::Index { project_root: optional_string_view(*project_root) },
        }
    }
}

impl View for CliArguments {
    type V = CliArgumentsView;

    open spec fn view(&self) -> CliArgumentsView {
        CliArgumentsView {
            input_file_paths: string_views(self.input_file_paths@),
            excluded_paths: string_views(self.excluded_paths@),
            command: self.command@,
        }
    }
}

impl View for CliRequest {
    type V = CliRequestView;

    open spec fn view(&self) -> CliRequestView {
        match self {
            CliRequest::Run(arguments) => CliRequestView::Run(arguments@),
            CliRequest::Help(command) => CliRequestView::Help(*command),
            CliRequest::Version => CliRequestView::Version,
        }
    }
}

impl View for ArgumentError {
    type V = ArgumentErrorView;

    open spec fn view(&self) -> ArgumentErrorView {
        match self {
            ArgumentError::UnexpectedArgument(argument) => ArgumentErrorView::UnexpectedArgument(argument@),
            ArgumentError::MissingValue(flag) => ArgumentErrorView::MissingValue(flag@),
            ArgumentError::UnexpectedValue(flag) => ArgumentErrorView::UnexpectedValue(flag@),
            ArgumentError::InvalidNumber(flag, value) => ArgumentErrorView::InvalidNumber(flag@, value@),
            ArgumentError::InvalidQuoteStyle(value) => ArgumentErrorView::InvalidQuoteStyle(value@),
        }
    }
}

/// The message printed for a refused command line.
pub open spec fn error_message(error: ArgumentErrorView) -> Seq<char> {
    match error {
        ArgumentErrorView::UnexpectedArgument(argument) => "unexpected argument '"@ + argument + "'"@,
        ArgumentErrorView::MissingValue(flag) => flag + " requires a value"@,
        ArgumentErrorView::UnexpectedValue(flag) => flag + " does not take a value"@,
        ArgumentErrorView::InvalidNumber(flag, value) => flag + " expects a number, got '"@ + value + "'"@,
        ArgumentErrorView::InvalidQuoteStyle(value) => "--quote-style expects preserve, single, or double, got '"@
            + value + "'"@,
    }
}

impl ArgumentError {
    /// The message printed for this error.
    pub fn message(&self) -> (message: String)
        ensures
            message@ == error_message(self@),
    {
        let mut message = String::new();
        match self {
            ArgumentError::UnexpectedArgument(argument) => {
                push_str(&mut message, "unexpected argument '");
                push_str(&mut message, argument.as_str());
                push_str(&mut message, "'");
            },
            ArgumentError::MissingValue(flag) => {
                push_str(&mut message, flag);
                push_str(&mut message, " requires a value");
            },
            ArgumentError::UnexpectedValue(flag) => {
                push_str(&mut message, flag);
                push_str(&mut message, " does not take a value");
            },
            ArgumentError::InvalidNumber(flag, value) => {
                push_str(&mut message, flag);
                push_str(&mut message, " expects a number, got '");
                push_str(&mut message, value.as_str());
                push_str(&mut message, "'");
            },
            ArgumentError::InvalidQuoteStyle(value) => {
                push_str(&mut message, "--quote-style expects preserve, single, or double, got '");
                push_str(&mut message, value.as_str());
                push_str(&mut message, "'");
            },
        }
        assert(message@ =~= error_message(self@));
        message
    }
}

/// The value of the decimal digits `digits`.
pub open spec fn decimal_value(digits: Seq<char>) -> nat
    decreases digits.len(),
{
    if digits.len() == 0 {
        0
    } else {
        decimal_value(digits.drop_last()) * 10 + ((digits.last() as u32 - '0' as u32) as nat)
    }
}

pub open spec fn is_decimal_digit(c: char) -> bool {
    '0' <= c && c <= '9'
}

/// `text` without the `+` it may start with.
pub open spec fn unsigned_digits(text: Seq<char>) -> Seq<char> {
    if text.len() > 0 && text[0] == '+' {
        text.subrange(1, text.len() as int)
    } else {
        text
    }
}

/// The number `text` spells in decimal: an optional `+`, then one or more
/// ASCII digits and nothing else, as Rust reads an unsigned integer.
pub open spec fn unsigned_number(text: Seq<char>) -> Option<nat> {
    if unsigned_digits(text).len() > 0 && forall|i: int|
        0 <= i < unsigned_digits(text).len() ==> is_decimal_digit(#[trigger] unsigned_digits(text)[i]) {
        Some(decimal_value(unsigned_digits(text)))
    } else {
        None
    }
}

/// The number `text` spells, when it is at most `limit`.
pub open spec fn number_up_to(text: Seq<char>, limit: nat) -> Option<nat> {
    match unsigned_number(text) {
        Some(n) => if n <= limit {
            Some(n)
        } else {
            None
        },
        None => None,
    }
}

/// Reads an unsigned decimal number no larger than `limit`.
pub fn parse_unsigned(text: &[char], limit: usize) -> (number: Option<usize>)
    ensures
        match number {
            Some(n) => number_up_to(text@, limit as nat) == Some(n as nat),
            None => number_up_to(text@, limit as nat) is None,
        },
{
    let start: usize = if text.len() > 0 && text[0] == '+' {
        1
    } else {
        0
    };
    let ghost digits = unsigned_digits(text@);
    assert(digits =~= text@.subrange(start as int, text@.len() as int));
    if start >= text.len() {
        assert(digits.len() == 0);
        assert(unsigned_number(text@) is None);
        return None;
    }
    let mut value: usize = 0;
    let mut too_large = false;
    let mut index = start;
    while index < text.len()
        invariant
            start <= index <= text@.len(),
            digits =~= text@.subrange(start as int, text@.len() as int),
            digits == unsigned_digits(text@),
            forall|i: int| start <= i < index ==> is_decimal_digit(#[trigger] text@[i]),
            too_large ==> decimal_value(text@.subrange(start as int, index as int)) > limit,
            !too_large ==> value == decimal_value(text@.subrange(start as int, index as int)),
            value <= limit,
        decreases text@.len() - index,
    {
        let c = text[index];
        if c < '0' || c > '9' {
            assert(!is_decimal_digit(digits[index - start]));
            return None;
        }
        let digit = (c as u32 - '0' as u32) as u128;
        let ghost prefix = text@.subrange(start as int, index as int);
        assert(text@.subrange(start as int, index + 1).drop_last() =~= prefix);
        if !too_large {
            let next: u128 = value as u128 * 10 + digit;
            if next > limit as u128 {
                too_large = true;
            } else {
                value = next as usize;
            }
        }
        index = index + 1;
    }
    assert(text@.subrange(start as int, index as int) =~= digits);
    assert forall|i: int| 0 <= i < digits.len() implies is_decimal_digit(#[trigger] digits[i]) by {
        assert(digits[i] == text@[start + i]);
    }
    if too_large {
        None
    } else {
        Some(value)
    }
}

/// The position of the first `=` at or after `k` in `flag`.
pub open spec fn equals_position(flag: Seq<char>, k: int) -> Option<int>
    decreases flag.len() - k,
{
    if k < 0 || k >= flag.len() {
        None
    } else if flag[k] == '=' {
        Some(k)
    } else {
        equals_position(flag, k + 1)
    }
}

/// A long option without its dashes, split at its first `=` into a name and
/// a value.
pub open spec fn split_flag(flag: Seq<char>) -> (Seq<char>, Option<Seq<char>>) {
    match equals_position(flag, 0) {
        Some(p) => (flag.subrange(0, p), Some(flag.subrange(p + 1, flag.len() as int))),
        None => (flag, None),
    }
}

pub fn split_flag_and_value(flag: &[char]) -> (parts: (&[char], Option<&[char]>))
    ensures
        parts.0@ == split_flag(flag@).0,
        match parts.1 {
            Some(value) => split_flag(flag@).1 == Some(value@),
            None => split_flag(flag@).1 is None,
        },
{
    let mut position: usize = 0;
    while position < flag.len()
        invariant
            position <= flag@.len(),
            equals_position(flag@, 0) == equals_position(flag@, position as int),
        decreases flag@.len() - position,
    {
        if flag[position] == '=' {
            return (&flag[0..position], Some(&flag[position + 1..flag.len()]));
        }
        position = position + 1;
    }
    (flag, None)
}

/// What a long option does.
#[derive(Debug, Clone, Copy, PartialEq, Eq, Structural)]
pub enum FlagAction {
    Exclude,
    Stdout,
    Verbose,
    Check,
    UseSpaces,
    VerifyStructure,
    /// The older name of `--verify-structure`, kept for existing scripts.
    Safe,
    ReorderCode,
    IndentSize,
    FormatMaxLineLength,
    BlankLinesAroundDefinitions,
    ContinuationIndentLevel,
    QuoteStyleName,
    Disable,
    LintMaxLineLength,
    ListRules,
    Pretty,
    ProjectRoot,
}

/// The long option `name` of `command`, if it has one.
pub open spec fn flag_action(command: ActiveCommand, name: Seq<char>) -> Option<FlagAction> {
    match command {
        ActiveCommand::Format => if name == "exclude"@ {
            Some(FlagAction::Exclude)
        } else if name == "stdout"@ {
            Some(FlagAction::Stdout)
        } else if name == "verbose"@ {
            Some(FlagAction::Verbose)
        } else if name == "check"@ {
            Some(FlagAction::Check)
        } else if name == "use-spaces"@ {
            Some(FlagAction::UseSpaces)
        } else if name == "verify-structure"@ {
            Some(FlagAction::VerifyStructure)
        } else if name == "safe"@ {
            Some(FlagAction::Safe)
        } else if name == "reorder-code"@ {
            Some(FlagAction::ReorderCode)
        } else if name == "indent-size"@ {
            Some(FlagAction::IndentSize)
        } else if name == "max-line-length"@ {
            Some(FlagAction::FormatMaxLineLength)
        } else if name == "blank-lines-around-definitions"@ {
            Some(FlagAction::BlankLinesAroundDefinitions)
        } else if name == "continuation-indent-level"@ {
            Some(FlagAction::ContinuationIndentLevel)
        } else if name == "quote-style"@ {
            Some(FlagAction::QuoteStyleName)
        } else {
            None
        },
        ActiveCommand::Lint => if name == "exclude"@ {
            Some(FlagAction::Exclude)
        } else if name == "disable"@ {
            Some(FlagAction::Disable)
        } else if name == "max-line-length"@ {
            Some(FlagAction::LintMaxLineLength)
        } else if name == "list-rules"@ {
            Some(FlagAction::ListRules)
        } else if name == "pretty"@ {
            Some(FlagAction::Pretty)
        } else {
            None
        },
        ActiveCommand::Index => if name == "exclude"@ {
            Some(FlagAction::Exclude)
        } else if name == "project-root"@ {
            Some(FlagAction::ProjectRoot)
        } else {
            None
        },
    }
}

pub fn find_flag_action(command: ActiveCommand, name: &[char]) -> (action: Option<FlagAction>)
    ensures
        action == flag_action(command, name@),
{
    match command {
        ActiveCommand::Format => if chars_equal_str(name, "exclude") {
            Some(FlagAction::Exclude)
        } else if chars_equal_str(name, "stdout") {
            Some(FlagAction::Stdout)
        } else if chars_equal_str(name, "verbose") {
            Some(FlagAction::Verbose)
        } else if chars_equal_str(name, "check") {
            Some(FlagAction::Check)
        } else if chars_equal_str(name, "use-spaces") {
            Some(FlagAction::UseSpaces)
        } else if chars_equal_str(name, "verify-structure") {
            Some(FlagAction::VerifyStructure)
        } else if chars_equal_str(name, "safe") {
            Some(FlagAction::Safe)
        } else if chars_equal_str(name, "reorder-code") {
            Some(FlagAction::ReorderCode)
        } else if chars_equal_str(name, "indent-size") {
            Some(FlagAction::IndentSize)
        } else if chars_equal_str(name, "max-line-length") {
            Some(FlagAction::FormatMaxLineLength)
        } else if chars_equal_str(name, "blank-lines-around-definitions") {
            Some(FlagAction::BlankLinesAroundDefinitions)
        } else if chars_equal_str(name, "continuation-indent-level") {
            Some(FlagAction::ContinuationIndentLevel)
        } else if chars_equal_str(name, "quote-style") {
            Some(FlagAction::QuoteStyleName)
        } else {
            None
        },
        ActiveCommand::Lint => if chars_equal_str(name, "exclude") {
            Some(FlagAction::Exclude)
        } else if chars_equal_str(name, "disable") {
            Some(FlagAction::Disable)
        } else if chars_equal_str(name, "max-line-length") {
            Some(FlagAction::LintMaxLineLength)
        } else if chars_equal_str(name, "list-rules") {
            Some(FlagAction::ListRules)
        } else if chars_equal_str(name, "pretty") {
            Some(FlagAction::Pretty)
        } else {
            None
        },
        ActiveCommand::Index => if chars_equal_str(name, "exclude") {
            Some(FlagAction::Exclude)
        } else if chars_equal_str(name, "project-root") {
            Some(FlagAction::ProjectRoot)
        } else {
            None
        },
    }
}

/// Whether the option reads a value.
pub open spec fn takes_value(action: FlagAction) -> bool {
    matches!(action, FlagAction::Exclude | FlagAction::IndentSize | FlagAction::FormatMaxLineLength
        | FlagAction::BlankLinesAroundDefinitions | FlagAction::ContinuationIndentLevel
        | FlagAction::QuoteStyleName | FlagAction::Disable | FlagAction::LintMaxLineLength
        | FlagAction::ProjectRoot)
}

/// The option as messages name it.
pub open spec fn flag_label(action: FlagAction) -> Seq<char> {
    match action {
        FlagAction::Exclude => "--exclude"@,
        FlagAction::Stdout => "--stdout"@,
        FlagAction::Verbose => "--verbose"@,
        FlagAction::Check => "--check"@,
        FlagAction::UseSpaces => "--use-spaces"@,
        FlagAction::VerifyStructure => "--verify-structure"@,
        FlagAction::Safe => "--safe"@,
        FlagAction::ReorderCode => "--reorder-code"@,
        FlagAction::IndentSize => "--indent-size"@,
        FlagAction::FormatMaxLineLength => "--max-line-length"@,
        FlagAction::BlankLinesAroundDefinitions => "--blank-lines-around-definitions"@,
        FlagAction::ContinuationIndentLevel => "--continuation-indent-level"@,
        FlagAction::QuoteStyleName => "--quote-style"@,
        FlagAction::Disable => "--disable"@,
        FlagAction::LintMaxLineLength => "--max-line-length"@,
        FlagAction::ListRules => "--list-rules"@,
        FlagAction::Pretty => "--pretty"@,
        FlagAction::ProjectRoot => "--project-root"@,
    }
}

impl FlagAction {
    pub fn reads_value(&self) -> (result: bool)
        ensures
            result == takes_value(*self),
    {
        matches!(self, FlagAction::Exclude | FlagAction::IndentSize | FlagAction::FormatMaxLineLength
            | FlagAction::BlankLinesAroundDefinitions | FlagAction::ContinuationIndentLevel
            | FlagAction::QuoteStyleName | FlagAction::Disable | FlagAction::LintMaxLineLength
            | FlagAction::ProjectRoot)
    }

    pub fn label(&self) -> (label: &'static str)
        ensures
            label@ == flag_label(*self),
    {
        match self {
            FlagAction::Exclude => "--exclude",
            FlagAction::Stdout => "--stdout",
            FlagAction::Verbose => "--verbose",
            FlagAction::Check => "--check",
            FlagAction::UseSpaces => "--use-spaces",
            FlagAction::VerifyStructure => "--verify-structure",
            FlagAction::Safe => "--safe",
            FlagAction::ReorderCode => "--reorder-code",
            FlagAction::IndentSize => "--indent-size",
            FlagAction::FormatMaxLineLength => "--max-line-length",
            FlagAction::BlankLinesAroundDefinitions => "--blank-lines-around-definitions",
            FlagAction::ContinuationIndentLevel => "--continuation-indent-level",
            FlagAction::QuoteStyleName => "--quote-style",
            FlagAction::Disable => "--disable",
            FlagAction::LintMaxLineLength => "--max-line-length",
            FlagAction::ListRules => "--list-rules",
            FlagAction::Pretty => "--pretty",
            FlagAction::ProjectRoot => "--project-root",
        }
    }
}

/// Everything read from the command line so far.
pub struct ParseState {
    pub command: ActiveCommand,
    pub input_file_paths: Vec<String>,
    pub excluded_paths: Vec<String>,
    pub do_print_to_stdout: bool,
    pub use_verbose_output: bool,
    pub do_check_formatted_only: bool,
    pub use_spaces: Option<bool>,
    pub indent_size: Option<usize>,
    pub use_verify_structure: bool,
    pub do_reorder_code: bool,
    pub format_max_line_length: Option<usize>,
    pub blank_lines_around_definitions: Option<u16>,
    pub continuation_indent_level: Option<u16>,
    pub quote_style: Option<QuoteStyle>,
    pub disabled_linter_rules: Option<String>,
    pub lint_max_line_length: Option<usize>,
    pub do_list_rules: bool,
    pub do_pretty_print: bool,
    pub project_root: Option<String>,
}

/// The abstract value of a `ParseState`.
pub struct ParseStateView {
    pub command: ActiveCommand,
    pub input_file_paths: Seq<Seq<char>>,
    pub excluded_paths: Seq<Seq<char>>,
    pub do_print_to_stdout: bool,
    pub use_verbose_output: bool,
    pub do_check_formatted_only: bool,
    pub use_spaces: Option<bool>,
    pub indent_size: Option<usize>,
    pub use_verify_structure: bool,
    pub do_reorder_code: bool,
    pub format_max_line_length: Option<usize>,
    pub blank_lines_around_definitions: Option<u16>,
    pub continuation_indent_level: Option<u16>,
    pub quote_style: Option<QuoteStyle>,
    pub disabled_linter_rules: Option<Seq<char>>,
    pub lint_max_line_length: Option<usize>,
    pub do_list_rules: bool,
    pub do_pretty_print: bool,
    pub project_root: Option<Seq<char>>,
}

impl View for ParseState {
    type V = ParseStateView;

    open spec fn view(&self) -> ParseStateView {
        ParseStateView {
            command: self.command,
            input_file_paths: string_views(self.input_file_paths@),
            excluded_paths: string_views(self.excluded_paths@),
            do_print_to_stdout: self.do_print_to_stdout,
            use_verbose_output: self.use_verbose_output,
            do_check_formatted_only: self.do_check_formatted_only,
            use_spaces: self.use_spaces,
            indent_size: self.indent_size,
            use_verify_structure: self.use_verify_structure,
            do_reorder_code: self.do_reorder_code,
            format_max_line_length: self.format_max_line_length,
            blank_lines_around_definitions: self.blank_lines_around_definitions,
            continuation_indent_level: self.continuation_indent_level,
            quote_style: self.quote_style,
            disabled_linter_rules: optional_string_view(self.disabled_linter_rules),
            lint_max_line_length: self.lint_max_line_length,
            do_list_rules: self.do_list_rules,
            do_pretty_print: self.do_pretty_print,
            project_root: optional_string_view(self.project_root),
        }
    }
}

/// Nothing read yet for `command`.
pub open spec fn initial_state(command: ActiveCommand) -> ParseStateView {
    ParseStateView {
        command,
        input_file_paths: Seq::empty(),
        excluded_paths: Seq::empty(),
        do_print_to_stdout: false,
        use_verbose_output: false,
        do_check_formatted_only: false,
        use_spaces: None,
        indent_size: None,
        use_verify_structure: false,
        do_reorder_code: false,
        format_max_line_length: None,
        blank_lines_around_definitions: None,
        continuation_indent_level: None,
        quote_style: None,
        disabled_linter_rules: None,
        lint_max_line_length: None,
        do_list_rules: false,
        do_pretty_print: false,
        project_root: None,
    }
}

impl ParseState {
    pub fn new(command: ActiveCommand) -> (state: Self)
        ensures
            state@ == initial_state(command),
    {
        let state = ParseState {
            command,
            input_file_paths: Vec::new(),
            excluded_paths: Vec::new(),
            do_print_to_stdout: false,
            use_verbose_output: false,
            do_check_formatted_only: false,
            use_spaces: None,
            indent_size: None,
            use_verify_structure: false,
            do_reorder_code: false,
            format_max_line_length: None,
            blank_lines_around_definitions: None,
            continuation_indent_level: None,
            quote_style: None,
            disabled_linter_rules: None,
            lint_max_line_length: None,
            do_list_rules: false,
            do_pretty_print: false,
            project_root: None,
        };
        assert(state@.input_file_paths =~= Seq::empty());
        assert(state@.excluded_paths =~= Seq::empty());
        state
    }
}

/// The command line read so far, as the command it selects.
pub open spec fn finish(state: ParseStateView) -> CliArgumentsView {
    CliArgumentsView {
        input_file_paths: state.input_file_paths,
        excluded_paths: state.excluded_paths,
        command: match state.command {
            ActiveCommand::Format => CommandView::Format {
                do_print_to_stdout: state.do_print_to_stdout,
                use_verbose_output: state.use_verbose_output,
                do_check_formatted_only: state.do_check_formatted_only,
                use_spaces: state.use_spaces,
                indent_size: state.indent_size,
                use_verify_structure: state.use_verify_structure,
                do_reorder_code: state.do_reorder_code,
                max_line_length: state.format_max_line_length,
                blank_lines_around_definitions: state.blank_lines_around_definitions,
                continuation_indent_level: state.continuation_indent_level,
                quote_style: state.quote_style,
            },
            ActiveCommand::Lint => CommandView::Lint {
                disabled_linter_rules: state.disabled_linter_rules,
                max_line_length: state.lint_max_line_length,
                do_list_rules: state.do_list_rules,
                do_pretty_print: state.do_pretty_print,
            },
            ActiveCommand::Index => CommandView::Index { project_root: state.project_root },
        },
    }
}

impl ParseState {
    pub fn into_arguments(self) -> (arguments: CliArguments)
        ensures
            arguments@ == finish(self@),
    {
        let command = match self.command {
            ActiveCommand::Format => Command::Format {
                do_print_to_stdout: self.do_print_to_stdout,
                use_verbose_output: self.use_verbose_output,
                do_check_formatted_only: self.do_check_formatted_only,
                use_spaces: self.use_spaces,
                indent_size: self.indent_size,
                use_verify_structure: self.use_verify_structure,
                do_reorder_code: self.do_reorder_code,
                max_line_length: self.format_max_line_length,
                blank_lines_around_definitions: self.blank_lines_around_definitions,
                continuation_indent_level: self.continuation_indent_level,
                quote_style: self.quote_style,
            },
            ActiveCommand::Lint => Command::Lint {
                disabled_linter_rules: self.disabled_linter_rules,
                max_line_length: self.lint_max_line_length,
                do_list_rules: self.do_list_rules,
                do_pretty_print: self.do_pretty_print,
            },
            ActiveCommand::Index => Command::Index { project_root: self.project_root },
        };
        CliArguments { input_file_paths: self.input_file_paths, excluded_paths: self.excluded_paths, command }
    }
}

/// An option that reads no value, applied.
pub open spec fn apply_switch(state: ParseStateView, action: FlagAction) -> ParseStateView {
    match action {
        FlagAction::Stdout => ParseStateView { do_print_to_stdout: true, ..state },
        FlagAction::Verbose => ParseStateView { use_verbose_output: true, ..state },
        FlagAction::Check => ParseStateView { do_check_formatted_only: true, ..state },
        FlagAction::UseSpaces => ParseStateView { use_spaces: Some(true), ..state },
        FlagAction::VerifyStructure | FlagAction::Safe => ParseStateView { use_verify_structure: true, ..state },
        FlagAction::ReorderCode => ParseStateView { do_reorder_code: true, ..state },
        FlagAction::ListRules => ParseStateView { do_list_rules: true, ..state },
        FlagAction::Pretty => ParseStateView { do_pretty_print: true, ..state },
        _ => state,
    }
}

/// A numeric option's value: the number, or the error naming the option.
pub open spec fn number_value(action: FlagAction, value: Seq<char>, limit: nat) -> Result<nat, ArgumentErrorView> {
    match number_up_to(value, limit) {
        Some(n) => Ok(n),
        None => Err(ArgumentErrorView::InvalidNumber(flag_label(action), value)),
    }
}

/// An option that reads a value, applied to the value `value`.
pub open spec fn apply_value(state: ParseStateView, action: FlagAction, value: Seq<char>) -> Result<ParseStateView, ArgumentErrorView> {
    match action {
        FlagAction::Exclude => Ok(ParseStateView { excluded_paths: state.excluded_paths.push(value), ..state }),
        FlagAction::Disable => Ok(ParseStateView { disabled_linter_rules: Some(value), ..state }),
        FlagAction::ProjectRoot => Ok(ParseStateView { project_root: Some(value), ..state }),
        FlagAction::IndentSize => match number_value(action, value, usize::MAX as nat) {
            Ok(n) => Ok(ParseStateView { indent_size: Some(n as usize), ..state }),
            Err(e) => Err(e),
        },
        FlagAction::FormatMaxLineLength => match number_value(action, value, usize::MAX as nat) {
            Ok(n) => Ok(ParseStateView { format_max_line_length: Some(n as usize), ..state }),
            Err(e) => Err(e),
        },
        FlagAction::LintMaxLineLength => match number_value(action, value, usize::MAX as nat) {
            Ok(n) => Ok(ParseStateView { lint_max_line_length: Some(n as usize), ..state }),
            Err(e) => Err(e),
        },
        FlagAction::BlankLinesAroundDefinitions => match number_value(action, value, u16::MAX as nat) {
            Ok(n) => Ok(ParseStateView { blank_lines_around_definitions: Some(n as u16), ..state }),
            Err(e) => Err(e),
        },
        FlagAction::ContinuationIndentLevel => match number_value(action, value, u16::MAX as nat) {
            Ok(n) => Ok(ParseStateView { continuation_indent_level: Some(n as u16), ..state }),
            Err(e) => Err(e),
        },
        FlagAction::QuoteStyleName => match quote_style_named(value) {
            Some(style) => Ok(ParseStateView { quote_style: Some(style), ..state }),
            None => Err(ArgumentErrorView::InvalidQuoteStyle(value)),
        },
        _ => Ok(state),
    }
}

impl ParseState {
    fn switch_on(&mut self, action: FlagAction)
        ensures
            final(self)@ == apply_switch(old(self)@, action),
    {
        match action {
            FlagAction::Stdout => self.do_print_to_stdout = true,
            FlagAction::Verbose => self.use_verbose_output = true,
            FlagAction::Check => self.do_check_formatted_only = true,
            FlagAction::UseSpaces => self.use_spaces = Some(true),
            FlagAction::VerifyStructure | FlagAction::Safe => self.use_verify_structure = true,
            FlagAction::ReorderCode => self.do_reorder_code = true,
            FlagAction::ListRules => self.do_list_rules = true,
            FlagAction::Pretty => self.do_pretty_print = true,
            _ => {},
        }
    }

    fn add_excluded_path(&mut self, path: &[char])
        ensures
            final(self)@ == (ParseStateView { excluded_paths: old(self)@.excluded_paths.push(path@), ..old(self)@ }),
    {
        let ghost before = self.excluded_paths@;
        self.excluded_paths.push(chars_to_string(path));
        assert(string_views(self.excluded_paths@) =~= string_views(before).push(path@));
    }

    fn add_input_path(&mut self, path: &[char])
        ensures
            final(self)@ == (ParseStateView { input_file_paths: old(self)@.input_file_paths.push(path@), ..old(self)@ }),
    {
        let ghost before = self.input_file_paths@;
        self.input_file_paths.push(chars_to_string(path));
        assert(string_views(self.input_file_paths@) =~= string_views(before).push(path@));
    }

    fn apply_value(&mut self, action: FlagAction, value: &[char]) -> (result: Result<(), ArgumentError>)
        ensures
            match result {
                Ok(()) => apply_value(old(self)@, action, value@) == Ok::<ParseStateView, ArgumentErrorView>(final(self)@),
                Err(e) => apply_value(old(self)@, action, value@) == Err::<ParseStateView, ArgumentErrorView>(e@),
            },
    {
        match action {
            FlagAction::Exclude => {
                self.add_excluded_path(value);
                Ok(())
            },
            FlagAction::Disable => {
                self.disabled_linter_rules = Some(chars_to_string(value));
                Ok(())
            },
            FlagAction::ProjectRoot => {
                self.project_root = Some(chars_to_string(value));
                Ok(())
            },
            FlagAction::IndentSize | FlagAction::FormatMaxLineLength | FlagAction::LintMaxLineLength => {
                match parse_unsigned(value, usize::MAX) {
                    Some(n) => {
                        match action {
                            FlagAction::IndentSize => self.indent_size = Some(n),
                            FlagAction::FormatMaxLineLength => self.format_max_line_length = Some(n),
                            _ => self.lint_max_line_length = Some(n),
                        }
                        Ok(())
                    },
                    None => Err(ArgumentError::InvalidNumber(action.label(), chars_to_string(value))),
                }
            },
            FlagAction::BlankLinesAroundDefinitions | FlagAction::ContinuationIndentLevel => {
                match parse_unsigned(value, 65535) {
                    Some(n) => {
                        if action == FlagAction::BlankLinesAroundDefinitions {
                            self.blank_lines_around_definitions = Some(n as u16);
                        } else {
                            self.continuation_indent_level = Some(n as u16);
                        }
                        Ok(())
                    },
                    None => Err(ArgumentError::InvalidNumber(action.label(), chars_to_string(value))),
                }
            },
            FlagAction::QuoteStyleName => {
                let name = chars_to_string(value);
                match QuoteStyle::from_name(name.as_str()) {
                    Some(style) => {
                        self.quote_style = Some(style);
                        Ok(())
                    },
                    None => Err(ArgumentError::InvalidQuoteStyle(name)),
                }
            },
            _ => Ok(()),
        }
    }
}

/// Short options bundled after one dash, such as `-cv`, applied left to
/// right; the first one the command does not have is the error.
pub open spec fn apply_short_flags(state: ParseStateView, flags: Seq<char>) -> Result<ParseStateView, ArgumentErrorView>
    decreases flags.len(),
{
    if flags.len() == 0 {
        Ok(state)
    } else {
        let flag = flags[0];
        let applied = if flag == 'c' || flag == 's' || flag == 'v' {
            if state.command != ActiveCommand::Format {
                Err(ArgumentErrorView::UnexpectedArgument(seq!['-', flag]))
            } else if flag == 'c' {
                Ok(ParseStateView { do_check_formatted_only: true, ..state })
            } else if flag == 's' {
                Ok(ParseStateView { use_verify_structure: true, ..state })
            } else {
                Ok(ParseStateView { use_verbose_output: true, ..state })
            }
        } else {
            Err(ArgumentErrorView::UnexpectedArgument(seq!['-', flag]))
        };
        match applied {
            Ok(next) => apply_short_flags(next, flags.subrange(1, flags.len() as int)),
            Err(e) => Err(e),
        }
    }
}

/// `-` followed by `flag`, as an owned string.
fn dash_and(flag: char) -> (text: String)
    ensures
        text@ == seq!['-', flag],
{
    let mut text = String::new();
    push_char(&mut text, '-');
    push_char(&mut text, flag);
    assert(text@ =~= seq!['-', flag]);
    text
}

impl ParseState {
    fn apply_short_flags(&mut self, flags: &[char]) -> (result: Result<(), ArgumentError>)
        ensures
            match result {
                Ok(()) => apply_short_flags(old(self)@, flags@) == Ok::<ParseStateView, ArgumentErrorView>(final(self)@),
                Err(e) => apply_short_flags(old(self)@, flags@) == Err::<ParseStateView, ArgumentErrorView>(e@),
            },
    {
        let mut index: usize = 0;
        assert(flags@.subrange(0, flags@.len() as int) =~= flags@);
        while index < flags.len()
            invariant
                index <= flags@.len(),
                apply_short_flags(old(self)@, flags@) == apply_short_flags(self@, flags@.subrange(index as int, flags@.len() as int)),
            decreases flags@.len() - index,
        {
            let flag = flags[index];
            let ghost rest = flags@.subrange(index as int, flags@.len() as int);
            assert(rest.subrange(1, rest.len() as int) =~= flags@.subrange(index + 1, flags@.len() as int));
            if flag == 'c' || flag == 's' || flag == 'v' {
                if self.command != ActiveCommand::Format {
                    return Err(ArgumentError::UnexpectedArgument(dash_and(flag)));
                }
                if flag == 'c' {
                    self.do_check_formatted_only = true;
                } else if flag == 's' {
                    self.use_verify_structure = true;
                } else {
                    self.use_verbose_output = true;
                }
            } else {
                return Err(ArgumentError::UnexpectedArgument(dash_and(flag)));
            }
            index = index + 1;
        }
        assert(flags@.subrange(index as int, flags@.len() as int) =~= Seq::<char>::empty());
        Ok(())
    }
}

/// One step of reading the command line.
pub enum ParseStep {
    /// Go on at argument `next` with this state.
    Next(int, ParseStateView),
    /// The command line is read.
    Finished(Result<CliRequestView, ArgumentErrorView>),
}

/// An option's value read, and the arguments go on after `last`, the last
/// argument the option used.
pub open spec fn value_step(last: int, state: ParseStateView, action: FlagAction, value: Seq<char>) -> ParseStep {
    match apply_value(state, action, value) {
        Ok(next) => ParseStep::Next(last + 1, next),
        Err(e) => ParseStep::Finished(Err(e)),
    }
}

/// Reading argument `i`, the options of a long option included.
pub open spec fn parse_step(arguments: Seq<Seq<char>>, i: int, state: ParseStateView) -> ParseStep {
    let argument = arguments[i];
    if argument == "--"@ {
        let rest = arguments.subrange(i + 1, arguments.len() as int);
        ParseStep::Finished(
            Ok(CliRequestView::Run(finish(ParseStateView { input_file_paths: state.input_file_paths + rest, ..state }))),
        )
    } else if argument == "--help"@ || argument == "-h"@ {
        ParseStep::Finished(Ok(CliRequestView::Help(state.command)))
    } else if argument == "--version"@ || argument == "-V"@ {
        ParseStep::Finished(Ok(CliRequestView::Version))
    } else if argument.len() >= 2 && argument[0] == '-' && argument[1] == '-' {
        let (name, assigned) = split_flag(argument.subrange(2, argument.len() as int));
        match flag_action(state.command, name) {
            None => ParseStep::Finished(Err(ArgumentErrorView::UnexpectedArgument("--"@ + name))),
            Some(action) => if takes_value(action) {
                match assigned {
                    Some(value) => value_step(i, state, action, value),
                    None => if i + 1 < arguments.len() {
                        value_step(i + 1, state, action, arguments[i + 1])
                    } else {
                        ParseStep::Finished(Err(ArgumentErrorView::MissingValue(flag_label(action))))
                    },
                }
            } else {
                match assigned {
                    Some(_) => ParseStep::Finished(Err(ArgumentErrorView::UnexpectedValue(flag_label(action)))),
                    None => ParseStep::Next(i + 1, apply_switch(state, action)),
                }
            },
        }
    } else if argument.len() > 1 && argument[0] == '-' {
        let flags = argument.subrange(1, argument.len() as int);
        if flags == "x"@ {
            if i + 1 < arguments.len() {
                ParseStep::Next(i + 2, ParseStateView { excluded_paths: state.excluded_paths.push(arguments[i + 1]), ..state })
            } else {
                ParseStep::Finished(Err(ArgumentErrorView::MissingValue("-x/--exclude"@)))
            }
        } else {
            match apply_short_flags(state, flags) {
                Ok(next) => ParseStep::Next(i + 1, next),
                Err(e) => ParseStep::Finished(Err(e)),
            }
        }
    } else {
        ParseStep::Next(i + 1, ParseStateView { input_file_paths: state.input_file_paths.push(argument), ..state })
    }
}

/// What the command line asks for, read from argument `i` on with `state`.
pub open spec fn parse_from(arguments: Seq<Seq<char>>, i: int, state: ParseStateView) -> Result<CliRequestView, ArgumentErrorView>
    decreases arguments.len() - i,
{
    if i < 0 || i >= arguments.len() {
        Ok(CliRequestView::Run(finish(state)))
    } else {
        match parse_step(arguments, i, state) {
            ParseStep::Next(next, next_state) => if i < next <= arguments.len() {
                parse_from(arguments, next, next_state)
            } else {
                Ok(CliRequestView::Run(finish(next_state)))
            },
            ParseStep::Finished(result) => result,
        }
    }
}

/// What the command line `arguments` asks for; the first argument is the
/// program. A first argument of `lint` or `index` selects that command,
/// and the formatter runs otherwise.
pub open spec fn command_line_request(arguments: Seq<Seq<char>>) -> Result<CliRequestView, ArgumentErrorView> {
    if arguments.len() > 1 && arguments[1] == "lint"@ {
        parse_from(arguments, 2, initial_state(ActiveCommand::Lint))
    } else if arguments.len() > 1 && arguments[1] == "index"@ {
        parse_from(arguments, 2, initial_state(ActiveCommand::Index))
    } else {
        parse_from(arguments, 1, initial_state(ActiveCommand::Format))
    }
}

pub open spec fn char_views(arguments: Seq<Vec<char>>) -> Seq<Seq<char>> {
    arguments.map_values(|a: Vec<char>| a@)
}

/// What one step of reading did.
enum StepOutcome {
    Next(usize),
    Run,
    Help,
    Version,
    Failed(ArgumentError),
}

/// Resolves the value of an option that reads one: the value given with `=`,
/// or else the next argument, which `index` then points at.
fn consume_flag_value<'a>(
    assigned_value: Option<&'a [char]>,
    arguments: &'a Vec<Vec<char>>,
    index: &mut usize,
    action: FlagAction,
) -> (value: Result<&'a [char], ArgumentError>)
    requires
        *old(index) < arguments.len(),
    ensures
        match assigned_value {
            Some(v) => value == Ok::<&[char], ArgumentError>(v) && *final(index) == *old(index),
            None => if *old(index) + 1 < arguments.len() {
                &&& *final(index) == *old(index) + 1
                &&& value matches Ok(v) && v@ == arguments@[*final(index) as int]@
            } else {
                value matches Err(e) && e@ == ArgumentErrorView::MissingValue(flag_label(action))
            },
        },
{
    match assigned_value {
        Some(value) => Ok(value),
        None => {
            if *index + 1 >= arguments.len() {
                return Err(ArgumentError::MissingValue(action.label()));
            }
            *index = *index + 1;
            Ok(arguments[*index].as_slice())
        },
    }
}

/// Ensures that an option that reads no value was not given one.
fn require_no_value(assigned_value: Option<&[char]>, action: FlagAction) -> (result: Result<(), ArgumentError>)
    ensures
        match assigned_value {
            Some(_) => result matches Err(e) && e@ == ArgumentErrorView::UnexpectedValue(flag_label(action)),
            None => result is Ok,
        },
{
    match assigned_value {
        Some(_) => Err(ArgumentError::UnexpectedValue(action.label())),
        None => Ok(()),
    }
}

fn take_step(arguments: &Vec<Vec<char>>, i: usize, state: &mut ParseState) -> (outcome: StepOutcome)
    requires
        i < arguments.len(),
    ensures
        match outcome {
            StepOutcome::Next(next) => i < next <= arguments.len() && parse_step(char_views(arguments@), i as int, old(state)@)
                == ParseStep::Next(next as int, final(state)@),
            StepOutcome::Run => parse_step(char_views(arguments@), i as int, old(state)@) == ParseStep::Finished(
                Ok(CliRequestView::Run(finish(final(state)@))),
            ),
            StepOutcome::Help => parse_step(char_views(arguments@), i as int, old(state)@) == ParseStep::Finished(
                Ok(CliRequestView::Help(old(state)@.command)),
            ),
            StepOutcome::Version => parse_step(char_views(arguments@), i as int, old(state)@) == ParseStep::Finished(
                Ok(CliRequestView::Version),
            ),
            StepOutcome::Failed(e) => parse_step(char_views(arguments@), i as int, old(state)@) == ParseStep::Finished(
                Err(e@),
            ),
        },
{
    let ghost args = char_views(arguments@);
    let ghost start = state@;
    let argument = arguments[i].as_slice();
    assert(argument@ == args[i as int]);
    if chars_equal_str(argument, "--") {
        let mut j = i + 1;
        while j < arguments.len()
            invariant
                i < j <= arguments@.len(),
                args == char_views(arguments@),
                state@ == (ParseStateView { input_file_paths: start.input_file_paths + args.subrange(i + 1, j as int), ..start }),
            decreases arguments@.len() - j,
        {
            state.add_input_path(arguments[j].as_slice());
            j = j + 1;
            assert(start.input_file_paths + args.subrange(i + 1, j as int) =~= start.input_file_paths + args.subrange(
                i + 1,
                j - 1,
            ).push(args[j - 1]));
        }
        return StepOutcome::Run;
    }
    if chars_equal_str(argument, "--help") || chars_equal_str(argument, "-h") {
        return StepOutcome::Help;
    }
    if chars_equal_str(argument, "--version") || chars_equal_str(argument, "-V") {
        return StepOutcome::Version;
    }
    if argument.len() >= 2 && argument[0] == '-' && argument[1] == '-' {
        let (name, assigned_value) = split_flag_and_value(&argument[2..argument.len()]);
        let action = match find_flag_action(state.command, name) {
            Some(action) => action,
            None => {
                let mut written = String::new();
                push_str(&mut written, "--");
                let name_string = chars_to_string(name);
                push_str(&mut written, name_string.as_str());
                return StepOutcome::Failed(ArgumentError::UnexpectedArgument(written));
            },
        };
        if action.reads_value() {
            let mut last = i;
            let value = match consume_flag_value(assigned_value, arguments, &mut last, action) {
                Ok(value) => value,
                Err(e) => return StepOutcome::Failed(e),
            };
            return match state.apply_value(action, value) {
                Ok(()) => StepOutcome::Next(last + 1),
                Err(e) => StepOutcome::Failed(e),
            };
        }
        match require_no_value(assigned_value, action) {
            Ok(()) => {},
            Err(e) => return StepOutcome::Failed(e),
        }
        state.switch_on(action);
        return StepOutcome::Next(i + 1);
    }
    if argument.len() > 1 && argument[0] == '-' {
        let flags = &argument[1..argument.len()];
        if chars_equal_str(flags, "x") {
            if i + 1 >= arguments.len() {
                return StepOutcome::Failed(ArgumentError::MissingValue("-x/--exclude"));
            }
            state.add_excluded_path(arguments[i + 1].as_slice());
            return StepOutcome::Next(i + 2);
        }
        return match state.apply_short_flags(flags) {
            Ok(()) => StepOutcome::Next(i + 1),
            Err(e) => StepOutcome::Failed(e),
        };
    }
    state.add_input_path(argument);
    StepOutcome::Next(i + 1)
}

/// Reads the command line `argument_list`, whose first argument is the
/// program: what to run, a help page, the version, or why the command line
/// is refused.
pub fn parse_args(argument_list: &Vec<String>) -> (request: Result<CliRequest, ArgumentError>)
    ensures
        match request {
            Ok(r) => command_line_request(string_views(argument_list@)) == Ok::<CliRequestView, ArgumentErrorView>(r@),
            Err(e) => command_line_request(string_views(argument_list@)) == Err::<CliRequestView, ArgumentErrorView>(e@),
        },
{
    let ghost args = string_views(argument_list@);
    let mut arguments: Vec<Vec<char>> = Vec::new();
    let mut k: usize = 0;
    while k < argument_list.len()
        invariant
            k <= argument_list@.len(),
            args == string_views(argument_list@),
            char_views(arguments@) == args.subrange(0, k as int),
        decreases argument_list@.len() - k,
    {
        let ghost before = arguments@;
        arguments.push(str_to_chars(argument_list[k].as_str()));
        k = k + 1;
        assert(char_views(arguments@) =~= char_views(before).push(args[k - 1]));
        assert(args.subrange(0, k as int) =~= args.subrange(0, k - 1).push(args[k - 1]));
    }
    assert(args.subrange(0, k as int) =~= args);
    let mut command = ActiveCommand::Format;
    let mut i: usize = 1;
    if arguments.len() > 1 && chars_equal_str(arguments[1].as_slice(), "lint") {
        command = ActiveCommand::Lint;
        i = 2;
    } else if arguments.len() > 1 && chars_equal_str(arguments[1].as_slice(), "index") {
        command = ActiveCommand::Index;
        i = 2;
    }
    let mut state = ParseState::new(command);
    while i < arguments.len()
        invariant
            args == char_views(arguments@),
            args == string_views(argument_list@),
            command_line_request(args) == parse_from(args, i as int, state@),
        decreases arguments@.len() - i,
    {
        let ghost before = state@;
        let active = state.command;
        let outcome = take_step(&arguments, i, &mut state);
        assert(parse_from(args, i as int, before) == match parse_step(args, i as int, before) {
            ParseStep::Next(next, next_state) => if i < next <= args.len() {
                parse_from(args, next, next_state)
            } else {
                Ok(CliRequestView::Run(finish(next_state)))
            },
            ParseStep::Finished(result) => result,
        });
        match outcome {
            StepOutcome::Next(next) => {
                i = next;
            },
            StepOutcome::Run => return Ok(CliRequest::Run(state.into_arguments())),
            StepOutcome::Help => return Ok(CliRequest::Help(active)),
            StepOutcome::Version => return Ok(CliRequest::Version),
            StepOutcome::Failed(e) => return Err(e),
        }
    }
    Ok(CliRequest::Run(state.into_arguments()))
}

pub const HELP_FORMATTER: &'static str = "\
	A GDScript formatter following the official style guide.

	Usage: gdscript-formatter [OPTIONS] [FILES]...
	       gdscript-formatter lint [OPTIONS] [FILES]...
	       gdscript-formatter index [OPTIONS] [FILES]...

	Arguments:
	  <FILES>...  GDScript files or directories to format. If empty, uses
	              the current directory. Reads from stdin when piped.

	Options:
	  -c, --check                                Check if files are formatted, exit 1 if not
	  -x, --exclude <PATH>                       Exclude one file or directory (you can repeat this option multiple times)
	      --verify-structure                     Verify formatted output has the same structure as the input
	      --stdout                               Write to stdout instead of overwriting files
	  -v, --verbose                              Print one status line for each processed file
	      --use-spaces                           Use spaces instead of tabs for indentation
	      --indent-size <NUM>                    Spaces per indent level (default: 4)
	      --reorder-code                         Reorder code to match the style guide
	      --max-line-length <NUM>                Maximum line length before wrapping (default: 100)
	      --blank-lines-around-definitions <NUM> Blank lines between top-level definitions (default: 2)
	      --continuation-indent-level <NUM>      Extra indent for line continuations (default: 2)
	      --quote-style <STYLE>                  String quotes: preserve, single, or double (default: preserve)
	  -h, --help                                 Print help
	  -V, --version                              Print version

	Subcommands:
	  lint                     Lint GDScript files for style issues
	  index                    Write a machine-readable index of GDScript files

	Run 'gdscript-formatter lint --help' or 'gdscript-formatter index --help' for
	their options.
";

pub const HELP_LINTER: &'static str = "\
Lint GDScript files for style and convention issues.

Usage: gdscript-formatter lint [OPTIONS] [FILES]...

Arguments:
  <FILES>...                 GDScript files or directories to lint

Options:
  -x, --exclude <PATH>         Exclude a file or directory (may be repeated)
      --disable <RULES>       Disable specific rules (comma-separated)
      --max-line-length <NUM>  Maximum line length allowed (default: 100)
      --list-rules            List all available linting rules
      --pretty                Use pretty formatting for lint output
  -h, --help                  Print help
";

pub const HELP_INDEX: &'static str = "\
Write a machine-readable index of GDScript declarations, references, member
chains, string literals, comparisons and comments to stdout.

The output is JSON Lines: one JSON object per line, no enclosing array. One
invocation handles a whole project; do not spawn a process per file.

Usage: gdscript-formatter index [OPTIONS] [FILES]...

Arguments:
  <FILES>...                 GDScript files or directories to index. If empty,
                             uses the current directory. Reads from stdin when
                             piped.

Options:
  -x, --exclude <PATH>         Exclude a file or directory (may be repeated)
      --project-root <PATH>   Directory the res:// paths are relative to
  -h, --help                  Print help

Paths are res:// paths relative to the project root. Without --project-root the
root is found by looking for project.godot above the input files. A run never
mixes res:// paths with file system paths: anything that would is an error.
";

/// The help page of `command`.
pub fn help_text(command: ActiveCommand) -> (text: &'static str)
    ensures
        text@ == match command {
            ActiveCommand::Format => HELP_FORMATTER@,
            ActiveCommand::Lint => HELP_LINTER@,
            ActiveCommand::Index => HELP_INDEX@,
        },
{
    match command {
        ActiveCommand::Format => HELP_FORMATTER,
        ActiveCommand::Lint => HELP_LINTER,
        ActiveCommand::Index => HELP_INDEX,
    }
}

/// `--` stops option parsing: everything after it is a file path, however
/// it is spelled.
pub proof fn lemma_double_dash_ends_options(arguments: Seq<Seq<char>>, i: int, state: ParseStateView)
    requires
        0 <= i < arguments.len(),
        arguments[i] == "--"@,
    ensures
        parse_from(arguments, i, state) == Ok::<CliRequestView, ArgumentErrorView>(
            CliRequestView::Run(
                finish(
                    ParseStateView {
                        input_file_paths: state.input_file_paths + arguments.subrange(i + 1, arguments.len() as int),
                        ..state
                    },
                ),
            ),
        ),
{
}

} // verus!

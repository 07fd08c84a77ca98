use gdscript_formatter::QuoteStyle;
use gdscript_formatter::cli::{
    ActiveCommand, ArgumentError, CliArguments, CliRequest, Command, HELP_INDEX, help_text,
    parse_args, parse_unsigned,
};

fn arguments(list: &[&str]) -> Vec<String> {
    let mut all = vec!["gdscript-formatter".to_string()];
    all.extend(list.iter().map(|argument| argument.to_string()));
    all
}

fn run(list: &[&str]) -> CliArguments {
    match parse_args(&arguments(list)) {
        Ok(CliRequest::Run(parsed)) => parsed,
        Ok(_) => panic!("expected a command to run"),
        Err(error) => panic!("unexpected error: {}", error.message()),
    }
}

fn error_message(list: &[&str]) -> String {
    match parse_args(&arguments(list)) {
        Err(error) => error.message(),
        Ok(_) => panic!("expected the command line to be refused"),
    }
}

fn chars(text: &str) -> Vec<char> {
    text.chars().collect()
}

#[test]
fn formatter_is_the_default_command() {
    let parsed = run(&["a.gd", "dir"]);
    assert_eq!(parsed.input_file_paths, vec!["a.gd".to_string(), "dir".to_string()]);
    assert!(parsed.excluded_paths.is_empty());
    match parsed.command {
        Command::Format {
            do_print_to_stdout,
            use_verbose_output,
            do_check_formatted_only,
            use_spaces,
            indent_size,
            use_verify_structure,
            do_reorder_code,
            max_line_length,
            blank_lines_around_definitions,
            continuation_indent_level,
            quote_style,
        } => {
            assert!(!do_print_to_stdout && !use_verbose_output && !do_check_formatted_only);
            assert!(!use_verify_structure && !do_reorder_code);
            assert_eq!(use_spaces, None);
            assert_eq!(indent_size, None);
            assert_eq!(max_line_length, None);
            assert_eq!(blank_lines_around_definitions, None);
            assert_eq!(continuation_indent_level, None);
            assert_eq!(quote_style, None);
        }
        _ => panic!("expected the formatter"),
    }
}

#[test]
fn formatter_options_are_read_with_and_without_equals() {
    let parsed = run(&[
        "--stdout",
        "--use-spaces",
        "--indent-size=2",
        "--max-line-length",
        "+80",
        "--blank-lines-around-definitions",
        "1",
        "--continuation-indent-level=3",
        "--quote-style",
        "single",
        "--safe",
        "--reorder-code",
        "-cv",
        "-x",
        "skipped",
        "--exclude=other",
        "file.gd",
    ]);
    assert_eq!(parsed.input_file_paths, vec!["file.gd".to_string()]);
    assert_eq!(parsed.excluded_paths, vec!["skipped".to_string(), "other".to_string()]);
    match parsed.command {
        Command::Format {
            do_print_to_stdout,
            use_verbose_output,
            do_check_formatted_only,
            use_spaces,
            indent_size,
            use_verify_structure,
            do_reorder_code,
            max_line_length,
            blank_lines_around_definitions,
            continuation_indent_level,
            quote_style,
        } => {
            assert!(do_print_to_stdout && use_verbose_output && do_check_formatted_only);
            assert!(use_verify_structure && do_reorder_code);
            assert_eq!(use_spaces, Some(true));
            assert_eq!(indent_size, Some(2));
            assert_eq!(max_line_length, Some(80));
            assert_eq!(blank_lines_around_definitions, Some(1));
            assert_eq!(continuation_indent_level, Some(3));
            assert_eq!(quote_style, Some(QuoteStyle::Single));
        }
        _ => panic!("expected the formatter"),
    }
}

#[test]
fn lint_and_index_select_their_command() {
    match run(&["lint", "--disable=a,b", "--max-line-length", "120", "--list-rules", "--pretty", "x.gd"]).command {
        Command::Lint { disabled_linter_rules, max_line_length, do_list_rules, do_pretty_print } => {
            assert_eq!(disabled_linter_rules, Some("a,b".to_string()));
            assert_eq!(max_line_length, Some(120));
            assert!(do_list_rules && do_pretty_print);
        }
        _ => panic!("expected the linter"),
    }
    let parsed = run(&["index", "--project-root", "game", "-x", "addons", "game"]);
    assert_eq!(parsed.input_file_paths, vec!["game".to_string()]);
    assert_eq!(parsed.excluded_paths, vec!["addons".to_string()]);
    match parsed.command {
        Command::Index { project_root } => assert_eq!(project_root, Some("game".to_string())),
        _ => panic!("expected the index"),
    }
}

#[test]
fn double_dash_ends_the_options() {
    let parsed = run(&["index", "a.gd", "--", "--stdout", "-x"]);
    assert_eq!(
        parsed.input_file_paths,
        vec!["a.gd".to_string(), "--stdout".to_string(), "-x".to_string()]
    );
    let parsed = run(&["-"]);
    assert_eq!(parsed.input_file_paths, vec!["-".to_string()]);
}

#[test]
fn help_and_version_stop_the_parse() {
    assert!(matches!(
        parse_args(&arguments(&["index", "--help", "--bogus"])),
        Ok(CliRequest::Help(ActiveCommand::Index))
    ));
    assert!(matches!(parse_args(&arguments(&["-h"])), Ok(CliRequest::Help(ActiveCommand::Format))));
    assert!(matches!(parse_args(&arguments(&["lint", "-V"])), Ok(CliRequest::Version)));
    assert_eq!(help_text(ActiveCommand::Index), HELP_INDEX);
    assert!(help_text(ActiveCommand::Lint).starts_with("Lint GDScript files"));
}

#[test]
fn refused_command_lines_name_their_problem() {
    assert_eq!(error_message(&["--bogus"]), "unexpected argument '--bogus'");
    assert_eq!(error_message(&["index", "--stdout"]), "unexpected argument '--stdout'");
    assert_eq!(error_message(&["--exclude"]), "--exclude requires a value");
    assert_eq!(error_message(&["-x"]), "-x/--exclude requires a value");
    assert_eq!(error_message(&["--stdout=yes"]), "--stdout does not take a value");
    assert_eq!(error_message(&["--safe=1"]), "--safe does not take a value");
    assert_eq!(error_message(&["--indent-size", "four"]), "--indent-size expects a number, got 'four'");
    assert_eq!(
        error_message(&["--blank-lines-around-definitions=70000"]),
        "--blank-lines-around-definitions expects a number, got '70000'"
    );
    assert_eq!(
        error_message(&["--quote-style", "fancy"]),
        "--quote-style expects preserve, single, or double, got 'fancy'"
    );
    assert_eq!(error_message(&["lint", "-c"]), "unexpected argument '-c'");
    assert_eq!(error_message(&["-cq"]), "unexpected argument '-q'");
    assert!(matches!(
        parse_args(&arguments(&["--exclude"])),
        Err(ArgumentError::MissingValue(_))
    ));
}

#[test]
fn unsigned_numbers_read_like_rust_integers() {
    assert_eq!(parse_unsigned(&chars("42"), 100), Some(42));
    assert_eq!(parse_unsigned(&chars("+7"), 100), Some(7));
    assert_eq!(parse_unsigned(&chars("0100"), 100), Some(100));
    assert_eq!(parse_unsigned(&chars("101"), 100), None);
    assert_eq!(parse_unsigned(&chars(""), 100), None);
    assert_eq!(parse_unsigned(&chars("+"), 100), None);
    assert_eq!(parse_unsigned(&chars("-1"), 100), None);
    assert_eq!(parse_unsigned(&chars("1_0"), 100), None);
    assert_eq!(parse_unsigned(&chars("99999999999999999999999"), usize::MAX), None);
    assert_eq!(parse_unsigned(&chars("65535"), 65535), Some(65535));
}

#[test]
fn quote_styles_are_read_by_name() {
    assert_eq!(QuoteStyle::from_name("preserve"), Some(QuoteStyle::Preserve));
    assert_eq!(QuoteStyle::from_name("single"), Some(QuoteStyle::Single));
    assert_eq!(QuoteStyle::from_name("double"), Some(QuoteStyle::Double));
    assert_eq!(QuoteStyle::from_name("Double"), None);
}

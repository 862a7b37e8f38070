use xcx::cli::{parse_command_line, parse_u32_str, CliCommand, CliError, CliOptions, ToolKind};
use xcx::highlight::{source_spans, Highlighter, Span, SpanStyle};
use xcx::repl::{InputReader, Repl, ReplCommand, ReplInput};
use xcx::text::{contains_char, starts_with, str_eq, trim, white_space};

fn args(a: &[&str]) -> Vec<String> {
    a.iter().map(|s| s.to_string()).collect()
}

fn opts(disable_jit: bool, disable_inline: bool, check_only: bool, dump: bool, t: u32) -> CliOptions {
    CliOptions { disable_jit, disable_inline, check_only, dump_bytecode_only: dump, jit_threshold: t }
}

fn defaults() -> CliOptions {
    opts(false, false, false, false, 50)
}

#[test]
fn no_arguments_start_the_repl() {
    assert_eq!(parse_command_line(&args(&["xcx"])), Ok(CliCommand::Repl(defaults())));
}

#[test]
fn a_file_argument_runs_it_with_its_flags() {
    assert_eq!(
        parse_command_line(&args(&["xcx", "main.xcx", "--no-jit", "--check"])),
        Ok(CliCommand::Run("main.xcx".to_string(), opts(true, false, true, false, 50)))
    );
}

#[test]
fn bar_joined_flags_are_split_and_trimmed() {
    assert_eq!(
        parse_command_line(&args(&["xcx", "--no-jit | --bytecode|", "prog.xcx"])),
        Ok(CliCommand::Run("prog.xcx".to_string(), opts(true, false, false, true, 50)))
    );
}

#[test]
fn thresholds_take_the_last_value() {
    assert_eq!(
        parse_command_line(&args(&["xcx", "--threshold=10", "--th=+7", "--no-inline"])),
        Ok(CliCommand::Repl(opts(false, true, false, false, 7)))
    );
}

#[test]
fn bad_thresholds_are_refused() {
    assert_eq!(parse_command_line(&args(&["xcx", "--threshold=abc"])), Err(CliError::BadThreshold));
    assert_eq!(parse_command_line(&args(&["xcx", "--th=-1"])), Err(CliError::BadTh));
    assert_eq!(parse_command_line(&args(&["xcx", "--th="])), Err(CliError::BadTh));
    assert_eq!(parse_command_line(&args(&["xcx", "--threshold=4294967296"])), Err(CliError::BadThreshold));
}

#[test]
fn help_and_version_win() {
    assert_eq!(parse_command_line(&args(&["xcx", "file.xcx", "-h"])), Ok(CliCommand::Help));
    assert_eq!(parse_command_line(&args(&["xcx", "--th=x", "help"])), Ok(CliCommand::Help));
    assert_eq!(parse_command_line(&args(&["xcx", "--version|--help"])), Ok(CliCommand::Help));
    assert_eq!(parse_command_line(&args(&["xcx", "-v"])), Ok(CliCommand::Version));
    assert_eq!(parse_command_line(&args(&["xcx", "version", "--th=x"])), Ok(CliCommand::Version));
}

#[test]
fn bundled_tools_are_named() {
    assert_eq!(parse_command_line(&args(&["xcx", "pax", "install"])), Ok(CliCommand::Tool(ToolKind::Pax, defaults())));
    assert_eq!(parse_command_line(&args(&["xcx", "--no-jit", "doc"])), Ok(CliCommand::Tool(ToolKind::Doc, opts(true, false, false, false, 50))));
}

#[test]
fn only_the_first_copy_of_a_flag_is_taken() {
    assert_eq!(
        parse_command_line(&args(&["xcx", "--no-jit", "--no-jit"])),
        Ok(CliCommand::Run("--no-jit".to_string(), opts(true, false, false, false, 50)))
    );
}

#[test]
fn u32_parsing_follows_str_parse() {
    assert_eq!(parse_u32_str("0"), Some(0));
    assert_eq!(parse_u32_str("+12"), Some(12));
    assert_eq!(parse_u32_str("4294967295"), Some(u32::MAX));
    assert_eq!(parse_u32_str("4294967296"), None);
    assert_eq!(parse_u32_str(""), None);
    assert_eq!(parse_u32_str("+"), None);
    assert_eq!(parse_u32_str("1a"), None);
    assert_eq!(parse_u32_str(" 1"), None);
}

#[test]
fn repl_input_is_classified_after_trimming() {
    let repl = Repl::new(false);
    assert_eq!(repl.classify("   \t "), ReplInput::Blank);
    assert_eq!(repl.classify("  !help \n"), ReplInput::Command(ReplCommand::Help));
    assert_eq!(repl.classify("!exit"), ReplInput::Command(ReplCommand::Exit));
    assert_eq!(repl.classify("!clear"), ReplInput::Command(ReplCommand::Clear));
    assert_eq!(repl.classify("!nope"), ReplInput::Command(ReplCommand::Unknown));
    assert_eq!(repl.classify("  >! 2 + 2;  "), ReplInput::Source(">! 2 + 2;".to_string()));
}

#[test]
fn repl_commands_match_exactly() {
    let repl = Repl::new(true);
    assert!(repl.jit_disabled());
    assert!(!Repl::new(false).jit_disabled());
    assert_eq!(repl.handle_command("!help"), ReplCommand::Help);
    assert_eq!(repl.handle_command("!HELP"), ReplCommand::Unknown);
    assert_eq!(repl.handle_command("!exit "), ReplCommand::Unknown);
    let _reader = InputReader::new();
}

#[test]
fn text_helpers() {
    assert_eq!(trim("\u{3000} a b \u{2029}"), "a b");
    assert_eq!(trim("   "), "");
    assert!(white_space('\u{85}'));
    assert!(!white_space('x'));
    assert!(str_eq("abc", "abc"));
    assert!(!str_eq("abc", "abd"));
    assert!(starts_with("--th=5", "--th="));
    assert!(!starts_with("--t", "--th="));
    assert!(contains_char("a|b", '|'));
    assert!(!contains_char("ab", '|'));
}

fn span(start: usize, end: usize, style: SpanStyle) -> Span {
    Span { start, end, style }
}

#[test]
fn highlighting_splits_tokens() {
    assert_eq!(
        Highlighter::highlight("i: x = 5; --- c"),
        vec![
            span(0, 2, SpanStyle::TypeName),
            span(2, 3, SpanStyle::Plain),
            span(3, 4, SpanStyle::Plain),
            span(4, 5, SpanStyle::Plain),
            span(5, 6, SpanStyle::Plain),
            span(6, 7, SpanStyle::Plain),
            span(7, 8, SpanStyle::Number),
            span(8, 9, SpanStyle::Plain),
            span(9, 10, SpanStyle::Plain),
            span(10, 15, SpanStyle::Comment),
        ]
    );
}

#[test]
fn highlighting_words_strings_and_numbers() {
    assert_eq!(
        Highlighter::highlight("if true \"a\\\"b\" 3.14"),
        vec![
            span(0, 2, SpanStyle::Keyword),
            span(2, 3, SpanStyle::Plain),
            span(3, 7, SpanStyle::Constant),
            span(7, 8, SpanStyle::Plain),
            span(8, 14, SpanStyle::Text),
            span(14, 15, SpanStyle::Plain),
            span(15, 19, SpanStyle::Number),
        ]
    );
    assert_eq!(Highlighter::highlight("fiber"), vec![span(0, 5, SpanStyle::Keyword)]);
    assert_eq!(Highlighter::highlight("fiber:"), vec![span(0, 6, SpanStyle::TypeName)]);
    assert_eq!(Highlighter::highlight("array:i"), vec![span(0, 7, SpanStyle::Plain)]);
    assert_eq!(Highlighter::highlight("\"open"), vec![span(0, 5, SpanStyle::Text)]);
}

#[test]
fn highlighting_a_command_line_is_one_span() {
    assert_eq!(Highlighter::highlight("  !exec "), vec![span(0, 8, SpanStyle::Command)]);
    assert_eq!(source_spans(b"--"), vec![span(0, 1, SpanStyle::Plain), span(1, 2, SpanStyle::Plain)]);
    assert_eq!(Highlighter::highlight(""), Vec::<Span>::new());
}

#[test]
fn spans_cover_the_line() {
    let line = "for i in 1 to 10 do; >! \"x\"; --- note";
    let spans = Highlighter::highlight(line);
    assert_eq!(spans[0].start, 0);
    assert_eq!(spans.last().unwrap().end, line.len());
    for w in spans.windows(2) {
        assert_eq!(w[0].end, w[1].start);
    }
    for s in &spans {
        assert!(s.start < s.end);
    }
}

#[test]
fn bar_joined_options_read_as_separate_ones() {
    let joined = parse_command_line(&args(&["xcx", " --check |--th=9 ", "x.xcx"]));
    let apart = parse_command_line(&args(&["xcx", "--check", "--th=9", "x.xcx"]));
    assert_eq!(joined, apart);
    assert_eq!(joined, Ok(CliCommand::Run("x.xcx".to_string(), opts(false, false, true, false, 9))));
}

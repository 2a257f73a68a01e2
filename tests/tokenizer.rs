use script_ll::ast::{get_type, string_to_type, Types};
use script_ll::errors::Error;
use script_ll::lexer::{lex, Line};
use script_ll::text::{get_string_content, parse_count, rem_first_and_last, usize_text};

fn tokens(lines: &[Line]) -> Vec<Vec<String>> {
    lines.iter().map(|l| l.0.clone()).collect()
}

#[test]
fn literal_with_spaces_is_one_token() {
    let (lines, err) = lex("var x \"a b c\"".to_string());
    assert_eq!(err, Error::NoError);
    assert_eq!(tokens(&lines), vec![vec!["var".to_string(), "x".to_string(), "\"a b c\"".to_string()]]);
}

#[test]
fn lines_and_carriage_returns() {
    let (lines, err) = lex("  label .ENTRY\r\nprint 5\r\n\r\nprint_newline  ".to_string());
    assert_eq!(err, Error::NoError);
    assert_eq!(
        tokens(&lines),
        vec![
            vec!["label".to_string(), ".ENTRY".to_string()],
            vec!["print".to_string(), "5".to_string()],
            vec![],
            vec!["print_newline".to_string()],
        ]
    );
}

#[test]
fn repeated_spaces_give_no_empty_tokens() {
    let (lines, err) = lex("add   1    2".to_string());
    assert_eq!(err, Error::NoError);
    assert_eq!(tokens(&lines), vec![vec!["add".to_string(), "1".to_string(), "2".to_string()]]);
}

#[test]
fn unterminated_literal_is_a_lexing_error() {
    let (_, err) = lex("print 1\nprint \"abc".to_string());
    assert_eq!(
        err,
        Error::LexingError("\nCode:\n2 | print \"abc\nProblem: String was never ended".to_string())
    );
}

#[test]
fn blank_source_is_a_lexing_error() {
    let (lines, err) = lex(" \n\t \r\n ".to_string());
    assert!(lines.is_empty());
    assert_eq!(err, Error::LexingError("No code found".to_string()));
}

#[test]
fn classification_order() {
    assert_eq!(get_type("\"5\""), Types::String);
    assert_eq!(get_type("\"\""), Types::String);
    assert_eq!(get_type("\""), Types::Unknown);
    assert_eq!(get_type("0042"), Types::Number);
    assert_eq!(get_type("x_1"), Types::Identifier);
    assert_eq!(get_type("_"), Types::Identifier);
    assert_eq!(get_type("1x"), Types::Unknown);
    assert_eq!(get_type("-3"), Types::Unknown);
    assert_eq!(get_type("0.5"), Types::Unknown);
    assert_eq!(get_type(""), Types::Unknown);
}

#[test]
fn type_names() {
    assert_eq!(Types::Number.name(), "Number");
    assert_eq!(Types::Identifier.name(), "Identifier");
    assert_eq!(string_to_type("Number".to_string()), Ok(Types::Number));
    assert_eq!(string_to_type("String".to_string()), Ok(Types::String));
    assert_eq!(
        string_to_type("Identifier".to_string()),
        Err(Error::RuntimeError("Invalid type".to_string()))
    );
}

#[test]
fn string_content_strips_quotes_and_expands_newlines() {
    assert_eq!(rem_first_and_last("\"abc\""), "abc");
    assert_eq!(rem_first_and_last("x"), "");
    assert_eq!(rem_first_and_last(""), "");
    assert_eq!(get_string_content("\"a\\nb\"".to_string()), "a\nb");
    assert_eq!(get_string_content("\"\\\\n\"".to_string()), "\\\n");
    assert_eq!(get_string_content("\"é\"".to_string()), "é");
}

#[test]
fn decimal_text_and_counts() {
    assert_eq!(usize_text(0), "0");
    assert_eq!(usize_text(907), "907");
    assert_eq!(usize_text(usize::MAX), usize::MAX.to_string());
    assert_eq!(parse_count("0012"), Some(12));
    assert_eq!(parse_count(&usize::MAX.to_string()), Some(usize::MAX));
    assert_eq!(parse_count("99999999999999999999999"), None);
}

#[test]
fn fields_tokenize_line_by_line() {
    let (lines, err) = lex("replace_n \"a b\" \"b\" \" c \" 1\nprint \"x  y\"\n\ncomment w \"\" z".to_string());
    assert_eq!(err, Error::NoError);
    assert_eq!(
        tokens(&lines),
        vec![
            vec![
                "replace_n".to_string(),
                "\"a b\"".to_string(),
                "\"b\"".to_string(),
                "\" c \"".to_string(),
                "1".to_string(),
            ],
            vec!["print".to_string(), "\"x  y\"".to_string()],
            vec![],
            vec!["comment".to_string(), "w".to_string(), "\"\"".to_string(), "z".to_string()],
        ]
    );
}

#[test]
fn lone_carriage_return_ends_a_line() {
    let (lines, err) = lex("print 1\rprint 2\r\rprint \"a".to_string());
    assert_eq!(err, Error::LexingError("\nCode:\n4 | print \"a\nProblem: String was never ended".to_string()));
    assert_eq!(lines.len(), 4);
    let (lines, err) = lex("a\rb".to_string());
    assert_eq!(err, Error::NoError);
    assert_eq!(tokens(&lines), vec![vec!["a".to_string()], vec!["b".to_string()]]);
    let (lines, err) = lex("a\r\r\nb".to_string());
    assert_eq!(err, Error::NoError);
    assert_eq!(tokens(&lines), vec![vec!["a".to_string()], vec![], vec!["b".to_string()]]);
}

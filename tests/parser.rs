use codecrafters_shell::{ParsedCommand, Parser};

#[test]
fn and_with_backslash() {
    let mut parser = Parser::default();
    let input = r#"test\ \ \ "#;
    let result = parser.parse_input(input);
    let expected = "test   ".to_string();

    assert_eq!(
        result.cmd.expect("Cmd not found: {input}, {result.cmd}"),
        expected,
    );
}

#[test]
fn and_with_backslash_and_other_stuff() {
    let mut parser = Parser::default();
    let input = r#"test\'\'\'"#;
    let result = parser.parse_input(input);
    let expected = "test'''".to_string();
    assert_eq!(
        result.cmd.expect("Cmd not found: {input}, {result.cmd}"),
        expected
    );
}

#[test]
fn cmd_single_quoted_with_argument_outside_quotes() {
    let mut parser = Parser::default();
    let input = "'hellooooo    '      test";
    let result = parser.parse_input(input);
    let expected = ParsedCommand {
        cmd: Some("hellooooo    ".to_string()),
        args: Some(vec!["test".to_string()]),
        output: None,
        errorout: None,
    };
    assert_eq!(result, expected);
}

#[test]
fn single_quoted_cmd_and_separately_quoted_arg() {
    let mut parser = Parser::default();
    let input = "'hello''test'";
    let result = parser.parse_input(input);
    let expected = ParsedCommand {
        cmd: Some("hellotest".to_string()),
        args: None,
        output: None,
        errorout: None,
    };
    assert_eq!(result, expected);
}

#[test]
fn single_quoted_cmd() {
    let mut parser = Parser::default();
    let input = "'hello'";
    let result = parser.parse_input(input);
    let expected = ParsedCommand {
        cmd: Some("hello".to_string()),
        args: None,
        output: None,
        errorout: None,
    };
    assert_eq!(result, expected);
}

#[test]
fn single_quoted_two_word_cmd() {
    let mut parser = Parser::default();
    let input = "'hello world'";
    let result = parser.parse_input(input);
    let expected = ParsedCommand {
        cmd: Some("hello world".to_string()),
        args: None,
        output: None,
        errorout: None,
    };
    assert_eq!(result, expected);
}

#[test]
fn single_quoted_cmd_with_spaces() {
    let mut parser = Parser::default();
    let input = "'hello   '";
    let result = parser.parse_input(input);
    let expected = ParsedCommand {
        cmd: Some("hello   ".to_string()),
        args: None,
        output: None,
        errorout: None,
    };
    assert_eq!(result, expected);
}

#[test]
fn quoted_cmd_immediately_followed_by_char() {
    let mut parser = Parser::default();
    let input = "'hello's";
    let result = parser.parse_input(input);
    let expected = ParsedCommand {
        cmd: Some("hellos".to_string()),
        args: None,
        output: None,
        errorout: None,
    };
    assert_eq!(result, expected);
}

#[test]
fn multiple_quoted_and_unquoted_should_lead_to_cmd() {
    let mut parser = Parser::default();
    let input = "'hello  's'test  t'";
    let result = parser.parse_input(input);
    let expected = ParsedCommand {
        cmd: Some("hello  stest  t".to_string()),
        args: None,
        output: None,
        errorout: None,
    };
    assert_eq!(result, expected);
}

#[test]
fn mod_multiple_with_spaces() {
    let mut parser = Parser::default();
    let input = "'hellooo' s 'again   t'";
    let result = parser.parse_input(input);
    let expected = ParsedCommand {
        cmd: Some("hellooo".to_string()),
        args: Some(vec!["s".to_string(), "again   t".to_string()]),
        output: None,
        errorout: None,
    };
    assert_eq!(result, expected);
}

#[test]
fn odd_number_of_single_quotes() {
    let mut parser = Parser::default();
    let input = "'hellooo' s 'again   t";
    let result = parser.parse_input(input);
    let expected = ParsedCommand {
        cmd: Some("hellooo".to_string()),
        args: Some(vec!["s".to_string(), "again".to_string(), "t".to_string()]),
        output: None,
        errorout: None,
    };
    assert_eq!(result, expected);
}

#[test]
fn mod_simple_double_quotes() {
    let mut parser = Parser::default();
    let input = r#""\"hellooo\"""#;
    let result = parser.parse_input(input);
    let expected = ParsedCommand {
        cmd: Some(r#""hellooo""#.to_string()),
        args: None,
        output: None,
        errorout: None,
    };
    assert_eq!(result, expected);
}

#[test]
fn with_inside_whitespace_leads_to_cmd() {
    let mut parser = Parser::default();
    let input = r#""\"hellooo test\"""#;
    let result = parser.parse_input(input);
    let expected = ParsedCommand {
        cmd: Some(r#""hellooo test""#.to_string()),
        args: None,
        output: None,
        errorout: None,
    };
    assert_eq!(result, expected);
}

#[test]
fn with_single_quote_inside() {
    let mut parser = Parser::default();
    let input = r#""\"hellooo' test\"""#;
    let result = parser.parse_input(input);
    let expected = ParsedCommand {
        cmd: Some(r#""hellooo' test""#.to_string()),
        args: None,
        output: None,
        errorout: None,
    };
    assert_eq!(result, expected);
}

#[test]
fn mod_with_special_character_backslash() {
    let mut parser = Parser::default();
    let input = r#""\"hellooo \\ test\"""#;
    let result = parser.parse_input(input);
    let expected = ParsedCommand {
        cmd: Some(r#""hellooo \ test""#.to_string()),
        args: None,
        output: None,
        errorout: None,
    };
    assert_eq!(result, expected);
}

#[test]
fn mod_with_backslash_non_escaped() {
    let mut parser = Parser::default();
    let input = r#""\"hellooo \' test\"""#;
    let result = parser.parse_input(input);
    let expected = ParsedCommand {
        cmd: Some(r#""hellooo \' test""#.to_string()),
        args: None,
        output: None,
        errorout: None,
    };
    assert_eq!(result, expected);
}

#[test]
fn simple() {
    let mut parser = Parser::default();
    let input = "echo > test.txt";
    let result = parser.parse_input(input);
    let expected = ParsedCommand {
        cmd: Some("echo".to_string()),
        args: None,
        output: Some("test.txt".to_string()),
        errorout: None,
    };
    assert_eq!(result, expected);
}

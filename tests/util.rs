use codecrafters_shell::parse_args;

#[test]
fn util_backslash() {
    let input = r#"test\ \ \ "#;
    assert_eq!(vec!["test   "], parse_args(input));
}

#[test]
fn util_backslash_and_other_stuff() {
    let input = r#"test\'\'\'"#;
    assert_eq!(vec!["test'''"], parse_args(input));
}

#[test]
fn util_with_word_outside() {
    let input = "'hellooooo    '      test";
    assert_eq!(vec!["hellooooo    ", "test"], parse_args(input));
}

#[test]
fn util_double_quote_successive() {
    let input = "'hello''test'";
    assert_eq!(vec!["hellotest"], parse_args(input));
}

#[test]
fn util_basic() {
    let input = "'hello'";
    assert_eq!(vec!["hello"], parse_args(input));
}

#[test]
fn util_basic_two_words() {
    let input = "'hello world'";
    assert_eq!(vec!["hello world"], parse_args(input));
}

#[test]
fn util_single_with_spaces() {
    let input = "'hello   '";
    assert_eq!(vec!["hello   "], parse_args(input));
}

#[test]
fn util_multiple_without_space() {
    let input = "'hello's";
    assert_eq!(vec!["hellos"], parse_args(input));
}

#[test]
fn util_multiple() {
    let input = "'hello  's'test  t'";
    assert_eq!(vec!["hello  stest  t"], parse_args(input));
}

#[test]
fn util_multiple_with_spaces() {
    let input = "'hellooo' s 'again   t'";
    assert_eq!(vec!["hellooo", "s", "again   t"], parse_args(input));
}

#[test]
fn util_odd_number_of_ticks() {
    let input = "'hellooo' s 'again   t";
    assert_eq!(vec!["hellooo", "s", "again", "t"], parse_args(input));
}

#[test]
fn util_simple_double_quotes() {
    let input = r#""\"hellooo\"""#;
    assert_eq!(vec![r#""hellooo""#], parse_args(input));
}

#[test]
fn util_with_spacing() {
    let input = r#""\"hellooo test\"""#;
    assert_eq!(vec![r#""hellooo test""#], parse_args(input));
}

#[test]
fn util_with_single_quote() {
    let input = r#""\"hellooo' test\"""#;
    assert_eq!(vec![r#""hellooo' test""#], parse_args(input));
}

#[test]
fn util_with_special_character_backslash() {
    let input = r#""\"hellooo \\ test\"""#;
    assert_eq!(vec![r#""hellooo \ test""#], parse_args(input));
}

#[test]
fn util_with_backslash_non_escaped() {
    let input = r#""\"hellooo \' test\"""#;
    assert_eq!(vec![r#""hellooo \' test""#], parse_args(input));
}

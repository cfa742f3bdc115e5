use mock_me::delimited;
use mock_me::macro_helper::{
    get_inject_matches, get_mock_matches, InjectMatch, MockMatch, ParseError,
};

fn inject(identifier: &str, function_to_mock: &str) -> InjectMatch {
    InjectMatch {
        identifier: identifier.to_string(),
        function_to_mock: function_to_mock.to_string(),
    }
}

fn mock(identifier: &str, function_to_mock: &str, function_signature: &str) -> MockMatch {
    MockMatch {
        identifier: identifier.to_string(),
        function_to_mock: function_to_mock.to_string(),
        function_signature: function_signature.to_string(),
    }
}

#[test]
fn inject_macro_values_should_parse_correctly() {
    let token_string = r#"id_1 = "db_fake" , id_2 = "other_fake""#;

    let inject_matches = get_inject_matches(token_string);
    assert_eq!(
        inject_matches,
        Ok(vec![inject("id_1", "db_fake"), inject("id_2", "other_fake")])
    );
}

#[test]
fn mock_macro_values_should_parse_correctly() {
    let token_string = r#"
            id_1 = "external_db_call: fn(u32) -> String" , id_2 =
            "other_call: fn() -> String" "#;

    let mock_matches = get_mock_matches(token_string);
    assert_eq!(
        mock_matches,
        Ok(vec![
            mock("id_1", "external_db_call", "fn(u32) -> String"),
            mock("id_2", "other_call", "fn() -> String"),
        ])
    );
}

#[test]
fn macro_helper_inject_macro_values_should_parse_correctly() {
    let token_string = r#"( id_1 = "db_fake" , id_2 = "other_fake" )"#;

    let inject_matches = delimited::get_inject_matches(token_string);
    assert_eq!(
        inject_matches,
        Ok(vec![inject("id_1", "db_fake"), inject("id_2", "other_fake")])
    );
}

#[test]
fn macro_helper_mock_macro_values_should_parse_correctly() {
    let token_string = r#"(
            id_1 = "external_db_call: fn(u32) -> String" , id_2 =
            "other_call: fn() -> String" )"#;

    let mock_matches = delimited::get_mock_matches(token_string);
    assert_eq!(
        mock_matches,
        Ok(vec![
            mock("id_1", "external_db_call", "fn(u32) -> String"),
            mock("id_2", "other_call", "fn() -> String"),
        ])
    );
}

#[test]
fn inject_list_keeps_order() {
    assert_eq!(
        get_inject_matches(r#"id_1="a", id_2="b""#),
        Ok(vec![inject("id_1", "a"), inject("id_2", "b")])
    );
    assert_eq!(
        get_inject_matches(r#"id_2="b", id_1="a""#),
        Ok(vec![inject("id_2", "b"), inject("id_1", "a")])
    );
}

#[test]
fn mock_single_item() {
    assert_eq!(
        get_mock_matches(r#"id_1="f: fn(u32) -> String""#),
        Ok(vec![mock("id_1", "f", "fn(u32) -> String")])
    );
}

#[test]
fn whitespace_between_tokens_is_insignificant() {
    let spaced = get_inject_matches("id_1 = \"a\" , id_2 = \"b\"");
    let tight = get_inject_matches("id_1=\"a\",id_2=\"b\"");
    assert_eq!(spaced, tight);
    assert_eq!(spaced, Ok(vec![inject("id_1", "a"), inject("id_2", "b")]));
}

#[test]
fn tabs_newlines_and_no_break_spaces_are_whitespace() {
    let r = get_inject_matches("\t id_1\u{a0}=\n\"a\"\r\n,\u{3000}id_2 =\"b\" \u{2028}");
    assert_eq!(r, Ok(vec![inject("id_1", "a"), inject("id_2", "b")]));
}

#[test]
fn mock_signature_is_kept_verbatim() {
    assert_eq!(
        get_mock_matches("id_1 = \"f :   fn(a: u8,  b: u8) -> u8 \""),
        Ok(vec![mock("id_1", "f", "fn(a: u8,  b: u8) -> u8 ")])
    );
    assert_eq!(get_mock_matches("k=\"f:\""), Ok(vec![mock("k", "f", "")]));
}

#[test]
fn empty_input_yields_no_records() {
    assert_eq!(get_inject_matches(""), Ok(vec![]));
    assert_eq!(get_mock_matches(""), Ok(vec![]));
    assert_eq!(get_inject_matches("  \n\t "), Ok(vec![]));
    assert_eq!(get_mock_matches(" \r\n "), Ok(vec![]));
}

#[test]
fn dangling_separator_is_accepted() {
    assert_eq!(get_inject_matches("id_1=\"a\","), Ok(vec![inject("id_1", "a")]));
    assert_eq!(get_inject_matches("id_1=\"a\" ,  "), Ok(vec![inject("id_1", "a")]));
    assert_eq!(get_mock_matches("k=\"f: fn()\","), Ok(vec![mock("k", "f", "fn()")]));
}

#[test]
fn missing_equals_fails() {
    assert_eq!(get_inject_matches("id_1 \"a\""), Err(ParseError { position: 5 }));
    assert_eq!(get_mock_matches("id_1 \"f: fn()\""), Err(ParseError { position: 5 }));
}

#[test]
fn missing_closing_quote_fails() {
    assert_eq!(get_inject_matches("id_1 = \"a"), Err(ParseError { position: 9 }));
    assert_eq!(get_inject_matches("id_1 = \"a, id_2 = \"b\""), Err(ParseError { position: 9 }));
    assert_eq!(get_mock_matches("id_1 = \"f: fn()"), Err(ParseError { position: 15 }));
}

#[test]
fn missing_colon_in_mock_item_fails() {
    assert_eq!(get_mock_matches("id_1 = \"f fn()\""), Err(ParseError { position: 10 }));
    assert_eq!(get_mock_matches("id_1 = \"f\""), Err(ParseError { position: 9 }));
}

#[test]
fn missing_opening_quote_fails() {
    assert_eq!(get_inject_matches("id_1 = a\""), Err(ParseError { position: 7 }));
}

#[test]
fn empty_identifier_or_name_fails() {
    assert_eq!(get_inject_matches(" = \"a\""), Err(ParseError { position: 1 }));
    assert_eq!(get_inject_matches("k = \"\""), Err(ParseError { position: 5 }));
    assert_eq!(get_mock_matches("k = \": fn()\""), Err(ParseError { position: 5 }));
}

#[test]
fn text_after_an_item_without_separator_fails() {
    assert_eq!(get_inject_matches("a=\"b\" c=\"d\""), Err(ParseError { position: 6 }));
    assert_eq!(get_inject_matches("a=\"b\",,"), Err(ParseError { position: 6 }));
}

#[test]
fn non_word_characters_end_a_name() {
    assert_eq!(get_inject_matches("a-b=\"c\""), Err(ParseError { position: 1 }));
    assert_eq!(get_inject_matches("a=\"c.d\""), Err(ParseError { position: 4 }));
}

#[test]
fn delimited_lists_need_their_parentheses() {
    assert_eq!(delimited::get_inject_matches(""), Err(ParseError { position: 0 }));
    assert_eq!(delimited::get_inject_matches("a=\"b\""), Err(ParseError { position: 0 }));
    assert_eq!(delimited::get_inject_matches("(a=\"b\""), Err(ParseError { position: 6 }));
    assert_eq!(delimited::get_mock_matches("("), Err(ParseError { position: 1 }));
    assert_eq!(delimited::get_inject_matches("()"), Ok(vec![]));
    assert_eq!(delimited::get_mock_matches("( )"), Ok(vec![]));
}

#[test]
fn delimited_errors_count_from_the_opening_parenthesis() {
    assert_eq!(delimited::get_inject_matches("(a \"b\")"), Err(ParseError { position: 3 }));
    assert_eq!(delimited::get_mock_matches("(a=\"b\")"), Err(ParseError { position: 5 }));
}

#[test]
fn positions_count_characters() {
    assert_eq!(get_inject_matches("é"), Err(ParseError { position: 0 }));
    assert_eq!(get_inject_matches("ab é"), Err(ParseError { position: 3 }));
    assert_eq!(
        get_mock_matches("k = \"f: fn(é) -> ü\""),
        Ok(vec![mock("k", "f", "fn(é) -> ü")])
    );
}

use cat_lang::utils::{extract_digits, extract_id, extract_op, extract_whitespaces_1, tag};

#[test]
fn utils_extract_one_digit() {
    assert_eq!(extract_digits("1+2"), Ok(("+2", "1")));
}

#[test]
fn utils_extract_multiple_digits() {
    assert_eq!(extract_digits("10-20"), Ok(("-20", "10")));
}

#[test]
fn do_not_extract_anything_when_input_is_invalid() {
    assert_eq!(extract_digits(""), Err(String::from("Expected digits: ``")));
    assert_eq!(
        extract_digits("abc"),
        Err(String::from("Expected digits: `abc`"))
    );
}

#[test]
fn utils_extract_digits_with_no_remainder() {
    assert_eq!(extract_digits("100"), Ok(("", "100")));
}

#[test]
fn extract_spaces_at_start_of_string() {
    assert_eq!(extract_whitespaces_1("   234a"), Ok(("234a", "   ")));
    assert_eq!(
        extract_whitespaces_1("   \nabc123"),
        Ok(("abc123", "   \n"))
    );
}

#[test]
fn fails_to_extract_spaces_when_they_are_not_required() {
    assert_eq!(
        extract_whitespaces_1("blah"),
        Err("Expected space".to_string())
    )
}

#[test]
fn utils_extract_operations() {
    assert_eq!(extract_op("+12"), ("12", "+"));
    assert_eq!(extract_op("-45"), ("45", "-"));
    assert_eq!(extract_op("*23"), ("23", "*"));
    assert_eq!(extract_op("/10"), ("10", "/"));
}

#[test]
fn utils_extract_alphanumeric_unicode_identifiers_but_not_emojis() {
    assert_eq!(extract_id("id   stop"), Ok(("   stop", "id")));
    assert_eq!(extract_id("id123()"), Ok(("()", "id123")));
    assert_eq!(extract_id("id_one(50)"), Ok(("(50)", "id_one")));
    assert_eq!(extract_id("idOne = 23"), Ok((" = 23", "idOne")));
    assert_eq!(
        extract_id("id_\u{611b}; 1+1"),
        Ok(("; 1+1", "id_\u{611b}"))
    );
    assert_eq!(
        extract_id("s\u{f3}\u{1f4a3}   stop"),
        Ok(("\u{1f4a3}   stop", "s\u{f3}"))
    );
}

#[test]
fn fail_to_extract_ids_starting_with_numbers() {
    assert_eq!(
        extract_id("1abc = 25"),
        Err("Identifier expected: `1abc = 25`".to_string())
    );
    assert_eq!(
        extract_id("123abc = 10"),
        Err("Identifier expected: `123abc = 10`".to_string())
    );
    assert_eq!(
        extract_id("123abc(var)"),
        Err("Identifier expected: `123abc(var)`".to_string())
    );
}

#[test]
fn utils_tag_word() {
    assert_eq!(tag("let", "let a"), Ok(" a"));
    assert_eq!(tag("=", "= 10"), Ok(" 10"));
}

#[test]
fn fails_to_tag_word_if_string_does_not_start_with_given_substr() {
    assert_eq!(
        tag("let", "cat a"),
        Err("Expected `let` not found in `cat a`".to_string())
    )
}

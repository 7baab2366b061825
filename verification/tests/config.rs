use aws_macros::expr::{
    is_word_char, parse, read_string_setting, read_word_setting, same_text, weigh, ConfigError,
    Expr, Operand, MAX_PARSED_LENGTH, MAX_PARSED_WEIGHT,
};

fn string_setting_of(tokens: &str, key: &str) -> Result<String, ConfigError> {
    read_string_setting(parse(tokens), key)
}

fn word_setting_of(tokens: &str, key: &str) -> Result<String, ConfigError> {
    read_word_setting(parse(tokens), key)
}

#[test]
fn word_setting_reads_the_identifier_on_the_right() {
    assert_eq!(word_setting_of("translate = serde", "translate"), Ok("serde".to_string()));
    assert_eq!(
        word_setting_of("translate = transparent", "translate"),
        Ok("transparent".to_string())
    );
    assert_eq!(word_setting_of("translate=bogus", "translate"), Ok("bogus".to_string()));
}

#[test]
fn string_setting_reads_the_value_of_the_literal() {
    assert_eq!(string_setting_of("rename = \"bee\"", "rename"), Ok("bee".to_string()));
    assert_eq!(string_setting_of("key = \"a b\"", "key"), Ok("a b".to_string()));
}

#[test]
fn string_setting_gives_the_denoted_string_not_the_source() {
    assert_eq!(string_setting_of(r#"key = "a\"b\\c\n""#, "key"), Ok("a\"b\\c\n".to_string()));
    assert_eq!(string_setting_of(r##"key = r#"x"y"#"##, "key"), Ok("x\"y".to_string()));
}

#[test]
fn text_that_is_no_expression_is_refused() {
    assert_eq!(word_setting_of("translate = = serde", "translate"), Err(ConfigError::NotExpression));
    assert_eq!(string_setting_of("", "key"), Err(ConfigError::NotExpression));
    assert_eq!(string_setting_of("key = \"a\" extra", "key"), Err(ConfigError::NotExpression));
    assert_eq!(string_setting_of("key = \"a", "key"), Err(ConfigError::NotExpression));
}

#[test]
fn an_expression_that_is_no_assignment_is_refused() {
    assert_eq!(word_setting_of("translate", "translate"), Err(ConfigError::NotAssignment));
    assert_eq!(word_setting_of("translate(serde)", "translate"), Err(ConfigError::NotAssignment));
    assert_eq!(string_setting_of("key == \"a\"", "key"), Err(ConfigError::NotAssignment));
}

#[test]
fn a_left_side_that_is_no_path_is_refused() {
    assert_eq!(word_setting_of("\"translate\" = serde", "translate"), Err(ConfigError::LeftNotPath));
    assert_eq!(string_setting_of("1 = \"a\"", "key"), Err(ConfigError::LeftNotPath));
}

#[test]
fn another_key_is_refused() {
    assert_eq!(word_setting_of("translator = serde", "translate"), Err(ConfigError::InvalidKey));
    assert_eq!(string_setting_of("rename = \"a\"", "key"), Err(ConfigError::InvalidKey));
    assert_eq!(string_setting_of("key = \"a\"", "rename"), Err(ConfigError::InvalidKey));
}

#[test]
fn a_key_that_is_no_bare_identifier_is_refused() {
    assert_eq!(word_setting_of("a::translate = serde", "translate"), Err(ConfigError::InvalidKey));
    assert_eq!(word_setting_of("::translate = serde", "translate"), Err(ConfigError::InvalidKey));
    assert_eq!(string_setting_of("key::<u8> = \"a\"", "key"), Err(ConfigError::InvalidKey));
}

#[test]
fn the_left_side_is_judged_before_the_right() {
    assert_eq!(word_setting_of("other = 1", "translate"), Err(ConfigError::InvalidKey));
    assert_eq!(string_setting_of("1 = 2", "key"), Err(ConfigError::LeftNotPath));
}

#[test]
fn a_word_must_be_an_identifier() {
    assert_eq!(word_setting_of("translate = \"serde\"", "translate"), Err(ConfigError::RightNotPath));
    assert_eq!(word_setting_of("translate = 1", "translate"), Err(ConfigError::RightNotPath));
    assert_eq!(word_setting_of("translate = a::serde", "translate"), Err(ConfigError::InvalidKey));
}

#[test]
fn a_string_must_be_a_string_literal() {
    assert_eq!(string_setting_of("key = 1", "key"), Err(ConfigError::RightNotString));
    assert_eq!(string_setting_of("key = b\"a\"", "key"), Err(ConfigError::RightNotString));
    assert_eq!(string_setting_of("key = 'a'", "key"), Err(ConfigError::RightNotString));
    assert_eq!(string_setting_of("key = value", "key"), Err(ConfigError::RightNotLiteral));
    assert_eq!(string_setting_of("key = f(\"a\")", "key"), Err(ConfigError::RightNotLiteral));
}

#[test]
fn a_parse_result_is_read_without_parsing() {
    let parsed = Some(Expr::Assign(Operand::Ident("key".to_string()), Operand::Str("id".to_string())));
    assert_eq!(read_string_setting(parsed, "key"), Ok("id".to_string()));
    let parsed = Some(Expr::Assign(Operand::Ident("translate".to_string()), Operand::Ident("manual".to_string())));
    assert_eq!(read_word_setting(parsed, "translate"), Ok("manual".to_string()));
    assert_eq!(read_word_setting(Some(Expr::Other), "translate"), Err(ConfigError::NotAssignment));
    assert_eq!(read_string_setting(None, "key"), Err(ConfigError::NotExpression));
    let parsed = Some(Expr::Assign(Operand::Other, Operand::Str("id".to_string())));
    assert_eq!(read_string_setting(parsed, "key"), Err(ConfigError::LeftNotPath));
    let parsed = Some(Expr::Assign(Operand::Path, Operand::Str("id".to_string())));
    assert_eq!(read_string_setting(parsed, "key"), Err(ConfigError::InvalidKey));
    let parsed = Some(Expr::Assign(Operand::Ident("key".to_string()), Operand::Lit));
    assert_eq!(read_string_setting(parsed, "key"), Err(ConfigError::RightNotString));
    let parsed = Some(Expr::Assign(Operand::Ident("key".to_string()), Operand::Other));
    assert_eq!(read_string_setting(parsed, "key"), Err(ConfigError::RightNotLiteral));
    let parsed = Some(Expr::Assign(Operand::Ident("translate".to_string()), Operand::Lit));
    assert_eq!(read_word_setting(parsed, "translate"), Err(ConfigError::RightNotPath));
}

#[test]
fn same_text_compares_characters() {
    assert!(same_text("tag", "tag"));
    assert!(!same_text("tag", "tags"));
    assert!(!same_text("Tag", "tag"));
    assert!(same_text("", ""));
}

#[test]
fn messages_name_the_place() {
    assert_eq!(ConfigError::NotAssignment.message("macro attribute"), "invalid expression in macro attribute");
    assert_eq!(
        ConfigError::LeftNotPath.message("tag field attribute"),
        "invalid expression in tag field attribute, left side"
    );
    assert_eq!(ConfigError::InvalidKey.message("enum variant attribute"), "invalid key in enum variant attribute");
    assert_eq!(
        ConfigError::RightNotPath.message("macro attribute"),
        "invalid expression in macro attribute, right side"
    );
    assert_eq!(
        ConfigError::RightNotLiteral.message("tag field attribute"),
        "invalid expression in tag field attribute, right side"
    );
    assert_eq!(ConfigError::RightNotString.message("tag field attribute"), "invalid literal in tag field attribute");
    assert_eq!(
        ConfigError::NotExpression.message("macro attribute"),
        "expected expression in macro attribute"
    );
}

#[test]
fn parse_keeps_the_shape_of_an_assignment() {
    assert_eq!(
        parse("translate = serde"),
        Some(Expr::Assign(Operand::Ident("translate".to_string()), Operand::Ident("serde".to_string())))
    );
    assert_eq!(
        parse("key = \"a\\tb\""),
        Some(Expr::Assign(Operand::Ident("key".to_string()), Operand::Str("a\tb".to_string())))
    );
    assert_eq!(parse("a::b = 1"), Some(Expr::Assign(Operand::Path, Operand::Lit)));
    assert_eq!(parse("f(x) = -1"), Some(Expr::Assign(Operand::Other, Operand::Other)));
    assert_eq!(parse("translate"), Some(Expr::Other));
    assert_eq!(parse("a +"), None);
    assert_eq!(parse(""), None);
}

#[test]
fn the_weight_counts_what_can_begin_a_token() {
    assert_eq!(weigh(""), 0);
    assert_eq!(weigh("   "), 0);
    assert_eq!(weigh("translate"), 1);
    assert_eq!(weigh("translate = serde"), 3);
    assert_eq!(weigh("key = \"a b c\""), 7);
    assert_eq!(weigh("a_1 b2 _c"), 3);
    assert_eq!(weigh("((x))"), 5);
    assert_eq!(weigh("!!x"), 3);
    assert_eq!(weigh("a::b"), 4);
    assert_eq!(weigh("\u{e9}t\u{e9}"), 3);
    assert_eq!(weigh("a\tb"), 3);
}

#[test]
fn a_word_is_made_of_basic_letters_digits_and_underscores() {
    for c in ['a', 'z', 'A', 'Z', '0', '9', '_', 'm', 'Q', '5'] {
        assert!(is_word_char(c));
    }
    for c in [' ', '-', '=', '"', '(', '\u{e9}', '`', '{', '@', '[', '/', ':', '\n'] {
        assert!(!is_word_char(c));
    }
}

#[test]
fn text_longer_than_the_limit_is_not_parsed() {
    let value = "a".repeat(MAX_PARSED_LENGTH - 8);
    let longest = format!("key = \"{}\"", value);
    assert_eq!(longest.chars().count(), MAX_PARSED_LENGTH);
    assert_eq!(string_setting_of(&longest, "key"), Ok(value));
    let longer = format!("key = \"{}\"", "a".repeat(MAX_PARSED_LENGTH - 7));
    assert_eq!(parse(&longer), None);
    assert_eq!(string_setting_of(&longer, "key"), Err(ConfigError::NotExpression));
}

#[test]
fn text_heavier_than_the_limit_is_not_parsed() {
    let heaviest = format!("{}x", "!".repeat(MAX_PARSED_WEIGHT - 1));
    assert_eq!(weigh(&heaviest), MAX_PARSED_WEIGHT);
    assert_eq!(parse(&heaviest), Some(Expr::Other));
    let heavier = format!("{}x", "!".repeat(MAX_PARSED_WEIGHT));
    assert_eq!(weigh(&heavier), MAX_PARSED_WEIGHT + 1);
    assert_eq!(parse(&heavier), None);
    let words = format!("key = \"{}\"", "a ".repeat(MAX_PARSED_WEIGHT));
    assert_eq!(string_setting_of(&words, "key"), Err(ConfigError::NotExpression));
}

#[test]
fn the_deepest_text_within_the_limit_is_parsed() {
    let w = MAX_PARSED_WEIGHT;
    let texts = vec![
        format!("{}1{}", "(".repeat((w - 1) / 2), ")".repeat((w - 1) / 2)),
        format!("{}1{}", "[".repeat((w - 1) / 2), "]".repeat((w - 1) / 2)),
        format!("{}1{}", "{".repeat((w - 1) / 2), "}".repeat((w - 1) / 2)),
        format!("{}1{}", "({".repeat((w - 1) / 4), "})".repeat((w - 1) / 4)),
        format!("{}1{}", "f(".repeat((w - 1) / 3), ")".repeat((w - 1) / 3)),
        format!("{}1{}", "unsafe{".repeat((w - 1) / 3), "}".repeat((w - 1) / 3)),
        format!("{}b{}", "a::<".repeat((w - 1) / 5), ">".repeat((w - 1) / 5)),
        format!("{}x", "!".repeat(w - 1)),
        format!("{}x", "-".repeat(w - 1)),
        format!("{}x", "*".repeat(w - 1)),
        format!("{}x", "&".repeat(w - 1)),
        format!("{}x", "return ".repeat(w - 1)),
        format!("{}x", "||".repeat((w - 1) / 2)),
        format!("a{}", ".b".repeat((w - 1) / 2)),
        format!("1{}", "+1".repeat((w - 1) / 2)),
        format!("a{}", "?".repeat(w - 1)),
    ];
    for text in texts {
        assert!(weigh(&text) <= w);
        assert_eq!(parse(&text), Some(Expr::Other));
    }
    let assignments = format!("{}b", "a=".repeat((w - 1) / 2));
    assert!(weigh(&assignments) <= w);
    assert!(matches!(parse(&assignments), Some(Expr::Assign(_, _))));
}

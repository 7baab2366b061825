use aws_macros::syntax::{Attribute, Meta};
use aws_macros::text::{attr_refs, render_attrs, string_literal};

#[test]
fn a_plain_string_stands_between_quotes() {
    assert_eq!(string_literal("id"), "\"id\"");
    assert_eq!(string_literal(""), "\"\"");
    assert_eq!(string_literal("a b-c"), "\"a b-c\"");
}

#[test]
fn quotes_and_backslashes_are_escaped() {
    assert_eq!(string_literal("a\"b"), "\"a\\\"b\"");
    assert_eq!(string_literal("a\\b"), "\"a\\\\b\"");
    assert_eq!(string_literal("\\\""), "\"\\\\\\\"\"");
}

#[test]
fn control_characters_are_escaped() {
    assert_eq!(string_literal("a\nb"), "\"a\\nb\"");
    assert_eq!(string_literal("a\rb"), "\"a\\rb\"");
    assert_eq!(string_literal("a\tb"), "\"a\\tb\"");
    assert_eq!(string_literal("a\0b"), "\"a\\0b\"");
}

#[test]
fn printing_characters_of_the_basic_alphabet_stand_for_themselves() {
    assert_eq!(string_literal(" !#$%&'()*+,-./09:;<=>?@AZ[]^_`az{|}~"), "\" !#$%&'()*+,-./09:;<=>?@AZ[]^_`az{|}~\"");
}

#[test]
fn every_other_character_is_written_with_the_six_digits_of_its_code() {
    assert_eq!(string_literal("\u{e9}"), "\"\\u{0000e9}\"");
    assert_eq!(string_literal("\u{1b}"), "\"\\u{00001b}\"");
    assert_eq!(string_literal("\u{7f}"), "\"\\u{00007f}\"");
    assert_eq!(string_literal("\u{1}"), "\"\\u{000001}\"");
    assert_eq!(string_literal("\u{202e}"), "\"\\u{00202e}\"");
    assert_eq!(string_literal("\u{65e5}\u{672c}"), "\"\\u{0065e5}\\u{00672c}\"");
    assert_eq!(string_literal("\u{1f600}"), "\"\\u{01f600}\"");
    assert_eq!(string_literal("\u{10ffff}"), "\"\\u{10ffff}\"");
    assert_eq!(string_literal("a\u{e9}b"), "\"a\\u{0000e9}b\"");
}

#[test]
fn the_literal_denotes_the_string() {
    let strings = [
        "id",
        "",
        "a\"b",
        "a\\b",
        "a\nb\r\n\t\0",
        "\u{e9}'\u{df}{}",
        "\u{65e5}\u{672c}\u{8a9e} \\\" \\n",
        "\\u{41}",
        "'",
        "\u{1}\u{1b}\u{7f}\u{80}\u{9f}",
        "\u{202e}\u{2066}\u{200b}\u{feff}",
        "\u{1f600}\u{10ffff}\u{d7ff}\u{e000}",
        "\0007",
    ];
    for string in strings {
        let literal = string_literal(string);
        let parsed: syn::LitStr = syn::parse_str(&literal).unwrap();
        assert_eq!(parsed.value(), string);
    }
}

#[test]
fn every_character_comes_back_from_its_literal() {
    let mut code = 0u32;
    while code < 0x11_0000 {
        if let Some(c) = char::from_u32(code) {
            let string = format!("a{}b", c);
            let parsed: syn::LitStr = syn::parse_str(&string_literal(&string)).unwrap();
            assert_eq!(parsed.value(), string);
        }
        code += if code < 0x300 { 1 } else { 0x101 };
    }
}

#[test]
fn the_literal_holds_only_printing_characters_of_the_basic_alphabet() {
    let literal = string_literal("a\u{e9}\n\u{202e}\u{1f600}\u{7f}~ \"\\");
    assert!(literal.chars().all(|c| (' '..='~').contains(&c)));
}

fn attr(tokens: &str) -> Attribute {
    Attribute { outer: true, meta: Meta::Path, tokens: tokens.to_string() }
}

#[test]
fn attributes_are_written_one_to_a_line() {
    let attrs = vec![attr("#[a]"), attr("#[b(c)]")];
    assert_eq!(render_attrs(&attr_refs(&attrs)), "#[a]\n#[b(c)]\n");
    assert_eq!(render_attrs(&attr_refs(&Vec::new())), "");
}

#[test]
fn attr_refs_refers_to_every_attribute_in_order() {
    let attrs = vec![attr("#[a]"), attr("#[b]"), attr("#[c]")];
    let refs = attr_refs(&attrs);
    assert_eq!(refs.len(), 3);
    assert_eq!(refs[0], &attrs[0]);
    assert_eq!(refs[1], &attrs[1]);
    assert_eq!(refs[2], &attrs[2]);
}

//! Writing source text.
//!
//! An expansion is written as Rust source text. A string that the
//! expansion holds (a tag key, the name that stands for a variant) is
//! written as a string literal that denotes it.
//!
//! The literal is spelled here, character by character, and not taken
//! from a token library. Such a library spells a literal with the tables
//! of the toolchain that it was built with, and otherwise inside a macro
//! expansion than in any other process, so that the text of an expansion
//! could not be stated. What a literal has to do is stated and proved
//! instead: it denotes the string, and it holds only printing characters
//! of the basic alphabet.

use crate::syntax::{Attribute, AttributeView, Text};
use vstd::prelude::*;
use vstd::string::*;

verus! {

/// The digit that stands for `n` in base sixteen, for `n` below sixteen.
pub open spec fn hex_digit(n: int) -> char {
    if n == 0 {
        '0'
    } else if n == 1 {
        '1'
    } else if n == 2 {
        '2'
    } else if n == 3 {
        '3'
    } else if n == 4 {
        '4'
    } else if n == 5 {
        '5'
    } else if n == 6 {
        '6'
    } else if n == 7 {
        '7'
    } else if n == 8 {
        '8'
    } else if n == 9 {
        '9'
    } else if n == 10 {
        'a'
    } else if n == 11 {
        'b'
    } else if n == 12 {
        'c'
    } else if n == 13 {
        'd'
    } else if n == 14 {
        'e'
    } else {
        'f'
    }
}

/// The number that a digit of base sixteen stands for.
pub open spec fn hex_value(c: char) -> Option<int> {
    if '0' <= c && c <= '9' {
        Some(c as int - '0' as int)
    } else if 'a' <= c && c <= 'f' {
        Some(c as int - 'a' as int + 10)
    } else {
        None
    }
}

/// The six digits of `n` in base sixteen, for `n` below sixteen to the
/// sixth.
pub open spec fn code_digits(n: int) -> Text {
    seq![
        hex_digit(n / 0x100000 % 16),
        hex_digit(n / 0x10000 % 16),
        hex_digit(n / 0x1000 % 16),
        hex_digit(n / 0x100 % 16),
        hex_digit(n / 0x10 % 16),
        hex_digit(n % 16),
    ]
}

/// The number that six digits of base sixteen stand for, if they are
/// such digits.
pub open spec fn code_value(digits: Text) -> Option<int>
    recommends
        digits.len() == 6,
{
    match (
        hex_value(digits[0]),
        hex_value(digits[1]),
        hex_value(digits[2]),
        hex_value(digits[3]),
        hex_value(digits[4]),
        hex_value(digits[5]),
    ) {
        (Some(a), Some(b), Some(c), Some(d), Some(e), Some(f)) => Some(
            a * 0x100000 + b * 0x10000 + c * 0x1000 + d * 0x100 + e * 0x10 + f,
        ),
        _ => None,
    }
}

/// Whether `c` stands for itself inside a string literal: a printing
/// character of the basic alphabet other than the double quote and the
/// backslash.
pub open spec fn is_plain(c: char) -> bool {
    ' ' <= c && c <= '~' && c != '"' && c != '\\'
}

/// How one character of a string is written inside a string literal.
///
/// A plain character stands for itself. A double quote, a backslash, a
/// line feed, a carriage return, a tab and the character zero are written
/// as a backslash and a second character. Every other character is
/// written as `\u{..}` with the six digits of its code, so that a literal
/// holds nothing but plain characters.
pub open spec fn escaped_char(c: char) -> Text {
    if c == '"' {
        seq!['\\', '"']
    } else if c == '\\' {
        seq!['\\', '\\']
    } else if c == '\n' {
        seq!['\\', 'n']
    } else if c == '\r' {
        seq!['\\', 'r']
    } else if c == '\t' {
        seq!['\\', 't']
    } else if c == '\0' {
        seq!['\\', '0']
    } else if is_plain(c) {
        seq![c]
    } else {
        seq!['\\', 'u', '{'] + code_digits(c as int) + seq!['}']
    }
}

/// The characters of `value`, each written as inside a string literal.
pub open spec fn escaped(value: Text) -> Text
    decreases value.len(),
{
    if value.len() == 0 {
        Seq::empty()
    } else {
        escaped(value.drop_last()) + escaped_char(value.last())
    }
}

/// The string literal that denotes `value`: its characters, escaped,
/// between double quotes.
pub open spec fn literal_of(value: Text) -> Text {
    seq!['"'] + escaped(value) + seq!['"']
}

/// The character that a backslash and `c` denote inside a string
/// literal, for the two-character escapes that `escaped_char` writes.
pub open spec fn unescaped_char(c: char) -> Option<char> {
    if c == '"' {
        Some('"')
    } else if c == '\\' {
        Some('\\')
    } else if c == 'n' {
        Some('\n')
    } else if c == 'r' {
        Some('\r')
    } else if c == 't' {
        Some('\t')
    } else if c == '0' {
        Some('\0')
    } else {
        None
    }
}

/// The character that `\u{..}` at the start of `body` denotes, if six
/// digits stand between the braces.
pub open spec fn unicode_escape(body: Text) -> Option<char> {
    if body.len() >= 10 && body[2] == '{' && body[9] == '}' {
        match code_value(body.subrange(3, 9)) {
            Some(n) => Some(n as char),
            None => None,
        }
    } else {
        None
    }
}

/// The string that the text between the quotes of a string literal
/// denotes, read from the left; nothing when the text holds a bare double
/// quote, ends in a backslash or holds an escape that is not written here.
pub open spec fn denoted_by_body(body: Text) -> Option<Text>
    decreases body.len(),
{
    if body.len() == 0 {
        Some(Seq::empty())
    } else if body[0] == '"' {
        None
    } else if body[0] == '\\' {
        if body.len() < 2 {
            None
        } else if body[1] == 'u' {
            match unicode_escape(body) {
                Some(c) => match denoted_by_body(body.skip(10)) {
                    Some(rest) => Some(seq![c] + rest),
                    None => None,
                },
                None => None,
            }
        } else {
            match (unescaped_char(body[1]), denoted_by_body(body.skip(2))) {
                (Some(c), Some(rest)) => Some(seq![c] + rest),
                _ => None,
            }
        }
    } else {
        match denoted_by_body(body.skip(1)) {
            Some(rest) => Some(seq![body[0]] + rest),
            None => None,
        }
    }
}

/// The string that a string literal denotes.
pub open spec fn denoted_by(literal: Text) -> Option<Text> {
    if literal.len() >= 2 && literal[0] == '"' && literal.last() == '"' {
        denoted_by_body(literal.subrange(1, literal.len() - 1))
    } else {
        None
    }
}

/// Escaping goes character by character.
pub proof fn lemma_escaped_concat(first: Text, second: Text)
    ensures
        escaped(first + second) == escaped(first) + escaped(second),
    decreases second.len(),
{
    if second.len() == 0 {
        assert(first + second =~= first);
        assert(escaped(first) + escaped(second) =~= escaped(first));
    } else {
        lemma_escaped_concat(first, second.drop_last());
        assert((first + second).drop_last() =~= first + second.drop_last());
        assert((first + second).last() == second.last());
        assert(escaped(first + second) =~= escaped(first) + escaped(second));
    }
}

/// A digit of base sixteen stands for the number that it was written
/// for.
pub proof fn lemma_hex_digit(n: int)
    requires
        0 <= n < 16,
    ensures
        hex_value(hex_digit(n)) == Some(n),
{
}

/// A number below sixteen to the sixth is the sum of its six digits.
pub proof fn lemma_six_digits(n: int)
    requires
        0 <= n < 0x1000000,
    ensures
        (n / 0x100000 % 16) * 0x100000 + (n / 0x10000 % 16) * 0x10000 + (n / 0x1000 % 16) * 0x1000
            + (n / 0x100 % 16) * 0x100 + (n / 0x10 % 16) * 0x10 + n % 16 == n,
{
    let m = n as u32;
    assert(m < 0x1000000 ==> (m / 0x100000 % 16) * 0x100000 + (m / 0x10000 % 16) * 0x10000
        + (m / 0x1000 % 16) * 0x1000 + (m / 0x100 % 16) * 0x100 + (m / 0x10 % 16) * 0x10
        + m % 16 == m) by (bit_vector);
}

/// The six digits written for a code stand for that code.
pub proof fn lemma_code_digits(n: int)
    requires
        0 <= n < 0x1000000,
    ensures
        code_value(code_digits(n)) == Some(n),
{
    lemma_six_digits(n);
    lemma_hex_digit(n / 0x100000 % 16);
    lemma_hex_digit(n / 0x10000 % 16);
    lemma_hex_digit(n / 0x1000 % 16);
    lemma_hex_digit(n / 0x100 % 16);
    lemma_hex_digit(n / 0x10 % 16);
    lemma_hex_digit(n % 16);
}

/// What is written for one character, before any text, is read as that
/// character before what the text denotes.
pub proof fn lemma_escaped_char_denotes(c: char, rest: Text)
    ensures
        denoted_by_body(escaped_char(c) + rest) == match denoted_by_body(rest) {
            Some(tail) => Some(seq![c] + tail),
            None => None,
        },
{
    let written = escaped_char(c) + rest;
    if c == '"' || c == '\\' || c == '\n' || c == '\r' || c == '\t' || c == '\0' {
        assert(escaped_char(c).len() == 2);
        assert(written[0] == '\\');
        assert(written[1] == escaped_char(c)[1]);
        assert(written[1] != 'u');
        assert(unescaped_char(written[1]) == Some(c));
        assert(written.skip(2) =~= rest);
    } else if is_plain(c) {
        assert(written[0] == c);
        assert(written.skip(1) =~= rest);
    } else {
        let n = c as int;
        assert(0 <= n <= 0x10FFFF);
        lemma_code_digits(n);
        let head = seq!['\\', 'u', '{'] + code_digits(n) + seq!['}'];
        assert(escaped_char(c) == head);
        assert(head.len() == 10);
        assert(written[0] == head[0] && written[1] == head[1] && written[2] == head[2]);
        assert(written[9] == head[9]);
        assert(written.subrange(3, 9) =~= code_digits(n));
        assert(n as char == c);
        assert(unicode_escape(written) == Some(c));
        assert(written.skip(10) =~= rest);
    }
}

/// What is written for a string denotes the string.
pub proof fn lemma_escaped_denotes(value: Text)
    ensures
        denoted_by_body(escaped(value)) == Some(value),
    decreases value.len(),
{
    if value.len() > 0 {
        let c = value[0];
        let tail = value.skip(1);
        lemma_escaped_concat(seq![c], tail);
        assert(value =~= seq![c] + tail);
        assert(seq![c].drop_last() =~= Seq::<char>::empty());
        assert(escaped(Seq::<char>::empty()) =~= Seq::<char>::empty());
        assert(seq![c].last() == c);
        assert(escaped(seq![c]) =~= escaped_char(c));
        lemma_escaped_denotes(tail);
        lemma_escaped_char_denotes(c, escaped(tail));
    }
}

/// The literal written for a string denotes that string.
pub proof fn lemma_literal_denotes(value: Text)
    ensures
        denoted_by(literal_of(value)) == Some(value),
{
    let literal = literal_of(value);
    lemma_escaped_denotes(value);
    assert(literal.subrange(1, literal.len() - 1) =~= escaped(value));
}

/// The literal holds nothing but printing characters of the basic
/// alphabet, whatever the string holds.
pub proof fn lemma_escaped_is_plain(value: Text)
    ensures
        forall|i: int|
            0 <= i < escaped(value).len() ==> ' ' <= #[trigger] escaped(value)[i] <= '~',
    decreases value.len(),
{
    if value.len() > 0 {
        lemma_escaped_is_plain(value.drop_last());
        let front = escaped(value.drop_last());
        let last = escaped_char(value.last());
        assert forall|i: int| 0 <= i < last.len() implies ' ' <= #[trigger] last[i] <= '~' by {}
        assert forall|i: int| 0 <= i < escaped(value).len() implies ' ' <= #[trigger] escaped(
            value,
        )[i] <= '~' by {
            if i >= front.len() {
                assert(escaped(value)[i] == last[i - front.len()]);
            }
        }
    }
}

/// Writes one digit of base sixteen.
fn hex_digit_text(n: u32) -> (r: &'static str)
    requires
        n < 16,
    ensures
        r@ == seq![hex_digit(n as int)],
{
    proof {
        reveal_strlit("0");
        reveal_strlit("1");
        reveal_strlit("2");
        reveal_strlit("3");
        reveal_strlit("4");
        reveal_strlit("5");
        reveal_strlit("6");
        reveal_strlit("7");
        reveal_strlit("8");
        reveal_strlit("9");
        reveal_strlit("a");
        reveal_strlit("b");
        reveal_strlit("c");
        reveal_strlit("d");
        reveal_strlit("e");
        reveal_strlit("f");
    }
    let r = if n == 0 {
        "0"
    } else if n == 1 {
        "1"
    } else if n == 2 {
        "2"
    } else if n == 3 {
        "3"
    } else if n == 4 {
        "4"
    } else if n == 5 {
        "5"
    } else if n == 6 {
        "6"
    } else if n == 7 {
        "7"
    } else if n == 8 {
        "8"
    } else if n == 9 {
        "9"
    } else if n == 10 {
        "a"
    } else if n == 11 {
        "b"
    } else if n == 12 {
        "c"
    } else if n == 13 {
        "d"
    } else if n == 14 {
        "e"
    } else {
        "f"
    };
    assert(r@ =~= seq![hex_digit(n as int)]);
    r
}

/// Writes the escape of a character that does not stand for itself.
fn write_escape(c: char) -> (r: String)
    requires
        !is_plain(c),
    ensures
        r@ == escaped_char(c),
{
    proof {
        reveal_strlit("\\\"");
        reveal_strlit("\\\\");
        reveal_strlit("\\n");
        reveal_strlit("\\r");
        reveal_strlit("\\t");
        reveal_strlit("\\0");
        reveal_strlit("\\u{");
        reveal_strlit("}");
    }
    if c == '"' {
        let r = "\\\"".to_owned();
        assert(r@ =~= seq!['\\', '"']);
        r
    } else if c == '\\' {
        let r = "\\\\".to_owned();
        assert(r@ =~= seq!['\\', '\\']);
        r
    } else if c == '\n' {
        let r = "\\n".to_owned();
        assert(r@ =~= seq!['\\', 'n']);
        r
    } else if c == '\r' {
        let r = "\\r".to_owned();
        assert(r@ =~= seq!['\\', 'r']);
        r
    } else if c == '\t' {
        let r = "\\t".to_owned();
        assert(r@ =~= seq!['\\', 't']);
        r
    } else if c == '\0' {
        let r = "\\0".to_owned();
        assert(r@ =~= seq!['\\', '0']);
        r
    } else {
        let n: u32 = c as u32;
        let mut out = "\\u{".to_owned();
        out.append(hex_digit_text(n / 0x100000 % 16));
        out.append(hex_digit_text(n / 0x10000 % 16));
        out.append(hex_digit_text(n / 0x1000 % 16));
        out.append(hex_digit_text(n / 0x100 % 16));
        out.append(hex_digit_text(n / 0x10 % 16));
        out.append(hex_digit_text(n % 16));
        out.append("}");
        assert("\\u{"@ =~= seq!['\\', 'u', '{']);
        assert("}"@ =~= seq!['}']);
        assert(out@ =~= seq!['\\', 'u', '{'] + code_digits(c as int) + seq!['}']);
        out
    }
}

/// Writes the string literal that denotes `value`.
pub fn string_literal(value: &str) -> (r: String)
    ensures
        r@ == literal_of(value@),
{
    let mut body = String::new();
    let n = value.unicode_len();
    let mut i: usize = 0;
    proof {
        assert(value@.take(0) =~= Seq::<char>::empty());
    }
    while i < n
        invariant
            n == value@.len(),
            i <= n,
            body@ == escaped(value@.take(i as int)),
        decreases n - i,
    {
        proof {
            assert(value@.take(i + 1).drop_last() =~= value@.take(i as int));
            assert(value@.take(i + 1).last() == value@[i as int]);
        }
        let c = value.get_char(i);
        if ' ' <= c && c <= '~' && c != '"' && c != '\\' {
            let plain = value.substring_char(i, i + 1);
            assert(plain@ =~= seq![c]);
            body.append(plain);
        } else {
            let written = write_escape(c);
            body.append(written.as_str());
        }
        i += 1;
    }
    proof {
        assert(value@.take(i as int) =~= value@);
        reveal_strlit("\"");
        assert("\""@ =~= seq!['"']);
    }
    let mut out = "\"".to_owned();
    out.append(body.as_str());
    out.append("\"");
    out
}

/// The attributes in `attrs` as written, one to a line.
pub open spec fn attrs_text(attrs: Seq<AttributeView>) -> Text
    decreases attrs.len(),
{
    if attrs.len() == 0 {
        Seq::empty()
    } else {
        attrs_text(attrs.drop_last()) + attrs.last().tokens + "\n"@
    }
}

/// Every attribute of `attrs`, by reference and in order.
pub fn attr_refs(attrs: &Vec<Attribute>) -> (r: Vec<&Attribute>)
    ensures
        r.deep_view() == attrs.deep_view(),
{
    let mut out: Vec<&Attribute> = Vec::new();
    let mut i: usize = 0;
    while i < attrs.len()
        invariant
            i <= attrs.len(),
            out.len() == i,
            forall|j: int| 0 <= j < i ==> out[j]@ == attrs[j]@,
        decreases attrs.len() - i,
    {
        out.push(&attrs[i]);
        i += 1;
    }
    assert(out.deep_view() =~= attrs.deep_view());
    out
}

/// Writes the attributes in `attrs`, one to a line.
pub fn render_attrs(attrs: &Vec<&Attribute>) -> (r: String)
    ensures
        r@ == attrs_text(attrs.deep_view()),
{
    let ghost all = attrs.deep_view();
    let mut out = String::new();
    let mut i: usize = 0;
    proof {
        assert(all.take(0) =~= Seq::<AttributeView>::empty());
    }
    while i < attrs.len()
        invariant
            i <= attrs.len(),
            all == attrs.deep_view(),
            out@ == attrs_text(all.take(i as int)),
        decreases attrs.len() - i,
    {
        proof {
            assert(all.take(i + 1).drop_last() =~= all.take(i as int));
            assert(all.take(i + 1).last() == attrs[i as int]@);
        }
        out.append(attrs[i].tokens.as_str());
        out.append("\n");
        i += 1;
    }
    proof {
        assert(all.take(i as int) =~= all);
    }
    out
}

} // verus!

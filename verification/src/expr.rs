//! The configuration expressions that the attributes accept.
//!
//! A configuration is written as `key = value`. It arrives as the source
//! text of a token stream and is parsed as a Rust expression; what the
//! attributes read of that expression is kept in [`Expr`]. Parsing is the
//! parser's work and nothing is proved of it. Everything after it is a
//! function of the parse result, and is stated and proved as such.

use vstd::prelude::*;
use vstd::string::*;

verus! {

/// One side of an assignment, as far as the attributes tell sides apart.
#[derive(Debug, Clone, PartialEq, Eq)]
pub enum Operand {
    /// A path that is a single bare identifier.
    Ident(String),
    /// Any other path.
    Path,
    /// A string literal, with the value it denotes.
    Str(String),
    /// Any other literal.
    Lit,
    /// Any other expression.
    Other,
}

/// A parsed expression, as far as the attributes tell expressions apart.
#[derive(Debug, Clone, PartialEq, Eq)]
pub enum Expr {
    /// `left = right`
    Assign(Operand, Operand),
    /// Any other expression.
    Other,
}

/// The mathematical value of an [`Operand`].
pub enum OperandView {
    Ident(Seq<char>),
    Path,
    Str(Seq<char>),
    Lit,
    Other,
}

/// The mathematical value of an [`Expr`].
pub enum ExprView {
    Assign(OperandView, OperandView),
    Other,
}

impl View for Operand {
    type V = OperandView;

    open spec fn view(&self) -> OperandView {
        match self {
            Operand::Ident(name) => OperandView::Ident(name@),
            Operand::Path => OperandView::Path,
            Operand::Str(value) => OperandView::Str(value@),
            Operand::Lit => OperandView::Lit,
            Operand::Other => OperandView::Other,
        }
    }
}

impl View for Expr {
    type V = ExprView;

    open spec fn view(&self) -> ExprView {
        match self {
            Expr::Assign(left, right) => ExprView::Assign(left@, right@),
            Expr::Other => ExprView::Other,
        }
    }
}

impl DeepView for Expr {
    type V = ExprView;

    open spec fn deep_view(&self) -> ExprView {
        self@
    }
}

/// The view of a parse result.
pub open spec fn parse_result_view(r: Option<Expr>) -> Option<ExprView> {
    match r {
        Some(expr) => Some(expr@),
        None => None,
    }
}

/// Whether `c` can stand inside a word: a letter of the basic alphabet,
/// a digit or an underscore.
pub open spec fn is_word(c: char) -> bool {
    ('a' <= c && c <= 'z') || ('A' <= c && c <= 'Z') || ('0' <= c && c <= '9') || c == '_'
}

/// Whether the last character of `text` can begin a token: it is neither
/// a space nor inside a word that began before it.
pub open spec fn begins_token(text: Seq<char>) -> bool
    recommends
        text.len() > 0,
{
    let c = text.last();
    if is_word(c) {
        text.len() == 1 || !is_word(text[text.len() - 2])
    } else {
        c != ' '
    }
}

/// A bound on the number of tokens in `text`: the number of characters
/// that can begin one.
pub open spec fn weight(text: Seq<char>) -> nat
    decreases text.len(),
{
    if text.len() == 0 {
        0
    } else {
        weight(text.drop_last()) + if begins_token(text) {
            1nat
        } else {
            0nat
        }
    }
}

/// The longest text, in characters, that is handed to the parser.
pub const MAX_PARSED_LENGTH: usize = 4096;

/// The greatest weight of a text that is handed to the parser. The parser
/// descends at most once for every token, and its recursion has no limit
/// of its own: this bound keeps it shallow.
pub const MAX_PARSED_WEIGHT: usize = 64;

/// Whether `text` is handed to the parser.
pub open spec fn is_parsable(text: Seq<char>) -> bool {
    text.len() <= MAX_PARSED_LENGTH && weight(text) <= MAX_PARSED_WEIGHT
}

/// Whether `c` can stand inside a word.
pub fn is_word_char(c: char) -> (r: bool)
    ensures
        r == is_word(c),
{
    ('a' <= c && c <= 'z') || ('A' <= c && c <= 'Z') || ('0' <= c && c <= '9') || c == '_'
}

/// Computes the weight of `tokens`.
pub fn weigh(tokens: &str) -> (w: usize)
    ensures
        w == weight(tokens@),
{
    let n = tokens.unicode_len();
    let mut w: usize = 0;
    let mut in_word = false;
    let mut i: usize = 0;
    proof {
        assert(tokens@.take(0) =~= Seq::<char>::empty());
    }
    while i < n
        invariant
            n == tokens@.len(),
            i <= n,
            w <= i,
            w == weight(tokens@.take(i as int)),
            in_word == (i > 0 && is_word(tokens@[i - 1])),
        decreases n - i,
    {
        let c = tokens.get_char(i);
        let word = is_word_char(c);
        proof {
            let text = tokens@.take(i + 1);
            assert(text.drop_last() =~= tokens@.take(i as int));
            assert(text.last() == c);
            if i > 0 {
                assert(text[text.len() - 2] == tokens@[i - 1]);
            }
        }
        if (word && !in_word) || (!word && c != ' ') {
            w += 1;
        }
        in_word = word;
        i += 1;
    }
    proof {
        assert(tokens@.take(i as int) =~= tokens@);
    }
    w
}

/// Parses `tokens` as one Rust expression with `syn::parse_str` and keeps
/// its shape; gives nothing when `syn` refuses the text.
///
/// Trusted, and nothing is claimed of the result: which texts are
/// expressions, and what characters an identifier keeps, is the parser's
/// to say, and the lexer beneath it is another inside a macro expansion
/// than elsewhere. Of an assignment both sides are kept: a path for which
/// `syn::Path::get_ident` gives an identifier keeps that identifier's
/// text, a string literal keeps the value that `syn::LitStr::value` gives.
/// Text that is not `is_parsable` is left out: the parser would descend
/// as deep as the text nests, and could exhaust the stack.
#[verifier::external_body]
pub(crate) fn parse_expr(tokens: &str) -> Option<Expr>
    requires
        is_parsable(tokens@),
{
    let side = |e: syn::Expr| match e {
        syn::Expr::Path(p) => match p.path.get_ident() {
            Some(ident) => Operand::Ident(ident.to_string()),
            None => Operand::Path,
        },
        syn::Expr::Lit(syn::ExprLit { lit: syn::Lit::Str(s), .. }) => Operand::Str(s.value()),
        syn::Expr::Lit(_) => Operand::Lit,
        _ => Operand::Other,
    };
    match syn::parse_str::<syn::Expr>(tokens) {
        Ok(syn::Expr::Assign(a)) => Some(Expr::Assign(side(*a.left), side(*a.right))),
        Ok(_) => Some(Expr::Other),
        Err(_) => None,
    }
}

/// Parses `tokens` as one Rust expression.
///
/// Text that is too long or too heavy is not parsed and counts as no
/// expression. Of other text the result is what the parser made of it:
/// the functions that read a parse result say what follows from each.
pub fn parse(tokens: &str) -> (r: Option<Expr>)
    ensures
        !is_parsable(tokens@) ==> r is None,
{
    if tokens.unicode_len() > MAX_PARSED_LENGTH {
        None
    } else if weigh(tokens) > MAX_PARSED_WEIGHT {
        None
    } else {
        parse_expr(tokens)
    }
}

/// Why a configuration expression was refused.
#[derive(Debug, Clone, PartialEq, Eq)]
pub enum ConfigError {
    /// The text is not one expression.
    NotExpression,
    /// The expression is not an assignment.
    NotAssignment,
    /// The left side is not a path.
    LeftNotPath,
    /// The left side is a path other than the expected key, or the right
    /// side is a path of several segments.
    InvalidKey,
    /// The right side should be an identifier and is no path at all.
    RightNotPath,
    /// The right side should be a string literal and is no literal at all.
    RightNotLiteral,
    /// The right side is a literal other than a string.
    RightNotString,
}

/// The mathematical value of a [`ConfigError`].
pub enum ConfigErrorView {
    NotExpression,
    NotAssignment,
    LeftNotPath,
    InvalidKey,
    RightNotPath,
    RightNotLiteral,
    RightNotString,
}

impl View for ConfigError {
    type V = ConfigErrorView;

    open spec fn view(&self) -> ConfigErrorView {
        match self {
            ConfigError::NotExpression => ConfigErrorView::NotExpression,
            ConfigError::NotAssignment => ConfigErrorView::NotAssignment,
            ConfigError::LeftNotPath => ConfigErrorView::LeftNotPath,
            ConfigError::InvalidKey => ConfigErrorView::InvalidKey,
            ConfigError::RightNotPath => ConfigErrorView::RightNotPath,
            ConfigError::RightNotLiteral => ConfigErrorView::RightNotLiteral,
            ConfigError::RightNotString => ConfigErrorView::RightNotString,
        }
    }
}

/// The right side of `key = ..` in a parse result, or why there is none.
///
/// The left side is judged first: it must be the identifier `key`.
pub open spec fn assigned(
    parsed: Option<ExprView>,
    key: Seq<char>,
) -> Result<OperandView, ConfigErrorView> {
    match parsed {
        None => Err(ConfigErrorView::NotExpression),
        Some(ExprView::Other) => Err(ConfigErrorView::NotAssignment),
        Some(ExprView::Assign(left, right)) => match left {
            OperandView::Ident(name) => if name == key {
                Ok(right)
            } else {
                Err(ConfigErrorView::InvalidKey)
            },
            OperandView::Path => Err(ConfigErrorView::InvalidKey),
            _ => Err(ConfigErrorView::LeftNotPath),
        },
    }
}

/// The string that a right side denotes, or why it denotes none.
pub open spec fn string_of(right: OperandView) -> Result<Seq<char>, ConfigErrorView> {
    match right {
        OperandView::Str(value) => Ok(value),
        OperandView::Lit => Err(ConfigErrorView::RightNotString),
        _ => Err(ConfigErrorView::RightNotLiteral),
    }
}

/// The identifier that a right side is, or why it is none.
pub open spec fn word_of(right: OperandView) -> Result<Seq<char>, ConfigErrorView> {
    match right {
        OperandView::Ident(name) => Ok(name),
        OperandView::Path => Err(ConfigErrorView::InvalidKey),
        _ => Err(ConfigErrorView::RightNotPath),
    }
}

/// The string that `key = "literal"` sets, or why the parse result is not
/// of that form.
pub open spec fn string_setting(
    parsed: Option<ExprView>,
    key: Seq<char>,
) -> Result<Seq<char>, ConfigErrorView> {
    match assigned(parsed, key) {
        Ok(right) => string_of(right),
        Err(e) => Err(e),
    }
}

/// The identifier that `key = word` sets, or why the parse result is not
/// of that form.
pub open spec fn word_setting(
    parsed: Option<ExprView>,
    key: Seq<char>,
) -> Result<Seq<char>, ConfigErrorView> {
    match assigned(parsed, key) {
        Ok(right) => word_of(right),
        Err(e) => Err(e),
    }
}

/// The view of a setting that was read.
pub open spec fn setting_view(r: Result<String, ConfigError>) -> Result<
    Seq<char>,
    ConfigErrorView,
> {
    match r {
        Ok(value) => Ok(value@),
        Err(e) => Err(e@),
    }
}

/// Whether two pieces of text hold the same characters.
pub fn same_text(a: &str, b: &str) -> (same: bool)
    ensures
        same == (a@ == b@),
{
    let left = a.to_owned();
    let right = b.to_owned();
    left == right
}

/// Reads the string that `key = "literal"` sets from a parse result.
pub fn read_string_setting(parsed: Option<Expr>, key: &str) -> (r: Result<
    String,
    ConfigError,
>)
    ensures
        setting_view(r) == string_setting(parse_result_view(parsed), key@),
{
    match parsed {
        None => Err(ConfigError::NotExpression),
        Some(Expr::Other) => Err(ConfigError::NotAssignment),
        Some(Expr::Assign(left, right)) => match left {
            Operand::Ident(name) => if same_text(name.as_str(), key) {
                match right {
                    Operand::Str(value) => Ok(value),
                    Operand::Lit => Err(ConfigError::RightNotString),
                    _ => Err(ConfigError::RightNotLiteral),
                }
            } else {
                Err(ConfigError::InvalidKey)
            },
            Operand::Path => Err(ConfigError::InvalidKey),
            _ => Err(ConfigError::LeftNotPath),
        },
    }
}

/// Reads the identifier that `key = word` sets from a parse result.
pub fn read_word_setting(parsed: Option<Expr>, key: &str) -> (r: Result<
    String,
    ConfigError,
>)
    ensures
        setting_view(r) == word_setting(parse_result_view(parsed), key@),
{
    match parsed {
        None => Err(ConfigError::NotExpression),
        Some(Expr::Other) => Err(ConfigError::NotAssignment),
        Some(Expr::Assign(left, right)) => match left {
            Operand::Ident(name) => if same_text(name.as_str(), key) {
                match right {
                    Operand::Ident(word) => Ok(word),
                    Operand::Path => Err(ConfigError::InvalidKey),
                    _ => Err(ConfigError::RightNotPath),
                }
            } else {
                Err(ConfigError::InvalidKey)
            },
            Operand::Path => Err(ConfigError::InvalidKey),
            _ => Err(ConfigError::LeftNotPath),
        },
    }
}

/// What a refusal says to the author of the attribute; `place` names the
/// attribute that was read.
pub open spec fn config_message(e: ConfigErrorView, place: Seq<char>) -> Seq<char> {
    match e {
        ConfigErrorView::NotExpression => "expected expression in "@ + place,
        ConfigErrorView::NotAssignment => "invalid expression in "@ + place,
        ConfigErrorView::LeftNotPath => "invalid expression in "@ + place + ", left side"@,
        ConfigErrorView::InvalidKey => "invalid key in "@ + place,
        ConfigErrorView::RightNotPath => "invalid expression in "@ + place + ", right side"@,
        ConfigErrorView::RightNotLiteral => "invalid expression in "@ + place + ", right side"@,
        ConfigErrorView::RightNotString => "invalid literal in "@ + place,
    }
}

impl ConfigError {
    /// Says why the expression was refused; `place` names the attribute
    /// that was read.
    pub fn message(&self, place: &str) -> (r: String)
        ensures
            r@ == config_message(self@, place@),
    {
        match self {
            ConfigError::NotExpression => {
                let mut out = "expected expression in ".to_owned();
                out.append(place);
                out
            },
            ConfigError::NotAssignment => {
                let mut out = "invalid expression in ".to_owned();
                out.append(place);
                out
            },
            ConfigError::LeftNotPath => {
                let mut out = "invalid expression in ".to_owned();
                out.append(place);
                out.append(", left side");
                out
            },
            ConfigError::InvalidKey => {
                let mut out = "invalid key in ".to_owned();
                out.append(place);
                out
            },
            ConfigError::RightNotPath => {
                let mut out = "invalid expression in ".to_owned();
                out.append(place);
                out.append(", right side");
                out
            },
            ConfigError::RightNotLiteral => {
                let mut out = "invalid expression in ".to_owned();
                out.append(place);
                out.append(", right side");
                out
            },
            ConfigError::RightNotString => {
                let mut out = "invalid literal in ".to_owned();
                out.append(place);
                out
            },
        }
    }
}

} // verus!

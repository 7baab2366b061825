//! The value-translator pipeline.
//!
//! It reads the strategy that the attribute names (`translate = serde`,
//! `manual` or `transparent`) and the decorated struct or enum, and writes
//! the item again together with the implementations that give the type its
//! conversion to and from a raw tag value.

use crate::attrs::{tag_args, take_tag, without_tag};
use crate::expr::{
    config_message, is_parsable, parse, parse_result_view, read_string_setting, read_word_setting,
    same_text, string_setting, word_setting, ConfigError, ConfigErrorView, Expr, ExprView,
    OperandView,
};
use crate::syntax::{
    Attribute, AttributeView, Fields, FieldsView, Item, ItemEnum, ItemEnumView, ItemView, Text,
    Variant, VariantView,
};
use crate::text::{attr_refs, attrs_text, literal_of, render_attrs, string_literal};
use vstd::prelude::*;
use vstd::string::*;

verus! {

/// Why the value-translator pipeline refused its input.
#[derive(Debug, Clone, PartialEq, Eq)]
pub enum TagError {
    /// The attribute's arguments are not `translate = word`.
    Arguments(ConfigError),
    /// The word after `translate =` names no strategy; holds the word.
    InvalidTranslator(String),
    /// Transparent translation was asked for an item that is neither an
    /// enum nor a struct with exactly one unnamed field.
    NotNewtype,
    /// The decorated item is neither a struct nor an enum.
    NotStructOrEnum,
    /// A variant has an explicit discriminant.
    Discriminant,
    /// A variant carries fields.
    VariantFields,
    /// A variant's `tag(..)` attribute is not `rename = "literal"`.
    VariantAttribute(ConfigError),
}

/// The mathematical value of a [`TagError`].
pub enum TagErrorView {
    Arguments(ConfigErrorView),
    InvalidTranslator(Text),
    NotNewtype,
    NotStructOrEnum,
    Discriminant,
    VariantFields,
    VariantAttribute(ConfigErrorView),
}

impl View for TagError {
    type V = TagErrorView;

    open spec fn view(&self) -> TagErrorView {
        match self {
            TagError::Arguments(e) => TagErrorView::Arguments(e@),
            TagError::InvalidTranslator(word) => TagErrorView::InvalidTranslator(word@),
            TagError::NotNewtype => TagErrorView::NotNewtype,
            TagError::NotStructOrEnum => TagErrorView::NotStructOrEnum,
            TagError::Discriminant => TagErrorView::Discriminant,
            TagError::VariantFields => TagErrorView::VariantFields,
            TagError::VariantAttribute(e) => TagErrorView::VariantAttribute(e@),
        }
    }
}

/// The two forms of transparent translation.
#[derive(Debug, Clone, PartialEq, Eq)]
pub enum TransparentKind {
    /// A struct with one unnamed field of type `ty`, as written.
    NewtypeStruct { ty: String },
    /// An enum of unit variants: each variant's name and the string that
    /// its own attribute sets for it, if it sets one.
    SimpleEnum { variants: Vec<(String, Option<String>)> },
}

/// How a type is converted to and from a raw tag value.
#[derive(Debug, Clone, PartialEq, Eq)]
pub enum Translator {
    /// Through the type's serialization.
    Serde,
    /// Through conversions written by hand elsewhere.
    Manual,
    /// Through conversions that the pipeline writes.
    Transparent(TransparentKind),
}

/// A variant in contracts: its name and the string set for it.
pub type VariantName = (Text, Option<Text>);

/// The mathematical value of a [`TransparentKind`].
pub enum TransparentKindView {
    NewtypeStruct { ty: Text },
    SimpleEnum { variants: Seq<VariantName> },
}

/// The mathematical value of a [`Translator`].
pub enum TranslatorView {
    Serde,
    Manual,
    Transparent(TransparentKindView),
}

impl View for TransparentKind {
    type V = TransparentKindView;

    open spec fn view(&self) -> TransparentKindView {
        match self {
            TransparentKind::NewtypeStruct { ty } => TransparentKindView::NewtypeStruct { ty: ty@ },
            TransparentKind::SimpleEnum { variants } => TransparentKindView::SimpleEnum {
                variants: variants.deep_view(),
            },
        }
    }
}

impl View for Translator {
    type V = TranslatorView;

    open spec fn view(&self) -> TranslatorView {
        match self {
            Translator::Serde => TranslatorView::Serde,
            Translator::Manual => TranslatorView::Manual,
            Translator::Transparent(kind) => TranslatorView::Transparent(kind@),
        }
    }
}

/// The string that a variant's own attributes set for it, if they set
/// one, or why its `tag(..)` attribute is refused.
pub open spec fn rename_of_attrs(attrs: Seq<AttributeView>) -> Result<Option<Text>, TagErrorView> {
    match tag_args(attrs) {
        None => Ok(None),
        Some(parsed) => match string_setting(parsed, "rename"@) {
            Ok(string) => Ok(Some(string)),
            Err(e) => Err(TagErrorView::VariantAttribute(e)),
        },
    }
}

/// What the pipeline reads of one variant, or why the variant is refused.
///
/// The discriminant is looked at first, then the fields, then the
/// attributes.
pub open spec fn variant_name_of(variant: VariantView) -> Result<VariantName, TagErrorView> {
    if variant.discriminant {
        Err(TagErrorView::Discriminant)
    } else if !variant.unit {
        Err(TagErrorView::VariantFields)
    } else {
        match rename_of_attrs(variant.attrs) {
            Ok(rename) => Ok((variant.ident, rename)),
            Err(e) => Err(e),
        }
    }
}

/// What the pipeline reads of a list of variants: each variant's name and
/// string, in order, or the refusal of the first variant that is refused.
pub open spec fn variant_names_of(variants: Seq<VariantView>) -> Result<
    Seq<VariantName>,
    TagErrorView,
>
    decreases variants.len(),
{
    if variants.len() == 0 {
        Ok(Seq::empty())
    } else {
        match variant_names_of(variants.drop_last()) {
            Err(e) => Err(e),
            Ok(names) => match variant_name_of(variants.last()) {
                Err(e) => Err(e),
                Ok(name) => Ok(names.push(name)),
            },
        }
    }
}

/// A variant without its `tag(..)` attribute.
pub open spec fn stripped(variant: VariantView) -> VariantView {
    VariantView {
        attrs: without_tag(variant.attrs),
        ident: variant.ident,
        unit: variant.unit,
        discriminant: variant.discriminant,
    }
}

/// The variants of an enum as they are written again: each unit variant
/// under its attributes, in the order declared.
pub open spec fn variants_text(variants: Seq<VariantView>) -> Text
    decreases variants.len(),
{
    if variants.len() == 0 {
        Seq::empty()
    } else {
        variants_text(variants.drop_last()) + attrs_text(variants.last().attrs)
            + variants.last().ident + ",\n"@
    }
}

/// An enum as it is written again: everything before its braces as it
/// was, and its variants between braces.
pub open spec fn enum_text(head: Text, variants: Seq<VariantView>) -> Text {
    head
        + " {\n"@
        + variants_text(variants)
        + "}\n"@
}

/// An enum of unit variants without the `tag(..)` attributes of its
/// variants; everything else is as it was.
pub open spec fn stripped_enum(e: ItemEnumView) -> ItemEnumView {
    let variants = e.variants.map_values(|v: VariantView| stripped(v));
    ItemEnumView { tokens: enum_text(e.head, variants), head: e.head, ident: e.ident, variants }
}

/// What transparent translation makes of an enum: the strategy with the
/// enum's variants, and the enum without the attributes that were read;
/// or why the enum is refused.
pub open spec fn transparent_enum_of(e: ItemEnumView) -> Result<
    (TranslatorView, ItemView),
    TagErrorView,
> {
    match variant_names_of(e.variants) {
        Ok(variants) => Ok(
            (
                TranslatorView::Transparent(TransparentKindView::SimpleEnum { variants }),
                ItemView::Enum(stripped_enum(e)),
            ),
        ),
        Err(e) => Err(e),
    }
}

/// What transparent translation makes of an item.
///
/// A struct must have exactly one unnamed field, whose type is the type
/// that the conversions go through; an enum must hold unit variants only.
pub open spec fn transparent_of(item: ItemView) -> Result<
    (TranslatorView, ItemView),
    TagErrorView,
> {
    match item {
        ItemView::Struct(s) => match s.fields {
            FieldsView::Unnamed(fields) => if fields.len() == 1 {
                Ok(
                    (
                        TranslatorView::Transparent(
                            TransparentKindView::NewtypeStruct { ty: fields[0].ty.tokens },
                        ),
                        item,
                    ),
                )
            } else {
                Err(TagErrorView::NotNewtype)
            },
            _ => Err(TagErrorView::NotNewtype),
        },
        ItemView::Enum(e) => transparent_enum_of(e),
        ItemView::Other => Err(TagErrorView::NotNewtype),
    }
}

/// The strategy that the word after `translate =` selects for an item,
/// and the item as it is written again; or why there is none.
///
/// For `serde` and `manual` the item's shape is not looked at.
pub open spec fn translator_of(word: Text, item: ItemView) -> Result<
    (TranslatorView, ItemView),
    TagErrorView,
> {
    if word == "serde"@ {
        Ok((TranslatorView::Serde, item))
    } else if word == "manual"@ {
        Ok((TranslatorView::Manual, item))
    } else if word == "transparent"@ {
        transparent_of(item)
    } else {
        Err(TagErrorView::InvalidTranslator(word))
    }
}

/// The name of a struct or an enum.
pub open spec fn name_of(item: ItemView) -> Result<Text, TagErrorView> {
    match item {
        ItemView::Struct(s) => Ok(s.ident),
        ItemView::Enum(e) => Ok(e.ident),
        ItemView::Other => Err(TagErrorView::NotStructOrEnum),
    }
}

/// A struct or an enum as written.
pub open spec fn item_text(item: ItemView) -> Text {
    match item {
        ItemView::Struct(s) => s.tokens,
        ItemView::Enum(e) => e.tokens,
        ItemView::Other => Seq::empty(),
    }
}

/// The string that stands for a variant in a raw value: the one set for
/// it, or else its name.
pub open spec fn variant_string(variant: VariantName) -> Text {
    match variant.1 {
        Some(string) => string,
        None => variant.0,
    }
}

/// The two conversions of a simple enum.
#[derive(Debug, Clone, Copy, PartialEq, Eq)]
pub enum Direction {
    /// From a variant to a raw value.
    Into,
    /// From a raw value to a variant.
    From,
}

/// The two implementations that every strategy has: the marker
/// `marker` for the type `name`, and the keyed conversion that binds the
/// type to the shared error type and to the strategy `strategy`.
pub open spec fn marker_impls(name: Text, marker: Text, strategy: Text) -> Text {
    "impl ::aws_lib::tags::"@
        + marker
        + " for "@
        + name
        + " {}\n"@
        + "impl ::aws_lib::tags::TagValue<"@
        + name
        + "> for "@
        + name
        + " {\n"@
        + "type Error = ::aws_lib::tags::ParseTagValueError;\n"@
        + "type Translator = ::aws_lib::tags::"@
        + strategy
        + ";\n"@
        + "}\n"@
}

/// Writes [`marker_impls`].
pub fn write_marker_impls(name: &str, marker: &str, strategy: &str) -> (r: String)
    ensures
        r@ == marker_impls(name@, marker@, strategy@),
{
    let mut out = "impl ::aws_lib::tags::".to_owned();
    out.append(marker);
    out.append(" for ");
    out.append(name);
    out.append(" {}\n");
    out.append("impl ::aws_lib::tags::TagValue<");
    out.append(name);
    out.append("> for ");
    out.append(name);
    out.append(" {\n");
    out.append("type Error = ::aws_lib::tags::ParseTagValueError;\n");
    out.append("type Translator = ::aws_lib::tags::");
    out.append(strategy);
    out.append(";\n");
    out.append("}\n");
    out
}

/// The conversions of a newtype `name` around the type `ty`: from a raw
/// value by wrapping what the inner type's conversion gives, and to a raw
/// value by handing the only field to the inner type's conversion.
pub open spec fn newtype_impls(name: Text, ty: Text) -> Text {
    marker_impls(name, "TranslatableManual"@, "TranslateManual"@)
        + "impl TryFrom<::aws_lib::tags::RawTagValue> for "@
        + name
        + " {\n"@
        + "type Error = ::aws_lib::tags::ParseTagValueError;\n"@
        + "fn try_from(\n"@
        + "value: ::aws_lib::tags::RawTagValue,\n"@
        + ") -> Result<Self, Self::Error> {\n"@
        + "Ok(Self(<"@
        + ty
        + " as ::aws_lib::tags::TagValue<"@
        + ty
        + ">>::from_raw_tag(value)?))\n"@
        + "}\n"@
        + "}\n"@
        + "impl From<"@
        + name
        + "> for ::aws_lib::tags::RawTagValue {\n"@
        + "fn from(value: "@
        + name
        + ") -> Self {\n"@
        + "<"@
        + ty
        + " as ::aws_lib::tags::TagValue<"@
        + ty
        + ">>::into_raw_tag(value.0)\n"@
        + "}\n"@
        + "}\n"@
}

/// Writes [`newtype_impls`].
pub fn write_newtype_impls(name: &str, ty: &str) -> (r: String)
    ensures
        r@ == newtype_impls(name@, ty@),
{
    let mut out = write_marker_impls(name, "TranslatableManual", "TranslateManual");
    out.append("impl TryFrom<::aws_lib::tags::RawTagValue> for ");
    out.append(name);
    out.append(" {\n");
    out.append("type Error = ::aws_lib::tags::ParseTagValueError;\n");
    out.append("fn try_from(\n");
    out.append("value: ::aws_lib::tags::RawTagValue,\n");
    out.append(") -> Result<Self, Self::Error> {\n");
    out.append("Ok(Self(<");
    out.append(ty);
    out.append(" as ::aws_lib::tags::TagValue<");
    out.append(ty);
    out.append(">>::from_raw_tag(value)?))\n");
    out.append("}\n");
    out.append("}\n");
    out.append("impl From<");
    out.append(name);
    out.append("> for ::aws_lib::tags::RawTagValue {\n");
    out.append("fn from(value: ");
    out.append(name);
    out.append(") -> Self {\n");
    out.append("<");
    out.append(ty);
    out.append(" as ::aws_lib::tags::TagValue<");
    out.append(ty);
    out.append(">>::into_raw_tag(value.0)\n");
    out.append("}\n");
    out.append("}\n");
    out
}

/// The arm that turns the variant `variant` of `name` into the raw value
/// that holds `string`.
pub open spec fn into_arm(name: Text, variant: Text, string: Text) -> Text {
    name
        + "::"@
        + variant
        + " => ::aws_lib::tags::RawTagValue::new("@
        + literal_of(string)
        + ".to_owned()),\n"@
}

/// Writes [`into_arm`].
pub fn write_into_arm(name: &str, variant: &str, string: &str) -> (r: String)
    ensures
        r@ == into_arm(name@, variant@, string@),
{
    let mut out = name.to_owned();
    out.append("::");
    out.append(variant);
    out.append(" => ::aws_lib::tags::RawTagValue::new(");
    let literal = string_literal(string);
    out.append(literal.as_str());
    out.append(".to_owned()),\n");
    out
}

/// The arm that turns the string `string` into the variant `variant`.
pub open spec fn from_arm(variant: Text, string: Text) -> Text {
    literal_of(string)
        + " => Self::"@
        + variant
        + ",\n"@
}

/// Writes [`from_arm`].
pub fn write_from_arm(variant: &str, string: &str) -> (r: String)
    ensures
        r@ == from_arm(variant@, string@),
{
    let mut out = string_literal(string);
    out.append(" => Self::");
    out.append(variant);
    out.append(",\n");
    out
}

/// The arm of one variant in the conversion `direction`.
pub open spec fn arm_text(name: Text, variant: VariantName, direction: Direction) -> Text {
    match direction {
        Direction::Into => into_arm(name, variant.0, variant_string(variant)),
        Direction::From => from_arm(variant.0, variant_string(variant)),
    }
}

/// The arms of every variant in the conversion `direction`, in the order
/// declared.
pub open spec fn arms_text(name: Text, variants: Seq<VariantName>, direction: Direction) -> Text
    decreases variants.len(),
{
    if variants.len() == 0 {
        Seq::empty()
    } else {
        arms_text(name, variants.drop_last(), direction) + arm_text(
            name,
            variants.last(),
            direction,
        )
    }
}

/// Writes [`arms_text`].
pub fn write_arms(name: &str, variants: &Vec<(String, Option<String>)>, direction: Direction) -> (r:
    String)
    ensures
        r@ == arms_text(name@, variants.deep_view(), direction),
{
    let ghost all = variants.deep_view();
    let mut out = String::new();
    let mut i: usize = 0;
    proof {
        assert(all.take(0) =~= Seq::<VariantName>::empty());
    }
    while i < variants.len()
        invariant
            i <= variants.len(),
            all == variants.deep_view(),
            out@ == arms_text(name@, all.take(i as int), direction),
        decreases variants.len() - i,
    {
        proof {
            assert(all.take(i + 1).drop_last() =~= all.take(i as int));
            assert(all.take(i + 1).last() == variants[i as int].deep_view());
        }
        let variant = &variants[i];
        let string = match &variant.1 {
            Some(string) => string.as_str(),
            None => variant.0.as_str(),
        };
        let arm = match direction {
            Direction::Into => write_into_arm(name, variant.0.as_str(), string),
            Direction::From => write_from_arm(variant.0.as_str(), string),
        };
        out.append(arm.as_str());
        i += 1;
    }
    proof {
        assert(all.take(i as int) =~= all);
    }
    out
}

/// The conversions of a simple enum `name`: to a raw value by one arm
/// for each variant, and from a raw value by one arm for each variant's
/// string, in the order declared, with a last arm that refuses every other
/// string as an invalid value.
pub open spec fn enum_impls(name: Text, variants: Seq<VariantName>) -> Text {
    marker_impls(name, "TranslatableManual"@, "TranslateManual"@)
        + "impl From<"@
        + name
        + "> for ::aws_lib::tags::RawTagValue {\n"@
        + "fn from(value: "@
        + name
        + ") -> Self {\n"@
        + "match value {\n"@
        + arms_text(name, variants, Direction::Into)
        + "}\n"@
        + "}\n"@
        + "}\n"@
        + "impl TryFrom<::aws_lib::tags::RawTagValue> for "@
        + name
        + " {\n"@
        + "type Error = ::aws_lib::tags::ParseTagValueError;\n"@
        + "fn try_from(\n"@
        + "value: ::aws_lib::tags::RawTagValue,\n"@
        + ") -> Result<Self, Self::Error> {\n"@
        + "Ok(match value.as_str() {\n"@
        + arms_text(name, variants, Direction::From)
        + "_ => return Err(\n"@
        + "::aws_lib::tags::ParseTagValueError::InvalidValue {\n"@
        + "value,\n"@
        + "message: \"invalid enum value\".to_owned(),\n"@
        + "},\n"@
        + "),\n"@
        + "})\n"@
        + "}\n"@
        + "}\n"@
}

/// Writes [`enum_impls`].
pub fn write_enum_impls(name: &str, variants: &Vec<(String, Option<String>)>) -> (r: String)
    ensures
        r@ == enum_impls(name@, variants.deep_view()),
{
    let mut out = write_marker_impls(name, "TranslatableManual", "TranslateManual");
    out.append("impl From<");
    out.append(name);
    out.append("> for ::aws_lib::tags::RawTagValue {\n");
    out.append("fn from(value: ");
    out.append(name);
    out.append(") -> Self {\n");
    out.append("match value {\n");
    let arms = write_arms(name, variants, Direction::Into);
    out.append(arms.as_str());
    out.append("}\n");
    out.append("}\n");
    out.append("}\n");
    out.append("impl TryFrom<::aws_lib::tags::RawTagValue> for ");
    out.append(name);
    out.append(" {\n");
    out.append("type Error = ::aws_lib::tags::ParseTagValueError;\n");
    out.append("fn try_from(\n");
    out.append("value: ::aws_lib::tags::RawTagValue,\n");
    out.append(") -> Result<Self, Self::Error> {\n");
    out.append("Ok(match value.as_str() {\n");
    let arms = write_arms(name, variants, Direction::From);
    out.append(arms.as_str());
    out.append("_ => return Err(\n");
    out.append("::aws_lib::tags::ParseTagValueError::InvalidValue {\n");
    out.append("value,\n");
    out.append("message: \"invalid enum value\".to_owned(),\n");
    out.append("},\n");
    out.append("),\n");
    out.append("})\n");
    out.append("}\n");
    out.append("}\n");
    out
}

/// The implementations that a strategy gives the type `name`.
pub open spec fn impls_text(name: Text, translator: TranslatorView) -> Text {
    match translator {
        TranslatorView::Serde => marker_impls(name, "TranslatableSerde"@, "TranslateSerde"@),
        TranslatorView::Manual => marker_impls(name, "TranslatableManual"@, "TranslateManual"@),
        TranslatorView::Transparent(TransparentKindView::NewtypeStruct { ty }) => newtype_impls(
            name,
            ty,
        ),
        TranslatorView::Transparent(TransparentKindView::SimpleEnum { variants }) => enum_impls(
            name,
            variants,
        ),
    }
}

/// Writes the implementations that a strategy gives the type `name`.
pub fn write_impls(name: &str, translator: &Translator) -> (r: String)
    ensures
        r@ == impls_text(name@, translator@),
{
    match translator {
        Translator::Serde => write_marker_impls(name, "TranslatableSerde", "TranslateSerde"),
        Translator::Manual => write_marker_impls(name, "TranslatableManual", "TranslateManual"),
        Translator::Transparent(TransparentKind::NewtypeStruct { ty }) => write_newtype_impls(
            name,
            ty.as_str(),
        ),
        Translator::Transparent(TransparentKind::SimpleEnum { variants }) => write_enum_impls(
            name,
            variants,
        ),
    }
}

/// The expansion for a strategy and the item that goes with it: the item
/// as written, then the implementations; or a refusal when the item is
/// neither a struct nor an enum.
pub open spec fn expansion(translator: TranslatorView, item: ItemView) -> Result<
    Text,
    TagErrorView,
> {
    match name_of(item) {
        Ok(name) => Ok(item_text(item) + "\n"@ + impls_text(name, translator)),
        Err(e) => Err(e),
    }
}

/// What the pipeline makes of its input: the text of the expansion, or
/// why the input is refused.
///
/// The arguments are judged first: they must be `translate = word`. Then
/// the word selects the strategy, and for `transparent` the item's shape
/// is validated. Last, the item must be a struct or an enum.
pub open spec fn transformed(attr: Option<ExprView>, item: ItemView) -> Result<
    Text,
    TagErrorView,
> {
    match word_setting(attr, "translate"@) {
        Err(e) => Err(TagErrorView::Arguments(e)),
        Ok(word) => match translator_of(word, item) {
            Err(e) => Err(e),
            Ok((translator, item)) => expansion(translator, item),
        },
    }
}

/// The view of what `parse_enum_attributes` hands back.
pub open spec fn parsed_rename_view(r: Result<Option<String>, TagError>) -> Result<
    Option<Text>,
    TagErrorView,
> {
    match r {
        Ok(rename) => Ok(rename.deep_view()),
        Err(e) => Err(e@),
    }
}

/// Takes the variant's `tag(..)` attribute out of `attrs` and reads the
/// string that it sets.
pub fn parse_enum_attributes(attrs: &mut Vec<Attribute>) -> (r: Result<Option<String>, TagError>)
    ensures
        parsed_rename_view(r) == rename_of_attrs(old(attrs).deep_view()),
        final(attrs).deep_view() == without_tag(old(attrs).deep_view()),
{
    match take_tag(attrs) {
        None => Ok(None),
        Some(parsed) => match read_string_setting(parsed, "rename") {
            Ok(string) => Ok(Some(string)),
            Err(e) => Err(TagError::VariantAttribute(e)),
        },
    }
}

/// The view of a strategy and an item, or of a refusal.
pub open spec fn selected_view(r: Result<(Translator, Item), TagError>) -> Result<
    (TranslatorView, ItemView),
    TagErrorView,
> {
    match r {
        Ok((translator, item)) => Ok((translator@, item@)),
        Err(e) => Err(e@),
    }
}

/// A refusal among the first `n` variants is the refusal of the whole
/// list.
pub proof fn lemma_variant_names_of_fails(variants: Seq<VariantView>, n: int)
    requires
        0 <= n <= variants.len(),
        variant_names_of(variants.take(n)) is Err,
    ensures
        variant_names_of(variants) == variant_names_of(variants.take(n)),
    decreases variants.len() - n,
{
    if n < variants.len() {
        assert(variants.take(n + 1).drop_last() =~= variants.take(n));
        lemma_variant_names_of_fails(variants, n + 1);
    } else {
        assert(variants.take(n) =~= variants);
    }
}

/// Reads the variants of an enum for transparent translation and writes
/// the enum again without the attributes that were read.
pub fn parse_transparent_enum(e: ItemEnum) -> (r: Result<(Translator, Item), TagError>)
    ensures
        selected_view(r) == transparent_enum_of(e@),
{
    let ItemEnum { tokens: _, head, ident, variants } = e;
    let ghost all = variants.deep_view();
    let ghost strip = |v: VariantView| stripped(v);
    let mut rest = variants;
    let mut names: Vec<(String, Option<String>)> = Vec::new();
    let mut kept: Vec<Variant> = Vec::new();
    let mut body = String::new();
    let ghost mut done: int = 0;
    proof {
        assert(all.take(0) =~= Seq::<VariantView>::empty());
        assert(names.deep_view() =~= Seq::<VariantName>::empty());
        assert(kept.deep_view() =~= all.take(0).map_values(strip));
        assert(all.skip(0) =~= all);
    }
    while rest.len() > 0
        invariant
            all == e@.variants,
            strip == (|v: VariantView| stripped(v)),
            0 <= done <= all.len(),
            rest.deep_view() == all.skip(done),
            variant_names_of(all.take(done)) == Ok::<Seq<VariantName>, TagErrorView>(
                names.deep_view(),
            ),
            kept.deep_view() == all.take(done).map_values(strip),
            body@ == variants_text(kept.deep_view()),
        decreases rest.len(),
    {
        let ghost names_before = names.deep_view();
        let ghost kept_before = kept.deep_view();
        let ghost remaining = rest.deep_view();
        assert(remaining.len() == rest.len());
        assert(remaining.len() == all.len() - done);
        let variant = rest.remove(0);
        proof {
            assert(variant@ == remaining[0]);
            assert(remaining[0] == all.skip(done)[0]);
            assert forall|k: int| 0 <= k < rest.len() implies rest.deep_view()[k] == all.skip(
                done + 1,
            )[k] by {
                assert(remaining[k + 1] == all.skip(done)[k + 1]);
            }
            assert(rest.deep_view() =~= all.skip(done + 1));
            assert(all.take(done + 1).drop_last() =~= all.take(done));
            assert(all.take(done + 1).last() == all[done]);
        }
        let Variant { attrs, ident, unit, discriminant } = variant;
        let mut attrs = attrs;
        if discriminant {
            proof {
                lemma_variant_names_of_fails(all, done + 1);
            }
            return Err(TagError::Discriminant);
        }
        if !unit {
            proof {
                lemma_variant_names_of_fails(all, done + 1);
            }
            return Err(TagError::VariantFields);
        }
        let rename = match parse_enum_attributes(&mut attrs) {
            Ok(rename) => rename,
            Err(e) => {
                proof {
                    lemma_variant_names_of_fails(all, done + 1);
                }
                return Err(e);
            },
        };
        let line = render_attrs(&attr_refs(&attrs));
        body.append(line.as_str());
        body.append(ident.as_str());
        body.append(",\n");
        names.push((ident.clone(), rename));
        kept.push(Variant { attrs, ident, unit, discriminant });
        proof {
            assert(names.deep_view() =~= names_before.push((all[done].ident, rename.deep_view())));
            assert(kept.deep_view() =~= kept_before.push(stripped(all[done])));
            assert(kept.deep_view() =~= all.take(done + 1).map_values(strip));
            assert(kept.deep_view().drop_last() =~= kept_before);
            done = done + 1;
        }
    }
    proof {
        assert(all.take(done) =~= all);
    }
    let mut tokens = head.clone();
    tokens.append(" {\n");
    tokens.append(body.as_str());
    tokens.append("}\n");
    Ok(
        (
            Translator::Transparent(TransparentKind::SimpleEnum { variants: names }),
            Item::Enum(ItemEnum { tokens, head, ident, variants: kept }),
        ),
    )
}

/// Selects the strategy that `word` names for `item` and validates the
/// item's shape where the strategy asks for it.
pub fn select_translator(word: String, item: Item) -> (r: Result<(Translator, Item), TagError>)
    ensures
        selected_view(r) == translator_of(word@, item@),
{
    if same_text(word.as_str(), "serde") {
        Ok((Translator::Serde, item))
    } else if same_text(word.as_str(), "manual") {
        Ok((Translator::Manual, item))
    } else if same_text(word.as_str(), "transparent") {
        match item {
            Item::Struct(s) => {
                let ty = match &s.fields {
                    Fields::Unnamed(fields) => if fields.len() == 1 {
                        Some(fields[0].ty.tokens.clone())
                    } else {
                        None
                    },
                    _ => None,
                };
                match ty {
                    Some(ty) => Ok(
                        (
                            Translator::Transparent(TransparentKind::NewtypeStruct { ty }),
                            Item::Struct(s),
                        ),
                    ),
                    None => Err(TagError::NotNewtype),
                }
            },
            Item::Enum(e) => parse_transparent_enum(e),
            Item::Other => Err(TagError::NotNewtype),
        }
    } else {
        Err(TagError::InvalidTranslator(word))
    }
}

/// The view of text that was written, or of a refusal.
pub open spec fn written_view(r: Result<String, TagError>) -> Result<Text, TagErrorView> {
    match r {
        Ok(text) => Ok(text@),
        Err(e) => Err(e@),
    }
}

/// Writes the expansion for a strategy and the item that goes with it.
pub fn build_output(translator: &Translator, item: &Item) -> (r: Result<String, TagError>)
    ensures
        written_view(r) == expansion(translator@, item@),
{
    let (name, tokens) = match item {
        Item::Struct(s) => (s.ident.as_str(), s.tokens.as_str()),
        Item::Enum(e) => (e.ident.as_str(), e.tokens.as_str()),
        Item::Other => {
            return Err(TagError::NotStructOrEnum);
        },
    };
    let mut out = tokens.to_owned();
    out.append("\n");
    let impls = write_impls(name, translator);
    out.append(impls.as_str());
    Ok(out)
}

/// Expands the attribute on `item`: `attr` holds the attribute's
/// arguments, parsed as one expression.
pub fn transform(attr: Option<Expr>, item: Item) -> (r: Result<String, TagError>)
    ensures
        written_view(r) == transformed(parse_result_view(attr), item@),
{
    let word = match read_word_setting(attr, "translate") {
        Ok(word) => word,
        Err(e) => {
            return Err(TagError::Arguments(e));
        },
    };
    match select_translator(word, item) {
        Ok((translator, item)) => build_output(&translator, &item),
        Err(e) => Err(e),
    }
}

/// Parses the attribute's arguments, given as written, and expands the
/// attribute on `item`.
///
/// The result is what `transform` gives for the parse result, whatever the
/// parser made of the arguments; arguments that are not handed to the
/// parser count as no expression.
pub fn expand(attr: &str, item: Item) -> (r: Result<String, TagError>)
    ensures
        exists|parsed: Option<ExprView>| written_view(r) == #[trigger] transformed(parsed, item@),
        !is_parsable(attr@) ==> written_view(r) == transformed(None, item@),
{
    let parsed = parse(attr);
    let ghost seen = parse_result_view(parsed);
    let r = transform(parsed, item);
    assert(written_view(r) == transformed(seen, item@));
    r
}


/// What a refusal says to the author of the decorated item.
pub open spec fn tag_message(e: TagErrorView) -> Text {
    match e {
        TagErrorView::Arguments(e) => config_message(e, "macro attribute"@),
        TagErrorView::InvalidTranslator(word) => "invalid translator "@ + word,
        TagErrorView::NotNewtype => {
            "transparent translation is only available for newtype-style macros"@
        },
        TagErrorView::NotStructOrEnum => "only applicable to structs/enums"@,
        TagErrorView::Discriminant => "variant cannot have an explicit discriminant"@,
        TagErrorView::VariantFields => "enum cannot have fields in variants"@,
        TagErrorView::VariantAttribute(e) => config_message(e, "enum variant attribute"@),
    }
}

impl TagError {
    /// Says why the input was refused.
    pub fn message(&self) -> (r: String)
        ensures
            r@ == tag_message(self@),
    {
        match self {
            TagError::Arguments(e) => e.message("macro attribute"),
            TagError::InvalidTranslator(word) => {
                let mut out = "invalid translator ".to_owned();
                out.append(word.as_str());
                out
            },
            TagError::NotNewtype => {
                "transparent translation is only available for newtype-style macros".to_owned()
            },
            TagError::NotStructOrEnum => "only applicable to structs/enums".to_owned(),
            TagError::Discriminant => "variant cannot have an explicit discriminant".to_owned(),
            TagError::VariantFields => "enum cannot have fields in variants".to_owned(),
            TagError::VariantAttribute(e) => e.message("enum variant attribute"),
        }
    }
}

/// Whether a parse result is `translate = serde`, `translate = manual` or
/// `translate = transparent`.
pub open spec fn names_strategy(parsed: Option<ExprView>) -> bool {
    &&& parsed matches Some(ExprView::Assign(OperandView::Ident(key), OperandView::Ident(word)))
    &&& key == "translate"@
    &&& (word == "serde"@ || word == "manual"@ || word == "transparent"@)
}

/// Arguments that name none of the three strategies are refused,
/// whatever the item; when the right side is an identifier, the refusal
/// is that of an invalid translator and holds the identifier.
pub proof fn lemma_other_arguments_fail(attr: Option<ExprView>, item: ItemView)
    requires
        !names_strategy(attr),
    ensures
        transformed(attr, item) is Err,
        forall|word: Text|
            attr == Some(
                ExprView::Assign(OperandView::Ident("translate"@), OperandView::Ident(word)),
            ) ==> transformed(attr, item) == Err::<Text, TagErrorView>(
                TagErrorView::InvalidTranslator(word),
            ),
{
}

} // verus!

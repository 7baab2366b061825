//! The struct-tag pipeline.
//!
//! It reads a struct with named fields, each a value type or an optional
//! value type, and writes the struct again together with three operations:
//! one that builds it from explicit values, one that builds it from a tag
//! list and one that turns it into a tag list.

use crate::attrs::{tag_args, take_tag, without_tag};
use crate::expr::{
    config_message, read_string_setting, same_text, string_setting, ConfigError, ConfigErrorView,
};
use crate::syntax::{
    Attribute, AttributeView, Field, FieldView, Fields, FieldsView, GenericArgument,
    GenericArgumentView, Item, ItemStruct, ItemStructView, ItemView, Meta, MetaView,
    PathArguments, PathArgumentsView, Text, Type, TypeShape, TypeShapeView, TypeView,
};
use crate::text::{attr_refs, attrs_text, literal_of, render_attrs, string_literal};
use vstd::prelude::*;
use vstd::string::*;

verus! {

/// Why the struct-tag pipeline refused its input.
#[derive(Debug, Clone, PartialEq, Eq)]
pub enum TagsError {
    /// The attribute was given arguments; it takes none.
    UnexpectedArguments,
    /// The decorated item is not a struct.
    NotStruct,
    /// The struct's fields are not named.
    InvalidFields,
    /// A field has no name.
    UnnamedField,
    /// A field's type is not a path.
    InvalidFieldType,
    /// `Option` without angle brackets.
    InvalidOptionUsage,
    /// `Option` with no argument or with more than one.
    WrongNumberOfOptionArguments,
    /// The argument of `Option` is not a type.
    OptionArgumentNotType,
    /// The argument of `Option` is a type that is not a path.
    InvalidOptionArgument,
    /// A field's `tag(..)` attribute is not `key = "literal"`.
    FieldAttribute(ConfigError),
}

/// The mathematical value of a [`TagsError`].
pub enum TagsErrorView {
    UnexpectedArguments,
    NotStruct,
    InvalidFields,
    UnnamedField,
    InvalidFieldType,
    InvalidOptionUsage,
    WrongNumberOfOptionArguments,
    OptionArgumentNotType,
    InvalidOptionArgument,
    FieldAttribute(ConfigErrorView),
}

impl View for TagsError {
    type V = TagsErrorView;

    open spec fn view(&self) -> TagsErrorView {
        match self {
            TagsError::UnexpectedArguments => TagsErrorView::UnexpectedArguments,
            TagsError::NotStruct => TagsErrorView::NotStruct,
            TagsError::InvalidFields => TagsErrorView::InvalidFields,
            TagsError::UnnamedField => TagsErrorView::UnnamedField,
            TagsError::InvalidFieldType => TagsErrorView::InvalidFieldType,
            TagsError::InvalidOptionUsage => TagsErrorView::InvalidOptionUsage,
            TagsError::WrongNumberOfOptionArguments => TagsErrorView::WrongNumberOfOptionArguments,
            TagsError::OptionArgumentNotType => TagsErrorView::OptionArgumentNotType,
            TagsError::InvalidOptionArgument => TagsErrorView::InvalidOptionArgument,
            TagsError::FieldAttribute(e) => TagsErrorView::FieldAttribute(e@),
        }
    }
}

/// Whether a field must be present in a tag list.
#[derive(Debug, Clone, Copy, PartialEq, Eq)]
pub enum ElementKind {
    /// The field is a value; its tag must be there.
    Required,
    /// The field is an optional value; its tag may be missing.
    Optional,
}

/// What the pipeline knows of one field.
#[derive(Debug, Clone, PartialEq, Eq)]
pub struct Element {
    /// The field's name.
    pub ident: String,
    /// The field's visibility as written.
    pub vis: String,
    /// The value type as written: the declared type of a required field,
    /// the type inside `Option` of an optional one.
    pub ty: String,
    /// Whether the field is required or optional.
    pub kind: ElementKind,
    /// The key under which the field stands in a tag list.
    pub name: String,
    /// The field's attributes, without its `tag(..)` attribute.
    pub attrs: Vec<Attribute>,
}

/// What the pipeline knows of the struct.
#[derive(Debug, Clone, PartialEq, Eq)]
pub struct Input {
    /// Everything that stands before the struct's fields, as written.
    pub head: String,
    /// The generics as an `impl` declares them; empty when there are none.
    pub impl_generics: String,
    /// The generics as the type names them; empty when there are none.
    pub type_generics: String,
    /// The where clause; empty when there is none.
    pub where_clause: String,
    /// The struct's name.
    pub ident: String,
    /// The struct's visibility as written.
    pub vis: String,
    /// The struct's fields, in the order declared.
    pub elements: Vec<Element>,
}

/// The mathematical value of an [`Element`].
pub struct ElementView {
    pub ident: Text,
    pub vis: Text,
    pub ty: Text,
    pub kind: ElementKind,
    pub name: Text,
    pub attrs: Seq<AttributeView>,
}

/// The mathematical value of an [`Input`].
pub struct InputView {
    pub head: Text,
    pub impl_generics: Text,
    pub type_generics: Text,
    pub where_clause: Text,
    pub ident: Text,
    pub vis: Text,
    pub elements: Seq<ElementView>,
}

impl View for Element {
    type V = ElementView;

    open spec fn view(&self) -> ElementView {
        ElementView {
            ident: self.ident@,
            vis: self.vis@,
            ty: self.ty@,
            kind: self.kind,
            name: self.name@,
            attrs: self.attrs.deep_view(),
        }
    }
}

impl DeepView for Element {
    type V = ElementView;

    open spec fn deep_view(&self) -> ElementView {
        self@
    }
}

impl View for Input {
    type V = InputView;

    open spec fn view(&self) -> InputView {
        InputView {
            head: self.head@,
            impl_generics: self.impl_generics@,
            type_generics: self.type_generics@,
            where_clause: self.where_clause@,
            ident: self.ident@,
            vis: self.vis@,
            elements: self.elements.deep_view(),
        }
    }
}

/// Whether `attr` is a conditional-compilation attribute: one with
/// delimited arguments whose path is the identifier `cfg`.
pub open spec fn is_cfg(attr: AttributeView) -> bool {
    &&& attr.meta matches MetaView::List { name: Some(name), .. }
    &&& name == "cfg"@
}

/// The conditional-compilation attributes among `attrs`, in their order.
pub open spec fn cfg_only(attrs: Seq<AttributeView>) -> Seq<AttributeView> {
    attrs.filter(|attr: AttributeView| is_cfg(attr))
}

/// The value type and the kind of a field of type `ty`, or why the type is
/// refused.
///
/// A path whose first segment is `Option` must have exactly one argument
/// between angle brackets, a type that is itself a path: the field is then
/// optional and its value type is that argument. Any other path is the
/// value type of a required field.
pub open spec fn type_of_field(ty: TypeView) -> Result<(Text, ElementKind), TagsErrorView> {
    match ty.shape {
        TypeShapeView::Other => Err(TagsErrorView::InvalidFieldType),
        TypeShapeView::Path(path) => if path.first == "Option"@ {
            match path.arguments {
                PathArgumentsView::AngleBracketed(args) => if args.len() == 1 {
                    match args[0] {
                        GenericArgumentView::TypePath(inner) => Ok((inner, ElementKind::Optional)),
                        GenericArgumentView::Type => Err(TagsErrorView::InvalidOptionArgument),
                        GenericArgumentView::Other => Err(TagsErrorView::OptionArgumentNotType),
                    }
                } else {
                    Err(TagsErrorView::WrongNumberOfOptionArguments)
                },
                _ => Err(TagsErrorView::InvalidOptionUsage),
            }
        } else {
            Ok((path.tokens, ElementKind::Required))
        },
    }
}

/// The key that a field's own attributes set, if they set one, or why its
/// `tag(..)` attribute is refused.
pub open spec fn key_of_attrs(attrs: Seq<AttributeView>) -> Result<Option<Text>, TagsErrorView> {
    match tag_args(attrs) {
        None => Ok(None),
        Some(parsed) => match string_setting(parsed, "key"@) {
            Ok(key) => Ok(Some(key)),
            Err(e) => Err(TagsErrorView::FieldAttribute(e)),
        },
    }
}

/// What the pipeline makes of one field, or why the field is refused.
///
/// The name is looked at first, then the type, then the attributes.
pub open spec fn element_of(field: FieldView) -> Result<ElementView, TagsErrorView> {
    match field.ident {
        None => Err(TagsErrorView::UnnamedField),
        Some(ident) => match type_of_field(field.ty) {
            Err(e) => Err(e),
            Ok((ty, kind)) => match key_of_attrs(field.attrs) {
                Err(e) => Err(e),
                Ok(key) => Ok(
                    ElementView {
                        ident,
                        vis: field.vis,
                        ty,
                        kind,
                        name: match key {
                            Some(key) => key,
                            None => ident,
                        },
                        attrs: without_tag(field.attrs),
                    },
                ),
            },
        },
    }
}

/// What the pipeline makes of a list of fields: each field's element, in
/// order, or the refusal of the first field that is refused.
pub open spec fn elements_of(fields: Seq<FieldView>) -> Result<Seq<ElementView>, TagsErrorView>
    decreases fields.len(),
{
    if fields.len() == 0 {
        Ok(Seq::empty())
    } else {
        match elements_of(fields.drop_last()) {
            Err(e) => Err(e),
            Ok(elements) => match element_of(fields.last()) {
                Err(e) => Err(e),
                Ok(element) => Ok(elements.push(element)),
            },
        }
    }
}

/// What the pipeline makes of a struct, or why the struct is refused.
///
/// Everything that stands on the struct itself is kept as written: its
/// attributes, visibility, name, generics and where clause.
pub open spec fn input_of(item: ItemStructView) -> Result<InputView, TagsErrorView> {
    match item.fields {
        FieldsView::Named(fields) => match elements_of(fields) {
            Ok(elements) => Ok(
                InputView {
                    head: item.head,
                    impl_generics: item.impl_generics,
                    type_generics: item.type_generics,
                    where_clause: item.where_clause,
                    ident: item.ident,
                    vis: item.vis,
                    elements,
                },
            ),
            Err(e) => Err(e),
        },
        _ => Err(TagsErrorView::InvalidFields),
    }
}

/// Whether `attr` is a conditional-compilation attribute.
pub fn is_cfg_attribute(attr: &Attribute) -> (r: bool)
    ensures
        r == is_cfg(attr@),
{
    match &attr.meta {
        Meta::List { name: Some(name), .. } => same_text(name.as_str(), "cfg"),
        _ => false,
    }
}

/// The conditional-compilation attributes among `v`, in their order.
pub fn cfg_attrs(v: &Vec<Attribute>) -> (r: Vec<&Attribute>)
    ensures
        r.deep_view() == cfg_only(v.deep_view()),
{
    let ghost all = v.deep_view();
    let ghost pred = |attr: AttributeView| is_cfg(attr);
    let mut out: Vec<&Attribute> = Vec::new();
    let mut i: usize = 0;
    proof {
        reveal_with_fuel(Seq::filter, 1);
        assert(all.take(0) =~= Seq::<AttributeView>::empty());
        assert(out.deep_view() =~= all.take(0).filter(pred));
    }
    while i < v.len()
        invariant
            i <= v.len(),
            all == v.deep_view(),
            pred == (|attr: AttributeView| is_cfg(attr)),
            out.deep_view() == all.take(i as int).filter(pred),
        decreases v.len() - i,
    {
        let ghost before = out.deep_view();
        proof {
            reveal_with_fuel(Seq::filter, 1);
            assert(all.take(i + 1).drop_last() =~= all.take(i as int));
            assert(all.take(i + 1).last() == v[i as int]@);
        }
        if is_cfg_attribute(&v[i]) {
            out.push(&v[i]);
            assert(out.deep_view() =~= before.push(v[i as int]@));
        }
        i += 1;
    }
    assert(all.take(i as int) =~= all);
    out
}

/// The view of what `parse_type` hands back.
pub open spec fn parsed_type_view(r: Result<(String, ElementKind), TagsError>) -> Result<
    (Text, ElementKind),
    TagsErrorView,
> {
    match r {
        Ok((ty, kind)) => Ok((ty@, kind)),
        Err(e) => Err(e@),
    }
}

/// Tells a required field from an optional one by its declared type and
/// gives the value type as written.
pub fn parse_type(input: Type) -> (r: Result<(String, ElementKind), TagsError>)
    ensures
        parsed_type_view(r) == type_of_field(input@),
{
    match input.shape {
        TypeShape::Other => Err(TagsError::InvalidFieldType),
        TypeShape::Path(path) => {
            if same_text(path.first.as_str(), "Option") {
                match path.arguments {
                    PathArguments::AngleBracketed(mut args) => {
                        if args.len() == 1 {
                            let ghost before = args.deep_view();
                            let arg = args.remove(0);
                            assert(before[0] == arg@);
                            match arg {
                                GenericArgument::TypePath(inner) => Ok(
                                    (inner, ElementKind::Optional),
                                ),
                                GenericArgument::Type => Err(TagsError::InvalidOptionArgument),
                                GenericArgument::Other => Err(TagsError::OptionArgumentNotType),
                            }
                        } else {
                            Err(TagsError::WrongNumberOfOptionArguments)
                        }
                    },
                    _ => Err(TagsError::InvalidOptionUsage),
                }
            } else {
                Ok((path.tokens, ElementKind::Required))
            }
        },
    }
}

/// The view of what `parse_field_attrs` hands back.
pub open spec fn parsed_key_view(r: Result<Option<String>, TagsError>) -> Result<
    Option<Text>,
    TagsErrorView,
> {
    match r {
        Ok(key) => Ok(key.deep_view()),
        Err(e) => Err(e@),
    }
}

/// Takes the field's `tag(..)` attribute out of `attrs` and reads the key
/// that it sets.
pub fn parse_field_attrs(attrs: &mut Vec<Attribute>) -> (r: Result<Option<String>, TagsError>)
    ensures
        parsed_key_view(r) == key_of_attrs(old(attrs).deep_view()),
        final(attrs).deep_view() == without_tag(old(attrs).deep_view()),
{
    match take_tag(attrs) {
        None => Ok(None),
        Some(parsed) => match read_string_setting(parsed, "key") {
            Ok(key) => Ok(Some(key)),
            Err(e) => Err(TagsError::FieldAttribute(e)),
        },
    }
}

/// The view of what `parse_field` hands back.
pub open spec fn parsed_element_view(r: Result<Element, TagsError>) -> Result<
    ElementView,
    TagsErrorView,
> {
    match r {
        Ok(element) => Ok(element@),
        Err(e) => Err(e@),
    }
}

/// Reads one field.
pub fn parse_field(field: Field) -> (r: Result<Element, TagsError>)
    ensures
        parsed_element_view(r) == element_of(field@),
{
    let Field { attrs, vis, ident, ty } = field;
    let mut attrs = attrs;
    let ident = match ident {
        Some(ident) => ident,
        None => {
            return Err(TagsError::UnnamedField);
        },
    };
    let (ty, kind) = match parse_type(ty) {
        Ok(parsed) => parsed,
        Err(e) => {
            return Err(e);
        },
    };
    let name = match parse_field_attrs(&mut attrs) {
        Ok(Some(key)) => key,
        Ok(None) => ident.clone(),
        Err(e) => {
            return Err(e);
        },
    };
    Ok(Element { ident, vis, ty, kind, name, attrs })
}

/// The view of what `parse_fields` hands back.
pub open spec fn parsed_elements_view(r: Result<Vec<Element>, TagsError>) -> Result<
    Seq<ElementView>,
    TagsErrorView,
> {
    match r {
        Ok(elements) => Ok(elements.deep_view()),
        Err(e) => Err(e@),
    }
}

/// Reads the fields in the order declared and stops at the first one that
/// is refused.
pub fn parse_fields(input: Vec<Field>) -> (r: Result<Vec<Element>, TagsError>)
    ensures
        parsed_elements_view(r) == elements_of(input.deep_view()),
{
    let ghost all = input.deep_view();
    let mut rest = input;
    let mut elements: Vec<Element> = Vec::new();
    let ghost mut done: int = 0;
    proof {
        assert(all.take(0) =~= Seq::<FieldView>::empty());
        assert(elements.deep_view() =~= Seq::<ElementView>::empty());
        assert(all.skip(0) =~= all);
    }
    while rest.len() > 0
        invariant
            all == input.deep_view(),
            0 <= done <= all.len(),
            rest.deep_view() == all.skip(done),
            elements_of(all.take(done)) == Ok::<Seq<ElementView>, TagsErrorView>(
                elements.deep_view(),
            ),
        decreases rest.len(),
    {
        let ghost before = elements.deep_view();
        let ghost remaining = rest.deep_view();
        assert(remaining.len() == rest.len());
        assert(remaining.len() == all.len() - done);
        let field = rest.remove(0);
        proof {
            assert(field@ == remaining[0]);
            assert(remaining[0] == all.skip(done)[0]);
            assert forall|k: int| 0 <= k < rest.len() implies rest.deep_view()[k] == all.skip(
                done + 1,
            )[k] by {
                assert(remaining[k + 1] == all.skip(done)[k + 1]);
            }
            assert(rest.deep_view() =~= all.skip(done + 1));
            assert(all.take(done + 1).drop_last() =~= all.take(done));
            assert(all.take(done + 1).last() == all[done]);
        }
        match parse_field(field) {
            Ok(element) => {
                elements.push(element);
                proof {
                    assert(elements.deep_view() =~= before.push(element@));
                    done = done + 1;
                }
            },
            Err(e) => {
                proof {
                    lemma_elements_of_fails(all, done + 1);
                }
                return Err(e);
            },
        }
    }
    proof {
        assert(all.take(done) =~= all);
    }
    Ok(elements)
}

/// A refusal among the first `n` fields is the refusal of the whole list.
pub proof fn lemma_elements_of_fails(fields: Seq<FieldView>, n: int)
    requires
        0 <= n <= fields.len(),
        elements_of(fields.take(n)) is Err,
    ensures
        elements_of(fields) == elements_of(fields.take(n)),
    decreases fields.len() - n,
{
    if n < fields.len() {
        assert(fields.take(n + 1).drop_last() =~= fields.take(n));
        lemma_elements_of_fails(fields, n + 1);
    } else {
        assert(fields.take(n) =~= fields);
    }
}

/// The view of what `parse_struct` hands back.
pub open spec fn parsed_input_view(r: Result<Input, TagsError>) -> Result<
    InputView,
    TagsErrorView,
> {
    match r {
        Ok(input) => Ok(input@),
        Err(e) => Err(e@),
    }
}

/// Reads a struct: its name, its visibility and its named fields.
pub fn parse_struct(input: ItemStruct) -> (r: Result<Input, TagsError>)
    ensures
        parsed_input_view(r) == input_of(input@),
{
    let ItemStruct {
        tokens: _,
        head,
        impl_generics,
        type_generics,
        where_clause,
        vis,
        ident,
        fields,
    } = input;
    match fields {
        Fields::Named(fields) => match parse_fields(fields) {
            Ok(elements) => Ok(
                Input { head, impl_generics, type_generics, where_clause, ident, vis, elements },
            ),
            Err(e) => Err(e),
        },
        _ => Err(TagsError::InvalidFields),
    }
}

/// The type with which a field is declared: its value type, inside
/// `Option` when the field is optional.
pub open spec fn declared_type(e: ElementView) -> Text {
    match e.kind {
        ElementKind::Required => e.ty,
        ElementKind::Optional => "::std::option::Option<"@ + e.ty + ">"@,
    }
}

/// Writes [`declared_type`].
pub fn write_declared_type(e: &Element) -> (r: String)
    ensures
        r@ == declared_type(e@),
{
    match e.kind {
        ElementKind::Required => e.ty.clone(),
        ElementKind::Optional => {
            let mut out = "::std::option::Option<".to_owned();
            out.append(e.ty.as_str());
            out.append(">");
            out
        },
    }
}

/// The field as it stands in the struct: all of its attributes that are
/// not the pipeline's own, its visibility, its name and its declared type.
pub open spec fn field_definition(e: ElementView) -> Text {
    attrs_text(e.attrs)
        + e.vis
        + " "@
        + e.ident
        + ": "@
        + declared_type(e)
        + ",\n"@
}

/// Writes [`field_definition`].
pub fn write_field_definition(e: &Element) -> (r: String)
    ensures
        r@ == field_definition(e@),
{
    let mut out = render_attrs(&attr_refs(&e.attrs));
    out.append(e.vis.as_str());
    out.append(" ");
    out.append(e.ident.as_str());
    out.append(": ");
    let ty = write_declared_type(e);
    out.append(ty.as_str());
    out.append(",\n");
    out
}

/// The field as a parameter of `from_values`, under the field's
/// conditional-compilation attributes.
pub open spec fn parameter(e: ElementView) -> Text {
    attrs_text(cfg_only(e.attrs))
        + e.ident
        + ": "@
        + declared_type(e)
        + ",\n"@
}

/// Writes [`parameter`].
pub fn write_parameter(e: &Element) -> (r: String)
    ensures
        r@ == parameter(e@),
{
    let mut out = render_attrs(&cfg_attrs(&e.attrs));
    out.append(e.ident.as_str());
    out.append(": ");
    let ty = write_declared_type(e);
    out.append(ty.as_str());
    out.append(",\n");
    out
}

/// The field as `from_values` sets it: from the parameter of its name.
pub open spec fn initializer(e: ElementView) -> Text {
    attrs_text(cfg_only(e.attrs))
        + e.ident
        + ": "@
        + e.ident
        + ",\n"@
}

/// Writes [`initializer`].
pub fn write_initializer(e: &Element) -> (r: String)
    ensures
        r@ == initializer(e@),
{
    let mut out = render_attrs(&cfg_attrs(&e.attrs));
    out.append(e.ident.as_str());
    out.append(": ");
    out.append(e.ident.as_str());
    out.append(",\n");
    out
}

/// The statements that turn the raw value `value` into a value of type
/// `ty` with the type's own conversion, and leave `from_tags` with an
/// invalid-tag-value error for `key` when the conversion fails.
pub open spec fn conversion(ty: Text) -> Text {
    "let value: ::std::result::Result<"@
        + ty
        + ", ::aws_lib::tags::ParseTagsError> =\n"@
        + "<"@
        + ty
        + " as ::aws_lib::tags::TagValue<"@
        + ty
        + ">>::from_raw_tag(value)\n"@
        + ".map_err(|e| ::aws_lib::tags::ParseTagsError::ParseTag(\n"@
        + "::aws_lib::tags::ParseTagError::InvalidTagValue {\n"@
        + "key,\n"@
        + "inner: <<"@
        + ty
        + " as ::aws_lib::tags::TagValue<"@
        + ty
        + ">>::Error\n"@
        + "as Into<::aws_lib::tags::ParseTagValueError>>::into(e),\n"@
        + "}));\n"@
        + "let value = match value {\n"@
        + "::std::result::Result::Ok(v) => v,\n"@
        + "::std::result::Result::Err(e) => { return Err(e); }\n"@
        + "};\n"@
        + "value\n"@
}

/// Writes [`conversion`].
pub fn write_conversion(ty: &str) -> (r: String)
    ensures
        r@ == conversion(ty@),
{
    let mut out = "let value: ::std::result::Result<".to_owned();
    out.append(ty);
    out.append(", ::aws_lib::tags::ParseTagsError> =\n");
    out.append("<");
    out.append(ty);
    out.append(" as ::aws_lib::tags::TagValue<");
    out.append(ty);
    out.append(">>::from_raw_tag(value)\n");
    out.append(".map_err(|e| ::aws_lib::tags::ParseTagsError::ParseTag(\n");
    out.append("::aws_lib::tags::ParseTagError::InvalidTagValue {\n");
    out.append("key,\n");
    out.append("inner: <<");
    out.append(ty);
    out.append(" as ::aws_lib::tags::TagValue<");
    out.append(ty);
    out.append(">>::Error\n");
    out.append("as Into<::aws_lib::tags::ParseTagValueError>>::into(e),\n");
    out.append("}));\n");
    out.append("let value = match value {\n");
    out.append("::std::result::Result::Ok(v) => v,\n");
    out.append("::std::result::Result::Err(e) => { return Err(e); }\n");
    out.append("};\n");
    out.append("value\n");
    out
}

/// What `from_tags` does with the looked-up value of a required field:
/// a missing value is a tag-not-found error for the key, a value that is
/// there is converted.
pub open spec fn required_reader(e: ElementView) -> Text {
    "let value: ::aws_lib::tags::RawTagValue = value\n"@
        + ".ok_or_else(|| ::aws_lib::tags::ParseTagsError::TagNotFound { "@
        + "key: key.clone() })?\n"@
        + ".clone();\n"@
        + "let value = {\n"@
        + conversion(e.ty)
        + "};\n"@
        + "value\n"@
}

/// Writes [`required_reader`].
pub fn write_required_reader(e: &Element) -> (r: String)
    ensures
        r@ == required_reader(e@),
{
    let mut out = "let value: ::aws_lib::tags::RawTagValue = value\n".to_owned();
    out.append(".ok_or_else(|| ::aws_lib::tags::ParseTagsError::TagNotFound { ");
    out.append("key: key.clone() })?\n");
    out.append(".clone();\n");
    out.append("let value = {\n");
    let conversion = write_conversion(e.ty.as_str());
    out.append(conversion.as_str());
    out.append("};\n");
    out.append("value\n");
    out
}

/// What `from_tags` does with the looked-up value of an optional field:
/// a missing value stays missing, a value that is there is converted.
pub open spec fn optional_reader(e: ElementView) -> Text {
    "let value: ::std::option::Option<"@
        + e.ty
        + "> =\n"@
        + "value.map(|value: ::aws_lib::tags::RawTagValue| {\n"@
        + "let value = {\n"@
        + conversion(e.ty)
        + "};\n"@
        + "Ok(value)\n"@
        + "}).transpose()?;\n"@
        + "value\n"@
}

/// Writes [`optional_reader`].
pub fn write_optional_reader(e: &Element) -> (r: String)
    ensures
        r@ == optional_reader(e@),
{
    let mut out = "let value: ::std::option::Option<".to_owned();
    out.append(e.ty.as_str());
    out.append("> =\n");
    out.append("value.map(|value: ::aws_lib::tags::RawTagValue| {\n");
    out.append("let value = {\n");
    let conversion = write_conversion(e.ty.as_str());
    out.append(conversion.as_str());
    out.append("};\n");
    out.append("Ok(value)\n");
    out.append("}).transpose()?;\n");
    out.append("value\n");
    out
}

/// What `from_tags` does with the looked-up value of a field.
pub open spec fn reader(e: ElementView) -> Text {
    match e.kind {
        ElementKind::Required => required_reader(e),
        ElementKind::Optional => optional_reader(e),
    }
}

/// Writes [`reader`].
pub fn write_reader(e: &Element) -> (r: String)
    ensures
        r@ == reader(e@),
{
    match e.kind {
        ElementKind::Required => write_required_reader(e),
        ElementKind::Optional => write_optional_reader(e),
    }
}

/// The field as `from_tags` sets it: the first entry of the tag list
/// whose key is the field's key is looked up, and its value read.
pub open spec fn field_from_tags(e: ElementView) -> Text {
    attrs_text(cfg_only(e.attrs))
        + e.ident
        + ": {\n"@
        + "let key: ::aws_lib::tags::TagKey = ::aws_lib::tags::TagKey::new("@
        + literal_of(e.name)
        + ".to_owned());\n"@
        + "let value: ::std::option::Option<::aws_lib::tags::RawTagValue> = "@
        + "tags\n"@
        + ".as_slice()\n"@
        + ".iter()\n"@
        + ".find(|tag| tag.key() == "@
        + literal_of(e.name)
        + ")\n"@
        + ".map(|tag| tag.value())\n"@
        + ".cloned();\n"@
        + "let value = {\n"@
        + reader(e)
        + "};\n"@
        + "value\n"@
        + "},\n"@
}

/// Writes [`field_from_tags`].
pub fn write_field_from_tags(e: &Element) -> (r: String)
    ensures
        r@ == field_from_tags(e@),
{
    let mut out = render_attrs(&cfg_attrs(&e.attrs));
    out.append(e.ident.as_str());
    out.append(": {\n");
    out.append("let key: ::aws_lib::tags::TagKey = ::aws_lib::tags::TagKey::new(");
    let literal = string_literal(e.name.as_str());
    out.append(literal.as_str());
    out.append(".to_owned());\n");
    out.append("let value: ::std::option::Option<::aws_lib::tags::RawTagValue> = ");
    out.append("tags\n");
    out.append(".as_slice()\n");
    out.append(".iter()\n");
    out.append(".find(|tag| tag.key() == ");
    let literal = string_literal(e.name.as_str());
    out.append(literal.as_str());
    out.append(")\n");
    out.append(".map(|tag| tag.value())\n");
    out.append(".cloned();\n");
    out.append("let value = {\n");
    let reader = write_reader(e);
    out.append(reader.as_str());
    out.append("};\n");
    out.append("value\n");
    out.append("},\n");
    out
}

/// The statements that append one entry to the list that `into_tags`
/// builds: the key `key`, and `value` turned into a raw value with the
/// conversion of its type `ty`.
pub open spec fn entry(key: Text, ty: Text, value: Text) -> Text {
    "let key = ::aws_lib::tags::TagKey::new("@
        + literal_of(key)
        + ".to_owned());\n"@
        + "let value: ::aws_lib::tags::RawTagValue =\n"@
        + "<"@
        + ty
        + " as ::aws_lib::tags::TagValue<"@
        + ty
        + ">>::into_raw_tag("@
        + value
        + ");\n"@
        + "v.push(::aws_lib::tags::RawTag::new(key, value));\n"@
}

/// Writes [`entry`].
pub fn write_entry(key: &str, ty: &str, value: &str) -> (r: String)
    ensures
        r@ == entry(key@, ty@, value@),
{
    let mut out = "let key = ::aws_lib::tags::TagKey::new(".to_owned();
    let literal = string_literal(key);
    out.append(literal.as_str());
    out.append(".to_owned());\n");
    out.append("let value: ::aws_lib::tags::RawTagValue =\n");
    out.append("<");
    out.append(ty);
    out.append(" as ::aws_lib::tags::TagValue<");
    out.append(ty);
    out.append(">>::into_raw_tag(");
    out.append(value);
    out.append(");\n");
    out.append("v.push(::aws_lib::tags::RawTag::new(key, value));\n");
    out
}

/// The expression that names the field of `self`.
pub open spec fn self_field(e: ElementView) -> Text {
    "self."@
        + e.ident
}

/// Writes [`self_field`].
pub fn write_self_field(e: &Element) -> (r: String)
    ensures
        r@ == self_field(e@),
{
    let mut out = "self.".to_owned();
    out.append(e.ident.as_str());
    out
}

/// What `into_tags` does with a required field: it always appends the
/// field's entry.
pub open spec fn required_writer(e: ElementView) -> Text {
    "{\n"@
        + entry(e.name, e.ty, self_field(e))
        + "};\n"@
}

/// Writes [`required_writer`].
pub fn write_required_writer(e: &Element) -> (r: String)
    ensures
        r@ == required_writer(e@),
{
    let mut out = "{\n".to_owned();
    let entry = write_entry(e.name.as_str(), e.ty.as_str(), write_self_field(e).as_str());
    out.append(entry.as_str());
    out.append("};\n");
    out
}

/// What `into_tags` does with an optional field: it appends the field's
/// entry when the field holds a value and nothing when it holds none.
pub open spec fn optional_writer(e: ElementView) -> Text {
    "{\n"@
        + "match self."@
        + e.ident
        + " {\n"@
        + "::std::option::Option::Some(value) => {\n"@
        + entry(e.name, e.ty, "value"@)
        + "},\n"@
        + "::std::option::Option::None => {},\n"@
        + "}\n"@
        + "};\n"@
}

/// Writes [`optional_writer`].
pub fn write_optional_writer(e: &Element) -> (r: String)
    ensures
        r@ == optional_writer(e@),
{
    let mut out = "{\n".to_owned();
    out.append("match self.");
    out.append(e.ident.as_str());
    out.append(" {\n");
    out.append("::std::option::Option::Some(value) => {\n");
    let entry = write_entry(e.name.as_str(), e.ty.as_str(), "value");
    out.append(entry.as_str());
    out.append("},\n");
    out.append("::std::option::Option::None => {},\n");
    out.append("}\n");
    out.append("};\n");
    out
}

/// The field as `into_tags` handles it, under the field's
/// conditional-compilation attributes.
pub open spec fn field_into_tags(e: ElementView) -> Text {
    attrs_text(cfg_only(e.attrs)) + match e.kind {
        ElementKind::Required => required_writer(e),
        ElementKind::Optional => optional_writer(e),
    }
}

/// Writes [`field_into_tags`].
pub fn write_field_into_tags(e: &Element) -> (r: String)
    ensures
        r@ == field_into_tags(e@),
{
    let mut out = render_attrs(&cfg_attrs(&e.attrs));
    let body = match e.kind {
        ElementKind::Required => write_required_writer(e),
        ElementKind::Optional => write_optional_writer(e),
    };
    out.append(body.as_str());
    out
}

/// The places in the expansion where every field stands once.
#[derive(Debug, Clone, Copy, PartialEq, Eq)]
pub enum Part {
    /// The field list of the struct.
    Definition,
    /// The parameter list of `from_values`.
    Parameter,
    /// The struct literal in `from_values`.
    Initializer,
    /// The struct literal in `from_tags`.
    FromTags,
    /// The statements of `into_tags`.
    IntoTags,
}

/// What stands for the field `e` in the place `part`.
pub open spec fn part_text(e: ElementView, part: Part) -> Text {
    match part {
        Part::Definition => field_definition(e),
        Part::Parameter => parameter(e),
        Part::Initializer => initializer(e),
        Part::FromTags => field_from_tags(e),
        Part::IntoTags => field_into_tags(e),
    }
}

/// What stands in the place `part`: the text of every field, in the order
/// declared.
pub open spec fn parts_text(elements: Seq<ElementView>, part: Part) -> Text
    decreases elements.len(),
{
    if elements.len() == 0 {
        Seq::empty()
    } else {
        parts_text(elements.drop_last(), part) + part_text(elements.last(), part)
    }
}

/// Writes [`part_text`].
pub fn write_part(e: &Element, part: Part) -> (r: String)
    ensures
        r@ == part_text(e@, part),
{
    match part {
        Part::Definition => write_field_definition(e),
        Part::Parameter => write_parameter(e),
        Part::Initializer => write_initializer(e),
        Part::FromTags => write_field_from_tags(e),
        Part::IntoTags => write_field_into_tags(e),
    }
}

/// Writes [`parts_text`].
pub fn write_parts(elements: &Vec<Element>, part: Part) -> (r: String)
    ensures
        r@ == parts_text(elements.deep_view(), part),
{
    let ghost all = elements.deep_view();
    let mut out = String::new();
    let mut i: usize = 0;
    proof {
        assert(all.take(0) =~= Seq::<ElementView>::empty());
    }
    while i < elements.len()
        invariant
            i <= elements.len(),
            all == elements.deep_view(),
            out@ == parts_text(all.take(i as int), part),
        decreases elements.len() - i,
    {
        proof {
            assert(all.take(i + 1).drop_last() =~= all.take(i as int));
            assert(all.take(i + 1).last() == elements[i as int]@);
        }
        let piece = write_part(&elements[i], part);
        out.append(piece.as_str());
        i += 1;
    }
    proof {
        assert(all.take(i as int) =~= all);
    }
    out
}

/// The struct as it is written again: everything that stood before its
/// fields as written, then its fields without the attributes that were
/// read, in the order declared.
pub open spec fn definition(input: InputView) -> Text {
    input.head + " {\n"@ + parts_text(input.elements, Part::Definition) + "}\n"@
}

/// The `impl` block for the struct's type, under the struct's generics
/// and where clause, with `from_values`, `from_tags` and `into_tags`.
/// Every field stands in each of the four places, in the order declared.
pub open spec fn implementation(input: InputView) -> Text {
    "impl"@
        + input.impl_generics
        + " "@
        + input.ident
        + input.type_generics
        + " "@
        + input.where_clause
        + " {\n"@
        + input.vis
        + " fn from_values(\n"@
        + parts_text(input.elements, Part::Parameter)
        + ") -> Self {\n"@
        + "Self {\n"@
        + parts_text(input.elements, Part::Initializer)
        + "}\n"@
        + "}\n"@
        + input.vis
        + " fn from_tags(\n"@
        + "tags: ::aws_lib::tags::TagList,\n"@
        + ") -> Result<Self, ::aws_lib::tags::ParseTagsError> {\n"@
        + "Ok(Self {\n"@
        + parts_text(input.elements, Part::FromTags)
        + "})\n"@
        + "}\n"@
        + input.vis
        + " fn into_tags(self) -> ::aws_lib::tags::TagList {\n"@
        + "let mut v = ::std::vec::Vec::new();\n"@
        + "{\n"@
        + parts_text(input.elements, Part::IntoTags)
        + "}\n"@
        + "::aws_lib::tags::TagList::from_vec(v)\n"@
        + "}\n"@
        + "}\n"@
}

/// The expansion of a struct: the struct itself, then the `impl` block.
pub open spec fn expansion(input: InputView) -> Text {
    definition(input) + implementation(input)
}

/// The expansion of a struct begins with everything that stood before
/// the struct's fields, as written: its attributes, visibility, name,
/// generics and where clause.
pub proof fn lemma_expansion_keeps_head(item: ItemStructView)
    requires
        input_of(item) is Ok,
    ensures
        item.head.is_prefix_of(expansion(input_of(item)->Ok_0)),
        input_of(item)->Ok_0.impl_generics == item.impl_generics,
        input_of(item)->Ok_0.type_generics == item.type_generics,
        input_of(item)->Ok_0.where_clause == item.where_clause,
{
    let input = input_of(item)->Ok_0;
    let rest = " {\n"@ + parts_text(input.elements, Part::Definition) + "}\n"@ + implementation(
        input,
    );
    assert(expansion(input) =~= item.head + rest);
}

/// Writes [`definition`].
pub fn write_definition(input: &Input) -> (r: String)
    ensures
        r@ == definition(input@),
{
    let mut out = input.head.as_str().to_owned();
    out.append(" {\n");
    let fields = write_parts(&input.elements, Part::Definition);
    out.append(fields.as_str());
    out.append("}\n");
    out
}

/// Writes [`implementation`].
pub fn write_implementation(input: &Input) -> (r: String)
    ensures
        r@ == implementation(input@),
{
    let mut out = "impl".to_owned();
    out.append(input.impl_generics.as_str());
    out.append(" ");
    out.append(input.ident.as_str());
    out.append(input.type_generics.as_str());
    out.append(" ");
    out.append(input.where_clause.as_str());
    out.append(" {\n");
    out.append(input.vis.as_str());
    out.append(" fn from_values(\n");
    let parameters = write_parts(&input.elements, Part::Parameter);
    out.append(parameters.as_str());
    out.append(") -> Self {\n");
    out.append("Self {\n");
    let initializers = write_parts(&input.elements, Part::Initializer);
    out.append(initializers.as_str());
    out.append("}\n");
    out.append("}\n");
    out.append(input.vis.as_str());
    out.append(" fn from_tags(\n");
    out.append("tags: ::aws_lib::tags::TagList,\n");
    out.append(") -> Result<Self, ::aws_lib::tags::ParseTagsError> {\n");
    out.append("Ok(Self {\n");
    let readers = write_parts(&input.elements, Part::FromTags);
    out.append(readers.as_str());
    out.append("})\n");
    out.append("}\n");
    out.append(input.vis.as_str());
    out.append(" fn into_tags(self) -> ::aws_lib::tags::TagList {\n");
    out.append("let mut v = ::std::vec::Vec::new();\n");
    out.append("{\n");
    let writers = write_parts(&input.elements, Part::IntoTags);
    out.append(writers.as_str());
    out.append("}\n");
    out.append("::aws_lib::tags::TagList::from_vec(v)\n");
    out.append("}\n");
    out.append("}\n");
    out
}

/// Writes the expansion of a struct that was read.
pub fn build_output(input: Input) -> (r: String)
    ensures
        r@ == expansion(input@),
{
    let mut out = write_definition(&input);
    let implementation = write_implementation(&input);
    out.append(implementation.as_str());
    out
}

/// What the pipeline makes of its input: the text of the expansion, or
/// why the input is refused.
///
/// The arguments are judged first and must be empty; then the item, which
/// must be a struct; then its fields, in the order declared.
pub open spec fn transformed(attr: Text, item: ItemView) -> Result<Text, TagsErrorView> {
    if attr.len() != 0 {
        Err(TagsErrorView::UnexpectedArguments)
    } else {
        match item {
            ItemView::Struct(item) => match input_of(item) {
                Ok(input) => Ok(expansion(input)),
                Err(e) => Err(e),
            },
            _ => Err(TagsErrorView::NotStruct),
        }
    }
}

/// The view of what `transform` hands back.
pub open spec fn transformed_view(r: Result<String, TagsError>) -> Result<Text, TagsErrorView> {
    match r {
        Ok(text) => Ok(text@),
        Err(e) => Err(e@),
    }
}

/// Expands the attribute on `item`: `attr` holds the attribute's
/// arguments as written.
pub fn transform(attr: &str, item: Item) -> (r: Result<String, TagsError>)
    ensures
        transformed_view(r) == transformed(attr@, item@),
{
    if !attr.is_empty() {
        return Err(TagsError::UnexpectedArguments);
    }
    match item {
        Item::Struct(item) => match parse_struct(item) {
            Ok(input) => Ok(build_output(input)),
            Err(e) => Err(e),
        },
        _ => Err(TagsError::NotStruct),
    }
}


/// What a refusal says to the author of the decorated item.
pub open spec fn tags_message(e: TagsErrorView) -> Text {
    match e {
        TagsErrorView::UnexpectedArguments => "cannot take any attribute macro attributes"@,
        TagsErrorView::NotStruct => "only applicable to structs"@,
        TagsErrorView::InvalidFields => "invalid fields"@,
        TagsErrorView::UnnamedField => "tuple structs not supported"@,
        TagsErrorView::InvalidFieldType => "invalid field type"@,
        TagsErrorView::InvalidOptionUsage => "invalid Option usage"@,
        TagsErrorView::WrongNumberOfOptionArguments => "wrong number of Option generic arguments"@,
        TagsErrorView::OptionArgumentNotType => "need simple owned Option generic"@,
        TagsErrorView::InvalidOptionArgument => "invalid generic type for Option"@,
        TagsErrorView::FieldAttribute(e) => config_message(e, "tag field attribute"@),
    }
}

impl TagsError {
    /// Says why the input was refused.
    pub fn message(&self) -> (r: String)
        ensures
            r@ == tags_message(self@),
    {
        match self {
            TagsError::UnexpectedArguments => {
                "cannot take any attribute macro attributes".to_owned()
            },
            TagsError::NotStruct => "only applicable to structs".to_owned(),
            TagsError::InvalidFields => "invalid fields".to_owned(),
            TagsError::UnnamedField => "tuple structs not supported".to_owned(),
            TagsError::InvalidFieldType => "invalid field type".to_owned(),
            TagsError::InvalidOptionUsage => "invalid Option usage".to_owned(),
            TagsError::WrongNumberOfOptionArguments => {
                "wrong number of Option generic arguments".to_owned()
            },
            TagsError::OptionArgumentNotType => "need simple owned Option generic".to_owned(),
            TagsError::InvalidOptionArgument => "invalid generic type for Option".to_owned(),
            TagsError::FieldAttribute(e) => e.message("tag field attribute"),
        }
    }
}

/// Whether a type is `Option` with exactly one argument that is a type
/// and a path.
pub open spec fn is_option_of_path(ty: TypeView) -> bool {
    &&& ty.shape matches TypeShapeView::Path(path)
    &&& path.first == "Option"@
    &&& path.arguments matches PathArgumentsView::AngleBracketed(args)
    &&& args.len() == 1
    &&& args[0] is TypePath
}

/// Whether a type is one that no field may have: a type that is no path,
/// or `Option` with anything but one argument that is a type and a path.
pub open spec fn is_refused_type(ty: TypeView) -> bool {
    match ty.shape {
        TypeShapeView::Other => true,
        TypeShapeView::Path(path) => path.first == "Option"@ && !is_option_of_path(ty),
    }
}

/// A list of fields is refused as soon as one of its fields is.
pub proof fn lemma_elements_of_field_fails(fields: Seq<FieldView>, i: int)
    requires
        0 <= i < fields.len(),
        element_of(fields[i]) is Err,
    ensures
        elements_of(fields) is Err,
    decreases fields.len(),
{
    if i < fields.len() - 1 {
        lemma_elements_of_field_fails(fields.drop_last(), i);
    }
}

/// A struct with unnamed fields is refused, and so is a struct with a
/// field whose type is no path, or is `Option` with no argument, with
/// several, or with one that is not a type and a path.
pub proof fn lemma_refused_shapes(attr: Text, item: ItemStructView)
    requires
        item.fields is Unnamed || (item.fields matches FieldsView::Named(fields) && exists|i: int|
            0 <= i < fields.len() && is_refused_type(#[trigger] fields[i].ty)),
    ensures
        transformed(attr, ItemView::Struct(item)) is Err,
{
    match item.fields {
        FieldsView::Named(fields) => {
            let i = choose|i: int|
                0 <= i < fields.len() && is_refused_type(#[trigger] fields[i].ty);
            assert(type_of_field(fields[i].ty) is Err);
            lemma_elements_of_field_fails(fields, i);
        },
        _ => {},
    }
}

} // verus!

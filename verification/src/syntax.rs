//! A plain model of the syntax that the attributes read.
//!
//! The attributes look at a small part of a decorated item: the kind of
//! item, its name, its fields or variants, their types one level deep and
//! their attributes. Everything else is carried along as source text and
//! written out again unchanged. Each type here has a mathematical view in
//! which text is a sequence of characters; contracts are stated over those
//! views.

use crate::expr::{Expr, ExprView};
use vstd::prelude::*;

verus! {

/// What follows the path of an attribute.
#[derive(Debug, Clone, PartialEq, Eq)]
pub enum Meta {
    /// A bare path, as in `#[test]`.
    Path,
    /// A path with delimited arguments, as in `#[derive(Debug)]`.
    List {
        /// The path, when it is a single bare identifier.
        name: Option<String>,
        /// The arguments between the delimiters, parsed as one expression;
        /// nothing when they are not one expression.
        args: Option<Expr>,
    },
    /// A path with a value, as in `#[doc = "text"]`.
    NameValue,
}

/// An attribute attached to a field or a variant.
#[derive(Debug, Clone, PartialEq, Eq)]
pub struct Attribute {
    /// Whether the attribute is an outer one (`#[..]`, not `#![..]`).
    pub outer: bool,
    /// What the attribute holds.
    pub meta: Meta,
    /// The whole attribute as written.
    pub tokens: String,
}

/// One generic argument between angle brackets.
#[derive(Debug, Clone, PartialEq, Eq)]
pub enum GenericArgument {
    /// A type that is a path, with the path as written.
    TypePath(String),
    /// Any other type.
    Type,
    /// Anything that is not a type: a lifetime, a constant, a binding.
    Other,
}

/// The arguments of a path segment.
#[derive(Debug, Clone, PartialEq, Eq)]
pub enum PathArguments {
    /// No arguments.
    Absent,
    /// `<A, B>`
    AngleBracketed(Vec<GenericArgument>),
    /// `(A, B) -> C`
    Parenthesized,
}

/// A type that is a path.
#[derive(Debug, Clone, PartialEq, Eq)]
pub struct TypePath {
    /// The path as written.
    pub tokens: String,
    /// The identifier of the path's first segment.
    pub first: String,
    /// The arguments of the path's first segment.
    pub arguments: PathArguments,
}

/// The shape of a type.
#[derive(Debug, Clone, PartialEq, Eq)]
pub enum TypeShape {
    /// A path, possibly with generic arguments.
    Path(TypePath),
    /// Anything else: a reference, a tuple, a slice and so on.
    Other,
}

/// The type of a field.
#[derive(Debug, Clone, PartialEq, Eq)]
pub struct Type {
    /// The type as written.
    pub tokens: String,
    /// What the type looks like.
    pub shape: TypeShape,
}

/// A field of a struct.
#[derive(Debug, Clone, PartialEq, Eq)]
pub struct Field {
    /// The field's attributes, in the order written.
    pub attrs: Vec<Attribute>,
    /// The field's visibility as written; empty when inherited.
    pub vis: String,
    /// The field's name; absent in a tuple struct.
    pub ident: Option<String>,
    /// The field's type.
    pub ty: Type,
}

/// The fields of a struct.
#[derive(Debug, Clone, PartialEq, Eq)]
pub enum Fields {
    /// `{ a: A, b: B }`
    Named(Vec<Field>),
    /// `(A, B)`
    Unnamed(Vec<Field>),
    /// No fields at all.
    Unit,
}

/// A struct.
#[derive(Debug, Clone, PartialEq, Eq)]
pub struct ItemStruct {
    /// The whole item as written.
    pub tokens: String,
    /// Everything before the fields: attributes, visibility, the keyword,
    /// the name, the generics and, before named fields, the where clause.
    pub head: String,
    /// The generics as an `impl` declares them, with their bounds; empty
    /// when the struct has none.
    pub impl_generics: String,
    /// The generics as the struct's type names them, without bounds;
    /// empty when the struct has none.
    pub type_generics: String,
    /// The where clause; empty when the struct has none.
    pub where_clause: String,
    /// The struct's visibility as written; empty when inherited.
    pub vis: String,
    /// The struct's name.
    pub ident: String,
    /// The struct's fields.
    pub fields: Fields,
}

/// A variant of an enum.
#[derive(Debug, Clone, PartialEq, Eq)]
pub struct Variant {
    /// The variant's attributes, in the order written.
    pub attrs: Vec<Attribute>,
    /// The variant's name.
    pub ident: String,
    /// Whether the variant carries no fields.
    pub unit: bool,
    /// Whether the variant has an explicit discriminant.
    pub discriminant: bool,
}

/// An enum.
#[derive(Debug, Clone, PartialEq, Eq)]
pub struct ItemEnum {
    /// The whole item as written.
    pub tokens: String,
    /// Everything before the braces that hold the variants: attributes,
    /// visibility, the keyword, the name, the generics and the where
    /// clause.
    pub head: String,
    /// The enum's name.
    pub ident: String,
    /// The enum's variants, in the order declared.
    pub variants: Vec<Variant>,
}

/// A decorated item.
#[derive(Debug, Clone, PartialEq, Eq)]
pub enum Item {
    /// A struct.
    Struct(ItemStruct),
    /// An enum.
    Enum(ItemEnum),
    /// Any other kind of item.
    Other,
}

/// Source text in contracts.
pub type Text = Seq<char>;

/// The mathematical value of a [`Meta`].
pub enum MetaView {
    Path,
    List { name: Option<Text>, args: Option<ExprView> },
    NameValue,
}

/// The mathematical value of an [`Attribute`].
pub struct AttributeView {
    pub outer: bool,
    pub meta: MetaView,
    pub tokens: Text,
}

/// The mathematical value of a [`GenericArgument`].
pub enum GenericArgumentView {
    TypePath(Text),
    Type,
    Other,
}

/// The mathematical value of a [`PathArguments`].
pub enum PathArgumentsView {
    Absent,
    AngleBracketed(Seq<GenericArgumentView>),
    Parenthesized,
}

/// The mathematical value of a [`TypePath`].
pub struct TypePathView {
    pub tokens: Text,
    pub first: Text,
    pub arguments: PathArgumentsView,
}

/// The mathematical value of a [`TypeShape`].
pub enum TypeShapeView {
    Path(TypePathView),
    Other,
}

/// The mathematical value of a [`Type`].
pub struct TypeView {
    pub tokens: Text,
    pub shape: TypeShapeView,
}

/// The mathematical value of a [`Field`].
pub struct FieldView {
    pub attrs: Seq<AttributeView>,
    pub vis: Text,
    pub ident: Option<Text>,
    pub ty: TypeView,
}

/// The mathematical value of a [`Fields`].
pub enum FieldsView {
    Named(Seq<FieldView>),
    Unnamed(Seq<FieldView>),
    Unit,
}

/// The mathematical value of an [`ItemStruct`].
pub struct ItemStructView {
    pub tokens: Text,
    pub head: Text,
    pub impl_generics: Text,
    pub type_generics: Text,
    pub where_clause: Text,
    pub vis: Text,
    pub ident: Text,
    pub fields: FieldsView,
}

/// The mathematical value of a [`Variant`].
pub struct VariantView {
    pub attrs: Seq<AttributeView>,
    pub ident: Text,
    pub unit: bool,
    pub discriminant: bool,
}

/// The mathematical value of an [`ItemEnum`].
pub struct ItemEnumView {
    pub tokens: Text,
    pub head: Text,
    pub ident: Text,
    pub variants: Seq<VariantView>,
}

/// The mathematical value of an [`Item`].
pub enum ItemView {
    Struct(ItemStructView),
    Enum(ItemEnumView),
    Other,
}

impl View for Meta {
    type V = MetaView;

    open spec fn view(&self) -> MetaView {
        match self {
            Meta::Path => MetaView::Path,
            Meta::List { name, args } => MetaView::List {
                name: name.deep_view(),
                args: args.deep_view(),
            },
            Meta::NameValue => MetaView::NameValue,
        }
    }
}

impl DeepView for Meta {
    type V = MetaView;

    open spec fn deep_view(&self) -> MetaView {
        self@
    }
}

impl View for Attribute {
    type V = AttributeView;

    open spec fn view(&self) -> AttributeView {
        AttributeView { outer: self.outer, meta: self.meta@, tokens: self.tokens@ }
    }
}

impl DeepView for Attribute {
    type V = AttributeView;

    open spec fn deep_view(&self) -> AttributeView {
        self@
    }
}

impl View for GenericArgument {
    type V = GenericArgumentView;

    open spec fn view(&self) -> GenericArgumentView {
        match self {
            GenericArgument::TypePath(tokens) => GenericArgumentView::TypePath(tokens@),
            GenericArgument::Type => GenericArgumentView::Type,
            GenericArgument::Other => GenericArgumentView::Other,
        }
    }
}

impl DeepView for GenericArgument {
    type V = GenericArgumentView;

    open spec fn deep_view(&self) -> GenericArgumentView {
        self@
    }
}

impl View for PathArguments {
    type V = PathArgumentsView;

    open spec fn view(&self) -> PathArgumentsView {
        match self {
            PathArguments::Absent => PathArgumentsView::Absent,
            PathArguments::AngleBracketed(args) => PathArgumentsView::AngleBracketed(
                args.deep_view(),
            ),
            PathArguments::Parenthesized => PathArgumentsView::Parenthesized,
        }
    }
}

impl View for TypePath {
    type V = TypePathView;

    open spec fn view(&self) -> TypePathView {
        TypePathView { tokens: self.tokens@, first: self.first@, arguments: self.arguments@ }
    }
}

impl View for TypeShape {
    type V = TypeShapeView;

    open spec fn view(&self) -> TypeShapeView {
        match self {
            TypeShape::Path(path) => TypeShapeView::Path(path@),
            TypeShape::Other => TypeShapeView::Other,
        }
    }
}

impl View for Type {
    type V = TypeView;

    open spec fn view(&self) -> TypeView {
        TypeView { tokens: self.tokens@, shape: self.shape@ }
    }
}

impl View for Field {
    type V = FieldView;

    open spec fn view(&self) -> FieldView {
        FieldView {
            attrs: self.attrs.deep_view(),
            vis: self.vis@,
            ident: self.ident.deep_view(),
            ty: self.ty@,
        }
    }
}

impl DeepView for Field {
    type V = FieldView;

    open spec fn deep_view(&self) -> FieldView {
        self@
    }
}

impl View for Fields {
    type V = FieldsView;

    open spec fn view(&self) -> FieldsView {
        match self {
            Fields::Named(fields) => FieldsView::Named(fields.deep_view()),
            Fields::Unnamed(fields) => FieldsView::Unnamed(fields.deep_view()),
            Fields::Unit => FieldsView::Unit,
        }
    }
}

impl View for ItemStruct {
    type V = ItemStructView;

    open spec fn view(&self) -> ItemStructView {
        ItemStructView {
            tokens: self.tokens@,
            head: self.head@,
            impl_generics: self.impl_generics@,
            type_generics: self.type_generics@,
            where_clause: self.where_clause@,
            vis: self.vis@,
            ident: self.ident@,
            fields: self.fields@,
        }
    }
}

impl View for Variant {
    type V = VariantView;

    open spec fn view(&self) -> VariantView {
        VariantView {
            attrs: self.attrs.deep_view(),
            ident: self.ident@,
            unit: self.unit,
            discriminant: self.discriminant,
        }
    }
}

impl DeepView for Variant {
    type V = VariantView;

    open spec fn deep_view(&self) -> VariantView {
        self@
    }
}

impl View for ItemEnum {
    type V = ItemEnumView;

    open spec fn view(&self) -> ItemEnumView {
        ItemEnumView {
            tokens: self.tokens@,
            head: self.head@,
            ident: self.ident@,
            variants: self.variants.deep_view(),
        }
    }
}

impl View for Item {
    type V = ItemView;

    open spec fn view(&self) -> ItemView {
        match self {
            Item::Struct(item) => ItemView::Struct(item@),
            Item::Enum(item) => ItemView::Enum(item@),
            Item::Other => ItemView::Other,
        }
    }
}

} // verus!

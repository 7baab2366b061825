use aws_macros::attrs::list_attribute;
use aws_macros::expr::ConfigError;
use aws_macros::syntax::{
    Attribute, Field, Fields, GenericArgument, Item, ItemEnum, ItemStruct, Meta, PathArguments,
    Type, TypePath, TypeShape,
};
use aws_macros::tags::{
    build_output, cfg_attrs, is_cfg_attribute, parse_field, parse_field_attrs, parse_fields,
    parse_struct, parse_type, transform, write_parts, Element, ElementKind, Input, Part,
    TagsError,
};

fn list(name: &str, tokens: &str) -> Attribute {
    list_attribute(true, Some(name.to_string()), tokens, format!("#[{}({})]", name, tokens))
}

fn doc(text: &str) -> Attribute {
    Attribute { outer: true, meta: Meta::NameValue, tokens: format!("#[doc = \"{}\"]", text) }
}

fn plain(name: &str) -> Type {
    Type {
        tokens: name.to_string(),
        shape: TypeShape::Path(TypePath {
            tokens: name.to_string(),
            first: name.to_string(),
            arguments: PathArguments::Absent,
        }),
    }
}

fn generic(first: &str, args: Vec<GenericArgument>, tokens: &str) -> Type {
    Type {
        tokens: tokens.to_string(),
        shape: TypeShape::Path(TypePath {
            tokens: tokens.to_string(),
            first: first.to_string(),
            arguments: PathArguments::AngleBracketed(args),
        }),
    }
}

fn option(inner: &str) -> Type {
    generic(
        "Option",
        vec![GenericArgument::TypePath(inner.to_string())],
        &format!("Option < {} >", inner),
    )
}

fn field(attrs: Vec<Attribute>, vis: &str, name: &str, ty: Type) -> Field {
    Field { attrs, vis: vis.to_string(), ident: Some(name.to_string()), ty }
}

fn item(vis: &str, name: &str, fields: Fields) -> ItemStruct {
    ItemStruct {
        tokens: String::new(),
        head: format!("{} struct {}", vis, name),
        impl_generics: String::new(),
        type_generics: String::new(),
        where_clause: String::new(),
        vis: vis.to_string(),
        ident: name.to_string(),
        fields,
    }
}

fn flatten(stream: proc_macro2::TokenStream, out: &mut Vec<String>) {
    for tree in stream {
        match tree {
            proc_macro2::TokenTree::Group(group) => {
                out.push(format!("open {:?}", group.delimiter()));
                flatten(group.stream(), out);
                out.push(format!("close {:?}", group.delimiter()));
            }
            proc_macro2::TokenTree::Ident(ident) => out.push(ident.to_string()),
            proc_macro2::TokenTree::Punct(punct) => out.push(punct.as_char().to_string()),
            proc_macro2::TokenTree::Literal(literal) => out.push(literal.to_string()),
        }
    }
}

fn tokens(text: &str) -> Vec<String> {
    let mut out = Vec::new();
    flatten(text.parse().unwrap(), &mut out);
    out
}

fn assert_same_tokens(got: &str, want: &str) {
    let got = tokens(got);
    let want = tokens(want);
    for i in 0..got.len().min(want.len()) {
        if got[i] != want[i] {
            let from = i.saturating_sub(8);
            panic!(
                "token {}: got {:?}, want {:?}",
                i,
                got[from..(i + 4).min(got.len())].join(" "),
                want[from..(i + 4).min(want.len())].join(" ")
            );
        }
    }
    assert_eq!(got.len(), want.len());
}

#[test]
fn a_cfg_attribute_is_a_list_named_cfg() {
    assert!(is_cfg_attribute(&list("cfg", "feature = \"x\"")));
    assert!(!is_cfg_attribute(&list("cfg_attr", "test, a")));
    assert!(!is_cfg_attribute(&list("tag", "key = \"a\"")));
    assert!(!is_cfg_attribute(&doc("cfg")));
    let bare = Attribute { outer: true, meta: Meta::Path, tokens: "#[cfg]".to_string() };
    assert!(!is_cfg_attribute(&bare));
}

#[test]
fn cfg_attrs_keeps_only_cfg_attributes_in_order() {
    let attrs = vec![doc("a"), list("cfg", "x"), list("derive", "Debug"), list("cfg", "y")];
    let kept = cfg_attrs(&attrs);
    assert_eq!(kept.len(), 2);
    assert_eq!(kept[0], &attrs[1]);
    assert_eq!(kept[1], &attrs[3]);
    assert!(cfg_attrs(&vec![doc("a")]).is_empty());
    assert!(cfg_attrs(&Vec::new()).is_empty());
}

#[test]
fn a_plain_path_is_a_required_value() {
    assert_eq!(parse_type(plain("Id")), Ok(("Id".to_string(), ElementKind::Required)));
    let qualified = Type {
        tokens: "std :: option :: Option < Id >".to_string(),
        shape: TypeShape::Path(TypePath {
            tokens: "std :: option :: Option < Id >".to_string(),
            first: "std".to_string(),
            arguments: PathArguments::Absent,
        }),
    };
    assert_eq!(
        parse_type(qualified),
        Ok(("std :: option :: Option < Id >".to_string(), ElementKind::Required))
    );
}

#[test]
fn a_generic_path_other_than_option_is_a_required_value() {
    let map = generic(
        "HashMap",
        vec![GenericArgument::TypePath("K".to_string()), GenericArgument::TypePath("V".to_string())],
        "HashMap < K , V >",
    );
    assert_eq!(parse_type(map), Ok(("HashMap < K , V >".to_string(), ElementKind::Required)));
}

#[test]
fn option_of_a_path_is_an_optional_value_of_the_inner_type() {
    assert_eq!(parse_type(option("Note")), Ok(("Note".to_string(), ElementKind::Optional)));
    assert_eq!(parse_type(option("a :: Note")), Ok(("a :: Note".to_string(), ElementKind::Optional)));
}

#[test]
fn a_type_that_is_no_path_is_refused() {
    let reference = Type { tokens: "& str".to_string(), shape: TypeShape::Other };
    assert_eq!(parse_type(reference), Err(TagsError::InvalidFieldType));
}

#[test]
fn option_without_angle_brackets_is_refused() {
    assert_eq!(parse_type(plain("Option")), Err(TagsError::InvalidOptionUsage));
    let parenthesized = Type {
        tokens: "Option (A)".to_string(),
        shape: TypeShape::Path(TypePath {
            tokens: "Option (A)".to_string(),
            first: "Option".to_string(),
            arguments: PathArguments::Parenthesized,
        }),
    };
    assert_eq!(parse_type(parenthesized), Err(TagsError::InvalidOptionUsage));
}

#[test]
fn option_with_no_or_several_arguments_is_refused() {
    let none = generic("Option", vec![], "Option < >");
    assert_eq!(parse_type(none), Err(TagsError::WrongNumberOfOptionArguments));
    let two = generic(
        "Option",
        vec![GenericArgument::TypePath("A".to_string()), GenericArgument::TypePath("B".to_string())],
        "Option < A , B >",
    );
    assert_eq!(parse_type(two), Err(TagsError::WrongNumberOfOptionArguments));
}

#[test]
fn option_of_something_that_is_no_path_type_is_refused() {
    let lifetime = generic("Option", vec![GenericArgument::Other], "Option < 'a >");
    assert_eq!(parse_type(lifetime), Err(TagsError::OptionArgumentNotType));
    let tuple = generic("Option", vec![GenericArgument::Type], "Option < (A , B) >");
    assert_eq!(parse_type(tuple), Err(TagsError::InvalidOptionArgument));
}

#[test]
fn a_field_attribute_sets_the_key_and_is_taken_out() {
    let mut attrs = vec![doc("a"), list("tag", "key = \"my-id\""), list("cfg", "x")];
    assert_eq!(parse_field_attrs(&mut attrs), Ok(Some("my-id".to_string())));
    assert_eq!(attrs, vec![doc("a"), list("cfg", "x")]);
}

#[test]
fn without_a_field_attribute_no_key_is_set() {
    let mut attrs = vec![doc("a"), list("cfg", "x")];
    assert_eq!(parse_field_attrs(&mut attrs), Ok(None));
    assert_eq!(attrs, vec![doc("a"), list("cfg", "x")]);
}

#[test]
fn only_the_first_field_attribute_is_read() {
    let mut attrs = vec![list("tag", "key = \"a\""), list("tag", "key = \"b\"")];
    assert_eq!(parse_field_attrs(&mut attrs), Ok(Some("a".to_string())));
    assert_eq!(attrs, vec![list("tag", "key = \"b\"")]);
}

#[test]
fn a_field_attribute_of_another_form_is_refused() {
    let mut attrs = vec![list("tag", "rename = \"a\"")];
    assert_eq!(
        parse_field_attrs(&mut attrs),
        Err(TagsError::FieldAttribute(ConfigError::InvalidKey))
    );
    assert!(attrs.is_empty());
    let mut attrs = vec![list("tag", "key = 1")];
    assert_eq!(
        parse_field_attrs(&mut attrs),
        Err(TagsError::FieldAttribute(ConfigError::RightNotString))
    );
    let mut attrs = vec![list("tag", "key = id")];
    assert_eq!(
        parse_field_attrs(&mut attrs),
        Err(TagsError::FieldAttribute(ConfigError::RightNotLiteral))
    );
    let mut attrs = vec![list("tag", "key")];
    assert_eq!(
        parse_field_attrs(&mut attrs),
        Err(TagsError::FieldAttribute(ConfigError::NotAssignment))
    );
    let mut attrs = vec![list("tag", "\"key\" = \"a\"")];
    assert_eq!(
        parse_field_attrs(&mut attrs),
        Err(TagsError::FieldAttribute(ConfigError::LeftNotPath))
    );
    let mut attrs = vec![list("tag", "key = ")];
    assert_eq!(parse_field_attrs(&mut attrs), Err(TagsError::FieldAttribute(ConfigError::NotExpression)));
}

#[test]
fn a_field_becomes_an_element() {
    let parsed = parse_field(field(
        vec![doc("the id"), list("tag", "key = \"ID\"")],
        "pub",
        "id",
        plain("Id"),
    ));
    assert_eq!(
        parsed,
        Ok(Element {
            ident: "id".to_string(),
            vis: "pub".to_string(),
            ty: "Id".to_string(),
            kind: ElementKind::Required,
            name: "ID".to_string(),
            attrs: vec![doc("the id")],
        })
    );
}

#[test]
fn the_key_defaults_to_the_name_of_the_field() {
    let parsed = parse_field(field(vec![], "", "note", option("Note"))).unwrap();
    assert_eq!(parsed.name, "note");
    assert_eq!(parsed.kind, ElementKind::Optional);
    assert_eq!(parsed.ty, "Note");
    assert_eq!(parsed.vis, "");
}

#[test]
fn a_field_without_a_name_is_refused_before_its_type() {
    let unnamed = Field {
        attrs: vec![],
        vis: String::new(),
        ident: None,
        ty: Type { tokens: "& str".to_string(), shape: TypeShape::Other },
    };
    assert_eq!(parse_field(unnamed), Err(TagsError::UnnamedField));
}

#[test]
fn the_type_of_a_field_is_judged_before_its_attributes() {
    let bad = field(
        vec![list("tag", "nonsense")],
        "",
        "a",
        Type { tokens: "[u8]".to_string(), shape: TypeShape::Other },
    );
    assert_eq!(parse_field(bad), Err(TagsError::InvalidFieldType));
}

#[test]
fn fields_are_read_in_order() {
    let parsed = parse_fields(vec![
        field(vec![], "pub", "id", plain("Id")),
        field(vec![], "", "note", option("Note")),
    ])
    .unwrap();
    assert_eq!(parsed.len(), 2);
    assert_eq!(parsed[0].ident, "id");
    assert_eq!(parsed[0].kind, ElementKind::Required);
    assert_eq!(parsed[1].ident, "note");
    assert_eq!(parsed[1].kind, ElementKind::Optional);
    assert_eq!(parse_fields(Vec::new()), Ok(Vec::new()));
}

#[test]
fn the_first_refused_field_decides_the_error() {
    let fields = vec![
        field(vec![], "", "a", plain("A")),
        field(vec![], "", "b", plain("Option")),
        field(vec![], "", "c", Type { tokens: "()".to_string(), shape: TypeShape::Other }),
    ];
    assert_eq!(parse_fields(fields), Err(TagsError::InvalidOptionUsage));
}

#[test]
fn a_struct_with_named_fields_is_read() {
    let parsed = parse_struct(item(
        "pub (crate)",
        "Meta",
        Fields::Named(vec![field(vec![], "", "id", plain("Id"))]),
    ))
    .unwrap();
    assert_eq!(parsed.ident, "Meta");
    assert_eq!(parsed.vis, "pub (crate)");
    assert_eq!(parsed.elements.len(), 1);
}

#[test]
fn a_struct_without_named_fields_is_refused() {
    let tuple = item(
        "",
        "Pair",
        Fields::Unnamed(vec![Field { attrs: vec![], vis: String::new(), ident: None, ty: plain("A") }]),
    );
    assert_eq!(parse_struct(tuple), Err(TagsError::InvalidFields));
    assert_eq!(parse_struct(item("", "Unit", Fields::Unit)), Err(TagsError::InvalidFields));
}

#[test]
fn arguments_are_refused() {
    let meta = Item::Struct(item("", "Meta", Fields::Named(vec![])));
    assert_eq!(transform("anything", meta), Err(TagsError::UnexpectedArguments));
}

#[test]
fn arguments_are_judged_before_the_item() {
    assert_eq!(transform("x", Item::Other), Err(TagsError::UnexpectedArguments));
}

#[test]
fn an_item_that_is_no_struct_is_refused() {
    assert_eq!(transform("", Item::Other), Err(TagsError::NotStruct));
    let e = ItemEnum {
        tokens: "enum E { A }".to_string(),
        head: "enum E".to_string(),
        ident: "E".to_string(),
        variants: vec![],
    };
    assert_eq!(transform("", Item::Enum(e)), Err(TagsError::NotStruct));
}

#[test]
fn a_tuple_struct_fails_expansion() {
    let tuple = item(
        "",
        "Pair",
        Fields::Unnamed(vec![Field { attrs: vec![], vis: String::new(), ident: None, ty: plain("A") }]),
    );
    assert_eq!(transform("", Item::Struct(tuple)), Err(TagsError::InvalidFields));
}

#[test]
fn a_field_with_a_refused_type_fails_expansion() {
    let two = generic(
        "Option",
        vec![GenericArgument::TypePath("A".to_string()), GenericArgument::TypePath("B".to_string())],
        "Option < A , B >",
    );
    let s = item("", "S", Fields::Named(vec![field(vec![], "", "a", plain("A")), field(vec![], "", "b", two)]));
    assert_eq!(transform("", Item::Struct(s)), Err(TagsError::WrongNumberOfOptionArguments));
    let tuple = generic("Option", vec![GenericArgument::Type], "Option < (A , B) >");
    let s = item("", "S", Fields::Named(vec![field(vec![], "", "b", tuple)]));
    assert_eq!(transform("", Item::Struct(s)), Err(TagsError::InvalidOptionArgument));
}

const EXPECTED: &str = r#"
pub struct Meta {
    pub id: Id,
    #[doc = "a note"]
    note: ::std::option::Option<Note>,
}
impl Meta {
    pub fn from_values(id: Id, note: ::std::option::Option<Note>,) -> Self {
        Self { id: id, note: note, }
    }
    pub fn from_tags(tags: ::aws_lib::tags::TagList,) -> Result<Self, ::aws_lib::tags::ParseTagsError> {
        Ok(Self {
            id: {
                let key: ::aws_lib::tags::TagKey = ::aws_lib::tags::TagKey::new("ID".to_owned());
                let value: ::std::option::Option<::aws_lib::tags::RawTagValue> = tags
                    .as_slice()
                    .iter()
                    .find(|tag| tag.key() == "ID")
                    .map(|tag| tag.value()).cloned();
                let value = {
                    let value: ::aws_lib::tags::RawTagValue = value.ok_or_else(|| ::aws_lib::tags::ParseTagsError::TagNotFound {
                            key: key.clone()
                        })?
                        .clone();
                    let value = {
                        let value: ::std::result::Result<Id, ::aws_lib::tags::ParseTagsError> = <Id as ::aws_lib::tags::TagValue<Id>>::from_raw_tag(value)
                            .map_err(
                                |e| ::aws_lib::tags::ParseTagsError::ParseTag(::aws_lib::tags::ParseTagError::InvalidTagValue {
                                    key,
                                    inner: <<Id as ::aws_lib::tags::TagValue<Id>>::Error as Into<::aws_lib::tags::ParseTagValueError>>::into(e),
                                }
                            )
                        );
                        let value = match value {
                            ::std::result::Result::Ok(v) => v,
                            ::std::result::Result::Err(e) => {
                                return Err(e);
                            }
                        };
                        value
                    };
                    value
                };
                value
            },
            note: {
                let key: ::aws_lib::tags::TagKey = ::aws_lib::tags::TagKey::new("note".to_owned());
                let value: ::std::option::Option<::aws_lib::tags::RawTagValue> = tags
                    .as_slice()
                    .iter()
                    .find(|tag| tag.key() == "note")
                    .map(|tag| tag.value()).cloned();
                let value = {
                    let value: ::std::option::Option<Note> = value.map(|value: ::aws_lib::tags::RawTagValue| {
                        let value = {
                            let value: ::std::result::Result<Note, ::aws_lib::tags::ParseTagsError> = <Note as ::aws_lib::tags::TagValue<Note>>::from_raw_tag(value)
                                .map_err(
                                    |e| ::aws_lib::tags::ParseTagsError::ParseTag(::aws_lib::tags::ParseTagError::InvalidTagValue {
                                        key,
                                        inner: <<Note as ::aws_lib::tags::TagValue<Note>>::Error as Into<::aws_lib::tags::ParseTagValueError>>::into(e),
                                    }
                                )
                            );
                            let value = match value {
                                ::std::result::Result::Ok(v) => v,
                                ::std::result::Result::Err(e) => {
                                    return Err(e);
                                }
                            };
                            value
                        };
                        Ok(value)
                    }).transpose()?;
                    value
                };
                value
            },
        })
    }
    pub fn into_tags(self) -> ::aws_lib::tags::TagList {
        let mut v = ::std::vec::Vec::new();
        {
            {
                let key = ::aws_lib::tags::TagKey::new("ID".to_owned());
                let value: ::aws_lib::tags::RawTagValue = <Id as ::aws_lib::tags::TagValue<Id>>::into_raw_tag(self.id);
                v.push(::aws_lib::tags::RawTag::new(key, value));
            };
            {
                match self.note {
                    ::std::option::Option::Some(value) => {
                        let key = ::aws_lib::tags::TagKey::new("note".to_owned());
                        let value: ::aws_lib::tags::RawTagValue = <Note as ::aws_lib::tags::TagValue<Note>>::into_raw_tag(value);
                        v.push(::aws_lib::tags::RawTag::new(key, value));
                    },
                    ::std::option::Option::None => {},
                }
            };
        }
        ::aws_lib::tags::TagList::from_vec(v)
    }
}
"#;

fn meta() -> ItemStruct {
    item(
        "pub",
        "Meta",
        Fields::Named(vec![
            field(vec![list("tag", "key = \"ID\"")], "pub", "id", plain("Id")),
            field(vec![doc("a note")], "", "note", option("Note")),
        ]),
    )
}

#[test]
fn the_expansion_holds_the_struct_and_its_three_operations() {
    let output = transform("", Item::Struct(meta())).unwrap();
    assert_same_tokens(&output, EXPECTED);
}

#[test]
fn the_expansion_is_a_file_of_two_items() {
    let output = transform("", Item::Struct(meta())).unwrap();
    let file = syn::parse_file(&output).unwrap();
    assert_eq!(file.items.len(), 2);
    assert!(matches!(file.items[0], syn::Item::Struct(_)));
    assert!(matches!(file.items[1], syn::Item::Impl(_)));
}

#[test]
fn the_field_attribute_is_not_written_again() {
    let output = transform("", Item::Struct(meta())).unwrap();
    assert!(!output.contains("#[tag"));
    assert_eq!(output.matches("#[doc = \"a note\"]").count(), 1);
}

#[test]
fn a_struct_without_fields_expands() {
    let output = transform("", Item::Struct(item("", "Empty", Fields::Named(vec![])))).unwrap();
    let want = r#"
        struct Empty {}
        impl Empty {
            fn from_values() -> Self { Self {} }
            fn from_tags(tags: ::aws_lib::tags::TagList,) -> Result<Self, ::aws_lib::tags::ParseTagsError> { Ok(Self {}) }
            fn into_tags(self) -> ::aws_lib::tags::TagList {
                let mut v = ::std::vec::Vec::new();
                {}
                ::aws_lib::tags::TagList::from_vec(v)
            }
        }
    "#;
    assert_same_tokens(&output, want);
}

fn flagged() -> Input {
    Input {
        head: "struct S".to_string(),
        impl_generics: String::new(),
        type_generics: String::new(),
        where_clause: String::new(),
        ident: "S".to_string(),
        vis: String::new(),
        elements: vec![Element {
            ident: "flag".to_string(),
            vis: "pub".to_string(),
            ty: "Flag".to_string(),
            kind: ElementKind::Optional,
            name: "flag".to_string(),
            attrs: vec![doc("d"), list("cfg", "feature = \"x\""), list("allow", "dead_code")],
        }],
    }
}

#[test]
fn cfg_attributes_stand_on_the_field_in_all_five_places() {
    let output = build_output(flagged());
    assert_eq!(output.matches("#[cfg(feature = \"x\")]").count(), 5);
    assert_eq!(output.matches("#[doc = \"d\"]").count(), 1);
    assert_eq!(output.matches("#[allow(dead_code)]").count(), 1);
}

#[test]
fn each_place_holds_the_field_under_its_cfg_attributes() {
    let input = flagged();
    assert_eq!(
        write_parts(&input.elements, Part::Definition),
        "#[doc = \"d\"]\n#[cfg(feature = \"x\")]\n#[allow(dead_code)]\npub flag: ::std::option::Option<Flag>,\n"
    );
    assert_eq!(
        write_parts(&input.elements, Part::Parameter),
        "#[cfg(feature = \"x\")]\nflag: ::std::option::Option<Flag>,\n"
    );
    assert_eq!(write_parts(&input.elements, Part::Initializer), "#[cfg(feature = \"x\")]\nflag: flag,\n");
    assert!(write_parts(&input.elements, Part::FromTags).starts_with("#[cfg(feature = \"x\")]\nflag: {\n"));
    assert!(write_parts(&input.elements, Part::IntoTags).starts_with("#[cfg(feature = \"x\")]\n{\nmatch self.flag {\n"));
}

#[test]
fn fields_are_written_in_the_order_declared() {
    let input = parse_struct(meta()).unwrap();
    let output = build_output(input);
    for part in ["pub struct Meta", "fn from_values", "fn from_tags", "fn into_tags"] {
        assert!(output.contains(part));
    }
    let definition = write_parts(&parse_struct(meta()).unwrap().elements, Part::Definition);
    assert!(definition.find("id:").unwrap() < definition.find("note:").unwrap());
    let writer = write_parts(&parse_struct(meta()).unwrap().elements, Part::IntoTags);
    assert!(writer.find("\"ID\"").unwrap() < writer.find("\"note\"").unwrap());
}

#[test]
fn a_key_is_written_as_a_literal_that_denotes_it() {
    let s = item(
        "",
        "S",
        Fields::Named(vec![field(vec![list("tag", r#"key = "a\"b""#)], "", "a", plain("A"))]),
    );
    let input = parse_struct(s).unwrap();
    assert_eq!(input.elements[0].name, "a\"b");
    let output = build_output(input);
    assert_eq!(output.matches(r#""a\"b""#).count(), 3);
    assert!(syn::parse_file(&output).is_ok());
}

#[test]
fn tags_messages_say_why() {
    assert_eq!(TagsError::UnexpectedArguments.message(), "cannot take any attribute macro attributes");
    assert_eq!(TagsError::NotStruct.message(), "only applicable to structs");
    assert_eq!(TagsError::InvalidFields.message(), "invalid fields");
    assert_eq!(TagsError::UnnamedField.message(), "tuple structs not supported");
    assert_eq!(TagsError::InvalidFieldType.message(), "invalid field type");
    assert_eq!(TagsError::InvalidOptionUsage.message(), "invalid Option usage");
    assert_eq!(TagsError::WrongNumberOfOptionArguments.message(), "wrong number of Option generic arguments");
    assert_eq!(TagsError::OptionArgumentNotType.message(), "need simple owned Option generic");
    assert_eq!(TagsError::InvalidOptionArgument.message(), "invalid generic type for Option");
    assert_eq!(
        TagsError::FieldAttribute(ConfigError::InvalidKey).message(),
        "invalid key in tag field attribute"
    );
}

fn pair() -> ItemStruct {
    ItemStruct {
        tokens: String::new(),
        head: "#[doc = \"A pair.\"] #[derive(Debug, Clone)] pub(crate) struct Pair<'a, T: Clone, const N: usize> where T: Default"
            .to_string(),
        impl_generics: "<'a, T: Clone, const N: usize>".to_string(),
        type_generics: "<'a, T, N>".to_string(),
        where_clause: "where T: Default".to_string(),
        vis: "pub(crate)".to_string(),
        ident: "Pair".to_string(),
        fields: Fields::Named(vec![field(vec![], "", "id", plain("Id"))]),
    }
}

#[test]
fn what_stands_on_the_struct_is_kept() {
    let input = parse_struct(pair()).unwrap();
    assert_eq!(input.head, pair().head);
    assert_eq!(input.impl_generics, "<'a, T: Clone, const N: usize>");
    assert_eq!(input.type_generics, "<'a, T, N>");
    assert_eq!(input.where_clause, "where T: Default");
    assert_eq!(input.vis, "pub(crate)");
    assert_eq!(input.ident, "Pair");
}

#[test]
fn the_definition_starts_with_the_struct_as_written() {
    let output = transform("", Item::Struct(pair())).unwrap();
    assert!(output.starts_with(&format!("{} {{\n", pair().head)));
    let file = syn::parse_file(&output).unwrap();
    match &file.items[0] {
        syn::Item::Struct(s) => {
            assert_eq!(s.attrs.len(), 2);
            assert!(s.attrs[1].path().is_ident("derive"));
            assert_eq!(s.generics.params.len(), 3);
            assert!(s.generics.where_clause.is_some());
            assert!(matches!(s.vis, syn::Visibility::Restricted(_)));
            assert_eq!(s.ident, "Pair");
        }
        _ => panic!("unexpected first item"),
    }
}

#[test]
fn the_impl_block_stands_under_the_generics_of_the_struct() {
    let output = transform("", Item::Struct(pair())).unwrap();
    assert!(output.contains("impl<'a, T: Clone, const N: usize> Pair<'a, T, N> where T: Default {\n"));
    let file = syn::parse_file(&output).unwrap();
    match &file.items[1] {
        syn::Item::Impl(i) => {
            assert_eq!(i.generics.params.len(), 3);
            assert!(i.generics.where_clause.is_some());
            assert_eq!(i.items.len(), 3);
        }
        _ => panic!("unexpected second item"),
    }
}

#[test]
fn structs_that_differ_in_what_stands_on_them_expand_differently() {
    let bare = item("", "S", Fields::Named(vec![]));
    let mut derived = item("", "S", Fields::Named(vec![]));
    derived.head = "#[derive(Debug)] struct S<T>".to_string();
    derived.impl_generics = "<T>".to_string();
    derived.type_generics = "<T>".to_string();
    let plain_output = transform("", Item::Struct(bare)).unwrap();
    let derived_output = transform("", Item::Struct(derived)).unwrap();
    assert!(plain_output != derived_output);
    assert!(derived_output.starts_with("#[derive(Debug)] struct S<T> {\n"));
    assert!(derived_output.contains("impl<T> S<T>  {\n"));
    assert!(plain_output.starts_with(" struct S {\n"));
}

//! What the written conversions compute.
//!
//! The pipelines write conversions as source text. This module states what
//! those conversions compute when they run, as functions on tag lists and
//! values, and proves what holds of them: that a value survives the way
//! into raw form and back, and that reading a tag list goes by key and not
//! by position. A field stands here with every conditional-compilation
//! attribute taken as satisfied.

use crate::expr::same_text;
use crate::syntax::Text;
use crate::tag::{variant_string, VariantName};
use crate::tags::{Element, ElementKind, ElementView};
use vstd::prelude::*;

verus! {

/// One entry of a tag list: a key and a raw value.
#[derive(Debug, Clone, PartialEq, Eq)]
pub struct RawTag {
    pub key: String,
    pub value: String,
}

/// The mathematical value of a [`RawTag`].
pub struct RawTagView {
    pub key: Text,
    pub value: Text,
}

impl View for RawTag {
    type V = RawTagView;

    open spec fn view(&self) -> RawTagView {
        RawTagView { key: self.key@, value: self.value@ }
    }
}

impl DeepView for RawTag {
    type V = RawTagView;

    open spec fn deep_view(&self) -> RawTagView {
        self@
    }
}

/// Why a raw value is not a value of the type asked for.
#[derive(Debug, Clone, PartialEq, Eq)]
pub enum ParseTagValueError {
    /// The raw value stands for no value of the type; holds the raw value
    /// and a message.
    InvalidValue { value: String, message: String },
}

/// The mathematical value of a [`ParseTagValueError`].
pub enum ParseTagValueErrorView {
    InvalidValue { value: Text, message: Text },
}

impl View for ParseTagValueError {
    type V = ParseTagValueErrorView;

    open spec fn view(&self) -> ParseTagValueErrorView {
        match self {
            ParseTagValueError::InvalidValue { value, message } => {
                ParseTagValueErrorView::InvalidValue { value: value@, message: message@ }
            },
        }
    }
}

/// Why a tag list is not a value of the struct asked for.
#[derive(Debug, Clone, PartialEq, Eq)]
pub enum ParseTagsError {
    /// A required field's key is not in the list; holds the key.
    TagNotFound { key: String },
    /// The value under a field's key is not a value of the field's type;
    /// holds the key and the refusal of the value.
    ParseTag { key: String, inner: ParseTagValueError },
}

/// The mathematical value of a [`ParseTagsError`].
pub enum ParseTagsErrorView {
    TagNotFound { key: Text },
    ParseTag { key: Text, inner: ParseTagValueErrorView },
}

impl View for ParseTagsError {
    type V = ParseTagsErrorView;

    open spec fn view(&self) -> ParseTagsErrorView {
        match self {
            ParseTagsError::TagNotFound { key } => ParseTagsErrorView::TagNotFound { key: key@ },
            ParseTagsError::ParseTag { key, inner } => ParseTagsErrorView::ParseTag {
                key: key@,
                inner: inner@,
            },
        }
    }
}

/// The least index at which `wanted` stands in `strings`, if it stands
/// there at all.
pub open spec fn position(strings: Seq<Text>, wanted: Text) -> Option<int>
    decreases strings.len(),
{
    if strings.len() == 0 {
        None
    } else {
        match position(strings.drop_last(), wanted) {
            Some(i) => Some(i),
            None => if strings.last() == wanted {
                Some(strings.len() - 1)
            } else {
                None
            },
        }
    }
}

/// `position` gives the first occurrence, and nothing exactly when there
/// is no occurrence.
pub proof fn lemma_position(strings: Seq<Text>, wanted: Text)
    ensures
        match position(strings, wanted) {
            Some(i) => {
                &&& 0 <= i < strings.len()
                &&& strings[i] == wanted
                &&& forall|j: int| 0 <= j < i ==> #[trigger] strings[j] != wanted
            },
            None => forall|j: int| 0 <= j < strings.len() ==> #[trigger] strings[j] != wanted,
        },
    decreases strings.len(),
{
    if strings.len() > 0 {
        let front = strings.drop_last();
        lemma_position(front, wanted);
        assert(forall|j: int| 0 <= j < front.len() ==> front[j] == strings[j]);
    }
}

// ---------------------------------------------------------------------
// Simple enums
// ---------------------------------------------------------------------

/// The strings that stand for the variants, in the order declared.
pub open spec fn strings_of(variants: Seq<VariantName>) -> Seq<Text> {
    variants.map_values(|variant: VariantName| variant_string(variant))
}

/// The raw value of the variant at `index`.
pub open spec fn enum_into_raw(variants: Seq<VariantName>, index: int) -> Text
    recommends
        0 <= index < variants.len(),
{
    variant_string(variants[index])
}

/// The variant that a raw value stands for: the first one, in the order
/// declared, whose string is the raw value; an invalid-value error that
/// holds the raw value when there is none.
pub open spec fn enum_from_raw(variants: Seq<VariantName>, raw: Text) -> Result<
    int,
    ParseTagValueErrorView,
> {
    match position(strings_of(variants), raw) {
        Some(index) => Ok(index),
        None => Err(
            ParseTagValueErrorView::InvalidValue { value: raw, message: "invalid enum value"@ },
        ),
    }
}

/// Whether no two variants have the same string.
pub open spec fn distinct_strings(variants: Seq<VariantName>) -> bool {
    forall|i: int, j: int|
        0 <= i < j < variants.len() ==> variant_string(#[trigger] variants[i]) != variant_string(
            #[trigger] variants[j],
        )
}

/// A variant comes back from its raw value when no variant declared
/// before it has the same string.
pub proof fn lemma_enum_round_trip(variants: Seq<VariantName>, index: int)
    requires
        0 <= index < variants.len(),
        forall|j: int|
            0 <= j < index ==> variant_string(#[trigger] variants[j]) != variant_string(
                variants[index],
            ),
    ensures
        enum_from_raw(variants, enum_into_raw(variants, index)) == Ok::<
            int,
            ParseTagValueErrorView,
        >(index),
{
    let strings = strings_of(variants);
    let raw = enum_into_raw(variants, index);
    lemma_position(strings, raw);
    assert(strings[index] == raw);
    match position(strings, raw) {
        Some(i) => {
            if i < index {
                assert(strings[i] == variant_string(variants[i]));
            }
        },
        None => {},
    }
}

/// In an enum whose strings are distinct every variant comes back from
/// its raw value.
pub proof fn lemma_enum_round_trip_distinct(variants: Seq<VariantName>, index: int)
    requires
        0 <= index < variants.len(),
        distinct_strings(variants),
    ensures
        enum_from_raw(variants, enum_into_raw(variants, index)) == Ok::<
            int,
            ParseTagValueErrorView,
        >(index),
{
    lemma_enum_round_trip(variants, index);
}

/// A raw value that stands for a variant is the raw value of that
/// variant; a raw value that is refused is the string of no variant.
pub proof fn lemma_enum_from_raw(variants: Seq<VariantName>, raw: Text)
    ensures
        match enum_from_raw(variants, raw) {
            Ok(index) => 0 <= index < variants.len() && enum_into_raw(variants, index) == raw,
            Err(e) => {
                &&& e == ParseTagValueErrorView::InvalidValue {
                    value: raw,
                    message: "invalid enum value"@,
                }
                &&& forall|j: int|
                    0 <= j < variants.len() ==> variant_string(#[trigger] variants[j]) != raw
            },
        },
{
    let strings = strings_of(variants);
    lemma_position(strings, raw);
    assert forall|j: int| 0 <= j < variants.len() && position(strings, raw) is None implies
        variant_string(#[trigger] variants[j]) != raw by {
        assert(strings[j] == variant_string(variants[j]));
    }
}

/// The string of a variant as declared.
pub fn variant_text(variant: &(String, Option<String>)) -> (r: &str)
    ensures
        r@ == variant_string(variant.deep_view()),
{
    match &variant.1 {
        Some(string) => string.as_str(),
        None => variant.0.as_str(),
    }
}

/// Turns the variant at `index` into its raw value.
pub fn enum_to_raw(variants: &Vec<(String, Option<String>)>, index: usize) -> (r: String)
    requires
        index < variants.len(),
    ensures
        r@ == enum_into_raw(variants.deep_view(), index as int),
{
    variant_text(&variants[index]).to_owned()
}

/// The view of a variant's index, or of a refusal.
pub open spec fn index_view(r: Result<usize, ParseTagValueError>) -> Result<
    int,
    ParseTagValueErrorView,
> {
    match r {
        Ok(index) => Ok(index as int),
        Err(e) => Err(e@),
    }
}

/// Turns a raw value into the index of the variant that it stands for.
pub fn enum_of_raw(variants: &Vec<(String, Option<String>)>, raw: &str) -> (r: Result<
    usize,
    ParseTagValueError,
>)
    ensures
        index_view(r) == enum_from_raw(variants.deep_view(), raw@),
{
    let ghost strings = strings_of(variants.deep_view());
    let mut i: usize = 0;
    while i < variants.len()
        invariant
            i <= variants.len(),
            strings == strings_of(variants.deep_view()),
            forall|j: int| 0 <= j < i ==> #[trigger] strings[j] != raw@,
        decreases variants.len() - i,
    {
        assert(strings[i as int] == variant_string(variants[i as int].deep_view()));
        if same_text(variant_text(&variants[i]), raw) {
            proof {
                lemma_position(strings, raw@);
            }
            return Ok(i);
        }
        i += 1;
    }
    proof {
        lemma_position(strings, raw@);
    }
    Err(
        ParseTagValueError::InvalidValue {
            value: raw.to_owned(),
            message: "invalid enum value".to_owned(),
        },
    )
}

// ---------------------------------------------------------------------
// Newtypes
// ---------------------------------------------------------------------

/// How values of a type go to raw form and come back.
#[verifier::reject_recursive_types(V)]
pub struct Conversion<V> {
    /// The value that a raw value stands for, or why it stands for none.
    pub parse: spec_fn(Text) -> Result<V, ParseTagValueErrorView>,
    /// The raw value of a value.
    pub print: spec_fn(V) -> Text,
}

/// Whether `value` comes back from its raw form.
pub open spec fn round_trips<V>(conversion: Conversion<V>, value: V) -> bool {
    (conversion.parse)((conversion.print)(value)) == Ok::<V, ParseTagValueErrorView>(value)
}

/// A value of a newtype: the value of the inner type that it wraps.
pub struct Wrapped<V> {
    pub inner: V,
}

/// The conversion of a newtype: a raw value is handed to the inner type's
/// conversion and what comes back is wrapped; a value is unwrapped and
/// handed to the inner type's conversion.
pub open spec fn newtype_conversion<V>(inner: Conversion<V>) -> Conversion<Wrapped<V>> {
    Conversion {
        parse: |raw: Text|
            match (inner.parse)(raw) {
                Ok(value) => Ok(Wrapped { inner: value }),
                Err(e) => Err(e),
            },
        print: |value: Wrapped<V>| (inner.print)(value.inner),
    }
}

/// A newtype's value comes back from its raw form whenever the value
/// that it wraps does.
pub proof fn lemma_newtype_round_trip<V>(inner: Conversion<V>, value: Wrapped<V>)
    requires
        round_trips(inner, value.inner),
    ensures
        round_trips(newtype_conversion(inner), value),
{
}

// ---------------------------------------------------------------------
// Structs
// ---------------------------------------------------------------------

/// What reading and writing a tag list needs to know of a field.
#[verifier::reject_recursive_types(V)]
pub struct FieldRule<V> {
    /// The field's key.
    pub key: Text,
    /// Whether the field is required or optional.
    pub kind: ElementKind,
    /// The conversion of the field's value type.
    pub conversion: Conversion<V>,
}

/// The rule of a field that the struct-tag pipeline read, given the
/// conversion of the field's value type.
pub open spec fn rule_of<V>(element: ElementView, conversion: Conversion<V>) -> FieldRule<V> {
    FieldRule { key: element.name, kind: element.kind, conversion }
}

/// The keys of a tag list, in its order.
pub open spec fn keys_of(tags: Seq<RawTagView>) -> Seq<Text> {
    tags.map_values(|tag: RawTagView| tag.key)
}

/// The value of the first entry of `tags` whose key is `key`, if there is
/// such an entry.
pub open spec fn lookup(tags: Seq<RawTagView>, key: Text) -> Option<Text> {
    match position(keys_of(tags), key) {
        Some(i) => Some(tags[i].value),
        None => None,
    }
}

/// What `from_tags` makes of one field.
///
/// A key that is missing is an error for a required field and no value
/// for an optional one. A value that is there is converted; a refusal of
/// the conversion is wrapped together with the key.
pub open spec fn field_from_tags<V>(rule: FieldRule<V>, tags: Seq<RawTagView>) -> Result<
    Option<V>,
    ParseTagsErrorView,
> {
    match lookup(tags, rule.key) {
        None => match rule.kind {
            ElementKind::Required => Err(ParseTagsErrorView::TagNotFound { key: rule.key }),
            ElementKind::Optional => Ok(None),
        },
        Some(raw) => match (rule.conversion.parse)(raw) {
            Ok(value) => Ok(Some(value)),
            Err(inner) => Err(ParseTagsErrorView::ParseTag { key: rule.key, inner }),
        },
    }
}

/// What `from_tags` makes of a tag list: the value of every field, in the
/// order declared, or the error of the first field that fails.
pub open spec fn from_tags<V>(rules: Seq<FieldRule<V>>, tags: Seq<RawTagView>) -> Result<
    Seq<Option<V>>,
    ParseTagsErrorView,
>
    decreases rules.len(),
{
    if rules.len() == 0 {
        Ok(Seq::empty())
    } else {
        match from_tags(rules.drop_last(), tags) {
            Err(e) => Err(e),
            Ok(values) => match field_from_tags(rules.last(), tags) {
                Err(e) => Err(e),
                Ok(value) => Ok(values.push(value)),
            },
        }
    }
}

/// What `into_tags` appends for one field: one entry when the field holds
/// a value, nothing when it holds none.
pub open spec fn field_into_tags<V>(rule: FieldRule<V>, value: Option<V>) -> Seq<RawTagView> {
    match value {
        Some(value) => seq![
            RawTagView { key: rule.key, value: (rule.conversion.print)(value) },
        ],
        None => Seq::empty(),
    }
}

/// What `into_tags` makes of a struct's values: the entries of the
/// fields, in the order declared.
pub open spec fn into_tags<V>(rules: Seq<FieldRule<V>>, values: Seq<Option<V>>) -> Seq<RawTagView>
    decreases rules.len(),
{
    if rules.len() == 0 {
        Seq::empty()
    } else {
        into_tags(rules.drop_last(), values) + field_into_tags(
            rules.last(),
            values[rules.len() - 1],
        )
    }
}

/// Whether `values` can be the values of a struct with the fields
/// `rules`: one for each field, and none missing where the field is
/// required.
pub open spec fn well_formed<V>(rules: Seq<FieldRule<V>>, values: Seq<Option<V>>) -> bool {
    &&& values.len() == rules.len()
    &&& forall|i: int|
        0 <= i < rules.len() && (#[trigger] rules[i]).kind == ElementKind::Required
            ==> values[i] is Some
}

/// `from_tags` succeeds exactly when every field does, and then holds
/// each field's value at the field's place; when it fails, its error is
/// that of the first field that fails.
pub proof fn lemma_from_tags_by_field<V>(rules: Seq<FieldRule<V>>, tags: Seq<RawTagView>)
    ensures
        match from_tags(rules, tags) {
            Ok(values) => {
                &&& values.len() == rules.len()
                &&& forall|i: int|
                    0 <= i < rules.len() ==> field_from_tags(#[trigger] rules[i], tags) == Ok::<
                        Option<V>,
                        ParseTagsErrorView,
                    >(values[i])
            },
            Err(e) => exists|i: int|
                {
                    &&& 0 <= i < rules.len()
                    &&& field_from_tags(#[trigger] rules[i], tags) == Err::<
                        Option<V>,
                        ParseTagsErrorView,
                    >(e)
                    &&& forall|j: int|
                        0 <= j < i ==> field_from_tags(#[trigger] rules[j], tags) is Ok
                },
        },
    decreases rules.len(),
{
    if rules.len() > 0 {
        let front = rules.drop_last();
        let last = rules.len() - 1;
        lemma_from_tags_by_field(front, tags);
        assert(forall|i: int| 0 <= i < front.len() ==> front[i] == rules[i]);
        match from_tags(front, tags) {
            Err(e) => {
                let i = choose|i: int|
                    {
                        &&& 0 <= i < front.len()
                        &&& field_from_tags(#[trigger] front[i], tags) == Err::<
                            Option<V>,
                            ParseTagsErrorView,
                        >(e)
                        &&& forall|j: int|
                            0 <= j < i ==> field_from_tags(#[trigger] front[j], tags) is Ok
                    };
                assert(field_from_tags(rules[i], tags) == Err::<Option<V>, ParseTagsErrorView>(e));
                assert forall|j: int| 0 <= j < i implies field_from_tags(
                    #[trigger] rules[j],
                    tags,
                ) is Ok by {
                    assert(front[j] == rules[j]);
                }
            },
            Ok(values) => {
                match field_from_tags(rules.last(), tags) {
                    Err(e) => {
                        assert(field_from_tags(rules[last], tags) == Err::<
                            Option<V>,
                            ParseTagsErrorView,
                        >(e));
                        assert forall|j: int| 0 <= j < last implies field_from_tags(
                            #[trigger] rules[j],
                            tags,
                        ) is Ok by {
                            assert(front[j] == rules[j]);
                        }
                    },
                    Ok(value) => {
                        let all = values.push(value);
                        assert forall|i: int| 0 <= i < rules.len() implies field_from_tags(
                            #[trigger] rules[i],
                            tags,
                        ) == Ok::<Option<V>, ParseTagsErrorView>(all[i]) by {
                            if i < last {
                                assert(front[i] == rules[i]);
                            }
                        }
                    },
                }
            },
        }
    }
}

/// When every field gives its value, `from_tags` gives all of them.
pub proof fn lemma_from_tags_of_fields<V>(
    rules: Seq<FieldRule<V>>,
    tags: Seq<RawTagView>,
    values: Seq<Option<V>>,
)
    requires
        values.len() == rules.len(),
        forall|i: int|
            0 <= i < rules.len() ==> field_from_tags(#[trigger] rules[i], tags) == Ok::<
                Option<V>,
                ParseTagsErrorView,
            >(values[i]),
    ensures
        from_tags(rules, tags) == Ok::<Seq<Option<V>>, ParseTagsErrorView>(values),
{
    lemma_from_tags_by_field(rules, tags);
    match from_tags(rules, tags) {
        Ok(found) => {
            assert forall|i: int| 0 <= i < rules.len() implies found[i] == values[i] by {
                assert(field_from_tags(rules[i], tags) == Ok::<Option<V>, ParseTagsErrorView>(
                    found[i],
                ));
            }
            assert(found =~= values);
        },
        Err(e) => {},
    }
}

/// The entry that `into_tags` writes for a field that holds `value`.
pub open spec fn entry_of<V>(rule: FieldRule<V>, value: V) -> RawTagView {
    RawTagView { key: rule.key, value: (rule.conversion.print)(value) }
}

/// The field whose entry stands at `p` in what `into_tags` writes.
pub open spec fn field_at<V>(rules: Seq<FieldRule<V>>, values: Seq<Option<V>>, p: int) -> int
    decreases rules.len(),
{
    if rules.len() == 0 {
        0
    } else if p < into_tags(rules.drop_last(), values).len() {
        field_at(rules.drop_last(), values, p)
    } else {
        rules.len() - 1
    }
}

/// Every entry that `into_tags` writes is the entry of a field that
/// holds a value, and the entries stand in the order of their fields.
pub proof fn lemma_field_at<V>(rules: Seq<FieldRule<V>>, values: Seq<Option<V>>, p: int)
    requires
        values.len() >= rules.len(),
        0 <= p < into_tags(rules, values).len(),
    ensures
        0 <= field_at(rules, values, p) < rules.len(),
        values[field_at(rules, values, p)] is Some,
        into_tags(rules, values)[p] == entry_of(
            rules[field_at(rules, values, p)],
            values[field_at(rules, values, p)]->0,
        ),
        forall|q: int|
            p < q < into_tags(rules, values).len() ==> field_at(rules, values, p)
                < #[trigger] field_at(rules, values, q),
    decreases rules.len(),
{
    if rules.len() > 0 {
        let front = rules.drop_last();
        let before = into_tags(front, values);
        let added = field_into_tags(rules.last(), values[rules.len() - 1]);
        let all = into_tags(rules, values);
        assert(all == before + added);
        if p < before.len() {
            lemma_field_at(front, values, p);
            let i = field_at(front, values, p);
            assert(front[i] == rules[i]);
            assert(all[p] == before[p]);
            assert forall|q: int| p < q < all.len() implies field_at(rules, values, p)
                < #[trigger] field_at(rules, values, q) by {
                if q < before.len() {
                    assert(field_at(front, values, p) < field_at(front, values, q));
                }
            }
        } else {
            assert(added.len() == 1);
            assert(all[p] == added[p - before.len()]);
        }
    }
}

/// Every field that holds a value has its entry in what `into_tags`
/// writes.
pub proof fn lemma_into_tags_entries<V>(rules: Seq<FieldRule<V>>, values: Seq<Option<V>>)
    requires
        values.len() >= rules.len(),
    ensures
        forall|i: int|
            0 <= i < rules.len() && (#[trigger] values[i]) is Some ==> into_tags(
                rules,
                values,
            ).contains(entry_of(rules[i], values[i]->0)),
    decreases rules.len(),
{
    if rules.len() > 0 {
        let front = rules.drop_last();
        let last = rules.len() - 1;
        let before = into_tags(front, values);
        let added = field_into_tags(rules.last(), values[last]);
        let all = into_tags(rules, values);
        lemma_into_tags_entries(front, values);
        assert(all == before + added);
        assert forall|i: int|
            0 <= i < rules.len() && (#[trigger] values[i]) is Some implies all.contains(
            entry_of(rules[i], values[i]->0),
        ) by {
            let entry = entry_of(rules[i], values[i]->0);
            if i < last {
                assert(front[i] == rules[i]);
                assert(before.contains(entry));
                let p = choose|p: int| 0 <= p < before.len() && before[p] == entry;
                assert(all[p] == entry);
            } else {
                assert(added[0] == entry);
                assert(all[before.len() as int] == entry);
            }
        }
    }
}

/// In a tag list without duplicate keys, the value found under the key
/// of an entry is the value of that entry.
pub proof fn lemma_lookup_entry(tags: Seq<RawTagView>, p: int)
    requires
        keys_of(tags).no_duplicates(),
        0 <= p < tags.len(),
    ensures
        lookup(tags, tags[p].key) == Some(tags[p].value),
{
    let keys = keys_of(tags);
    lemma_position(keys, tags[p].key);
    assert(keys[p] == tags[p].key);
    match position(keys, tags[p].key) {
        Some(q) => {
            assert(keys[q] == keys[p]);
        },
        None => {},
    }
}

/// Under a key that no entry has nothing is found, and where nothing is
/// found no entry has the key.
pub proof fn lemma_lookup_missing(tags: Seq<RawTagView>, key: Text)
    ensures
        lookup(tags, key) is None <==> forall|p: int|
            0 <= p < tags.len() ==> (#[trigger] tags[p]).key != key,
{
    let keys = keys_of(tags);
    lemma_position(keys, key);
    match position(keys, key) {
        Some(q) => {
            assert(tags[q].key == keys[q]);
        },
        None => {
            assert forall|p: int| 0 <= p < tags.len() implies (#[trigger] tags[p]).key != key by {
                assert(keys[p] == tags[p].key);
            }
        },
    }
}

/// A struct's values come back from the tag list that `into_tags` writes
/// for them, when every value that is there comes back from its raw form,
/// the list holds no key twice, and the key of a field that holds no
/// value is not in the list.
pub proof fn lemma_struct_round_trip<V>(rules: Seq<FieldRule<V>>, values: Seq<Option<V>>)
    requires
        well_formed(rules, values),
        forall|i: int|
            0 <= i < rules.len() && (#[trigger] values[i]) is Some ==> round_trips(
                rules[i].conversion,
                values[i]->0,
            ),
        keys_of(into_tags(rules, values)).no_duplicates(),
        forall|i: int|
            0 <= i < rules.len() && (#[trigger] values[i]) is None ==> lookup(
                into_tags(rules, values),
                rules[i].key,
            ) is None,
    ensures
        from_tags(rules, into_tags(rules, values)) == Ok::<Seq<Option<V>>, ParseTagsErrorView>(
            values,
        ),
{
    let tags = into_tags(rules, values);
    lemma_into_tags_entries(rules, values);
    assert forall|i: int| 0 <= i < rules.len() implies field_from_tags(
        #[trigger] rules[i],
        tags,
    ) == Ok::<Option<V>, ParseTagsErrorView>(values[i]) by {
        match values[i] {
            Some(value) => {
                let entry = entry_of(rules[i], value);
                assert(tags.contains(entry));
                let p = choose|p: int| 0 <= p < tags.len() && tags[p] == entry;
                lemma_lookup_entry(tags, p);
            },
            None => {
                assert(rules[i].kind == ElementKind::Optional);
            },
        }
    }
    lemma_from_tags_of_fields(rules, tags, values);
}

/// Whether no two fields have the same key.
pub open spec fn distinct_keys<V>(rules: Seq<FieldRule<V>>) -> bool {
    forall|i: int, j: int|
        0 <= i < j < rules.len() ==> (#[trigger] rules[i]).key != (#[trigger] rules[j]).key
}

/// What `into_tags` writes for fields with distinct keys holds no key
/// twice, and does not hold the key of a field that holds no value.
pub proof fn lemma_into_tags_keys<V>(rules: Seq<FieldRule<V>>, values: Seq<Option<V>>)
    requires
        values.len() >= rules.len(),
        distinct_keys(rules),
    ensures
        keys_of(into_tags(rules, values)).no_duplicates(),
        forall|i: int|
            0 <= i < rules.len() && (#[trigger] values[i]) is None ==> lookup(
                into_tags(rules, values),
                rules[i].key,
            ) is None,
{
    let tags = into_tags(rules, values);
    let keys = keys_of(tags);
    assert forall|p: int, q: int|
        0 <= p < keys.len() && 0 <= q < keys.len() && p != q implies keys[p] != keys[q] by {
        lemma_field_at(rules, values, p);
        lemma_field_at(rules, values, q);
        let i = field_at(rules, values, p);
        let j = field_at(rules, values, q);
        if p < q {
            assert(rules[i].key != rules[j].key);
        } else {
            assert(rules[j].key != rules[i].key);
        }
    }
    assert forall|i: int| 0 <= i < rules.len() && (#[trigger] values[i]) is None implies lookup(
        tags,
        rules[i].key,
    ) is None by {
        lemma_lookup_missing(tags, rules[i].key);
        assert forall|p: int| 0 <= p < tags.len() implies (#[trigger] tags[p]).key
            != rules[i].key by {
            lemma_field_at(rules, values, p);
            let j = field_at(rules, values, p);
            if j < i {
                assert(rules[j].key != rules[i].key);
            } else if i < j {
                assert(rules[i].key != rules[j].key);
            }
        }
    }
}

/// A struct's values come back from the tag list that `into_tags` writes
/// for them, when every value that is there comes back from its raw form
/// and no two fields have the same key.
pub proof fn lemma_struct_round_trip_distinct_keys<V>(
    rules: Seq<FieldRule<V>>,
    values: Seq<Option<V>>,
)
    requires
        well_formed(rules, values),
        distinct_keys(rules),
        forall|i: int|
            0 <= i < rules.len() && (#[trigger] values[i]) is Some ==> round_trips(
                rules[i].conversion,
                values[i]->0,
            ),
    ensures
        from_tags(rules, into_tags(rules, values)) == Ok::<Seq<Option<V>>, ParseTagsErrorView>(
            values,
        ),
{
    lemma_into_tags_keys(rules, values);
    lemma_struct_round_trip(rules, values);
}

/// Two tag lists that hold the same entries, one of them without
/// duplicate keys, give the same value under every key.
pub proof fn lemma_lookup_reordered(first: Seq<RawTagView>, second: Seq<RawTagView>, key: Text)
    requires
        first.to_multiset() == second.to_multiset(),
        keys_of(first).no_duplicates(),
    ensures
        lookup(first, key) == lookup(second, key),
{
    lemma_position(keys_of(first), key);
    lemma_position(keys_of(second), key);
    assert forall|entry: RawTagView| first.contains(entry) <==> second.contains(entry) by {
        vstd::seq_lib::to_multiset_contains(first, entry);
        vstd::seq_lib::to_multiset_contains(second, entry);
    }
    match position(keys_of(second), key) {
        Some(q) => {
            let entry = second[q];
            assert(keys_of(second)[q] == entry.key);
            assert(second.contains(entry));
            assert(first.contains(entry));
            let p = choose|p: int| 0 <= p < first.len() && first[p] == entry;
            lemma_lookup_entry(first, p);
        },
        None => {
            match position(keys_of(first), key) {
                Some(p) => {
                    let entry = first[p];
                    assert(keys_of(first)[p] == entry.key);
                    assert(first.contains(entry));
                    assert(second.contains(entry));
                    let q = choose|q: int| 0 <= q < second.len() && second[q] == entry;
                    assert(keys_of(second)[q] == key);
                },
                None => {},
            }
        },
    }
}

/// Reading a tag list goes by key: a list without duplicate keys and any
/// reordering of it give the same struct, or the same error.
pub proof fn lemma_from_tags_reordered<V>(
    rules: Seq<FieldRule<V>>,
    first: Seq<RawTagView>,
    second: Seq<RawTagView>,
)
    requires
        first.to_multiset() == second.to_multiset(),
        keys_of(first).no_duplicates(),
    ensures
        from_tags(rules, first) == from_tags(rules, second),
    decreases rules.len(),
{
    if rules.len() > 0 {
        lemma_from_tags_reordered(rules.drop_last(), first, second);
        lemma_lookup_reordered(first, second, rules.last().key);
    }
}

/// The value that `from_tags` gives a field does not depend on where the
/// field is declared: two structs with the same fields in different
/// orders are read from the same tag lists, and a field of one has the
/// value of the same field of the other.
pub proof fn lemma_from_tags_fields_reordered<V>(
    first: Seq<FieldRule<V>>,
    second: Seq<FieldRule<V>>,
    tags: Seq<RawTagView>,
)
    requires
        first.to_multiset() == second.to_multiset(),
    ensures
        from_tags(first, tags) is Ok <==> from_tags(second, tags) is Ok,
        from_tags(first, tags) is Ok ==> forall|i: int, j: int|
            0 <= i < first.len() && 0 <= j < second.len() && #[trigger] first[i]
                == #[trigger] second[j] ==> from_tags(first, tags)->Ok_0[i] == from_tags(
                second,
                tags,
            )->Ok_0[j],
{
    lemma_from_tags_by_field(first, tags);
    lemma_from_tags_by_field(second, tags);
    assert forall|rule: FieldRule<V>| first.contains(rule) <==> second.contains(rule) by {
        vstd::seq_lib::to_multiset_contains(first, rule);
        vstd::seq_lib::to_multiset_contains(second, rule);
    }
    if from_tags(first, tags) is Ok && from_tags(second, tags) is Err {
        let e = from_tags(second, tags)->Err_0;
        let j = choose|j: int|
            0 <= j < second.len() && field_from_tags(#[trigger] second[j], tags) == Err::<
                Option<V>,
                ParseTagsErrorView,
            >(e);
        assert(second.contains(second[j]));
        assert(first.contains(second[j]));
        let i = choose|i: int| 0 <= i < first.len() && first[i] == second[j];
        assert(field_from_tags(first[i], tags) is Ok);
    }
    if from_tags(second, tags) is Ok && from_tags(first, tags) is Err {
        let e = from_tags(first, tags)->Err_0;
        let i = choose|i: int|
            0 <= i < first.len() && field_from_tags(#[trigger] first[i], tags) == Err::<
                Option<V>,
                ParseTagsErrorView,
            >(e);
        assert(first.contains(first[i]));
        assert(second.contains(first[i]));
        let j = choose|j: int| 0 <= j < second.len() && second[j] == first[i];
        assert(field_from_tags(second[j], tags) is Ok);
    }
}


/// A struct's fields, each with the value that it holds.
pub open spec fn pairs_of<V>(rules: Seq<FieldRule<V>>, values: Seq<Option<V>>) -> Seq<
    (FieldRule<V>, Option<V>),
> {
    Seq::new(rules.len(), |i: int| (rules[i], values[i]))
}

/// The entries of fields that stand with their values, in order.
pub open spec fn entries_of<V>(pairs: Seq<(FieldRule<V>, Option<V>)>) -> Seq<RawTagView>
    decreases pairs.len(),
{
    if pairs.len() == 0 {
        Seq::empty()
    } else {
        entries_of(pairs.drop_last()) + field_into_tags(pairs.last().0, pairs.last().1)
    }
}

/// `into_tags` writes the entries of the fields with their values.
pub proof fn lemma_into_tags_of_pairs<V>(rules: Seq<FieldRule<V>>, values: Seq<Option<V>>)
    ensures
        into_tags(rules, values) == entries_of(pairs_of(rules, values)),
    decreases rules.len(),
{
    if rules.len() > 0 {
        lemma_into_tags_of_pairs(rules.drop_last(), values);
        assert(pairs_of(rules, values).drop_last() =~= pairs_of(rules.drop_last(), values));
    }
}

/// The entries of two lists of fields, one after the other.
pub proof fn lemma_entries_of_concat<V>(
    first: Seq<(FieldRule<V>, Option<V>)>,
    second: Seq<(FieldRule<V>, Option<V>)>,
)
    ensures
        entries_of(first + second) == entries_of(first) + entries_of(second),
    decreases second.len(),
{
    if second.len() == 0 {
        assert(first + second =~= first);
        assert(entries_of(first) + entries_of(second) =~= entries_of(first));
    } else {
        lemma_entries_of_concat(first, second.drop_last());
        assert((first + second).drop_last() =~= first + second.drop_last());
        assert((first + second).last() == second.last());
        assert(entries_of(first + second) =~= entries_of(first) + entries_of(second));
    }
}

/// Taking one field out takes its entries out and no others.
pub proof fn lemma_entries_of_remove<V>(pairs: Seq<(FieldRule<V>, Option<V>)>, j: int)
    requires
        0 <= j < pairs.len(),
    ensures
        entries_of(pairs).to_multiset() == entries_of(pairs.remove(j)).to_multiset().add(
            field_into_tags(pairs[j].0, pairs[j].1).to_multiset(),
        ),
{
    let front = pairs.take(j);
    let one = seq![pairs[j]];
    let back = pairs.skip(j + 1);
    let entry = field_into_tags(pairs[j].0, pairs[j].1);
    assert(pairs =~= front + one + back);
    assert(pairs.remove(j) =~= front + back);
    lemma_entries_of_concat(front, one);
    lemma_entries_of_concat(front + one, back);
    lemma_entries_of_concat(front, back);
    assert(one.drop_last() =~= Seq::<(FieldRule<V>, Option<V>)>::empty());
    assert(entries_of(one.drop_last()) =~= Seq::<RawTagView>::empty());
    assert(entries_of(one) =~= entry);
    vstd::seq_lib::lemma_multiset_commutative(entries_of(front), entry);
    vstd::seq_lib::lemma_multiset_commutative(entries_of(front) + entry, entries_of(back));
    vstd::seq_lib::lemma_multiset_commutative(entries_of(front), entries_of(back));
    assert(entries_of(pairs).to_multiset() =~= entries_of(pairs.remove(j)).to_multiset().add(
        entry.to_multiset(),
    ));
}

/// The same fields with the same values, in any order, have the same
/// entries.
pub proof fn lemma_entries_of_reordered<V>(
    first: Seq<(FieldRule<V>, Option<V>)>,
    second: Seq<(FieldRule<V>, Option<V>)>,
)
    requires
        first.to_multiset() == second.to_multiset(),
    ensures
        entries_of(first).to_multiset() == entries_of(second).to_multiset(),
    decreases first.len(),
{
    vstd::seq_lib::to_multiset_len(first);
    vstd::seq_lib::to_multiset_len(second);
    if first.len() == 0 {
        assert(second.len() == 0);
    } else {
        let last = first.len() - 1;
        let pair = first[last];
        vstd::seq_lib::to_multiset_contains(first, pair);
        vstd::seq_lib::to_multiset_contains(second, pair);
        assert(first.contains(pair));
        let j = choose|j: int| 0 <= j < second.len() && second[j] == pair;
        vstd::seq_lib::to_multiset_remove(first, last);
        vstd::seq_lib::to_multiset_remove(second, j);
        assert(first.remove(last) =~= first.drop_last());
        lemma_entries_of_reordered(first.drop_last(), second.remove(j));
        lemma_entries_of_remove(first, last);
        lemma_entries_of_remove(second, j);
    }
}

/// Reordering the fields of a struct reorders the entries that
/// `into_tags` writes and changes nothing else: the same fields with the
/// same values write the same entries, each as often.
pub proof fn lemma_into_tags_fields_reordered<V>(
    first: Seq<FieldRule<V>>,
    first_values: Seq<Option<V>>,
    second: Seq<FieldRule<V>>,
    second_values: Seq<Option<V>>,
)
    requires
        pairs_of(first, first_values).to_multiset() == pairs_of(
            second,
            second_values,
        ).to_multiset(),
    ensures
        into_tags(first, first_values).to_multiset() == into_tags(
            second,
            second_values,
        ).to_multiset(),
{
    lemma_into_tags_of_pairs(first, first_values);
    lemma_into_tags_of_pairs(second, second_values);
    lemma_entries_of_reordered(pairs_of(first, first_values), pairs_of(second, second_values));
}

// ---------------------------------------------------------------------
// Structs whose values are raw strings or simple enums
// ---------------------------------------------------------------------

/// A value type whose conversion is known here: the raw value itself, or
/// a simple enum with its variants.
#[derive(Debug, Clone, PartialEq, Eq)]
pub enum ValueType {
    /// The raw value itself; every raw value is a value.
    Raw,
    /// A simple enum: each variant's name and the string set for it.
    Enum(Vec<(String, Option<String>)>),
}

/// A value of a [`ValueType`].
#[derive(Debug, Clone, PartialEq, Eq)]
pub enum Value {
    /// A raw value.
    Raw(String),
    /// The variant at this index.
    Variant(usize),
}

/// A field as reading and writing a tag list see it.
#[derive(Debug, Clone, PartialEq, Eq)]
pub struct TagField {
    /// The field's key.
    pub key: String,
    /// Whether the field is required or optional.
    pub kind: ElementKind,
    /// The field's value type.
    pub ty: ValueType,
}

/// The mathematical value of a [`ValueType`].
pub enum ValueTypeView {
    Raw,
    Enum(Seq<VariantName>),
}

/// The mathematical value of a [`Value`].
pub enum ValueView {
    Raw(Text),
    Variant(int),
}

impl View for ValueType {
    type V = ValueTypeView;

    open spec fn view(&self) -> ValueTypeView {
        match self {
            ValueType::Raw => ValueTypeView::Raw,
            ValueType::Enum(variants) => ValueTypeView::Enum(variants.deep_view()),
        }
    }
}

impl View for Value {
    type V = ValueView;

    open spec fn view(&self) -> ValueView {
        match self {
            Value::Raw(raw) => ValueView::Raw(raw@),
            Value::Variant(index) => ValueView::Variant(*index as int),
        }
    }
}

impl DeepView for Value {
    type V = ValueView;

    open spec fn deep_view(&self) -> ValueView {
        self@
    }
}

/// Whether `value` is a value of the type `ty`.
pub open spec fn belongs(ty: ValueTypeView, value: ValueView) -> bool {
    match (ty, value) {
        (ValueTypeView::Raw, ValueView::Raw(_)) => true,
        (ValueTypeView::Enum(variants), ValueView::Variant(index)) => 0 <= index < variants.len(),
        _ => false,
    }
}

/// The conversion of a value type: a raw value converts to itself, and a
/// simple enum converts as its variants say.
pub open spec fn conversion_of(ty: ValueTypeView) -> Conversion<ValueView> {
    Conversion {
        parse: |raw: Text|
            match ty {
                ValueTypeView::Raw => Ok(ValueView::Raw(raw)),
                ValueTypeView::Enum(variants) => match enum_from_raw(variants, raw) {
                    Ok(index) => Ok(ValueView::Variant(index)),
                    Err(e) => Err(e),
                },
            },
        print: |value: ValueView|
            match (ty, value) {
                (ValueTypeView::Enum(variants), ValueView::Variant(index)) => enum_into_raw(
                    variants,
                    index,
                ),
                (_, ValueView::Raw(raw)) => raw,
                (_, ValueView::Variant(_)) => Seq::empty(),
            },
    }
}

impl View for TagField {
    type V = FieldRule<ValueView>;

    open spec fn view(&self) -> FieldRule<ValueView> {
        FieldRule { key: self.key@, kind: self.kind, conversion: conversion_of(self.ty@) }
    }
}

impl DeepView for TagField {
    type V = FieldRule<ValueView>;

    open spec fn deep_view(&self) -> FieldRule<ValueView> {
        self@
    }
}

/// The field that the struct-tag pipeline read, with `ty` for its value
/// type.
pub fn field_of(element: &Element, ty: ValueType) -> (r: TagField)
    ensures
        r.key@ == element@.name,
        r.kind == element@.kind,
        r.ty@ == ty@,
        r@ == rule_of(element@, conversion_of(ty@)),
{
    TagField { key: element.name.clone(), kind: element.kind, ty }
}

/// A value of a value type comes back from its raw form; for an enum,
/// when no variant declared before the value's has the same string.
pub proof fn lemma_value_round_trip(ty: ValueTypeView, value: ValueView)
    requires
        belongs(ty, value),
        ty matches ValueTypeView::Enum(variants) ==> distinct_strings(variants),
    ensures
        round_trips(conversion_of(ty), value),
{
    match (ty, value) {
        (ValueTypeView::Enum(variants), ValueView::Variant(index)) => {
            lemma_enum_round_trip(variants, index);
        },
        _ => {},
    }
}

/// Finds the value of the first entry of `tags` whose key is `key`.
pub fn find_tag<'a>(tags: &'a Vec<RawTag>, key: &str) -> (r: Option<&'a String>)
    ensures
        r.deep_view() == lookup(tags.deep_view(), key@),
{
    let ghost keys = keys_of(tags.deep_view());
    let mut i: usize = 0;
    while i < tags.len()
        invariant
            i <= tags.len(),
            keys == keys_of(tags.deep_view()),
            forall|j: int| 0 <= j < i ==> #[trigger] keys[j] != key@,
        decreases tags.len() - i,
    {
        assert(keys[i as int] == tags[i as int]@.key);
        if same_text(tags[i].key.as_str(), key) {
            proof {
                lemma_position(keys, key@);
            }
            return Some(&tags[i].value);
        }
        i += 1;
    }
    proof {
        lemma_position(keys, key@);
    }
    None
}

/// The view of a value that was read, or of a refusal.
pub open spec fn field_value_view(r: Result<Option<Value>, ParseTagsError>) -> Result<
    Option<ValueView>,
    ParseTagsErrorView,
> {
    match r {
        Ok(value) => Ok(value.deep_view()),
        Err(e) => Err(e@),
    }
}

/// Reads one field from a tag list.
pub fn read_field(field: &TagField, tags: &Vec<RawTag>) -> (r: Result<
    Option<Value>,
    ParseTagsError,
>)
    ensures
        field_value_view(r) == field_from_tags(field@, tags.deep_view()),
{
    match find_tag(tags, field.key.as_str()) {
        None => match field.kind {
            ElementKind::Required => Err(ParseTagsError::TagNotFound { key: field.key.clone() }),
            ElementKind::Optional => Ok(None),
        },
        Some(raw) => match &field.ty {
            ValueType::Raw => Ok(Some(Value::Raw(raw.clone()))),
            ValueType::Enum(variants) => match enum_of_raw(variants, raw.as_str()) {
                Ok(index) => Ok(Some(Value::Variant(index))),
                Err(inner) => Err(ParseTagsError::ParseTag { key: field.key.clone(), inner }),
            },
        },
    }
}

/// The view of the values that were read, or of a refusal.
pub open spec fn values_view(r: Result<Vec<Option<Value>>, ParseTagsError>) -> Result<
    Seq<Option<ValueView>>,
    ParseTagsErrorView,
> {
    match r {
        Ok(values) => Ok(values.deep_view()),
        Err(e) => Err(e@),
    }
}

/// An error among the first `n` fields is the error of the whole struct.
pub proof fn lemma_from_tags_fails<V>(rules: Seq<FieldRule<V>>, tags: Seq<RawTagView>, n: int)
    requires
        0 <= n <= rules.len(),
        from_tags(rules.take(n), tags) is Err,
    ensures
        from_tags(rules, tags) == from_tags(rules.take(n), tags),
    decreases rules.len() - n,
{
    if n < rules.len() {
        assert(rules.take(n + 1).drop_last() =~= rules.take(n));
        lemma_from_tags_fails(rules, tags, n + 1);
    } else {
        assert(rules.take(n) =~= rules);
    }
}

/// Reads the values of a struct from a tag list: every field in the
/// order declared, stopping at the first that fails.
pub fn read_tags(fields: &Vec<TagField>, tags: &Vec<RawTag>) -> (r: Result<
    Vec<Option<Value>>,
    ParseTagsError,
>)
    ensures
        values_view(r) == from_tags(fields.deep_view(), tags.deep_view()),
{
    let ghost rules = fields.deep_view();
    let mut values: Vec<Option<Value>> = Vec::new();
    let mut i: usize = 0;
    proof {
        assert(rules.take(0) =~= Seq::<FieldRule<ValueView>>::empty());
        assert(values.deep_view() =~= Seq::<Option<ValueView>>::empty());
    }
    while i < fields.len()
        invariant
            i <= fields.len(),
            rules == fields.deep_view(),
            from_tags(rules.take(i as int), tags.deep_view()) == Ok::<
                Seq<Option<ValueView>>,
                ParseTagsErrorView,
            >(values.deep_view()),
        decreases fields.len() - i,
    {
        let ghost before = values.deep_view();
        proof {
            assert(rules.take(i + 1).drop_last() =~= rules.take(i as int));
            assert(rules.take(i + 1).last() == fields[i as int]@);
        }
        match read_field(&fields[i], tags) {
            Ok(value) => {
                values.push(value);
                assert(values.deep_view() =~= before.push(value.deep_view()));
            },
            Err(e) => {
                proof {
                    lemma_from_tags_fails(rules, tags.deep_view(), i + 1);
                }
                return Err(e);
            },
        }
        i += 1;
    }
    proof {
        assert(rules.take(i as int) =~= rules);
    }
    Ok(values)
}

/// Whether every value that is there is a value of its field's type.
pub open spec fn well_typed(types: Seq<ValueTypeView>, values: Seq<Option<ValueView>>) -> bool {
    &&& values.len() == types.len()
    &&& forall|i: int|
        0 <= i < types.len() && (#[trigger] values[i]) is Some ==> belongs(types[i], values[i]->0)
}

/// The value types of the fields, in order.
pub open spec fn types_of(fields: Seq<TagField>) -> Seq<ValueTypeView> {
    fields.map_values(|field: TagField| field.ty@)
}

/// Writes the raw form of a value of the type `ty`.
pub fn write_value(ty: &ValueType, value: &Value) -> (r: String)
    requires
        belongs(ty@, value@),
    ensures
        r@ == (conversion_of(ty@).print)(value@),
{
    match value {
        Value::Raw(raw) => raw.clone(),
        Value::Variant(index) => match ty {
            ValueType::Enum(variants) => enum_to_raw(variants, *index),
            ValueType::Raw => String::new(),
        },
    }
}

/// Writes the tag list of a struct's values: one entry for each field
/// that holds a value, in the order declared.
pub fn write_tags(fields: &Vec<TagField>, values: &Vec<Option<Value>>) -> (r: Vec<RawTag>)
    requires
        well_typed(types_of(fields@), values.deep_view()),
    ensures
        r.deep_view() == into_tags(fields.deep_view(), values.deep_view()),
{
    let ghost rules = fields.deep_view();
    let ghost all = values.deep_view();
    let mut tags: Vec<RawTag> = Vec::new();
    let mut i: usize = 0;
    proof {
        assert(rules.take(0) =~= Seq::<FieldRule<ValueView>>::empty());
        assert(tags.deep_view() =~= Seq::<RawTagView>::empty());
    }
    while i < fields.len()
        invariant
            i <= fields.len(),
            rules == fields.deep_view(),
            all == values.deep_view(),
            well_typed(types_of(fields@), all),
            tags.deep_view() == into_tags(rules.take(i as int), all),
        decreases fields.len() - i,
    {
        let ghost before = tags.deep_view();
        proof {
            assert(rules.take(i + 1).drop_last() =~= rules.take(i as int));
            assert(rules.take(i + 1).last() == fields[i as int]@);
            assert(all[i as int] == values[i as int].deep_view());
            assert(types_of(fields@)[i as int] == fields[i as int].ty@);
        }
        match &values[i] {
            Some(value) => {
                let raw = write_value(&fields[i].ty, value);
                tags.push(RawTag { key: fields[i].key.clone(), value: raw });
                assert(tags.deep_view() =~= before + field_into_tags(
                    fields[i as int]@,
                    all[i as int],
                ));
            },
            None => {
                assert(tags.deep_view() =~= before + field_into_tags(
                    fields[i as int]@,
                    all[i as int],
                ));
            },
        }
        i += 1;
    }
    proof {
        assert(rules.take(i as int) =~= rules);
    }
    tags
}

} // verus!

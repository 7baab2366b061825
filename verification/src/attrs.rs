//! The nested `tag(..)` attribute of a field or a variant.
//!
//! A field or a variant may carry one configuration attribute of its own.
//! It is an outer attribute whose path is the identifier `tag` and which
//! has delimited arguments. The first such attribute, in the order
//! written, is the one that counts; it is taken out of the attribute list
//! and the others stay where they are.

use crate::expr::{parse, same_text, Expr, ExprView};
use crate::syntax::{Attribute, AttributeView, Meta, MetaView};
use vstd::prelude::*;

verus! {

/// Whether `attr` is a nested configuration attribute.
pub open spec fn is_tag(attr: AttributeView) -> bool {
    &&& attr.outer
    &&& attr.meta matches MetaView::List { name: Some(name), .. }
    &&& name == "tag"@
}

/// The place of the first configuration attribute in `attrs`, if there is
/// one.
pub open spec fn first_tag(attrs: Seq<AttributeView>) -> Option<int>
    decreases attrs.len(),
{
    if attrs.len() == 0 {
        None
    } else {
        match first_tag(attrs.drop_last()) {
            Some(i) => Some(i),
            None => if is_tag(attrs.last()) {
                Some(attrs.len() - 1)
            } else {
                None
            },
        }
    }
}

/// The parsed arguments of the first configuration attribute in `attrs`,
/// if there is such an attribute.
pub open spec fn tag_args(attrs: Seq<AttributeView>) -> Option<Option<ExprView>> {
    match first_tag(attrs) {
        Some(i) => Some(attrs[i].meta->args),
        None => None,
    }
}

/// `attrs` with its first configuration attribute taken out and every
/// other attribute in its place.
pub open spec fn without_tag(attrs: Seq<AttributeView>) -> Seq<AttributeView> {
    match first_tag(attrs) {
        Some(i) => attrs.remove(i),
        None => attrs,
    }
}

/// `first_tag` gives the least index at which a configuration attribute
/// stands, and nothing exactly when there is none.
pub proof fn lemma_first_tag(attrs: Seq<AttributeView>)
    ensures
        match first_tag(attrs) {
            Some(i) => {
                &&& 0 <= i < attrs.len()
                &&& is_tag(attrs[i])
                &&& forall|j: int| 0 <= j < i ==> !is_tag(#[trigger] attrs[j])
            },
            None => forall|j: int| 0 <= j < attrs.len() ==> !is_tag(#[trigger] attrs[j]),
        },
    decreases attrs.len(),
{
    if attrs.len() > 0 {
        let front = attrs.drop_last();
        lemma_first_tag(front);
        assert(forall|j: int| 0 <= j < front.len() ==> front[j] == attrs[j]);
    }
}

/// Makes an attribute with delimited arguments and parses the arguments.
///
/// `name` is the attribute's path when that is a bare identifier,
/// `arguments` the text between the delimiters and `tokens` the whole
/// attribute as written. What the parser makes of the arguments is found
/// in the result; the rest of the result is as given.
pub fn list_attribute(outer: bool, name: Option<String>, arguments: &str, tokens: String) -> (r:
    Attribute)
    ensures
        r@.outer == outer,
        r@.tokens == tokens@,
        r@.meta matches MetaView::List { name: kept, .. } && kept == name.deep_view(),
        is_tag(r@) <==> outer && name.deep_view() == Some("tag"@),
{
    Attribute { outer, meta: Meta::List { name, args: parse(arguments) }, tokens }
}

/// Whether `attr` is a nested configuration attribute.
pub fn is_tag_attribute(attr: &Attribute) -> (r: bool)
    ensures
        r == is_tag(attr@),
{
    if !attr.outer {
        return false;
    }
    match &attr.meta {
        Meta::List { name: Some(name), .. } => same_text(name.as_str(), "tag"),
        _ => false,
    }
}

/// Finds the first configuration attribute in `attrs`.
pub fn find_tag(attrs: &Vec<Attribute>) -> (r: Option<usize>)
    ensures
        match r {
            Some(i) => first_tag(attrs.deep_view()) == Some(i as int),
            None => first_tag(attrs.deep_view()) is None,
        },
{
    let ghost all = attrs.deep_view();
    let mut i: usize = 0;
    while i < attrs.len()
        invariant
            i <= attrs.len(),
            all == attrs.deep_view(),
            forall|j: int| 0 <= j < i ==> !is_tag(#[trigger] all[j]),
        decreases attrs.len() - i,
    {
        assert(all[i as int] == attrs[i as int]@);
        if is_tag_attribute(&attrs[i]) {
            proof {
                lemma_first_tag(all);
            }
            return Some(i);
        }
        i += 1;
    }
    proof {
        lemma_first_tag(all);
    }
    None
}

/// Takes the first configuration attribute out of `attrs` and hands back
/// its parsed arguments; leaves `attrs` alone when it holds none.
pub fn take_tag(attrs: &mut Vec<Attribute>) -> (r: Option<Option<Expr>>)
    ensures
        r.deep_view() == tag_args(old(attrs).deep_view()),
        final(attrs).deep_view() == without_tag(old(attrs).deep_view()),
{
    match find_tag(attrs) {
        Some(i) => {
            proof {
                lemma_first_tag(attrs.deep_view());
            }
            let removed = attrs.remove(i);
            assert(attrs.deep_view() =~= old(attrs).deep_view().remove(i as int));
            match removed.meta {
                Meta::List { name: _, args } => Some(args),
                _ => None,
            }
        },
        None => None,
    }
}

} // verus!

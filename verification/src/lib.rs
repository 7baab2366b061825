//! Compile-time support for mapping typed values to and from resource tags.
//!
//! The crate holds the decisions behind two attribute macros: one that
//! gives a single value type its conversion to and from a raw tag value,
//! and one that gives a struct of such values its conversion to and from
//! a tag list. Both read a plain model of the decorated item, validate its
//! shape and produce the source text of the expansion.
//!
//! - [`syntax`] is the model of the decorated item.
//! - [`expr`] reads a configuration written as `key = value`.
//! - [`attrs`] finds and removes the nested `tag(..)` attribute.
//! - [`tag`] is the pipeline for a single value type.
//! - [`tags`] is the pipeline for a struct of values.
//! - [`text`] writes attributes and string literals.
//! - [`runtime`] states what the written conversions compute.

pub mod attrs;
pub mod expr;
pub mod runtime;
pub mod syntax;
pub mod tag;
pub mod tags;
pub mod text;

//! What the generator is given: an enum with its annotations, and its
//! variants with theirs.

use vstd::prelude::*;
use crate::model::{option_view, view_all};
use crate::node::{Ident, IdentView};
use crate::token::{duplicate_all, views, Span, Tok, Token};

verus! {

/// One annotation, such as `#[attr(..)]`.
#[derive(Debug, PartialEq, Eq)]
pub struct Annotation {
    /// The annotation's name, where its path is one plain identifier.
    pub name: Option<String>,
    /// The tokens behind the name.
    pub tokens: Vec<Token>,
    /// The place of the annotation.
    pub span: Span,
}

/// The mathematical value of an [`Annotation`].
pub struct AnnotationView {
    pub name: Option<Seq<char>>,
    pub tokens: Seq<Tok>,
    pub span: Span,
}

impl View for Annotation {
    type V = AnnotationView;

    open spec fn view(&self) -> AnnotationView {
        AnnotationView {
            name: option_view(self.name),
            tokens: views(self.tokens@),
            span: self.span,
        }
    }
}

impl AnnotationView {
    /// Whether the annotation belongs to the attribute language.
    pub open spec fn is_attr(self) -> bool {
        self.name == Some("attr"@)
    }
}

impl Annotation {
    /// A copy of the annotation.
    pub fn duplicate(&self) -> (r: Annotation)
        ensures
            r@ == self@,
    {
        Annotation {
            name: match &self.name {
                Some(name) => Some(name.clone()),
                None => None,
            },
            tokens: duplicate_all(&self.tokens),
            span: self.span,
        }
    }

    /// Whether the annotation belongs to the attribute language: its name
    /// is `attr`.
    pub fn is_attr(&self) -> (r: bool)
        ensures
            r == self@.is_attr(),
    {
        match &self.name {
            Some(name) => name.as_str().eq("attr"),
            None => false,
        }
    }
}

/// The fields of a variant.
#[derive(Debug, PartialEq, Eq)]
pub enum Fields {
    /// Named fields, with their names in order.
    Named(Vec<String>),
    /// Positional fields, with their number.
    Unnamed(usize),
    /// No fields.
    Unit,
}

/// The mathematical value of a [`Fields`].
pub enum FieldsView {
    Named(Seq<Seq<char>>),
    Unnamed(usize),
    Unit,
}

impl View for Fields {
    type V = FieldsView;

    open spec fn view(&self) -> FieldsView {
        match self {
            Fields::Named(names) => FieldsView::Named(view_all(names@)),
            Fields::Unnamed(n) => FieldsView::Unnamed(*n),
            Fields::Unit => FieldsView::Unit,
        }
    }
}

/// One variant of the enum.
#[derive(Debug, PartialEq, Eq)]
pub struct Variant {
    pub attrs: Vec<Annotation>,
    pub ident: Ident,
    pub fields: Fields,
}

/// The mathematical value of a [`Variant`].
pub struct VariantView {
    pub attrs: Seq<AnnotationView>,
    pub ident: IdentView,
    pub fields: FieldsView,
}

impl View for Variant {
    type V = VariantView;

    open spec fn view(&self) -> VariantView {
        VariantView { attrs: view_all(self.attrs@), ident: self.ident@, fields: self.fields@ }
    }
}

/// What kind of type the generator was applied to.
#[derive(Debug, PartialEq, Eq)]
pub enum Data {
    /// A struct, with the place of the keyword.
    Struct(Span),
    /// An enum, with its variants.
    Enum(Vec<Variant>),
    /// A union, with the place of the keyword.
    Union(Span),
}

/// The mathematical value of a [`Data`].
pub enum DataView {
    Struct(Span),
    Enum(Seq<VariantView>),
    Union(Span),
}

impl View for Data {
    type V = DataView;

    open spec fn view(&self) -> DataView {
        match self {
            Data::Struct(span) => DataView::Struct(*span),
            Data::Enum(variants) => DataView::Enum(view_all(variants@)),
            Data::Union(span) => DataView::Union(*span),
        }
    }
}

/// The type that the generator was applied to.
#[derive(Debug, PartialEq, Eq)]
pub struct DeriveInput {
    pub attrs: Vec<Annotation>,
    pub ident: Ident,
    /// The generic parameters as they stand behind `impl`.
    pub impl_generics: Vec<Token>,
    /// The generic parameters as they stand behind the type's name.
    pub type_generics: Vec<Token>,
    /// The `where` clause, with its keyword.
    pub where_clause: Vec<Token>,
    pub data: Data,
}

/// The mathematical value of a [`DeriveInput`].
pub struct DeriveInputView {
    pub attrs: Seq<AnnotationView>,
    pub ident: IdentView,
    pub impl_generics: Seq<Tok>,
    pub type_generics: Seq<Tok>,
    pub where_clause: Seq<Tok>,
    pub data: DataView,
}

impl View for DeriveInput {
    type V = DeriveInputView;

    open spec fn view(&self) -> DeriveInputView {
        DeriveInputView {
            attrs: view_all(self.attrs@),
            ident: self.ident@,
            impl_generics: views(self.impl_generics@),
            type_generics: views(self.type_generics@),
            where_clause: views(self.where_clause@),
            data: self.data@,
        }
    }
}

} // verus!

//! The accessors of whole enums: each enum is written as source text, read
//! into the library's input, and its accessors are called on values.

use custom_attrs::derive::derive_accessors;
use custom_attrs::diag::Diagnostic;
use custom_attrs::emit::{Accessor, Pattern};
use custom_attrs::input::{Annotation, Data, Fields, Variant};
use custom_attrs::node::Ident;
use custom_attrs::token::{Delimiter, Span, Token};

/// The library's tokens for a token stream; `at` counts the places.
fn tokens(stream: proc_macro2::TokenStream, at: &mut usize) -> Vec<Token> {
    let mut out = Vec::new();
    for tree in stream {
        let start = *at;
        *at += 1;
        let span = Span { start, end: start + 1 };
        out.push(match tree {
            proc_macro2::TokenTree::Ident(ident) => Token::Ident { text: ident.to_string(), span },
            proc_macro2::TokenTree::Punct(punct) => Token::Punct {
                ch: punct.as_char(),
                joint: punct.spacing() == proc_macro2::Spacing::Joint,
                span,
            },
            proc_macro2::TokenTree::Literal(literal) => {
                Token::Literal { text: literal.to_string(), span }
            }
            proc_macro2::TokenTree::Group(group) => {
                let delimiter = match group.delimiter() {
                    proc_macro2::Delimiter::Parenthesis => Delimiter::Parenthesis,
                    proc_macro2::Delimiter::Brace => Delimiter::Brace,
                    proc_macro2::Delimiter::Bracket => Delimiter::Bracket,
                    proc_macro2::Delimiter::None => Delimiter::Invisible,
                };
                let stream = tokens(group.stream(), at);
                let end = *at;
                *at += 1;
                Token::Group { delimiter, span: Span { start, end: end + 1 }, stream }
            }
        });
    }
    out
}

fn annotations(attrs: &[syn::Attribute], at: &mut usize) -> Vec<Annotation> {
    attrs
        .iter()
        .map(|attr| {
            let start = *at;
            *at += 1;
            let tokens = tokens(attr.tokens.clone(), at);
            Annotation {
                name: attr.path.get_ident().map(|ident| ident.to_string()),
                tokens,
                span: Span { start, end: *at },
            }
        })
        .collect()
}

fn ident(ident: &syn::Ident, at: &mut usize) -> Ident {
    let start = *at;
    *at += 1;
    Ident { name: ident.to_string(), span: Span { start, end: start + 1 } }
}

/// Reads an enum from source text and resolves its accessors.
fn resolve(source: &str) -> Result<Vec<Accessor>, Vec<Diagnostic>> {
    let input: syn::DeriveInput = syn::parse_str(source).unwrap();
    let mut at = 1;
    let attrs = annotations(&input.attrs, &mut at);
    let data = match input.data {
        syn::Data::Enum(data) => Data::Enum(
            data.variants
                .iter()
                .map(|variant| Variant {
                    attrs: annotations(&variant.attrs, &mut at),
                    ident: ident(&variant.ident, &mut at),
                    fields: match &variant.fields {
                        syn::Fields::Named(named) => Fields::Named(
                            named
                                .named
                                .iter()
                                .map(|field| field.ident.as_ref().unwrap().to_string())
                                .collect(),
                        ),
                        syn::Fields::Unnamed(unnamed) => Fields::Unnamed(unnamed.unnamed.len()),
                        syn::Fields::Unit => Fields::Unit,
                    },
                })
                .collect(),
        ),
        syn::Data::Struct(_) => Data::Struct(Span { start: 0, end: 1 }),
        syn::Data::Union(_) => Data::Union(Span { start: 0, end: 1 }),
    };
    derive_accessors(&attrs, data)
}

fn accessors(source: &str) -> Vec<Accessor> {
    match resolve(source) {
        Ok(accessors) => accessors,
        Err(diags) => panic!("{:?}", diags),
    }
}

/// The value of an expression in which the names of `bound` stand for
/// values; a `*` before a name is the dereference of a bound field.
fn value(tokens: &[Token], bound: &[(String, String)]) -> String {
    let mut out = String::new();
    for token in tokens {
        match token {
            Token::Punct { ch: '*', .. } => {}
            Token::Punct { ch, .. } => out.push(*ch),
            Token::Literal { text, .. } => out.push_str(text),
            Token::Ident { text, .. } => match bound.iter().find(|(name, _)| name == text) {
                Some((_, held)) => out.push_str(held),
                None => out.push_str(text),
            },
            Token::Group { stream, .. } => {
                out.push('(');
                out.push_str(&value(stream, bound));
                out.push(')');
            }
        }
    }
    out
}

/// What the accessor `name` returns for a value of `variant` whose fields
/// hold `fields`, in the order of the declaration.
fn call(accessors: &[Accessor], name: &str, variant: &str, fields: &[&str]) -> String {
    let accessor = accessors.iter().find(|a| a.name.name == name).unwrap();
    for arm in &accessor.arms {
        if arm.variant.name != variant {
            continue;
        }
        let bindings = match &arm.pattern {
            Pattern::Unit => &[][..],
            Pattern::Unnamed(bindings) => &bindings[..],
            Pattern::Named(bindings) => &bindings[..],
        };
        assert_eq!(bindings.len(), fields.len());
        let bound: Vec<(String, String)> = bindings
            .iter()
            .zip(fields)
            .filter(|(binding, _)| binding.bound)
            .map(|(binding, held)| (binding.name.clone(), held.to_string()))
            .collect();
        assert_eq!(accessor.select(variant), &arm.value);
        return value(&arm.value, &bound);
    }
    assert_eq!(accessor.select(variant), &accessor.fallback);
    value(&accessor.fallback, &[])
}

const MULTI: &str = "
    #[attr(
        pub a: usize = 8,
        b: usize
    )]
    enum Enum {
        #[attr(a = 5, b = 2)]
        Variant1,

        #[attr(a = 3)]
        #[attr(b = 3)]
        Variant2,

        #[attr(b = 4)]
        Variant3,
    }";

const MULTI_OPTIONS: &str = "
    #[attr(pub a: Option<usize>)]
    #[attr(pub b: Option<usize>)]
    enum Enum2 {
        #[attr(a = 5, b = 3)]
        Variant1,

        Variant2,

        #[attr(a = None)]
        #[attr(b = None)]
        Variant3,
    }";

#[test]
fn attribute_get_multi_test_attribute_get() {
    let e = accessors(MULTI);
    assert_eq!(call(&e, "get_a", "Variant1", &[]), "5");
    assert_eq!(call(&e, "get_a", "Variant2", &[]), "3");

    assert_eq!(call(&e, "get_b", "Variant1", &[]), "2");
    assert_eq!(call(&e, "get_b", "Variant2", &[]), "3");
    assert_eq!(call(&e, "get_b", "Variant3", &[]), "4");
}

#[test]
fn attribute_get_multi_test_attribute_default() {
    let e = accessors(MULTI);
    assert_eq!(call(&e, "get_a", "Variant3", &[]), "8")
}

#[test]
fn attribute_get_multi_test_attribute_options() {
    let e = accessors(MULTI_OPTIONS);
    assert_eq!(call(&e, "get_a", "Variant1", &[]), "Some(5)");
    assert_eq!(call(&e, "get_a", "Variant2", &[]), "None");
    assert_eq!(call(&e, "get_a", "Variant3", &[]), "None");

    assert_eq!(call(&e, "get_b", "Variant1", &[]), "Some(3)");
    assert_eq!(call(&e, "get_b", "Variant3", &[]), "None");
}

const SIMPLE: &str = "
    #[attr(pub a: usize = 8)]
    enum Enum {
        #[attr(a = 5)]
        Variant1,

        #[attr(a = 3)]
        Variant2,

        Variant3,
    }";

const SIMPLE_OPTIONS: &str = "
    #[attr(pub a: Option<usize>)]
    enum Enum2 {
        #[attr(a = 5)]
        Variant1,

        Variant2,

        #[attr(a = None)]
        Variant3,
    }";

#[test]
fn attribute_get_simple_test_attribute_get() {
    let e = accessors(SIMPLE);
    assert_eq!(call(&e, "get_a", "Variant1", &[]), "5");
    assert_eq!(call(&e, "get_a", "Variant2", &[]), "3");
}

#[test]
fn attribute_get_simple_test_attribute_default() {
    let e = accessors(SIMPLE);
    assert_eq!(call(&e, "get_a", "Variant3", &[]), "8")
}

#[test]
fn attribute_get_simple_test_attribute_options() {
    let e = accessors(SIMPLE_OPTIONS);
    assert_eq!(call(&e, "get_a", "Variant1", &[]), "Some(5)");
    assert_eq!(call(&e, "get_a", "Variant2", &[]), "None");
    assert_eq!(call(&e, "get_a", "Variant3", &[]), "None");
}

const REFERENCES: &str = "
    #[attr(pub a: usize)]
    #[attr(pub b: Option<u32>)]
    enum Enum {
        #[attr(a = *#self.0)]
        #[attr(b = *#self.1)]
        Variant1(usize, u32),

        #[attr(a = *#self.field2)]
        #[attr(b = *#self.field1)]
        Variant2 {
            #[allow(unused)]
            field1: u32,

            #[allow(unused)]
            field2: usize,
        },
    }";

const VARIANT1: (&str, [&str; 2]) = ("Variant1", ["0", "1"]);
const VARIANT2: (&str, [&str; 2]) = ("Variant2", ["2", "4"]);

#[test]
fn self_references_test_attribute_get() {
    let e = accessors(REFERENCES);
    assert_eq!(call(&e, "get_a", VARIANT1.0, &VARIANT1.1), "0");
    assert_eq!(call(&e, "get_a", VARIANT2.0, &VARIANT2.1), "4");
}

#[test]
fn test_attribute_option_get() {
    let e = accessors(REFERENCES);
    assert_eq!(call(&e, "get_b", VARIANT1.0, &VARIANT1.1), "Some(1)");
    assert_eq!(call(&e, "get_b", VARIANT2.0, &VARIANT2.1), "Some(2)");
}

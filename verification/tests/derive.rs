//! The generator as a whole: what is generated for an enum, and what is
//! reported in each phase.

use custom_attrs::derive::{derive_accessors, derive_custom_attrs};
use custom_attrs::diag::{Diagnostic, Note};
use custom_attrs::emit::{Accessor, Binding, Pattern};
use custom_attrs::input::{Annotation, Data, DeriveInput, Fields, Variant};
use custom_attrs::node::Ident;
use custom_attrs::token::{to_text, Delimiter, Span, Token};
use quote::ToTokens;

fn tokens(stream: proc_macro2::TokenStream, at: &mut usize) -> Vec<Token> {
    let mut out = Vec::new();
    for tree in stream {
        let start = *at;
        *at += 1;
        let span = Span { start, end: start + 1 };
        out.push(match tree {
            proc_macro2::TokenTree::Ident(ident) => Token::Ident { text: ident.to_string(), span },
            proc_macro2::TokenTree::Punct(punct) => Token::Punct {
                ch: punct.as_char(),
                joint: punct.spacing() == proc_macro2::Spacing::Joint,
                span,
            },
            proc_macro2::TokenTree::Literal(literal) => {
                Token::Literal { text: literal.to_string(), span }
            }
            proc_macro2::TokenTree::Group(group) => {
                let delimiter = match group.delimiter() {
                    proc_macro2::Delimiter::Parenthesis => Delimiter::Parenthesis,
                    proc_macro2::Delimiter::Brace => Delimiter::Brace,
                    proc_macro2::Delimiter::Bracket => Delimiter::Bracket,
                    proc_macro2::Delimiter::None => Delimiter::Invisible,
                };
                let stream = tokens(group.stream(), at);
                Token::Group { delimiter, span: Span { start, end: *at }, stream }
            }
        });
    }
    out
}

fn annotations(attrs: &[syn::Attribute], at: &mut usize) -> Vec<Annotation> {
    attrs
        .iter()
        .map(|attr| {
            let start = *at;
            *at += 1;
            let tokens = tokens(attr.tokens.clone(), at);
            Annotation {
                name: attr.path.get_ident().map(|ident| ident.to_string()),
                tokens,
                span: Span { start, end: *at },
            }
        })
        .collect()
}

fn ident(ident: &syn::Ident, at: &mut usize) -> Ident {
    let start = *at;
    *at += 1;
    Ident { name: ident.to_string(), span: Span { start, end: start + 1 } }
}

/// The library's input for the type that `source` declares. Places are
/// counted in the order: the type's annotations, each with its tokens; then
/// each variant's annotations and name; then the type's name. The keyword
/// of a struct or union stands at the place 0.
fn input(source: &str) -> DeriveInput {
    let input: syn::DeriveInput = syn::parse_str(source).unwrap();
    let mut at = 1;
    let attrs = annotations(&input.attrs, &mut at);
    let data = match &input.data {
        syn::Data::Enum(data) => Data::Enum(
            data.variants
                .iter()
                .map(|variant| Variant {
                    attrs: annotations(&variant.attrs, &mut at),
                    ident: ident(&variant.ident, &mut at),
                    fields: match &variant.fields {
                        syn::Fields::Named(named) => Fields::Named(
                            named
                                .named
                                .iter()
                                .map(|field| field.ident.as_ref().unwrap().to_string())
                                .collect(),
                        ),
                        syn::Fields::Unnamed(unnamed) => Fields::Unnamed(unnamed.unnamed.len()),
                        syn::Fields::Unit => Fields::Unit,
                    },
                })
                .collect(),
        ),
        syn::Data::Struct(_) => Data::Struct(Span { start: 0, end: 1 }),
        syn::Data::Union(_) => Data::Union(Span { start: 0, end: 1 }),
    };
    let (impl_generics, type_generics, where_clause) = input.generics.split_for_impl();
    let name = ident(&input.ident, &mut at);
    DeriveInput {
        attrs,
        ident: name,
        impl_generics: tokens(impl_generics.to_token_stream(), &mut at),
        type_generics: tokens(type_generics.to_token_stream(), &mut at),
        where_clause: tokens(where_clause.to_token_stream(), &mut at),
        data,
    }
}

fn generate(source: &str) -> String {
    match derive_custom_attrs(input(source)) {
        Ok(tokens) => to_text(&tokens),
        Err(diags) => panic!("{:?}", diags),
    }
}

fn problems(source: &str) -> Vec<Diagnostic> {
    match derive_custom_attrs(input(source)) {
        Ok(tokens) => panic!("{}", to_text(&tokens)),
        Err(diags) => diags,
    }
}

fn accessors(source: &str) -> Vec<Accessor> {
    let given = input(source);
    derive_accessors(&given.attrs, given.data).unwrap()
}

fn at(start: usize) -> Span {
    Span { start, end: start + 1 }
}

fn problem(place: usize, message: &str) -> Diagnostic {
    Diagnostic { span: at(place), message: message.to_string(), help: None }
}

fn conflict(span: Span, message: &str, first: Span, note: &str) -> Diagnostic {
    Diagnostic {
        span,
        message: message.to_string(),
        help: Some(Note { span: first, message: note.to_string() }),
    }
}

#[test]
fn the_text_of_a_required_attribute_with_a_default() {
    let text = generate(
        "#[attr(pub a: usize = 8)]
        enum Enum {
            #[attr(a = 5)]
            X,
            Y,
        }",
    );
    assert_eq!(
        text,
        "impl Enum { # [ doc = \"\" ] pub fn get_a ( & self ) -> usize { \
         if let Self :: X = self { return 5 } 8 } } "
    );
    assert!(syn::parse_str::<syn::ItemImpl>(&text).is_ok());
}

#[test]
fn the_text_of_an_optional_attribute() {
    let text = generate(
        "#[attr(a: Option<usize>)]
        enum Enum {
            #[attr(a = 3)]
            X,
            Y,
            #[attr(a = Some(4))]
            Z,
            #[attr(a = None)]
            W,
        }",
    );
    assert_eq!(
        text,
        "impl Enum { # [ doc = \"\" ] fn get_a ( & self ) -> Option < usize > { \
         if let Self :: X = self { return Some ( 3 ) } \
         if let Self :: Z = self { return Some ( 4 ) } \
         if let Self :: W = self { return None } \
         None } } "
    );
    assert!(syn::parse_str::<syn::ItemImpl>(&text).is_ok());
}

#[test]
fn the_text_of_a_required_attribute_without_a_default() {
    let text = generate(
        "#[attr(pub(crate) a: &'static str)]
        enum Enum {
            #[attr(a = \"x\")]
            X,
        }",
    );
    assert_eq!(
        text,
        "impl Enum { # [ doc = \"\" ] pub ( crate ) fn get_a ( & self ) -> &'static str { \
         if let Self :: X = self { return \"x\" } unreachable ! ( ) } } "
    );
    assert!(syn::parse_str::<syn::ItemImpl>(&text).is_ok());
}

#[test]
fn a_default_is_returned_for_the_variant_without_a_value() {
    let e = accessors(
        "#[attr(a: usize = 8)]
        enum Enum {
            #[attr(a = 5)]
            X,
            Y,
        }",
    );
    assert_eq!(e.len(), 1);
    assert_eq!(to_text(e[0].select("X")), "5 ");
    assert_eq!(to_text(e[0].select("Y")), "8 ");
}

#[test]
fn an_optional_attribute_is_present_or_absent() {
    let e = accessors(
        "#[attr(a: Option<usize>)]
        enum Enum {
            #[attr(a = 3)]
            X,
            Y,
        }",
    );
    assert_eq!(e.len(), 1);
    assert_eq!(to_text(e[0].select("X")), "Some ( 3 ) ");
    assert_eq!(to_text(e[0].select("Y")), "None ");
}

#[test]
fn an_optional_default_is_wrapped() {
    let e = accessors(
        "#[attr(a: Option<u8> = 1, b: Option<u8> = Some(2), c: Option<u8> = None)]
        enum Enum { X }",
    );
    assert_eq!(to_text(&e[0].fallback), "Some ( 1 ) ");
    assert_eq!(to_text(&e[1].fallback), "Some ( 2 ) ");
    assert_eq!(to_text(&e[2].fallback), "None ");
    assert_eq!(to_text(e[0].select("X")), "Some ( 1 ) ");
}

#[test]
fn generics_are_carried_over() {
    let text = generate(
        "#[attr(a: usize = 0)]
        enum Enum<'a, T: Clone> where T: Copy {
            X(&'a T),
        }",
    );
    assert_eq!(
        text,
        "impl < 'a , T : Clone > Enum < 'a , T > where T : Copy { \
         # [ doc = \"\" ] fn get_a ( & self ) -> usize { 0 } } "
    );
    assert!(syn::parse_str::<syn::ItemImpl>(&text).is_ok());
}

#[test]
fn an_enum_without_attributes_gets_an_empty_implementation() {
    assert_eq!(generate("enum Enum { X, Y }"), "impl Enum { } ");
    assert_eq!(generate("#[derive(Debug)] #[repr(u8)] enum Enum { #[default] X }"), "impl Enum { } ");
}

#[test]
fn a_named_getter_takes_the_place_of_the_default_name() {
    let e = accessors(
        "#[attr(
            #[function = \"named_getter\"]
            a: usize,
            b: usize,
        )]
        enum Enum {
            #[attr(a = 1, b = 2)]
            X,
        }",
    );
    assert_eq!(e.len(), 2);
    assert_eq!(e[0].name.name, "named_getter");
    assert_eq!(e[1].name.name, "get_b");
    assert_eq!(to_text(e[0].select("X")), "1 ");

    let text = generate(
        "#[attr(#[function = \"named_getter\"] a: usize)]
        enum Enum { #[attr(a = 1)] X }",
    );
    assert!(text.contains("fn named_getter ( & self ) -> usize"));
    assert!(!text.contains("get_a"));
}

#[test]
fn raw_identifiers_name_attributes_and_fields() {
    let e = accessors(
        "#[attr(r#type: usize)]
        enum Enum {
            #[attr(r#type = *#self.r#fn)]
            X { r#fn: usize, other: u8 },
        }",
    );
    assert_eq!(e[0].name.name, "get_type");
    assert_eq!(
        e[0].arms[0].pattern,
        Pattern::Named(vec![
            Binding { name: "r#fn".to_string(), bound: true },
            Binding { name: "other".to_string(), bound: false },
        ])
    );
    assert_eq!(to_text(e[0].select("X")), "*r#fn ");
}

#[test]
fn documentation_is_written_as_a_string_literal() {
    let text = generate(
        "#[attr(
            #[doc = \"First \\\"line\\\".\"]
            #[doc = \"Second\\tline\\\\.\"]
            a: usize = 0,
        )]
        enum Enum { X }",
    );
    assert!(text.contains("# [ doc = \"First \\\"line\\\".\\nSecond\\tline\\\\.\" ] "));
    let parsed = syn::parse_str::<syn::ItemImpl>(&text).unwrap();
    let method = match &parsed.items[0] {
        syn::ImplItem::Method(method) => method,
        other => panic!("{:?}", other.to_token_stream().to_string()),
    };
    match method.attrs[0].parse_meta().unwrap() {
        syn::Meta::NameValue(syn::MetaNameValue { lit: syn::Lit::Str(doc), .. }) => {
            assert_eq!(doc.value(), "First \"line\".\nSecond\tline\\.")
        }
        other => panic!("{:?}", other.to_token_stream().to_string()),
    }
}

#[test]
fn two_runs_generate_the_same_text() {
    let source = "
        #[attr(#[doc = \"The a.\"] pub a: usize = 8, b: Option<&'static str>)]
        enum Enum {
            #[attr(a = 5, b = \"x\")]
            X,
            #[attr(a = *#self.0)]
            Y(usize),
            #[attr(b = #self.name)]
            Z { name: &'static str, other: u8 },
        }";
    let first = generate(source);
    let second = generate(source);
    assert_eq!(first, second);
    assert_eq!(derive_custom_attrs(input(source)), derive_custom_attrs(input(source)));
    assert!(syn::parse_str::<syn::ItemImpl>(&first).is_ok());

    let broken = "#[attr(a: usize, a: u8)] enum Enum { X }";
    assert_eq!(problems(broken), problems(broken));
}

#[test]
fn only_the_fields_that_a_value_refers_to_are_bound() {
    let e = accessors(
        "#[attr(a: usize = 0, b: usize = 0)]
        enum Enum {
            #[attr(a = *#self.1, b = 7)]
            P(u8, usize, u8),
            #[attr(a = *#self.second + *#self.second, b = #self.third.len())]
            N { first: u8, second: usize, third: String },
            #[attr(a = 1)]
            U,
        }",
    );
    let binding = |name: &str, bound: bool| Binding { name: name.to_string(), bound };
    assert_eq!(
        e[0].arms[0].pattern,
        Pattern::Unnamed(vec![binding("_0", false), binding("_1", true), binding("_2", false)])
    );
    assert_eq!(to_text(&e[0].arms[0].value), "*_1 ");
    assert_eq!(
        e[0].arms[1].pattern,
        Pattern::Named(vec![
            binding("first", false),
            binding("second", true),
            binding("third", false),
        ])
    );
    assert_eq!(e[0].arms[2].pattern, Pattern::Unit);
    assert_eq!(
        e[1].arms[0].pattern,
        Pattern::Unnamed(vec![binding("_0", false), binding("_1", false), binding("_2", false)])
    );
    assert_eq!(
        e[1].arms[1].pattern,
        Pattern::Named(vec![
            binding("first", false),
            binding("second", false),
            binding("third", true),
        ])
    );

    let text = generate(
        "#[attr(a: usize = 0)]
        enum Enum {
            #[attr(a = *#self.1)]
            P(u8, usize, u8),
            #[attr(a = *#self.second)]
            N { first: u8, second: usize },
        }",
    );
    assert_eq!(
        text,
        "impl Enum { # [ doc = \"\" ] fn get_a ( & self ) -> usize { \
         if let Self :: P ( _ , _1 , _ ) = self { return *_1 } \
         if let Self :: N { first : _ , second } = self { return *second } \
         0 } } "
    );
    assert!(syn::parse_str::<syn::ItemImpl>(&text).is_ok());
}

#[test]
fn a_struct_is_refused() {
    assert_eq!(
        problems("#[attr(a: usize)] struct S { x: u8 }"),
        vec![problem(0, "Not implemented for structs.")]
    );
}

#[test]
fn a_union_is_refused() {
    assert_eq!(
        problems("#[attr(a: usize)] union U { x: u8 }"),
        vec![problem(0, "Not implemented for unions.")]
    );
}

#[test]
fn a_missing_value_is_reported_at_the_variant() {
    // places: 1 annotation, 2 group, 3 a, 4 `:`, 5 usize, 6 `,`, 7 b, 8 `:`, 9 usize;
    // 10 annotation of X, 11 group, 12 a, 13 `=`, 14 1, 15 `,`, 16 b, 17 `=`, 18 2; 19 X;
    // 20 annotation of Y, 21 group, 22 a, 23 `=`, 24 3; 25 Y; 26 Z
    assert_eq!(
        problems(
            "#[attr(a: usize, b: usize)]
            enum Enum {
                #[attr(a = 1, b = 2)]
                X,
                #[attr(a = 3)]
                Y,
                Z,
            }"
        ),
        vec![
            problem(26, "Value not set for `a`."),
            problem(25, "Value not set for `b`."),
            problem(26, "Value not set for `b`."),
        ]
    );
}

#[test]
fn one_missing_value_is_one_problem() {
    assert_eq!(
        problems(
            "#[attr(a: usize)]
            enum Enum {
                #[attr(a = 1)]
                X,
                Y,
                #[attr(a = 3)]
                Z,
            }"
        ),
        vec![problem(12, "Value not set for `a`.")]
    );
}

#[test]
fn optional_and_defaulted_attributes_need_no_value() {
    let e = accessors(
        "#[attr(a: Option<u8>, b: u8 = 1, c: std::option::Option<u8>)]
        enum Enum { X, Y, Z }",
    );
    assert_eq!(e.len(), 3);
    assert!(e.iter().all(|accessor| accessor.arms.is_empty()));
    assert_eq!(to_text(e[0].select("Y")), "None ");
    assert_eq!(to_text(e[1].select("Y")), "1 ");
    assert_eq!(to_text(e[2].select("Y")), "None ");
}

#[test]
fn a_second_declaration_is_reported_with_the_first() {
    // places: 1 annotation, 2 group, 3 a, 4 `:`, 5 usize, 6 `=`, 7 0, 8 `,`, 9 b, ..,
    // 14 `,`, 15 a
    assert_eq!(
        problems(
            "#[attr(a: usize = 0, b: u8 = 1, a: u16 = 2)]
            enum Enum { X }"
        ),
        vec![conflict(
            at(15),
            "This attribute is already declared.",
            at(3),
            "`a` is already declared here."
        )]
    );
}

#[test]
fn a_second_declaration_in_another_annotation_is_reported() {
    assert_eq!(
        problems(
            "#[attr(a: usize = 0)]
            #[attr(a: u16 = 2)]
            enum Enum { X }"
        ),
        vec![conflict(
            at(10),
            "This attribute is already declared.",
            at(3),
            "`a` is already declared here."
        )]
    );
}

#[test]
fn a_second_value_is_reported_with_the_first() {
    // places: 1 annotation, 2 group, 3 a, 4 `:`, 5 usize;
    // 6 annotation, 7 group, 8 a, 9 `=`, 10 1, 11 `,`, 12 a, 13 `=`, 14 2
    assert_eq!(
        problems(
            "#[attr(a: usize)]
            enum Enum {
                #[attr(a = 1, a = 2)]
                X,
            }"
        ),
        vec![conflict(
            Span { start: 12, end: 15 },
            "The value is already set for this attribute.",
            at(10),
            "First value of `a` is set here."
        )]
    );
}

#[test]
fn a_second_value_points_at_the_first_as_it_was_written() {
    // places: 6 annotation, 7 group, 8 a, 9 `=`, 10 `*`, 11 `#`, 12 self, 13 `.`, 14 `0`;
    // 15 annotation, 16 group, 17 a, 18 `=`, 19 2
    assert_eq!(
        problems(
            "#[attr(a: usize)]
            enum Enum {
                #[attr(a = *#self.0)]
                #[attr(a = 2)]
                X(usize),
            }"
        ),
        vec![conflict(
            Span { start: 17, end: 20 },
            "The value is already set for this attribute.",
            Span { start: 10, end: 15 },
            "First value of `a` is set here."
        )]
    );
}

#[test]
fn a_value_for_an_unknown_attribute_is_reported() {
    assert_eq!(
        problems(
            "#[attr(a: usize = 0)]
            enum Enum {
                #[attr(b = 1)]
                X,
            }"
        ),
        vec![problem(10, "Unknown attribute.")]
    );
}

#[test]
fn the_same_accessor_name_twice_is_reported_with_the_first_use() {
    // places: 1 annotation, 2 group, 3 `#`, 4 brackets, 5 function, 6 `=`, 7 "get", 8 a,
    // 9 `:`, 10 u8, 11 `=`, 12 0, 13 `,`, 14 `#`, 15 brackets, 16 function, 17 `=`, 18 "get"
    assert_eq!(
        problems(
            "#[attr(
                #[function = \"get\"] a: u8 = 0,
                #[function = \"get\"] b: u8 = 0,
                #[function = \"other\"] c: u8 = 0,
                #[function = \"get\"] d: u8 = 0,
            )]
            enum Enum { X }"
        ),
        vec![
            conflict(
                at(18),
                "The attribute `a` already use this function name.",
                at(7),
                "First use of `get` here."
            ),
            conflict(
                at(40),
                "The attribute `a` already use this function name.",
                at(7),
                "First use of `get` here."
            ),
        ]
    );
}

#[test]
fn a_phase_with_problems_is_the_last() {
    // The declarations are broken: the unknown attribute `c` and the missing
    // values are not reported.
    assert_eq!(
        problems(
            "#[attr(a: usize, #[colour = \"red\"] b: usize)]
            enum Enum {
                #[attr(c = 1)]
                X,
            }"
        ),
        vec![problem(9, "Unknown config.")]
    );
    // The values are broken: the missing value of `Y` is not reported.
    assert_eq!(
        problems(
            "#[attr(a: usize)]
            enum Enum {
                #[attr(a = #self)]
                X,
                Y,
            }"
        ),
        vec![Diagnostic {
            span: Span { start: 7, end: 12 },
            message: "Expecting `.`.".to_string(),
            help: None,
        }]
    );
}

#[test]
fn a_broken_value_is_reported() {
    // The list is read twice: for the references, and for the values.
    let found = problems(
        "#[attr(a: usize = 0)]
        enum Enum {
            #[attr(a = 1 +)]
            X,
        }",
    );
    assert_eq!(found.len(), 1);
    assert_eq!(found[0].help, None);
    assert_ne!(found[0].message, "");

    assert_eq!(
        problems(
            "#[attr(a: usize = 0)]
            enum Enum {
                #[attr(a = )]
                X,
            }"
        ),
        vec![Diagnostic {
            span: Span { start: 9, end: 12 },
            message: "Expected expression.".to_string(),
            help: None,
        }]
    );

    assert_eq!(
        problems(
            "#[attr(a: usize = 0)]
            enum Enum {
                #[attr(a 1)]
                X,
            }"
        ),
        vec![problem(11, "expected `=`"), problem(11, "expected `=`")]
    );

    assert_eq!(
        problems(
            "#[attr(a: usize = 0)]
            enum Enum {
                #[attr = \"a\"]
                X,
            }"
        ),
        vec![problem(9, "expected parentheses"), problem(9, "expected parentheses")]
    );
}

#[test]
fn documentation_is_taken_from_doc_comments() {
    let e = accessors(
        "#[attr(
            /// Get attribute a which represent a value
            pub a: usize,

            /// Get attribute b which represent another value
            #[doc = r\"represent another value\"]
            pub b: u32 = 3
        )]
        enum Enum {
            #[attr(a = 5)]
            Variant1,

            #[attr(a = 3)]
            Variant2,
        }",
    );
    assert_eq!(e[0].comment, " Get attribute a which represent a value");
    assert_eq!(
        e[1].comment,
        " Get attribute b which represent another value\nrepresent another value"
    );
    assert_eq!(to_text(e[1].select("Variant1")), "3 ");
}

#[test]
fn references_stand_anywhere_in_a_value() {
    let e = accessors(
        "#[attr(pub a: u32, pub b: Option<u32>)]
        enum Enum {
            #[attr(a = #self.list[*#self.index])]
            Variant {
                list: [u32; 4],
                index: usize,
            },
            #[attr(a = #self.0.b, b = #self.1)]
            Other(A, u32),
        }",
    );
    assert_eq!(
        e[0].arms[0].pattern,
        Pattern::Named(vec![
            Binding { name: "list".to_string(), bound: true },
            Binding { name: "index".to_string(), bound: true },
        ])
    );
    assert_eq!(to_text(e[0].select("Variant")), "list [ *index ] ");
    assert_eq!(
        e[0].arms[1].pattern,
        Pattern::Unnamed(vec![
            Binding { name: "_0".to_string(), bound: true },
            Binding { name: "_1".to_string(), bound: false },
        ])
    );
    assert_eq!(to_text(e[0].select("Other")), "_0 . b ");
    assert_eq!(
        e[1].arms[0].pattern,
        Pattern::Unnamed(vec![
            Binding { name: "_0".to_string(), bound: false },
            Binding { name: "_1".to_string(), bound: true },
        ])
    );
    assert_eq!(to_text(e[1].select("Other")), "Some ( _1 ) ");
    assert_eq!(to_text(e[1].select("Variant")), "None ");
}

#[test]
fn values_are_assigned_in_one_annotation_or_in_many() {
    let e = accessors(
        "#[attr(pub a: usize)]
        #[attr(b: u32)]
        enum Enum2 {
            #[attr(
                a = 5,
                b = *#self.0
            )]
            Variant1(u32),

            #[attr(a = *#self.field1)]
            #[attr(b = 3)]
            Variant2 {
                field1: usize
            }
        }",
    );
    assert_eq!(to_text(e[0].select("Variant1")), "5 ");
    assert_eq!(to_text(e[0].select("Variant2")), "*field1 ");
    assert_eq!(to_text(e[1].select("Variant1")), "*_0 ");
    assert_eq!(to_text(e[1].select("Variant2")), "3 ");
    assert_eq!(e[0].arms[0].pattern, Pattern::Unnamed(vec![Binding { name: "_0".to_string(), bound: false }]));
    assert_eq!(e[1].arms[0].pattern, Pattern::Unnamed(vec![Binding { name: "_0".to_string(), bound: true }]));
}

#[test]
fn every_spelling_of_the_wrapper_is_known() {
    let e = accessors(
        "#[attr(pub a: Option<usize> = 3)]
        #[attr(pub b: Option<usize> = Some(3))]
        #[attr(pub c: Option<usize> = std::option::Option::Some(4))]
        #[attr(pub d: Option<usize> = core::option::Option::Some(4))]
        enum Enum {
            Variant1,
            #[attr(a = 3)]
            Variant2,
            #[attr(a = None)]
            Variant3,
            #[attr(a = std::option::Option::None)]
            Variant4,
            #[attr(a = core::option::Option::None)]
            Variant5,
            #[attr(a = Some(4))]
            Variant6,
            #[attr(a = std::option::Option::Some(4))]
            Variant7,
            #[attr(a = core::option::Option::Some(4))]
            Variant8,
        }",
    );
    let a = |variant: &str| to_text(e[0].select(variant));
    assert_eq!(a("Variant1"), "Some ( 3 ) ");
    assert_eq!(a("Variant2"), "Some ( 3 ) ");
    assert_eq!(a("Variant3"), "None ");
    assert_eq!(a("Variant4"), "std :: option :: Option :: None ");
    assert_eq!(a("Variant5"), "core :: option :: Option :: None ");
    assert_eq!(a("Variant6"), "Some ( 4 ) ");
    assert_eq!(a("Variant7"), "std :: option :: Option :: Some ( 4 ) ");
    assert_eq!(a("Variant8"), "core :: option :: Option :: Some ( 4 ) ");
    assert_eq!(to_text(&e[1].fallback), "Some ( 3 ) ");
    assert_eq!(to_text(&e[2].fallback), "std :: option :: Option :: Some ( 4 ) ");
    assert_eq!(to_text(&e[3].fallback), "core :: option :: Option :: Some ( 4 ) ");
}

#[test]
fn fields_that_no_value_refers_to_are_discarded() {
    let text = generate(
        "#[attr(pub a: usize)]
        enum Enum {
            #[attr(a = 5)]
            Variant1(usize, u32),
            #[attr(a = 3)]
            Variant2 { field1: u32, field2: usize },
        }",
    );
    assert_eq!(
        text,
        "impl Enum { # [ doc = \"\" ] pub fn get_a ( & self ) -> usize { \
         if let Self :: Variant1 ( _ , _ ) = self { return 5 } \
         if let Self :: Variant2 { field1 : _ , field2 : _ } = self { return 3 } \
         unreachable ! ( ) } } "
    );
    assert!(syn::parse_str::<syn::ItemImpl>(&text).is_ok());
}

#[test]
fn values_that_are_not_complete_are_reported() {
    let found = problems(
        "#[attr(pub a: usize)]
        #[attr(pub b: usize)]
        enum Enum {
            #[attr(a = b =)]
            #[attr(b)]
            Variant1,

            #[attr(a = 3)]
            #[attr(b = 3)]
            Variant2,

            #[attr(a = )]
            #[attr(b = 3)]
            Variant3,
        }",
    );
    let messages: Vec<&str> = found.iter().map(|d| d.message.as_str()).collect();
    // The annotations of a variant are gone through twice: for the
    // references first, for the values then.
    assert_eq!(messages.len(), 4);
    assert_eq!(messages[0], "expected `=`");
    assert_ne!(messages[1], "");
    assert_eq!(messages[2], "expected `=`");
    assert_eq!(messages[3], "Expected expression.");
    assert!(found.iter().all(|d| d.help.is_none()));
}

#[test]
fn references_that_are_not_complete_are_reported() {
    let found = problems(
        "#[attr(pub a: usize)]
        enum Enum {
            #[attr(a = #)]
            Variant1(usize, u32),
            #[attr(a = #self)]
            Variant3(usize, u32),
            #[attr(a = #self.)]
            Variant4(usize, u32),
            #[attr(a = #self.0)]
            Variant5(usize, u32),
            #[attr(a = #self.field1)]
            Variant6 { field1: u32 },
        }",
    );
    let messages: Vec<&str> = found.iter().map(|d| d.message.as_str()).collect();
    assert_eq!(
        messages,
        vec!["Expecting reference ident or `[`.", "Expecting `.`.", "Expecting ident."]
    );
}

#[test]
fn a_reference_to_a_field_that_the_variant_does_not_have_is_not_reported() {
    let e = accessors(
        "#[attr(pub a: usize)]
        enum Enum {
            #[attr(a = #self.5)]
            Variant1(usize, u32),
            #[attr(a = #self.unknown)]
            Variant2 { field1: u32, field2: usize },
        }",
    );
    assert_eq!(to_text(e[0].select("Variant1")), "_5 ");
    assert_eq!(to_text(e[0].select("Variant2")), "unknown ");
    assert_eq!(
        e[0].arms[0].pattern,
        Pattern::Unnamed(vec![
            Binding { name: "_0".to_string(), bound: false },
            Binding { name: "_1".to_string(), bound: false },
        ])
    );
}

#[test]
fn unknown_configurations_are_reported_and_documentation_passes() {
    let found = problems(
        "#[attr(
            /// Should pass

            #[unknown = \"\", another_unknown = \"\"]
            #[unknown2]

            pub a: usize
        )]
        enum Enum {
            #[attr(a = 5)]
            Variant1,
        }",
    );
    let messages: Vec<&str> = found.iter().map(|d| d.message.as_str()).collect();
    assert_eq!(messages, vec!["Unknown config.", "Unknown config.", "Unknown config."]);

    let found = problems(
        "#[attr(
            #[function]
            pub a: usize
        )]
        enum Enum {
            #[attr(a = 5)]
            Variant1,
        }",
    );
    let messages: Vec<&str> = found.iter().map(|d| d.message.as_str()).collect();
    assert_eq!(messages, vec!["Expected `function = ...`"]);
}

#[test]
fn a_c_string_literal_is_reported() {
    // places: 1 annotation, 2 group, 3 a, 4 `:`, 5 usize; 6 annotation, 7 group, 8 a,
    // 9 `=`, 10 the literal
    let unsupported = "Unsupported token: a C string literal, or what could not be lexed.";
    assert_eq!(
        problems(
            "#[attr(a: usize)]
            enum Enum {
                #[attr(a = c\"x\")]
                X,
            }"
        ),
        vec![problem(10, unsupported)]
    );
    assert_eq!(
        problems("#[attr(a: [u8; c\"x\".len()] = 1)] enum Enum { X }"),
        vec![Diagnostic {
            span: Span { start: 5, end: 12 },
            message: "Expected a type.".to_string(),
            help: None,
        }]
    );
    assert_eq!(
        problems("#[attr(a: usize = f(cr#\"x\"#))] enum Enum { X }"),
        vec![Diagnostic {
            span: Span { start: 8, end: 10 },
            message: unsupported.to_string(),
            help: None,
        }]
    );
    assert_eq!(
        problems("#[attr(#[doc = c\"x\"] a: usize = 1)] enum Enum { X }"),
        vec![problem(7, unsupported)]
    );
    assert_eq!(
        problems("#[attr(#[a<c\"x\"> = 1] a: usize = 1)] enum Enum { X }"),
        vec![Diagnostic {
            span: Span { start: 5, end: 9 },
            message: unsupported.to_string(),
            help: None,
        }]
    );
    assert_eq!(
        problems("#[attr(a: usize)] enum Enum { #[attr(a = #self.c\"0\")] X(u8) }"),
        vec![problem(13, "Expecting ident or integer.")]
    );
}

#[test]
fn a_default_goes_as_far_as_the_expression_goes() {
    let e = accessors(
        "#[attr(
            a: fn(u8, u8) -> u8 = |x, y| x + y,
            b: u16 = f::<u8, u16>(),
            c: (u8, u8) = (1, 2),
            d: u8 = 1,
        )]
        enum Enum {
            #[attr(d = 1)]
            X,
            Y,
        }",
    );
    assert_eq!(e.len(), 4);
    assert_eq!(to_text(e[0].select("Y")), "| x , y | x + y ");
    assert_eq!(to_text(e[1].select("Y")), "f ::< u8 , u16 > ( ) ");
    assert_eq!(to_text(e[2].select("Y")), "( 1 , 2 ) ");
    assert_eq!(to_text(e[3].select("Y")), "1 ");
    assert_eq!(to_text(e[3].select("X")), "1 ");
}

#[test]
fn a_configured_value_goes_as_far_as_the_expression_goes() {
    let found = problems(
        "#[attr(#[doc = f::<u8, u16>(), function = \"g\"] a: u8 = 1)]
        enum Enum { X }",
    );
    assert_eq!(found.len(), 1);
    assert_eq!(found[0].message, "Expected a literal expression.");
}

#[test]
fn a_value_of_a_variant_ends_at_the_first_comma() {
    // The references of a value are resolved in the tokens up to the first
    // `,`; what stands behind it is the next value.
    let found = problems(
        "#[attr(a: u8 = 0)]
        enum Enum {
            #[attr(a = g::<u8, u8>(1))]
            X,
        }",
    );
    let messages: Vec<&str> = found.iter().map(|d| d.message.as_str()).collect();
    assert_eq!(messages, vec!["expected `=`"]);
}

#[test]
fn a_string_inside_a_value_is_read_whatever_it_holds() {
    let e = accessors(
        "#[attr(ext: Option<&'static str>, all: [&'static str; 3] = [\"a\", \"b\", \"c\"], n: usize = \"c\".len())]
        enum Enum {
            #[attr(ext = Some(\"c\"), n = f(\"x-c\", b\"c\", r\"c\"))]
            X,
            #[attr(ext = \"a c\")]
            Y,
        }",
    );
    assert_eq!(to_text(e[0].select("X")), "Some ( \"c\" ) ");
    assert_eq!(to_text(e[0].select("Y")), "Some ( \"a c\" ) ");
    assert_eq!(to_text(e[1].select("X")), "[ \"a\" , \"b\" , \"c\" ] ");
    assert_eq!(to_text(e[2].select("X")), "f ( \"x-c\" , b\"c\" , r\"c\" ) ");
    assert_eq!(to_text(e[2].select("Y")), "\"c\" . len ( ) ");
}

#[test]
fn a_string_that_ends_in_the_letter_c_is_read() {
    let e = accessors(
        "#[attr(#[doc = \"vitamin c\"] a: &'static str = \"c\")]
        enum Enum {
            #[attr(a = \"a c\")]
            X,
            Y,
        }",
    );
    assert_eq!(e[0].comment, "vitamin c");
    assert_eq!(to_text(e[0].select("X")), "\"a c\" ");
    assert_eq!(to_text(e[0].select("Y")), "\"c\" ");
}

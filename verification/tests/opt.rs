//! The optional wrapper: which types and which expressions count as it.

use custom_attrs::node::{Expr, Type};
use custom_attrs::opt::{extract_type_from_option, extract_type_path, is_option_wrapped};
use custom_attrs::syntax::{ExprShape, LiteralShape, PathShape, TypePath};
use custom_attrs::token::{Delimiter, Span, Token};

fn tokens(stream: proc_macro2::TokenStream, at: &mut usize) -> Vec<Token> {
    let mut out = Vec::new();
    for tree in stream {
        let start = *at;
        *at += 1;
        let span = Span { start, end: start + 1 };
        out.push(match tree {
            proc_macro2::TokenTree::Ident(ident) => Token::Ident { text: ident.to_string(), span },
            proc_macro2::TokenTree::Punct(punct) => Token::Punct {
                ch: punct.as_char(),
                joint: punct.spacing() == proc_macro2::Spacing::Joint,
                span,
            },
            proc_macro2::TokenTree::Literal(literal) => {
                Token::Literal { text: literal.to_string(), span }
            }
            proc_macro2::TokenTree::Group(group) => {
                let delimiter = match group.delimiter() {
                    proc_macro2::Delimiter::Parenthesis => Delimiter::Parenthesis,
                    proc_macro2::Delimiter::Brace => Delimiter::Brace,
                    proc_macro2::Delimiter::Bracket => Delimiter::Bracket,
                    proc_macro2::Delimiter::None => Delimiter::Invisible,
                };
                let stream = tokens(group.stream(), at);
                Token::Group { delimiter, span: Span { start, end: *at }, stream }
            }
        });
    }
    out
}

fn lex(source: &str) -> Vec<Token> {
    tokens(source.parse().unwrap(), &mut 0)
}

fn ty(source: &str) -> Type {
    Type::from_tokens(lex(source)).unwrap()
}

fn expr(source: &str) -> Expr {
    Expr::from_tokens(lex(source)).unwrap()
}

fn inner(source: &str) -> Option<String> {
    extract_type_from_option(&ty(source)).cloned()
}

#[test]
fn option_of_a_type_is_the_wrapper() {
    assert_eq!(inner("Option<usize>"), Some("usize".to_string()));
    assert_eq!(inner("Option<Vec<u8>>"), Some("Vec < u8 >".to_string()));
    assert_eq!(inner("Option<&'static str>"), Some("& 'static str".to_string()));
}

#[test]
fn qualified_spellings_are_the_wrapper() {
    assert_eq!(inner("std::option::Option<u32>"), Some("u32".to_string()));
    assert_eq!(inner("core::option::Option<u32>"), Some("u32".to_string()));
    assert_eq!(inner("::std::option::Option<u32>"), Some("u32".to_string()));
}

#[test]
fn other_paths_are_not_the_wrapper() {
    assert_eq!(inner("usize"), None);
    assert_eq!(inner("Vec<usize>"), None);
    assert_eq!(inner("option::Option<usize>"), None);
    assert_eq!(inner("std::Option<usize>"), None);
    assert_eq!(inner("my::std::option::Option<usize>"), None);
}

#[test]
fn the_wrapper_takes_exactly_one_type() {
    assert_eq!(inner("Option"), None);
    assert_eq!(inner("Option<u8, u16>"), None);
    assert_eq!(inner("Option<'a>"), None);
    assert_eq!(inner("Option<3>"), None);
}

#[test]
fn types_that_are_no_plain_path_are_not_the_wrapper() {
    assert_eq!(inner("&Option<u8>"), None);
    assert_eq!(inner("(Option<u8>,)"), None);
    assert_eq!(inner("[Option<u8>; 2]"), None);
    assert_eq!(inner("<T as Trait>::Option<u8>"), None);
}

#[test]
fn type_path_of_a_path_type() {
    let parsed = ty("std::collections::HashMap<u8, u16>");
    let path = extract_type_path(&parsed).unwrap();
    assert_eq!(path.segments, vec!["std", "collections", "HashMap"]);
    assert!(!path.qualified);
    assert_eq!(path.arguments, vec![Some("u8".to_string()), Some("u16".to_string())]);

    let plain = ty("usize");
    let path = extract_type_path(&plain).unwrap();
    assert_eq!(path.segments, vec!["usize"]);
    assert!(path.arguments.is_empty());

    let mixed = ty("Ref<'a, T, 3>");
    let path = extract_type_path(&mixed).unwrap();
    assert_eq!(path.arguments, vec![None, Some("T".to_string()), None]);

    let called = ty("Fn(u8) -> u8");
    assert!(extract_type_path(&called).unwrap().arguments.is_empty());
}

#[test]
fn type_path_of_other_types() {
    assert_eq!(extract_type_path(&ty("&u8")), None);
    assert_eq!(extract_type_path(&ty("<T as Trait>::Out")), None);
    assert_eq!(extract_type_path(&ty("fn(u8) -> u8")), None);
}

#[test]
fn a_hand_written_type_is_classified_by_its_shape() {
    let written = Type {
        tokens: Vec::new(),
        path: Some(TypePath {
            qualified: false,
            segments: vec!["core".to_string(), "option".to_string(), "Option".to_string()],
            arguments: vec![Some("T".to_string())],
        }),
    };
    assert_eq!(extract_type_from_option(&written), Some(&"T".to_string()));

    let qualified = Type {
        tokens: Vec::new(),
        path: Some(TypePath {
            qualified: true,
            segments: vec!["Option".to_string()],
            arguments: vec![Some("T".to_string())],
        }),
    };
    assert_eq!(extract_type_from_option(&qualified), None);

    let no_type = Type {
        tokens: Vec::new(),
        path: Some(TypePath {
            qualified: false,
            segments: vec!["Option".to_string()],
            arguments: vec![None],
        }),
    };
    assert_eq!(extract_type_from_option(&no_type), None);

    let no_path = Type { tokens: Vec::new(), path: None };
    assert_eq!(extract_type_from_option(&no_path), None);
    assert_eq!(extract_type_path(&no_path), None);
}

#[test]
fn some_of_one_argument_is_wrapped() {
    assert!(is_option_wrapped(&expr("Some(5)")));
    assert!(is_option_wrapped(&expr("Some(a + b)")));
    assert!(is_option_wrapped(&expr("std::option::Option::Some(5)")));
    assert!(is_option_wrapped(&expr("core::option::Option::Some(5)")));
    assert!(is_option_wrapped(&expr("Some::<u8>(5)")));
}

#[test]
fn none_is_wrapped() {
    assert!(is_option_wrapped(&expr("None")));
    assert!(is_option_wrapped(&expr("std::option::Option::None")));
    assert!(is_option_wrapped(&expr("core::option::Option::None")));
}

#[test]
fn other_expressions_are_not_wrapped() {
    assert!(!is_option_wrapped(&expr("5")));
    assert!(!is_option_wrapped(&expr("\"Some(5)\"")));
    assert!(!is_option_wrapped(&expr("Some")));
    assert!(!is_option_wrapped(&expr("None(5)")));
    assert!(!is_option_wrapped(&expr("Some()")));
    assert!(!is_option_wrapped(&expr("Some(1, 2)")));
    assert!(!is_option_wrapped(&expr("Option::Some(5)")));
    assert!(!is_option_wrapped(&expr("Option::None")));
    assert!(!is_option_wrapped(&expr("None::<u8>")));
    assert!(!is_option_wrapped(&expr("<T>::None")));
    assert!(!is_option_wrapped(&expr("(Some(5))")));
    assert!(!is_option_wrapped(&expr("Some(5).or(None)")));
    assert!(!is_option_wrapped(&expr("wrap(5)")));
    assert!(!is_option_wrapped(&expr("(make())(5)")));
}

#[test]
fn a_hand_written_expression_is_classified_by_its_shape() {
    let call = |args: usize, name: &str| Expr {
        tokens: Vec::new(),
        shape: ExprShape {
            call: true,
            args,
            path: Some(PathShape {
                qualified: false,
                bare: true,
                segments: vec![name.to_string()],
            }),
        },
        literal: LiteralShape::Absent,
    };
    assert!(is_option_wrapped(&call(1, "Some")));
    assert!(!is_option_wrapped(&call(0, "Some")));
    assert!(!is_option_wrapped(&call(2, "Some")));
    assert!(!is_option_wrapped(&call(1, "None")));

    let path = |qualified: bool, bare: bool, name: &str| Expr {
        tokens: Vec::new(),
        shape: ExprShape {
            call: false,
            args: 0,
            path: Some(PathShape { qualified, bare, segments: vec![name.to_string()] }),
        },
        literal: LiteralShape::Absent,
    };
    assert!(is_option_wrapped(&path(false, true, "None")));
    assert!(!is_option_wrapped(&path(true, true, "None")));
    assert!(!is_option_wrapped(&path(false, false, "None")));
    assert!(!is_option_wrapped(&path(false, true, "Some")));

    let other = Expr {
        tokens: Vec::new(),
        shape: ExprShape { call: false, args: 0, path: None },
        literal: LiteralShape::Other,
    };
    assert!(!is_option_wrapped(&other));
}

#[test]
fn the_shape_of_an_expression_is_read() {
    let called = expr("a::b(1, 2, 3)");
    assert!(called.shape.call);
    assert_eq!(called.shape.args, 3);
    assert_eq!(called.shape.path.unwrap().segments, vec!["a", "b"]);
    assert_eq!(called.literal, LiteralShape::Absent);

    let string = expr("\"a\\nb\"");
    assert_eq!(string.shape, ExprShape { call: false, args: 0, path: None });
    assert_eq!(string.literal, LiteralShape::Str { value: "a\nb".to_string() });

    assert_eq!(expr("5").literal, LiteralShape::Int { digits: "5".to_string() });
    assert_eq!(expr("0x1Fu8").literal, LiteralShape::Int { digits: "0x1Fu8".to_string() });
    assert_eq!(expr("1.5").literal, LiteralShape::Other);
    assert_eq!(expr("'c'").literal, LiteralShape::Other);
    assert_eq!(expr("true").literal, LiteralShape::Other);
    assert_eq!(expr("-5").literal, LiteralShape::Absent);
    assert_eq!(expr("(5)").literal, LiteralShape::Absent);
    assert_eq!(expr("truth").literal, LiteralShape::Absent);
    assert_eq!(expr("\"a\".len()").literal, LiteralShape::Absent);
}

#[test]
fn what_is_no_expression_or_type_is_refused() {
    assert!(Expr::from_tokens(lex("1 +")).is_err());
    assert!(Expr::from_tokens(lex("")).is_err());
    assert!(Expr::from_tokens(lex("a b")).is_err());
    assert!(Type::from_tokens(lex("5")).is_err());
    assert!(Type::from_tokens(lex("")).is_err());
    assert!(Type::from_tokens(lex("u8 u8")).is_err());
}

#[test]
fn tokens_that_the_grammar_cannot_be_asked_about_are_refused() {
    let unsupported = "Unsupported token: a C string literal, or what could not be lexed.";
    let at = Span { start: 0, end: 1 };
    for text in ["c\"x\"", "cr#\"x\"#", "(/*ERROR*/)"] {
        let token = || vec![Token::literal(text, at)];
        assert_eq!(Expr::from_tokens(token()), Err(unsupported.to_string()));
        assert_eq!(Type::from_tokens(token()), Err(unsupported.to_string()));
        assert_eq!(
            custom_attrs::node::Path::from_tokens(&token(), at),
            Err(unsupported.to_string())
        );
        assert_eq!(custom_attrs::node::Visibility::from_tokens(token()), None);
        assert_eq!(custom_attrs::node::Ident::from_token(&Token::ident(text, at)), None);
    }
    assert_eq!(Expr::from_tokens(lex("f(1, c\"x\")")), Err(unsupported.to_string()));
    assert_eq!(Type::from_tokens(lex("Option<c\"x\">")), Err(unsupported.to_string()));
    assert_eq!(Type::from_tokens(lex("[u8; c\"x\"]")), Err(unsupported.to_string()));
    assert!(Expr::from_tokens(lex("\"a c\"")).is_ok());
    assert!(Expr::from_tokens(lex("c(\"x\")")).is_ok());
}

#[test]
fn strings_with_any_content_are_read() {
    for source in [
        "Some(\"c\")", "[\"a\", \"b\", \"c\"]", "f(\"x-c\")", "b\"c\"", "\"c\".len()", "r\"c\"",
        "f(r#\"a c\"x\"\"#, ' ', '\"', \"(/*ERROR*/)\")", "(\"a c\", \"cr\", \"c\")",
    ] {
        let parsed = Expr::from_tokens(lex(source));
        assert!(parsed.is_ok(), "{}: {:?}", source, parsed);
    }
    assert!(is_option_wrapped(&expr("Some(\"c\")")));
    assert!(Type::from_tokens(lex("[u8; \"c\".len()]")).is_ok());
    assert!(Type::from_tokens(lex("extern \"C\" fn(u8)")).is_ok());
}

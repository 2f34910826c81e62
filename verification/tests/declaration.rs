//! Declarations and configurations: how they are read, and what is
//! reported.

use custom_attrs::attribute::Attribute;
use custom_attrs::config::{Config, ConfigDeclarationList};
use custom_attrs::declaration::{find_type_end, AttributeDeclaration, ParenList};
use custom_attrs::derive::{check_for_conflicts, parse_enum_attributes};
use custom_attrs::diag::{Diagnostic, Note};
use custom_attrs::input::Annotation;
use custom_attrs::node::{Ident, LitStr};
use custom_attrs::parse::{parse2, Parse, ToTokens, TokenStream};
use custom_attrs::token::{to_text, Delimiter, Span, Token};

fn tokens(stream: proc_macro2::TokenStream, at: &mut usize) -> Vec<Token> {
    let mut out = Vec::new();
    for tree in stream {
        let start = *at;
        *at += 1;
        let span = Span { start, end: start + 1 };
        out.push(match tree {
            proc_macro2::TokenTree::Ident(ident) => Token::Ident { text: ident.to_string(), span },
            proc_macro2::TokenTree::Punct(punct) => Token::Punct {
                ch: punct.as_char(),
                joint: punct.spacing() == proc_macro2::Spacing::Joint,
                span,
            },
            proc_macro2::TokenTree::Literal(literal) => {
                Token::Literal { text: literal.to_string(), span }
            }
            proc_macro2::TokenTree::Group(group) => {
                let delimiter = match group.delimiter() {
                    proc_macro2::Delimiter::Parenthesis => Delimiter::Parenthesis,
                    proc_macro2::Delimiter::Brace => Delimiter::Brace,
                    proc_macro2::Delimiter::Bracket => Delimiter::Bracket,
                    proc_macro2::Delimiter::None => Delimiter::Invisible,
                };
                let stream = tokens(group.stream(), at);
                Token::Group { delimiter, span: Span { start, end: *at }, stream }
            }
        });
    }
    out
}

/// The tokens of `source`; the token that is met as number `n`, groups
/// before their content, stands at the place from `n` to `n + 1`.
fn lex(source: &str) -> Vec<Token> {
    tokens(source.parse().unwrap(), &mut 0)
}

fn at(start: usize) -> Span {
    Span { start, end: start + 1 }
}

const SCOPE: Span = Span { start: 100, end: 101 };

fn problem(place: usize, message: &str) -> Diagnostic {
    Diagnostic { span: at(place), message: message.to_string(), help: None }
}

fn declaration(source: &str) -> AttributeDeclaration {
    let all = lex(source);
    let (found, next) = AttributeDeclaration::parse(&all, 0, SCOPE).unwrap();
    assert_eq!(next, all.len());
    found
}

fn refused(source: &str) -> Diagnostic {
    AttributeDeclaration::parse(&lex(source), 0, SCOPE).unwrap_err()
}

fn config(source: &str) -> (Config, Vec<Diagnostic>) {
    let all = lex(source);
    let (lists, next) = ConfigDeclarationList::parse_all(&all, 0, SCOPE).unwrap();
    assert_eq!(next, all.len());
    let mut diags = Vec::new();
    let config = Config::new(&lists, &mut diags);
    (config, diags)
}

#[test]
fn a_name_and_a_type() {
    let found = declaration("a: usize");
    assert_eq!(found.attributes, Vec::new());
    assert_eq!(found.vis.tokens, Vec::new());
    assert_eq!(found.ident.name, "a");
    assert_eq!(found.ident.span, at(0));
    assert_eq!(found._colon, at(1));
    assert_eq!(to_text(&found.type_.tokens), "usize ");
    assert_eq!(found.default_value, None);
}

#[test]
fn a_visibility_before_the_name() {
    assert_eq!(to_text(&declaration("pub a: usize").vis.tokens), "pub ");
    assert_eq!(to_text(&declaration("pub(crate) a: usize").vis.tokens), "pub ( crate ) ");
    assert_eq!(to_text(&declaration("pub(in crate::x) a: u8").vis.tokens), "pub ( in crate :: x ) ");
    assert_eq!(to_text(&declaration("crate a: usize").vis.tokens), "crate ");
}

#[test]
fn a_default_behind_the_type() {
    let found = declaration("a: usize = 4 + 4");
    assert_eq!(to_text(&found.type_.tokens), "usize ");
    let default = found.default_value.unwrap();
    assert_eq!(default._equal.span, at(3));
    assert_eq!(to_text(&default.value.tokens), "4 + 4 ");
}

#[test]
fn a_type_with_commas_and_equal_signs_inside_angle_brackets() {
    let found = declaration("a: HashMap<u8, Vec<u16>> = HashMap::new()");
    assert_eq!(to_text(&found.type_.tokens), "HashMap < u8 , Vec < u16 >> ");
    assert_eq!(to_text(&found.default_value.unwrap().value.tokens), "HashMap :: new ( ) ");

    let found = declaration("a: Box<dyn Iterator<Item = u8>>");
    assert_eq!(to_text(&found.type_.tokens), "Box < dyn Iterator < Item = u8 >> ");
    assert_eq!(found.default_value, None);

    let found = declaration("a: Option<fn(u8) -> u8>= None");
    assert_eq!(to_text(&found.type_.tokens), "Option < fn ( u8 ) -> u8 >");
    assert_eq!(to_text(&found.default_value.unwrap().value.tokens), "None ");
}

#[test]
fn where_a_type_ends() {
    assert_eq!(find_type_end(&lex("u8, b"), 0), 1);
    assert_eq!(find_type_end(&lex("u8 = 1"), 0), 1);
    assert_eq!(find_type_end(&lex("u8"), 0), 1);
    assert_eq!(find_type_end(&lex(""), 0), 0);
    assert_eq!(find_type_end(&lex("A<B, C>, d"), 0), 6);
    assert_eq!(find_type_end(&lex("A<B<C, D>, E>, f"), 0), 11);
    assert_eq!(find_type_end(&lex("fn() -> u8, b"), 0), 5);
    assert_eq!(find_type_end(&lex("A<fn() -> u8, C> = d"), 0), 10);
    assert_eq!(find_type_end(&lex("a: A<B, C>, d"), 2), 8);
    assert_eq!(find_type_end(&lex("A<B, C"), 0), 5);
}

#[test]
fn configurations_before_the_declaration() {
    let found = declaration("#[doc = \"text\"] #[function = \"f\", doc = \"more\"] pub a: u8");
    assert_eq!(found.attributes.len(), 2);
    assert_eq!(found.attributes[0].declarations.len(), 1);
    assert_eq!(found.attributes[1].declarations.len(), 2);
    assert_eq!(found.attributes[0]._pound, at(0));
    assert_eq!(found.attributes[0]._bracket, Span { start: 1, end: 5 });
    assert_eq!(found.attributes[1].declarations[0].ident().segments, vec!["function"]);
    assert_eq!(found.ident.name, "a");
    assert_eq!(to_text(&found.vis.tokens), "pub ");

    let mut diags = Vec::new();
    let attribute = Attribute::new(found, &mut diags);
    assert_eq!(diags, Vec::new());
    assert_eq!(attribute.config.comment(), "text\nmore");
    assert_eq!(attribute.config.function_name().unwrap().name, "f");
    assert!(attribute.required);
    assert_eq!(attribute.values, Vec::new());
    assert_eq!(attribute.default, None);
}

#[test]
fn an_attribute_is_optional_where_its_type_is_the_wrapper() {
    let mut diags = Vec::new();
    assert!(Attribute::new(declaration("a: usize"), &mut diags).required);
    assert!(Attribute::new(declaration("a: Vec<Option<u8>>"), &mut diags).required);
    assert!(!Attribute::new(declaration("a: Option<usize>"), &mut diags).required);
    assert!(!Attribute::new(declaration("a: core::option::Option<usize> = None"), &mut diags).required);
    let defaulted = Attribute::new(declaration("a: usize = 1"), &mut diags);
    assert!(defaulted.required);
    assert_eq!(to_text(&defaulted.default.unwrap().tokens), "1 ");
    assert_eq!(diags, Vec::new());
}

#[test]
fn a_declaration_without_a_colon_is_refused() {
    assert_eq!(refused("a usize"), Diagnostic {
        span: SCOPE,
        message: "expected `:`".to_string(),
        help: None,
    });
    assert_eq!(refused("a, b: u8"), problem(1, "expected `:`"));
    assert_eq!(refused(""), Diagnostic {
        span: SCOPE,
        message: "expected `:`".to_string(),
        help: None,
    });
}

#[test]
fn a_declaration_without_a_name_is_refused() {
    assert_eq!(refused(": usize"), problem(0, "expected identifier"));
    assert_eq!(refused("pub 5: usize"), problem(1, "expected identifier"));
    assert_eq!(refused("(a): usize"), Diagnostic {
        span: Span { start: 0, end: 2 },
        message: "expected identifier".to_string(),
        help: None,
    });
}

#[test]
fn a_keyword_is_no_name() {
    assert_eq!(refused("type: usize"), problem(0, "expected identifier"));
    assert_eq!(refused("pub fn: usize"), problem(1, "expected identifier"));
    assert_eq!(refused("self: usize"), problem(0, "expected identifier"));
    assert_eq!(declaration("r#type: usize").ident.name, "r#type");
}

#[test]
fn what_is_no_visibility_is_refused() {
    assert_eq!(refused("public a: usize"), problem(0, "expected a visibility"));
    assert_eq!(refused("pub pub a: usize"), Diagnostic {
        span: Span { start: 0, end: 2 },
        message: "expected a visibility".to_string(),
        help: None,
    });
    assert_eq!(refused("pub(a) b: usize"), Diagnostic {
        span: Span { start: 0, end: 3 },
        message: "expected a visibility".to_string(),
        help: None,
    });
}

#[test]
fn what_is_no_type_is_refused() {
    assert_eq!(refused("a: 5"), problem(2, "Expected a type."));
    assert_eq!(refused("a: u8 u8"), Diagnostic {
        span: Span { start: 2, end: 4 },
        message: "Expected a type.".to_string(),
        help: None,
    });
    assert_eq!(refused("a: = 5"), problem(2, "Expected a type."));
    assert_eq!(refused("a:"), Diagnostic {
        span: SCOPE,
        message: "Expected a type.".to_string(),
        help: None,
    });
}

#[test]
fn a_missing_default_is_refused() {
    assert_eq!(refused("a: u8 ="), Diagnostic {
        span: SCOPE,
        message: "Expected expression.".to_string(),
        help: None,
    });
    assert_eq!(refused("a: u8 = , b: u8"), problem(4, "Expected expression."));
    let broken = refused("a: u8 = 1 +");
    assert_eq!(broken.span, at(5));
    assert_eq!(broken.help, None);
}

#[test]
fn a_list_of_declarations() {
    let all = lex("(a: u8, pub b: Option<u8> = None, #[doc = \"c\"] c: Vec<(u8, u8)>,)");
    let list = parse2::<ParenList<AttributeDeclaration>>(&all, SCOPE).unwrap();
    assert_eq!(list._paren, Span { start: 0, end: 30 });
    let names: Vec<&str> = list.elements.iter().map(|d| d.ident.name.as_str()).collect();
    assert_eq!(names, vec!["a", "b", "c"]);
    assert_eq!(to_text(&list.elements[2].type_.tokens), "Vec < ( u8 , u8 ) >");

    let empty = parse2::<ParenList<AttributeDeclaration>>(&lex("()"), SCOPE).unwrap();
    assert_eq!(empty.elements, Vec::new());
}

#[test]
fn what_is_no_list_is_refused() {
    assert_eq!(
        parse2::<ParenList<AttributeDeclaration>>(&lex("[a: u8]"), SCOPE).unwrap_err(),
        Diagnostic { span: Span { start: 0, end: 4 }, message: "expected parentheses".to_string(), help: None }
    );
    assert_eq!(
        parse2::<ParenList<AttributeDeclaration>>(&lex(""), SCOPE).unwrap_err(),
        Diagnostic { span: SCOPE, message: "expected parentheses".to_string(), help: None }
    );
    assert_eq!(
        parse2::<ParenList<AttributeDeclaration>>(&lex("(a: u8) b"), SCOPE).unwrap_err(),
        problem(4, "unexpected token")
    );
    assert_eq!(
        parse2::<ParenList<AttributeDeclaration>>(&lex("(a: u8 b: u8)"), SCOPE).unwrap_err(),
        Diagnostic { span: Span { start: 3, end: 7 }, message: "Expected a type.".to_string(), help: None }
    );
    assert_eq!(
        parse2::<ParenList<AttributeDeclaration>>(&lex("(a: u8 = 1 2)"), SCOPE).unwrap_err().span,
        at(6)
    );
}

#[test]
fn a_list_is_written_with_commas_between_its_elements() {
    let list = ParenList::from_parts(
        at(7),
        vec![
            TokenStream { tokens: lex("a b") },
            TokenStream { tokens: lex("") },
            TokenStream { tokens: lex("c") },
        ],
    );
    let mut written = Vec::new();
    list.to_tokens(&mut written);
    assert_eq!(to_text(&written), "( a b , , c ) ");
    match &written[0] {
        Token::Group { span, stream, .. } => {
            assert_eq!(*span, at(7));
            assert_eq!(stream[2], Token::Punct { ch: ',', joint: false, span: Span::call_site() });
        }
        other => panic!("{:?}", other),
    }
    let (paren, elements) = list.into_parts();
    assert_eq!(paren, at(7));
    assert_eq!(elements.len(), 3);

    let mut written = Vec::new();
    ParenList::<TokenStream>::from_parts(at(7), Vec::new()).to_tokens(&mut written);
    assert_eq!(to_text(&written), "( ) ");
}

#[test]
fn documentation_is_joined_by_line_breaks() {
    let (found, diags) = config("#[doc = \"one\"] #[doc = \"two\", doc = \"\"] #[doc = \"three\"]");
    assert_eq!(diags, Vec::new());
    assert_eq!(found.comment(), "one\ntwo\n\nthree");
    assert_eq!(found.function_name(), None);
    assert_eq!(found.function_name_lit(), None);

    let (found, diags) = config("#[doc = \"\"] #[doc = \"two\"]");
    assert_eq!(diags, Vec::new());
    assert_eq!(found.comment(), "two");
}

#[test]
fn nothing_configured() {
    let (found, diags) = config("");
    assert_eq!(diags, Vec::new());
    assert_eq!(found.comment(), "");
    assert_eq!(found.function_name(), None);

    let (found, diags) = config("#[]");
    assert_eq!(diags, Vec::new());
    assert_eq!(found, Config { comment: String::new(), function_name: None });
}

#[test]
fn the_name_of_the_accessor_is_kept_with_its_place() {
    let (found, diags) = config("#[function = \"my_getter\"]");
    assert_eq!(diags, Vec::new());
    assert_eq!(found.function_name(), Some(Ident { name: "my_getter".to_string(), span: at(4) }));
    assert_eq!(
        found.function_name_lit(),
        Some(&LitStr { value: "my_getter".to_string(), span: at(4) })
    );
    assert_eq!(found.comment(), "");
}

#[test]
fn an_unknown_configuration_is_reported_and_ignored() {
    let (found, diags) = config("#[colour = \"red\", doc = \"kept\", a::b, doc::doc = \"x\"]");
    assert_eq!(
        diags,
        vec![
            problem(2, "Unknown config."),
            Diagnostic { span: Span { start: 10, end: 14 }, message: "Unknown config.".to_string(), help: None },
            Diagnostic { span: Span { start: 15, end: 19 }, message: "Unknown config.".to_string(), help: None },
        ]
    );
    assert_eq!(found.comment(), "kept");
}

#[test]
fn a_configuration_without_a_value_is_reported() {
    let (found, diags) = config("#[doc, function]");
    assert_eq!(
        diags,
        vec![problem(2, "Expected `doc = ...`"), problem(4, "Expected `function = ...`")]
    );
    assert_eq!(found, Config { comment: String::new(), function_name: None });
}

#[test]
fn a_value_that_is_no_string_is_reported() {
    let (found, diags) = config("#[doc = 5, doc = name, function = 'c', function = \"a\".len()]");
    let (_, more) = config("#[doc = true, doc = -5, doc = 1.5]");
    assert_eq!(
        more,
        vec![
            problem(4, "Expected a string literal."),
            Diagnostic {
                span: Span { start: 8, end: 10 },
                message: "Expected a literal expression.".to_string(),
                help: None,
            },
            problem(13, "Expected a string literal."),
        ]
    );
    assert_eq!(
        diags,
        vec![
            problem(4, "Expected a string literal."),
            problem(8, "Expected a literal expression."),
            problem(12, "Expected a string literal."),
            Diagnostic {
                span: Span { start: 16, end: 20 },
                message: "Expected a literal expression.".to_string(),
                help: None,
            },
        ]
    );
    assert_eq!(found, Config { comment: String::new(), function_name: None });
}

#[test]
fn an_empty_accessor_name_is_reported() {
    let (found, diags) = config("#[function = \"\"] #[function = \"kept\"]");
    assert_eq!(diags, vec![problem(4, "The function name must not be empty.")]);
    assert_eq!(found.function_name().unwrap().name, "kept");
}

#[test]
fn a_second_accessor_name_is_reported_with_the_first() {
    let (found, diags) = config("#[function = \"one\", function = \"two\"] #[function = \"\"]");
    let already = |span: Span| Diagnostic {
        span,
        message: "This config is already set.".to_string(),
        help: Some(Note {
            span: at(4),
            message: "Value for config `function` is already set here.".to_string(),
        }),
    };
    assert_eq!(
        diags,
        vec![already(Span { start: 6, end: 9 }), already(Span { start: 11, end: 14 })]
    );
    assert_eq!(found.function_name().unwrap().name, "one");
}

#[test]
fn what_is_no_list_of_configurations_is_refused() {
    let one = |source: &str| ConfigDeclarationList::parse(&lex(source), 0, SCOPE).unwrap_err();
    assert_eq!(one("doc"), problem(0, "expected `#`"));
    assert_eq!(one(""), Diagnostic { span: SCOPE, message: "expected `#`".to_string(), help: None });
    assert_eq!(one("#(doc)"), Diagnostic {
        span: Span { start: 1, end: 3 },
        message: "expected square brackets".to_string(),
        help: None,
    });
    assert_eq!(one("#"), Diagnostic {
        span: SCOPE,
        message: "expected square brackets".to_string(),
        help: None,
    });
    assert_eq!(one("#[doc = ]"), Diagnostic {
        span: Span { start: 1, end: 4 },
        message: "Expected expression.".to_string(),
        help: None,
    });
    assert_eq!(one("#[doc \"a\"]"), Diagnostic {
        span: Span { start: 2, end: 4 },
        message: "unexpected token".to_string(),
        help: None,
    });
    assert_eq!(one("#[doc = \"a\" doc]").span, at(5));
    assert_eq!(one("#[5 = 5]").span, at(2));
    assert!(ConfigDeclarationList::parse_all(&lex("#[doc = \"a\"] #[doc = ]"), 0, SCOPE).is_err());
}

#[test]
fn the_lists_of_configurations_end_before_the_declaration() {
    let all = lex("#[doc = \"a\"] #[doc = \"b\"] pub a: u8");
    let (lists, next) = ConfigDeclarationList::parse_all(&all, 0, SCOPE).unwrap();
    assert_eq!(lists.len(), 2);
    assert_eq!(next, 4);
    let (lists, next) = ConfigDeclarationList::parse_all(&all, 4, SCOPE).unwrap();
    assert_eq!(lists, Vec::new());
    assert_eq!(next, 4);
}

fn annotation(name: Option<&str>, source: &str, place: usize) -> Annotation {
    Annotation {
        name: name.map(|n| n.to_string()),
        tokens: tokens(source.parse().unwrap(), &mut (place + 1)),
        span: at(place),
    }
}

#[test]
fn only_annotations_of_the_attribute_language_declare() {
    let mut diags = Vec::new();
    let attributes = parse_enum_attributes(
        &vec![
            annotation(Some("derive"), "(Debug)", 0),
            annotation(Some("attr"), "(a: u8, b: u8)", 10),
            annotation(None, "(c: u8)", 30),
            annotation(Some("attribute"), "(d: u8)", 40),
            annotation(Some("attr"), "(e: u8)", 50),
        ],
        &mut diags,
    );
    assert_eq!(diags, Vec::new());
    let names: Vec<&str> = attributes.iter().map(|a| a.ident.name.as_str()).collect();
    assert_eq!(names, vec!["a", "b", "e"]);
}

#[test]
fn a_broken_annotation_declares_nothing_and_the_others_count() {
    let mut diags = vec![problem(99, "before")];
    let attributes = parse_enum_attributes(
        &vec![
            annotation(Some("attr"), "(a: u8, b)", 10),
            annotation(Some("attr"), "(#[colour] c: u8, #[doc] a: u8)", 20),
            annotation(Some("attr"), "(c: u16)", 40),
            annotation(Some("attr"), "", 50),
        ],
        &mut diags,
    );
    let names: Vec<&str> = attributes.iter().map(|a| a.ident.name.as_str()).collect();
    assert_eq!(names, vec!["c", "a"]);
    assert_eq!(
        diags,
        vec![
            problem(99, "before"),
            Diagnostic { span: Span { start: 11, end: 17 }, message: "expected `:`".to_string(), help: None },
            Diagnostic {
                span: at(42),
                message: "This attribute is already declared.".to_string(),
                help: Some(Note { span: at(25), message: "`c` is already declared here.".to_string() }),
            },
            problem(50, "expected parentheses"),
            problem(24, "Unknown config."),
            problem(31, "Expected `doc = ...`"),
        ]
    );
}

#[test]
fn accessor_names_are_compared_by_their_value() {
    let mut diags = Vec::new();
    let attributes = parse_enum_attributes(
        &vec![annotation(
            Some("attr"),
            "(#[function = \"x\"] a: u8, b: u8, #[function = \"y\"] c: u8, #[function = \"x\"] d: u8)",
            0,
        )],
        &mut diags,
    );
    assert_eq!(diags, Vec::new());
    check_for_conflicts(&attributes, &mut diags);
    assert_eq!(
        diags,
        vec![Diagnostic {
            span: at(28),
            message: "The attribute `a` already use this function name.".to_string(),
            help: Some(Note { span: at(6), message: "First use of `x` here.".to_string() }),
        }]
    );

    let mut diags = Vec::new();
    let attributes = parse_enum_attributes(
        &vec![annotation(Some("attr"), "(#[function = \"get_b\"] a: u8, b: u8, c: u8)", 0)],
        &mut diags,
    );
    check_for_conflicts(&attributes, &mut diags);
    check_for_conflicts(&Vec::new(), &mut diags);
    assert_eq!(diags, Vec::new());
}

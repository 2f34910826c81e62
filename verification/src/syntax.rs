//! Syntax nodes: what the Rust grammar makes of a sequence of tokens.
//!
//! The grammar of expressions, types, visibilities, identifiers, paths and
//! literals is `syn`'s. A node is asked for by source text; of the answer
//! this module keeps the parts of its shape that the resolver reads.
//!
//! The text is lexed by `proc_macro2`'s own lexer, inside the compiler and
//! outside of it, so that the answer depends on the text alone. `syn`
//! panics on a literal that it does not know: a C string literal, and the
//! placeholder of a token that could not be lexed. So the text is lexed
//! first, and text in which the lexer finds such a literal is not handed to
//! `syn`: see [`readable`].

use vstd::prelude::*;
use proc_macro2::fallback::{force, unforce};
use proc_macro2::{TokenStream, TokenTree};
use std::str::FromStr;
use quote::ToTokens;
use syn::{
    parse_str, Expr, GenericArgument, Ident, Lit, Path, PathArguments, PathSegment, Type,
    Visibility,
};
use crate::model::{option_view, result_view, view_all};

verus! {

/// A path, as far as the resolver reads it.
#[derive(Debug, PartialEq, Eq)]
pub struct PathShape {
    /// Whether the path starts with a qualified self type.
    pub qualified: bool,
    /// Whether nothing follows the last segment's name: no generic arguments
    /// and no parenthesized ones.
    pub bare: bool,
    /// The names of the segments.
    pub segments: Vec<String>,
}

/// The mathematical value of a [`PathShape`].
pub struct PathShapeView {
    pub qualified: bool,
    pub bare: bool,
    pub segments: Seq<Seq<char>>,
}

impl View for PathShape {
    type V = PathShapeView;

    open spec fn view(&self) -> PathShapeView {
        PathShapeView {
            qualified: self.qualified,
            bare: self.bare,
            segments: view_all(self.segments@),
        }
    }
}

/// An expression, as far as the resolver reads it.
#[derive(Debug, PartialEq, Eq)]
pub struct ExprShape {
    /// Whether the expression is a call.
    pub call: bool,
    /// The number of arguments of the call; 0 where it is none.
    pub args: usize,
    /// The path that is called, or that the expression is.
    pub path: Option<PathShape>,
}

/// The mathematical value of an [`ExprShape`].
pub struct ExprShapeView {
    pub call: bool,
    pub args: usize,
    pub path: Option<PathShapeView>,
}

impl View for ExprShape {
    type V = ExprShapeView;

    open spec fn view(&self) -> ExprShapeView {
        ExprShapeView { call: self.call, args: self.args, path: option_view(self.path) }
    }
}

/// A literal, as far as the resolver reads it.
#[derive(Debug, PartialEq, Eq)]
pub enum LiteralShape {
    /// A string literal, with the string it denotes.
    Str { value: String },
    /// An integer literal, in its source form.
    Int { digits: String },
    /// Any other literal.
    Other,
    /// No literal.
    Absent,
}

/// The mathematical value of a [`LiteralShape`].
pub enum LiteralShapeView {
    Str { value: Seq<char> },
    Int { digits: Seq<char> },
    Other,
    Absent,
}

impl View for LiteralShape {
    type V = LiteralShapeView;

    open spec fn view(&self) -> LiteralShapeView {
        match self {
            LiteralShape::Str { value } => LiteralShapeView::Str { value: value@ },
            LiteralShape::Int { digits } => LiteralShapeView::Int { digits: digits@ },
            LiteralShape::Other => LiteralShapeView::Other,
            LiteralShape::Absent => LiteralShapeView::Absent,
        }
    }
}

/// A type that is a path, as far as the resolver reads it.
#[derive(Debug, PartialEq, Eq)]
pub struct TypePath {
    /// Whether the path starts with a qualified self type.
    pub qualified: bool,
    /// The names of the segments.
    pub segments: Vec<String>,
    /// The generic arguments that stand in angle brackets behind the last
    /// segment: for each its source text where it is a type, nothing where
    /// it is not.
    pub arguments: Vec<Option<String>>,
}

/// The mathematical value of a [`TypePath`].
pub struct TypePathView {
    pub qualified: bool,
    pub segments: Seq<Seq<char>>,
    pub arguments: Seq<Option<Seq<char>>>,
}

impl View for TypePath {
    type V = TypePathView;

    open spec fn view(&self) -> TypePathView {
        TypePathView {
            qualified: self.qualified,
            segments: view_all(self.segments@),
            arguments: texts(self.arguments@),
        }
    }
}

/// The values of a list of optional texts.
pub open spec fn texts(list: Seq<Option<String>>) -> Seq<Option<Seq<char>>> {
    Seq::new(list.len(), |i: int| option_view(list[i]))
}

/// One token as the lexer finds it.
#[derive(Debug, PartialEq, Eq)]
pub enum Lexeme {
    /// A word, with its text.
    Ident { text: String },
    /// A punctuation character.
    Punct { ch: char },
    /// A literal, with its text.
    Literal { text: String },
    /// A group; its tokens stand in the list as well.
    Group,
}

/// The mathematical value of a [`Lexeme`].
pub enum LexemeView {
    Ident { text: Seq<char> },
    Punct { ch: char },
    Literal { text: Seq<char> },
    Group,
}

impl View for Lexeme {
    type V = LexemeView;

    open spec fn view(&self) -> LexemeView {
        match self {
            Lexeme::Ident { text } => LexemeView::Ident { text: text@ },
            Lexeme::Punct { ch } => LexemeView::Punct { ch: *ch },
            Lexeme::Literal { text } => LexemeView::Literal { text: text@ },
            Lexeme::Group => LexemeView::Group,
        }
    }
}

/// The tokens that the lexer of `proc_macro2` finds in `text`, those inside
/// groups too, each once; nothing where the text cannot be lexed.
pub uninterp spec fn lexed(text: Seq<char>) -> Option<Seq<LexemeView>>;

/// Whether `syn` knows a literal with the text `text`: it begins as a
/// string, a raw string, a byte or byte string, a character or a number
/// does. What the lexer takes for a literal and `syn` does not know is the
/// C string literal, which begins with `c`, and the placeholder of a token
/// that could not be lexed, which begins with `(`.
pub open spec fn known_literal(text: Seq<char>) -> bool {
    &&& text.len() > 0
    &&& {
        ||| text[0] == '"'
        ||| text[0] == 'r'
        ||| text[0] == 'b'
        ||| text[0] == '\''
        ||| '0' <= text[0] <= '9'
    }
}

/// Whether every literal among `tokens` is one that `syn` knows.
pub open spec fn all_known(tokens: Seq<LexemeView>) -> bool {
    forall|i: int|
        0 <= i < tokens.len() ==> (#[trigger] tokens[i] matches LexemeView::Literal { text }
            ==> known_literal(text))
}

/// Whether the grammar can be asked about `text`: every literal that the
/// lexer finds in it is one that `syn` knows. Text that cannot be lexed
/// never reaches the grammar, and can be asked about.
pub open spec fn readable(text: Seq<char>) -> bool {
    match lexed(text) {
        Some(tokens) => all_known(tokens),
        None => true,
    }
}

/// What `syn` makes of `text` read as one expression: its shape, or the
/// message of the syntax error.
pub uninterp spec fn syn_expr(text: Seq<char>) -> Result<ExprShapeView, Seq<char>>;

/// What `syn` makes of `text` read as one literal: a string with the
/// string it denotes, an integer in its source form, another literal, or no
/// literal.
pub uninterp spec fn syn_lit(text: Seq<char>) -> LiteralShapeView;

/// What `syn` makes of `text` read as one type: the path that the type is,
/// if it is one, or the message of the syntax error.
pub uninterp spec fn syn_type(text: Seq<char>) -> Result<Option<TypePathView>, Seq<char>>;

/// Whether `syn` reads `text` as one visibility; the empty text is one.
pub uninterp spec fn syn_visibility(text: Seq<char>) -> bool;

/// Whether `syn` reads `text` as one identifier that is no keyword.
pub uninterp spec fn syn_ident(text: Seq<char>) -> bool;

/// What `syn` makes of `text` read as one path: the names of the segments,
/// or the message of the syntax error.
pub uninterp spec fn syn_path(text: Seq<char>) -> Result<Seq<Seq<char>>, Seq<char>>;

/// The string literal that `proc_macro2` writes for the string `text`.
pub uninterp spec fn string_literal(text: Seq<char>) -> Seq<char>;

/// Calls `proc_macro2::TokenStream::from_str`, with the lexer of
/// `proc_macro2` itself in force, so that the result depends on the text
/// alone, and goes through the token trees, those of every group too. It
/// keeps every token once: of a word and of a literal the text, of a
/// punctuation its character. The order is that of the going through, not
/// that of the text.
#[verifier::external_body]
pub(crate) fn lex(text: &str) -> (r: Option<Vec<Lexeme>>)
    ensures
        (match r {
            Some(tokens) => Some(view_all(tokens@)),
            None => None,
        }) == lexed(text@),
{
    force();
    let Ok(first) = TokenStream::from_str(text) else { unforce(); return None };
    let (mut found, mut streams) = (Vec::new(), vec![first]);
    while let Some(stream) = streams.pop() {
        for tree in stream {
            found.push(match tree {
                TokenTree::Group(g) => { streams.push(g.stream()); Lexeme::Group }
                TokenTree::Ident(i) => Lexeme::Ident { text: i.to_string() },
                TokenTree::Punct(p) => Lexeme::Punct { ch: p.as_char() },
                TokenTree::Literal(l) => Lexeme::Literal { text: l.to_string() },
            });
        }
    }
    unforce();
    Some(found)
}

/// Whether `syn` knows a literal with the text `text`.
fn is_known_literal(text: &str) -> (r: bool)
    ensures
        r == known_literal(text@),
{
    if text.unicode_len() == 0 {
        return false;
    }
    let c = text.get_char(0);
    c == '"' || c == 'r' || c == 'b' || c == '\'' || ('0' <= c && c <= '9')
}

/// Whether the grammar can be asked about `text`.
pub fn is_readable(text: &str) -> (r: bool)
    ensures
        r == readable(text@),
{
    match lex(text) {
        None => true,
        Some(tokens) => {
            let mut i: usize = 0;
            while i < tokens.len()
                invariant
                    i <= tokens.len(),
                    lexed(text@) == Some(view_all(tokens@)),
                    forall|j: int|
                        0 <= j < i ==> (#[trigger] view_all(tokens@)[j] matches LexemeView::Literal {
                            text,
                        } ==> known_literal(text)),
                decreases tokens.len() - i,
            {
                match &tokens[i] {
                    Lexeme::Literal { text } => {
                        if !is_known_literal(text.as_str()) {
                            assert(view_all(tokens@)[i as int] == (LexemeView::Literal {
                                text: text@,
                            }));
                            return false;
                        }
                    },
                    _ => {},
                }
                assert(view_all(tokens@)[i as int] == tokens@[i as int]@);
                i += 1;
            }
            true
        },
    }
}

/// Calls `syn::parse_str::<syn::Expr>`, with the lexer of `proc_macro2`
/// itself in force, so that the result depends on the text alone. It keeps
/// whether the expression is a call and with how many arguments, and,
/// where the expression or what it calls is a path, that path's shape; of
/// an error it keeps the message. `syn` panics on a literal that it does
/// not know, as a C string literal is: such text is left out.
#[verifier::external_body]
pub(crate) fn read_expr(text: &str) -> (r: Result<ExprShape, String>)
    requires
        readable(text@),
    ensures
        result_view(r) == syn_expr(text@),
{
    force();
    let parsed = parse_str::<Expr>(text);
    unforce();
    let (call, target, args) = match parsed {
        Ok(Expr::Call(c)) => (true, *c.func, c.args.len()),
        Ok(other) => (false, other, 0),
        Err(e) => return Err(e.to_string()),
    };
    Ok(ExprShape { call, args, path: match target {
        Expr::Path(p) => Some(PathShape {
            qualified: p.qself.is_some(), bare: p.path.segments.last().map_or(true, |s| s.arguments.is_none()),
            segments: p.path.segments.iter().map(|s| s.ident.to_string()).collect(),
        }),
        _ => None,
    } })
}

/// Calls `syn::parse_str::<syn::Lit>`, with the lexer of `proc_macro2`
/// itself in force, so that the result depends on the text alone. Of a
/// string literal it keeps the string that `syn::LitStr::value` gives, of
/// an integer literal the source form that `syn::LitInt` displays. `syn`
/// panics on a literal that it does not know, as a C string literal is:
/// such text is left out.
#[verifier::external_body]
pub(crate) fn read_lit(text: &str) -> (r: LiteralShape)
    requires
        readable(text@),
    ensures
        r@ == syn_lit(text@),
{
    force();
    let parsed = parse_str::<Lit>(text);
    unforce();
    match parsed {
        Ok(Lit::Str(s)) => LiteralShape::Str { value: s.value() },
        Ok(Lit::Int(n)) => LiteralShape::Int { digits: n.to_string() },
        Ok(_) => LiteralShape::Other,
        Err(_) => LiteralShape::Absent,
    }
}

/// Calls `syn::parse_str::<syn::Type>`, with the lexer of `proc_macro2`
/// itself in force, so that the result depends on the text alone. Of a
/// path type it keeps whether it has a qualified self type, the names of
/// the segments and, for each generic argument in angle brackets behind the
/// last segment that is a type, the tokens of that type as text
/// (`TokenStream::to_string`); of an error it keeps the message. `syn`
/// panics on a literal that it does not know: such text is left out.
#[verifier::external_body]
pub(crate) fn read_type(text: &str) -> (r: Result<Option<TypePath>, String>)
    requires
        readable(text@),
    ensures
        (match r {
            Ok(p) => Ok(option_view(p)),
            Err(m) => Err(m@),
        }) == syn_type(text@),
{
    force();
    let r = match parse_str::<Type>(text) {
        Ok(Type::Path(p)) => Ok(Some(TypePath {
            qualified: p.qself.is_some(),
            segments: p.path.segments.iter().map(|s| s.ident.to_string()).collect(),
            arguments: match p.path.segments.last() {
                Some(PathSegment { arguments: PathArguments::AngleBracketed(l), .. }) => l.args.iter().map(|a| match a { GenericArgument::Type(t) => Some(t.to_token_stream().to_string()), _ => None }).collect(),
                _ => Vec::new(),
            },
        })),
        Ok(_) => Ok(None),
        Err(e) => Err(e.to_string()),
    };
    unforce();
    r
}

/// Calls `syn::parse_str::<syn::Visibility>`, with the lexer of
/// `proc_macro2` itself in force, and keeps whether it succeeded.
#[verifier::external_body]
pub(crate) fn read_visibility(text: &str) -> (r: bool)
    requires
        readable(text@),
    ensures
        r == syn_visibility(text@),
{
    force();
    let parsed = parse_str::<Visibility>(text);
    unforce();
    parsed.is_ok()
}

/// Calls `syn::parse_str::<syn::Ident>`, with the lexer of `proc_macro2`
/// itself in force, and keeps whether it succeeded.
#[verifier::external_body]
pub(crate) fn read_ident(text: &str) -> (r: bool)
    requires
        readable(text@),
    ensures
        r == syn_ident(text@),
{
    force();
    let parsed = parse_str::<Ident>(text);
    unforce();
    parsed.is_ok()
}

/// Calls `syn::parse_str::<syn::Path>`, with the lexer of `proc_macro2`
/// itself in force, so that the result depends on the text alone. It keeps
/// the names of the segments; of an error the message. `syn` panics on a
/// literal that it does not know: such text is left out.
#[verifier::external_body]
pub(crate) fn read_path(text: &str) -> (r: Result<Vec<String>, String>)
    requires
        readable(text@),
    ensures
        (match r {
            Ok(names) => Ok(view_all(names@)),
            Err(m) => Err(m@),
        }) == syn_path(text@),
{
    force();
    let parsed = parse_str::<Path>(text);
    unforce();
    match parsed {
        Ok(p) => Ok(p.segments.iter().map(|s| s.ident.to_string()).collect()),
        Err(e) => Err(e.to_string()),
    }
}

/// Calls `proc_macro2::Literal::string` and the literal's `to_string`, with
/// the implementation of `proc_macro2` itself in force, so that the result
/// depends on the string alone: the string between quotes, with what the
/// literal needs escaped.
#[verifier::external_body]
pub(crate) fn write_string(text: &str) -> (r: String)
    ensures
        r@ == string_literal(text@),
{
    force();
    let written = proc_macro2::Literal::string(text).to_string();
    unforce();
    written
}

} // verus!

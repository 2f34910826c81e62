//! Syntax nodes: sequences of tokens that the grammar accepted, each with
//! the shape that was read from it.

use vstd::prelude::*;
use crate::model::{option_view, result_view, view_all};
use crate::syntax::{
    read_expr, read_ident, read_lit, read_path, read_type, read_visibility, syn_expr, syn_ident,
    syn_lit, syn_path, syn_type, syn_visibility, ExprShape, ExprShapeView, LiteralShape,
    LiteralShapeView, TypePath, TypePathView,
};
use crate::syntax::{is_readable, readable};
use crate::token::{render, to_text, views, Span, Tok, Token};

verus! {

/// What is reported for tokens whose text the grammar cannot be asked
/// about.
pub open spec fn unreadable() -> Seq<char> {
    "Unsupported token: a C string literal, or what could not be lexed."@
}

/// What is reported for tokens whose text the grammar cannot be asked
/// about.
pub fn unreadable_message() -> (r: String)
    ensures
        r@ == unreadable(),
{
    String::from_str("Unsupported token: a C string literal, or what could not be lexed.")
}

/// The region that a sequence of tokens covers: from its first token to its
/// last; `scope` where it is empty.
pub open spec fn cover(ts: Seq<Tok>, scope: Span) -> Span {
    if ts.len() == 0 {
        scope
    } else {
        ts.first().span().spec_to(ts.last().span())
    }
}

/// The region that `tokens` cover; `scope` where there are none.
pub fn span_of(tokens: &Vec<Token>, scope: Span) -> (r: Span)
    ensures
        r == cover(views(tokens@), scope),
{
    if tokens.len() == 0 {
        scope
    } else {
        tokens[0].span().to(tokens[tokens.len() - 1].span())
    }
}

/// An identifier that is no keyword.
#[derive(Debug, PartialEq, Eq)]
pub struct Ident {
    pub name: String,
    pub span: Span,
}

/// The mathematical value of an [`Ident`].
pub struct IdentView {
    pub name: Seq<char>,
    pub span: Span,
}

impl View for Ident {
    type V = IdentView;

    open spec fn view(&self) -> IdentView {
        IdentView { name: self.name@, span: self.span }
    }
}

impl Ident {
    /// The identifier that a token is: the token is a word that the grammar
    /// can be asked about, and the grammar takes the word for an identifier.
    pub open spec fn of(t: Tok) -> Option<IdentView> {
        match t {
            Tok::Ident { text, span } => if readable(text) && syn_ident(text) {
                Some(IdentView { name: text, span })
            } else {
                None
            },
            _ => None,
        }
    }

    /// Reads a token as an identifier.
    pub fn from_token(token: &Token) -> (r: Option<Ident>)
        ensures
            option_view(r) == Ident::of(token@),
    {
        match token {
            Token::Ident { text, span } => {
                if is_readable(text.as_str()) && read_ident(text.as_str()) {
                    Some(Ident { name: text.clone(), span: *span })
                } else {
                    None
                }
            },
            _ => None,
        }
    }

    /// A copy of the identifier.
    pub fn duplicate(&self) -> (r: Ident)
        ensures
            r@ == self@,
    {
        Ident { name: self.name.clone(), span: self.span }
    }

    /// The identifier as a token.
    pub fn to_token(&self) -> (r: Token)
        ensures
            r@ == (Tok::Ident { text: self@.name, span: self@.span }),
    {
        Token::Ident { text: self.name.clone(), span: self.span }
    }
}

/// An expression: its tokens, the shape that the grammar found, and what
/// kind of literal it is, if it is one.
#[derive(Debug, PartialEq, Eq)]
pub struct Expr {
    pub tokens: Vec<Token>,
    pub shape: ExprShape,
    pub literal: LiteralShape,
}

/// The mathematical value of an [`Expr`].
pub struct ExprView {
    pub tokens: Seq<Tok>,
    pub shape: ExprShapeView,
    pub literal: LiteralShapeView,
}

impl View for Expr {
    type V = ExprView;

    open spec fn view(&self) -> ExprView {
        ExprView { tokens: views(self.tokens@), shape: self.shape@, literal: self.literal@ }
    }
}

/// Whether the tokens `ts` are one literal: one literal token, or one of the
/// words `true` and `false`.
pub open spec fn one_literal(ts: Seq<Tok>) -> bool {
    ts.len() == 1 && (ts[0] is Literal || ts[0].is_word("true"@) || ts[0].is_word("false"@))
}

/// What kind of literal the expression with the tokens `ts` is.
pub open spec fn literal_of(ts: Seq<Tok>) -> LiteralShapeView {
    if one_literal(ts) {
        syn_lit(render(ts))
    } else {
        LiteralShapeView::Absent
    }
}

/// Whether `tokens` are one literal.
fn is_literal(tokens: &Vec<Token>) -> (r: bool)
    ensures
        r == one_literal(views(tokens@)),
{
    if tokens.len() != 1 {
        return false;
    }
    match &tokens[0] {
        Token::Literal { .. } => true,
        Token::Ident { text, .. } => text.as_str().eq("true") || text.as_str().eq("false"),
        _ => false,
    }
}

impl Expr {
    /// The expression that the tokens `ts` are, or the grammar's message
    /// where they are none. Tokens whose text the grammar cannot be asked
    /// about are none.
    pub open spec fn of(ts: Seq<Tok>) -> Result<ExprView, Seq<char>> {
        if !readable(render(ts)) {
            Err(unreadable())
        } else {
            match syn_expr(render(ts)) {
                Ok(shape) => Ok(ExprView { tokens: ts, shape, literal: literal_of(ts) }),
                Err(message) => Err(message),
            }
        }
    }

    /// Reads all of `tokens` as one expression.
    pub fn from_tokens(tokens: Vec<Token>) -> (r: Result<Expr, String>)
        ensures
            result_view(r) == Expr::of(views(tokens@)),
    {
        let text = to_text(&tokens);
        if !is_readable(text.as_str()) {
            return Err(unreadable_message());
        }
        match read_expr(text.as_str()) {
            Ok(shape) => {
                let literal = if is_literal(&tokens) {
                    read_lit(text.as_str())
                } else {
                    LiteralShape::Absent
                };
                Ok(Expr { tokens, shape, literal })
            },
            Err(message) => Err(message),
        }
    }
}

/// A type: its tokens and, where the type is a path, the path.
#[derive(Debug, PartialEq, Eq)]
pub struct Type {
    pub tokens: Vec<Token>,
    pub path: Option<TypePath>,
}

/// The mathematical value of a [`Type`].
pub struct TypeView {
    pub tokens: Seq<Tok>,
    pub path: Option<TypePathView>,
}

impl View for Type {
    type V = TypeView;

    open spec fn view(&self) -> TypeView {
        TypeView { tokens: views(self.tokens@), path: option_view(self.path) }
    }
}

impl Type {
    /// The type that the tokens `ts` are, or the grammar's message where
    /// they are none.
    pub open spec fn of(ts: Seq<Tok>) -> Result<TypeView, Seq<char>> {
        if !readable(render(ts)) {
            Err(unreadable())
        } else {
            match syn_type(render(ts)) {
                Ok(path) => Ok(TypeView { tokens: ts, path }),
                Err(message) => Err(message),
            }
        }
    }

    /// Reads all of `tokens` as one type.
    pub fn from_tokens(tokens: Vec<Token>) -> (r: Result<Type, String>)
        ensures
            result_view(r) == Type::of(views(tokens@)),
    {
        let text = to_text(&tokens);
        if !is_readable(text.as_str()) {
            return Err(unreadable_message());
        }
        match read_type(text.as_str()) {
            Ok(path) => Ok(Type { tokens, path }),
            Err(message) => Err(message),
        }
    }
}

/// A visibility: `pub`, a restricted `pub(..)`, `crate`, or nothing.
#[derive(Debug, PartialEq, Eq)]
pub struct Visibility {
    pub tokens: Vec<Token>,
}

/// The mathematical value of a [`Visibility`].
pub struct VisibilityView {
    pub tokens: Seq<Tok>,
}

impl View for Visibility {
    type V = VisibilityView;

    open spec fn view(&self) -> VisibilityView {
        VisibilityView { tokens: views(self.tokens@) }
    }
}

impl Visibility {
    /// The visibility that the tokens `ts` are, if they are one.
    pub open spec fn of(ts: Seq<Tok>) -> Option<VisibilityView> {
        if readable(render(ts)) && syn_visibility(render(ts)) {
            Some(VisibilityView { tokens: ts })
        } else {
            None
        }
    }

    /// Reads all of `tokens` as one visibility.
    pub fn from_tokens(tokens: Vec<Token>) -> (r: Option<Visibility>)
        ensures
            option_view(r) == Visibility::of(views(tokens@)),
    {
        let text = to_text(&tokens);
        if is_readable(text.as_str()) && read_visibility(text.as_str()) {
            Some(Visibility { tokens })
        } else {
            None
        }
    }
}

/// A path: the names of its segments, and the place it was written at.
#[derive(Debug, PartialEq, Eq)]
pub struct Path {
    pub segments: Vec<String>,
    pub span: Span,
}

/// The mathematical value of a [`Path`].
pub struct PathView {
    pub segments: Seq<Seq<char>>,
    pub span: Span,
}

impl View for Path {
    type V = PathView;

    open spec fn view(&self) -> PathView {
        PathView { segments: view_all(self.segments@), span: self.span }
    }
}

impl Path {
    /// The path that the tokens `ts` are, or the grammar's message where
    /// they are none.
    pub open spec fn of(ts: Seq<Tok>, scope: Span) -> Result<PathView, Seq<char>> {
        if !readable(render(ts)) {
            Err(unreadable())
        } else {
            match syn_path(render(ts)) {
                Ok(segments) => Ok(PathView { segments, span: cover(ts, scope) }),
                Err(message) => Err(message),
            }
        }
    }

    /// Reads all of `tokens` as one path.
    pub fn from_tokens(tokens: &Vec<Token>, scope: Span) -> (r: Result<Path, String>)
        ensures
            result_view(r) == Path::of(views(tokens@), scope),
    {
        let text = to_text(tokens);
        if !is_readable(text.as_str()) {
            return Err(unreadable_message());
        }
        match read_path(text.as_str()) {
            Ok(segments) => Ok(Path { segments, span: span_of(tokens, scope) }),
            Err(message) => Err(message),
        }
    }
}

/// A string literal: the string it denotes, and the place it was written
/// at.
#[derive(Debug, PartialEq, Eq)]
pub struct LitStr {
    pub value: String,
    pub span: Span,
}

/// The mathematical value of a [`LitStr`].
pub struct LitStrView {
    pub value: Seq<char>,
    pub span: Span,
}

impl View for LitStr {
    type V = LitStrView;

    open spec fn view(&self) -> LitStrView {
        LitStrView { value: self.value@, span: self.span }
    }
}

} // verus!

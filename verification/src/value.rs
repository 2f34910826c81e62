//! Assignments: a name, `=`, and what is assigned. The same three parts
//! make a value for a variant, a default and a configuration, so the name
//! and the payload are left open.

use vstd::prelude::*;
use crate::diag::{error, Diagnostic, DiagnosticView};
use crate::model::option_view;
use crate::expr2::{find_first_of, first_of};
use crate::node::{cover, span_of, Expr, Ident, IdentView, Path, PathView};
use crate::reference::ReferenceTokens;
use crate::parse::{peek, place, problem, punct_at, span_at, Parse, ToTokens, TokenStream};
use crate::token::{lemma_views_push, slice, views, Span, Tok, Token};

verus! {

/// A value for an attribute: the attribute's name and an expression.
pub type AttributeValueAssignment = IdentValueAssignmentGeneric<Ident, Expr>;

/// A value for an attribute whose references are not resolved yet.
pub type AttributeValueAssignmentTokens = IdentValueAssignmentGeneric<Ident, ReferenceTokens>;

/// A value for an attribute as plain tokens.
pub type AttributeValueAssignmentTokenStream = IdentValueAssignmentGeneric<Ident, TokenStream>;

/// A configuration: its name and, where one is given, its value.
pub type ConfigValueAssignment = IdentOptionalValueAssignmentGeneric<Path, Expr>;

/// A default value.
pub type ValueAssignment = ValueAssignmentGeneric<Expr>;

/// The token `=`.
#[derive(Clone, Copy, Debug, PartialEq, Eq)]
pub struct Equal {
    pub span: Span,
}

impl View for Equal {
    type V = Span;

    open spec fn view(&self) -> Span {
        self.span
    }
}

impl Parse for Equal {
    open spec fn parsed(ts: Seq<Tok>, at: int, scope: Span) -> Result<(Span, int), DiagnosticView> {
        if punct_at(ts, at, '=') {
            Ok((ts[at].span(), at + 1))
        } else {
            Err(error(place(ts, at, scope), "expected `=`"@))
        }
    }

    fn parse(tokens: &Vec<Token>, at: usize, scope: Span) -> (r: Result<(Equal, usize), Diagnostic>) {
        if peek(tokens, at, '=') {
            Ok((Equal { span: tokens[at].span() }, at + 1))
        } else {
            Err(problem(span_at(tokens, at, scope), "expected `=`"))
        }
    }
}

impl ToTokens for Equal {
    open spec fn tokens(v: Span) -> Seq<Tok> {
        seq![Tok::Punct { ch: '=', joint: false, span: v }]
    }

    fn to_tokens(&self, out: &mut Vec<Token>) {
        let t = Token::punct('=', self.span);
        proof {
            lemma_views_push(out@, t);
            assert(views(out@).push(t@) =~= views(out@) + Self::tokens(self@));
        }
        out.push(t);
    }
}

impl Parse for Ident {
    open spec fn parsed(ts: Seq<Tok>, at: int, scope: Span) -> Result<
        (IdentView, int),
        DiagnosticView,
    > {
        if 0 <= at < ts.len() {
            match Ident::of(ts[at]) {
                Some(ident) => Ok((ident, at + 1)),
                None => Err(error(ts[at].span(), "expected identifier"@)),
            }
        } else {
            Err(error(scope, "unexpected end of input, expected identifier"@))
        }
    }

    fn parse(tokens: &Vec<Token>, at: usize, scope: Span) -> (r: Result<(Ident, usize), Diagnostic>) {
        if at < tokens.len() {
            match Ident::from_token(&tokens[at]) {
                Some(ident) => Ok((ident, at + 1)),
                None => Err(problem(tokens[at].span(), "expected identifier")),
            }
        } else {
            Err(problem(scope, "unexpected end of input, expected identifier"))
        }
    }
}

impl ToTokens for Ident {
    open spec fn tokens(v: IdentView) -> Seq<Tok> {
        seq![Tok::Ident { text: v.name, span: v.span }]
    }

    fn to_tokens(&self, out: &mut Vec<Token>) {
        let t = self.to_token();
        proof {
            lemma_views_push(out@, t);
            assert(views(out@).push(t@) =~= views(out@) + Self::tokens(self@));
        }
        out.push(t);
    }
}

/// What reading a path from the position `at` gives: the tokens up to the
/// first `=` or `,`, taken as one path. Tokens that the grammar refuses are a
/// problem, with the grammar's message, at the place of those tokens.
pub open spec fn path_at(ts: Seq<Tok>, at: int, scope: Span) -> Result<(PathView, int), DiagnosticView> {
    let stop = first_of(ts, at, '=', ',');
    let here = place(ts, at, scope);
    match Path::of(ts.subrange(at, stop), here) {
        Ok(path) => Ok((path, stop)),
        Err(message) => Err(error(cover(ts.subrange(at, stop), here), message)),
    }
}

impl Parse for Path {
    open spec fn parsed(ts: Seq<Tok>, at: int, scope: Span) -> Result<(PathView, int), DiagnosticView> {
        path_at(ts, at, scope)
    }

    fn parse(tokens: &Vec<Token>, at: usize, scope: Span) -> (r: Result<(Path, usize), Diagnostic>) {
        let stop = find_first_of(tokens, at, '=', ',');
        let here = span_at(tokens, at, scope);
        let found = slice(tokens, at, stop);
        match Path::from_tokens(&found, here) {
            Ok(path) => Ok((path, stop)),
            Err(message) => Err(Diagnostic { span: span_of(&found, here), message, help: None }),
        }
    }
}

/// `=` and what is assigned.
#[derive(Debug, PartialEq, Eq)]
pub struct ValueAssignmentGeneric<V> {
    pub _equal: Equal,
    pub value: V,
}

/// The mathematical value of a [`ValueAssignmentGeneric`].
pub struct ValueAssignmentView<V> {
    pub equal: Span,
    pub value: V,
}

impl<V: View> View for ValueAssignmentGeneric<V> {
    type V = ValueAssignmentView<V::V>;

    open spec fn view(&self) -> ValueAssignmentView<V::V> {
        ValueAssignmentView { equal: self._equal.span, value: self.value@ }
    }
}

impl<V> ValueAssignmentGeneric<V> {
    /// `=` at `equal`, and `value`.
    pub fn from_parts(equal: Equal, value: V) -> (r: Self)
        ensures
            r._equal == equal,
            r.value == value,
    {
        Self { _equal: equal, value }
    }

    /// What is assigned.
    pub fn into_value(self) -> (r: V)
        ensures
            r == self.value,
    {
        self.value
    }

    /// Whether an assignment begins at `at`: `=` stands there.
    pub fn peek(tokens: &Vec<Token>, at: usize) -> (r: bool)
        ensures
            r == punct_at(views(tokens@), at as int, '='),
    {
        peek(tokens, at, '=')
    }
}

impl<V: Parse> Parse for ValueAssignmentGeneric<V> {
    open spec fn parsed(ts: Seq<Tok>, at: int, scope: Span) -> Result<
        (ValueAssignmentView<V::V>, int),
        DiagnosticView,
    > {
        match Equal::parsed(ts, at, scope) {
            Ok((equal, next)) => match V::parsed(ts, next, scope) {
                Ok((value, end)) => Ok((ValueAssignmentView { equal, value }, end)),
                Err(d) => Err(d),
            },
            Err(d) => Err(d),
        }
    }

    fn parse(tokens: &Vec<Token>, at: usize, scope: Span) -> (r: Result<(Self, usize), Diagnostic>) {
        match Equal::parse(tokens, at, scope) {
            Ok((equal, next)) => match V::parse(tokens, next, scope) {
                Ok((value, end)) => Ok((Self { _equal: equal, value }, end)),
                Err(d) => Err(d),
            },
            Err(d) => Err(d),
        }
    }
}

impl<V: ToTokens> ToTokens for ValueAssignmentGeneric<V> {
    open spec fn tokens(v: ValueAssignmentView<V::V>) -> Seq<Tok> {
        Equal::tokens(v.equal) + V::tokens(v.value)
    }

    fn to_tokens(&self, out: &mut Vec<Token>) {
        self._equal.to_tokens(out);
        self.value.to_tokens(out);
        assert(views(out@) =~= views(old(out)@) + Self::tokens(self@));
    }
}

/// A name, `=`, and what is assigned to the name.
#[derive(Debug, PartialEq, Eq)]
pub struct IdentValueAssignmentGeneric<I, V> {
    pub ident: I,
    pub value: ValueAssignmentGeneric<V>,
}

/// The mathematical value of an [`IdentValueAssignmentGeneric`].
pub struct IdentValueAssignmentView<I, V> {
    pub ident: I,
    pub value: ValueAssignmentView<V>,
}

impl<I: View, V: View> View for IdentValueAssignmentGeneric<I, V> {
    type V = IdentValueAssignmentView<I::V, V::V>;

    open spec fn view(&self) -> IdentValueAssignmentView<I::V, V::V> {
        IdentValueAssignmentView { ident: self.ident@, value: self.value@ }
    }
}

impl<I, V> IdentValueAssignmentGeneric<I, V> {
    /// What is assigned.
    pub fn into_value(self) -> (r: V)
        ensures
            r == self.value.value,
    {
        self.value.value
    }

    /// The assignment of `value` to `ident`.
    pub fn from_parts(ident: I, equal: Equal, value: V) -> (r: Self)
        ensures
            r.ident == ident,
            r.value._equal == equal,
            r.value.value == value,
    {
        Self { ident, value: ValueAssignmentGeneric::from_parts(equal, value) }
    }

    /// The name, `=`, and what is assigned.
    pub fn into_parts(self) -> (r: (I, Equal, V))
        ensures
            r.0 == self.ident,
            r.1 == self.value._equal,
            r.2 == self.value.value,
    {
        (self.ident, self.value._equal, self.value.value)
    }

    /// The name.
    pub fn ident(&self) -> (r: &I)
        ensures
            *r == self.ident,
    {
        &self.ident
    }
}

impl<I: Parse, V: Parse> Parse for IdentValueAssignmentGeneric<I, V> {
    open spec fn parsed(ts: Seq<Tok>, at: int, scope: Span) -> Result<
        (IdentValueAssignmentView<I::V, V::V>, int),
        DiagnosticView,
    > {
        match I::parsed(ts, at, scope) {
            Ok((ident, next)) => match ValueAssignmentGeneric::<V>::parsed(ts, next, scope) {
                Ok((value, end)) => Ok((IdentValueAssignmentView { ident, value }, end)),
                Err(d) => Err(d),
            },
            Err(d) => Err(d),
        }
    }

    fn parse(tokens: &Vec<Token>, at: usize, scope: Span) -> (r: Result<(Self, usize), Diagnostic>) {
        match I::parse(tokens, at, scope) {
            Ok((ident, next)) => match ValueAssignmentGeneric::<V>::parse(tokens, next, scope) {
                Ok((value, end)) => Ok((Self { ident, value }, end)),
                Err(d) => Err(d),
            },
            Err(d) => Err(d),
        }
    }
}

impl<I: ToTokens, V: ToTokens> ToTokens for IdentValueAssignmentGeneric<I, V> {
    open spec fn tokens(v: IdentValueAssignmentView<I::V, V::V>) -> Seq<Tok> {
        I::tokens(v.ident) + ValueAssignmentGeneric::<V>::tokens(v.value)
    }

    fn to_tokens(&self, out: &mut Vec<Token>) {
        self.ident.to_tokens(out);
        self.value.to_tokens(out);
        assert(views(out@) =~= views(old(out)@) + Self::tokens(self@));
    }
}

/// A name and, where `=` follows it, what is assigned to the name.
#[derive(Debug, PartialEq, Eq)]
pub struct IdentOptionalValueAssignmentGeneric<I, V> {
    pub ident: I,
    pub value: Option<ValueAssignmentGeneric<V>>,
}

/// The mathematical value of an [`IdentOptionalValueAssignmentGeneric`].
pub struct IdentOptionalValueAssignmentView<I, V> {
    pub ident: I,
    pub value: Option<ValueAssignmentView<V>>,
}

impl<I: View, V: View> View for IdentOptionalValueAssignmentGeneric<I, V> {
    type V = IdentOptionalValueAssignmentView<I::V, V::V>;

    open spec fn view(&self) -> IdentOptionalValueAssignmentView<I::V, V::V> {
        IdentOptionalValueAssignmentView { ident: self.ident@, value: option_view(self.value) }
    }
}

impl<I, V> IdentOptionalValueAssignmentGeneric<I, V> {
    /// What is assigned, where something is.
    pub fn value(&self) -> (r: Option<&V>)
        ensures
            r is Some == self.value is Some,
            r matches Some(v) ==> *v == self.value->0.value,
    {
        match &self.value {
            Some(assignment) => Some(&assignment.value),
            None => None,
        }
    }

    /// The name.
    pub fn ident(&self) -> (r: &I)
        ensures
            *r == self.ident,
    {
        &self.ident
    }
}

impl<I: Parse, V: Parse> Parse for IdentOptionalValueAssignmentGeneric<I, V> {
    open spec fn parsed(ts: Seq<Tok>, at: int, scope: Span) -> Result<
        (IdentOptionalValueAssignmentView<I::V, V::V>, int),
        DiagnosticView,
    > {
        match I::parsed(ts, at, scope) {
            Ok((ident, next)) => if punct_at(ts, next, '=') {
                match ValueAssignmentGeneric::<V>::parsed(ts, next, scope) {
                    Ok((value, end)) => Ok(
                        (IdentOptionalValueAssignmentView { ident, value: Some(value) }, end),
                    ),
                    Err(d) => Err(d),
                }
            } else {
                Ok((IdentOptionalValueAssignmentView { ident, value: None }, next))
            },
            Err(d) => Err(d),
        }
    }

    fn parse(tokens: &Vec<Token>, at: usize, scope: Span) -> (r: Result<(Self, usize), Diagnostic>) {
        match I::parse(tokens, at, scope) {
            Ok((ident, next)) => {
                if ValueAssignmentGeneric::<V>::peek(tokens, next) {
                    match ValueAssignmentGeneric::<V>::parse(tokens, next, scope) {
                        Ok((value, end)) => Ok((Self { ident, value: Some(value) }, end)),
                        Err(d) => Err(d),
                    }
                } else {
                    Ok((Self { ident, value: None }, next))
                }
            },
            Err(d) => Err(d),
        }
    }
}

impl<I: ToTokens, V: ToTokens> ToTokens for IdentOptionalValueAssignmentGeneric<I, V> {
    open spec fn tokens(v: IdentOptionalValueAssignmentView<I::V, V::V>) -> Seq<Tok> {
        match v.value {
            Some(value) => I::tokens(v.ident) + ValueAssignmentGeneric::<V>::tokens(value),
            None => I::tokens(v.ident),
        }
    }

    fn to_tokens(&self, out: &mut Vec<Token>) {
        self.ident.to_tokens(out);
        match &self.value {
            Some(value) => {
                value.to_tokens(out);
                assert(views(out@) =~= views(old(out)@) + Self::tokens(self@));
            },
            None => {},
        }
    }
}

} // verus!

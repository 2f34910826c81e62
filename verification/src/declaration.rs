//! The declaration of an attribute:
//! `[configurations] [visibility] name : type [= default]`.

use vstd::prelude::*;
use crate::config::{config_lists, ConfigDeclarationList, ConfigDeclarationListView};
use crate::diag::{error, Diagnostic, DiagnosticView};
use crate::expr2::{find_first_of, first_of};
use crate::model::{option_view, view_all};
use crate::node::{
    cover, span_of, ExprView, Ident, IdentView, Type, TypeView, Visibility, VisibilityView,
};
use crate::parse::{
    parse_terminated, peek, place, problem, punct_at, span_at, terminated, Parse, ToTokens,
};
use crate::reference::comma;
use crate::token::{lemma_views_push, slice, views, Delimiter, Span, Tok, Token};
use crate::value::{ValueAssignment, ValueAssignmentView};

verus! {

/// A list in parentheses, with `,` between its elements.
#[derive(Debug, PartialEq, Eq)]
pub struct ParenList<T> {
    pub _paren: Span,
    pub elements: Vec<T>,
}

/// The mathematical value of a [`ParenList`].
pub struct ParenListView<T> {
    pub paren: Span,
    pub elements: Seq<T>,
}

impl<T: View> View for ParenList<T> {
    type V = ParenListView<T::V>;

    open spec fn view(&self) -> ParenListView<T::V> {
        ParenListView { paren: self._paren, elements: view_all(self.elements@) }
    }
}

impl<T> ParenList<T> {
    /// The place of the parentheses, and the elements.
    pub fn into_parts(self) -> (r: (Span, Vec<T>))
        ensures
            r.0 == self._paren,
            r.1 == self.elements,
    {
        (self._paren, self.elements)
    }

    /// The list of `elements` in parentheses at `paren`.
    pub fn from_parts(paren: Span, elements: Vec<T>) -> (r: Self)
        ensures
            r._paren == paren,
            r.elements == elements,
    {
        Self { _paren: paren, elements }
    }
}

/// What reading a list in parentheses from the position `at` gives.
pub open spec fn paren_list<T: Parse>(ts: Seq<Tok>, at: int, scope: Span) -> Result<
    (ParenListView<T::V>, int),
    DiagnosticView,
> {
    if 0 <= at < ts.len() && ts[at] is Group && ts[at]->Group_delimiter == Delimiter::Parenthesis {
        let paren = ts[at]->Group_span;
        match terminated::<T>(ts[at]->Group_stream, 0, paren) {
            Ok(elements) => Ok((ParenListView { paren, elements }, at + 1)),
            Err(d) => Err(d),
        }
    } else {
        Err(error(place(ts, at, scope), "expected parentheses"@))
    }
}

impl<T: Parse> Parse for ParenList<T> {
    open spec fn parsed(ts: Seq<Tok>, at: int, scope: Span) -> Result<
        (ParenListView<T::V>, int),
        DiagnosticView,
    > {
        paren_list::<T>(ts, at, scope)
    }

    fn parse(tokens: &Vec<Token>, at: usize, scope: Span) -> (r: Result<(Self, usize), Diagnostic>) {
        if at < tokens.len() {
            match &tokens[at] {
                Token::Group { delimiter: Delimiter::Parenthesis, span, stream } => {
                    return match parse_terminated::<T>(stream, 0, *span) {
                        Ok(elements) => Ok((ParenList { _paren: *span, elements }, at + 1)),
                        Err(d) => Err(d),
                    };
                },
                _ => {},
            }
        }
        Err(problem(span_at(tokens, at, scope), "expected parentheses"))
    }
}

/// The tokens of the elements `es`, with `,` between them.
pub open spec fn separated<T: ToTokens>(es: Seq<T::V>) -> Seq<Tok>
    decreases es.len(),
{
    if es.len() == 0 {
        Seq::empty()
    } else if es.len() == 1 {
        T::tokens(es[0])
    } else {
        separated::<T>(es.drop_last()).push(comma(Span::site())) + T::tokens(es.last())
    }
}

impl<T: ToTokens> ToTokens for ParenList<T> {
    open spec fn tokens(v: ParenListView<T::V>) -> Seq<Tok> {
        seq![
            Tok::Group {
                delimiter: Delimiter::Parenthesis,
                span: v.paren,
                stream: separated::<T>(v.elements),
            },
        ]
    }

    fn to_tokens(&self, out: &mut Vec<Token>) {
        let ghost es = view_all(self.elements@);
        let mut stream: Vec<Token> = Vec::new();
        let mut i: usize = 0;
        proof {
            assert(es.take(0) =~= Seq::empty());
            assert(views(stream@) =~= separated::<T>(es.take(0)));
        }
        while i < self.elements.len()
            invariant
                i <= self.elements.len(),
                es == view_all(self.elements@),
                views(stream@) == separated::<T>(es.take(i as int)),
            decreases self.elements.len() - i,
        {
            proof {
                assert(es.take(i + 1).drop_last() =~= es.take(i as int));
                assert(es.take(i + 1).last() == self.elements@[i as int]@);
            }
            if i > 0 {
                let t = Token::punct(',', Span::call_site());
                proof {
                    lemma_views_push(stream@, t);
                }
                stream.push(t);
            } else {
                assert(views(stream@) =~= Seq::empty());
                assert(separated::<T>(es.take(1)) =~= Seq::empty() + T::tokens(es.take(1)[0]));
            }
            self.elements[i].to_tokens(&mut stream);
            i += 1;
        }
        proof {
            assert(es.take(self.elements@.len() as int) =~= es);
        }
        let group = Token::Group {
            delimiter: Delimiter::Parenthesis,
            span: self._paren,
            stream,
        };
        proof {
            lemma_views_push(out@, group);
            assert(views(out@).push(group@) =~= views(out@) + Self::tokens(self@));
        }
        out.push(group);
    }
}

/// Where a type that begins at `at` ends: at the first `,` or `=` that
/// stands outside angle brackets, or at the end of the tokens. `depth` is
/// the number of angle brackets that are open. The `>` of an arrow `->`
/// closes none.
pub open spec fn type_end(ts: Seq<Tok>, at: int, depth: nat) -> int
    decreases ts.len() - at,
{
    if at < 0 || at >= ts.len() {
        ts.len() as int
    } else if depth == 0 && (ts[at].is_punct(',') || ts[at].is_punct('=')) {
        at
    } else if ts[at].is_punct('<') {
        type_end(ts, at + 1, depth + 1)
    } else if ts[at].is_punct('>') && depth > 0 && !is_arrow(ts, at) {
        type_end(ts, at + 1, (depth - 1) as nat)
    } else {
        type_end(ts, at + 1, depth)
    }
}

/// Whether the token at `at` ends an arrow: a joint `-` stands before it.
pub open spec fn is_arrow(ts: Seq<Tok>, at: int) -> bool {
    0 < at <= ts.len() && ts[at - 1] == (Tok::Punct { ch: '-', joint: true, span: ts[at - 1].span() })
}

/// Whether a joint `-` stands before the token at `at`.
fn after_minus(tokens: &Vec<Token>, at: usize) -> (r: bool)
    requires
        at <= tokens.len(),
    ensures
        r == is_arrow(views(tokens@), at as int),
{
    if at == 0 {
        return false;
    }
    match &tokens[at - 1] {
        Token::Punct { ch, joint, .. } => *ch == '-' && *joint,
        _ => false,
    }
}

/// Where a type that begins at `at` ends.
pub fn find_type_end(tokens: &Vec<Token>, at: usize) -> (stop: usize)
    requires
        at <= tokens.len(),
    ensures
        stop as int == type_end(views(tokens@), at as int, 0),
        at <= stop <= tokens.len(),
{
    let ghost ts = views(tokens@);
    let mut i: usize = at;
    let mut depth: usize = 0;
    while i < tokens.len()
        invariant
            at <= i <= tokens.len(),
            depth <= i - at,
            ts == views(tokens@),
            type_end(ts, at as int, 0) == type_end(ts, i as int, depth as nat),
        decreases tokens.len() - i,
    {
        let t = &tokens[i];
        if depth == 0 && (t.is_punct(',') || t.is_punct('=')) {
            return i;
        }
        if t.is_punct('<') {
            depth += 1;
        } else if t.is_punct('>') && depth > 0 && !after_minus(tokens, i) {
            depth -= 1;
        }
        i += 1;
    }
    i
}

/// The declaration of one attribute.
#[derive(Debug, PartialEq, Eq)]
pub struct AttributeDeclaration {
    pub attributes: Vec<ConfigDeclarationList>,
    pub vis: Visibility,
    pub ident: Ident,
    pub _colon: Span,
    pub type_: Type,
    pub default_value: Option<ValueAssignment>,
}

/// The mathematical value of an [`AttributeDeclaration`].
pub struct AttributeDeclarationView {
    pub attributes: Seq<ConfigDeclarationListView>,
    pub vis: VisibilityView,
    pub ident: IdentView,
    pub colon: Span,
    pub type_: TypeView,
    pub default_value: Option<ValueAssignmentView<ExprView>>,
}

impl View for AttributeDeclaration {
    type V = AttributeDeclarationView;

    open spec fn view(&self) -> AttributeDeclarationView {
        AttributeDeclarationView {
            attributes: view_all(self.attributes@),
            vis: self.vis@,
            ident: self.ident@,
            colon: self._colon,
            type_: self.type_@,
            default_value: option_view(self.default_value),
        }
    }
}

/// What is declared before the default: the configurations, the
/// visibility, the name and the type.
pub struct Head {
    pub attributes: Seq<ConfigDeclarationListView>,
    pub vis: VisibilityView,
    pub ident: IdentView,
    pub colon: Span,
    pub type_: TypeView,
}

/// What reading the head of a declaration from the position `at` gives. The
/// configurations come first. The name is the token before the first `:`,
/// and what stands before the name is the visibility. The type is what
/// stands between the `:` and the type's end.
pub open spec fn head(ts: Seq<Tok>, at: int, scope: Span) -> Result<(Head, int), DiagnosticView> {
    match config_lists(ts, at, scope) {
        Err(d) => Err(d),
        Ok((attributes, begin)) => {
            let colon = first_of(ts, begin, ':', ',');
            let end = type_end(ts, colon + 1, 0);
            if !punct_at(ts, colon, ':') {
                Err(error(place(ts, colon, scope), "expected `:`"@))
            } else if colon <= begin {
                Err(error(ts[colon].span(), "expected identifier"@))
            } else {
                match (
                    Ident::of(ts[colon - 1]),
                    Visibility::of(ts.subrange(begin, colon - 1)),
                    Type::of(ts.subrange(colon + 1, end)),
                ) {
                    (None, _, _) => Err(error(ts[colon - 1].span(), "expected identifier"@)),
                    (Some(_), None, _) => Err(
                        error(
                            cover(ts.subrange(begin, colon - 1), scope),
                            "expected a visibility"@,
                        ),
                    ),
                    (Some(_), Some(_), Err(_)) => Err(
                        error(
                            cover(ts.subrange(colon + 1, end), place(ts, colon + 1, scope)),
                            "Expected a type."@,
                        ),
                    ),
                    (Some(ident), Some(vis), Ok(type_)) => Ok(
                        (Head { attributes, vis, ident, colon: ts[colon].span(), type_ }, end),
                    ),
                }
            }
        },
    }
}

/// What reading a declaration from the position `at` gives: the head and,
/// where `=` follows it, the default.
pub open spec fn declaration(ts: Seq<Tok>, at: int, scope: Span) -> Result<
    (AttributeDeclarationView, int),
    DiagnosticView,
> {
    match head(ts, at, scope) {
        Err(d) => Err(d),
        Ok((h, end)) => if punct_at(ts, end, '=') {
            match ValueAssignment::parsed(ts, end, scope) {
                Ok((value, next)) => Ok(
                    (
                        AttributeDeclarationView {
                            attributes: h.attributes,
                            vis: h.vis,
                            ident: h.ident,
                            colon: h.colon,
                            type_: h.type_,
                            default_value: Some(value),
                        },
                        next,
                    ),
                ),
                Err(d) => Err(d),
            }
        } else {
            Ok(
                (
                    AttributeDeclarationView {
                        attributes: h.attributes,
                        vis: h.vis,
                        ident: h.ident,
                        colon: h.colon,
                        type_: h.type_,
                        default_value: None,
                    },
                    end,
                ),
            )
        },
    }
}

impl Parse for AttributeDeclaration {
    open spec fn parsed(ts: Seq<Tok>, at: int, scope: Span) -> Result<
        (AttributeDeclarationView, int),
        DiagnosticView,
    > {
        declaration(ts, at, scope)
    }

    fn parse(tokens: &Vec<Token>, at: usize, scope: Span) -> (r: Result<(Self, usize), Diagnostic>) {
        let (attributes, begin) = match ConfigDeclarationList::parse_all(tokens, at, scope) {
            Ok(found) => found,
            Err(d) => {
                return Err(d);
            },
        };
        let colon = find_first_of(tokens, begin, ':', ',');
        if !peek(tokens, colon, ':') {
            return Err(problem(span_at(tokens, colon, scope), "expected `:`"));
        }
        if colon <= begin {
            return Err(problem(tokens[colon].span(), "expected identifier"));
        }
        let ident = match Ident::from_token(&tokens[colon - 1]) {
            Some(ident) => ident,
            None => {
                return Err(problem(tokens[colon - 1].span(), "expected identifier"));
            },
        };
        let before = slice(tokens, begin, colon - 1);
        let before_span = span_of(&before, scope);
        let vis = match Visibility::from_tokens(before) {
            Some(vis) => vis,
            None => {
                return Err(problem(before_span, "expected a visibility"));
            },
        };
        let end = find_type_end(tokens, colon + 1);
        let written = slice(tokens, colon + 1, end);
        let written_span = span_of(&written, span_at(tokens, colon + 1, scope));
        let type_ = match Type::from_tokens(written) {
            Ok(type_) => type_,
            Err(_) => {
                return Err(problem(written_span, "Expected a type."));
            },
        };
        let _colon = tokens[colon].span();
        if peek(tokens, end, '=') {
            match ValueAssignment::parse(tokens, end, scope) {
                Ok((value, next)) => Ok(
                    (
                        AttributeDeclaration {
                            attributes,
                            vis,
                            ident,
                            _colon,
                            type_,
                            default_value: Some(value),
                        },
                        next,
                    ),
                ),
                Err(d) => Err(d),
            }
        } else {
            Ok(
                (
                    AttributeDeclaration {
                        attributes,
                        vis,
                        ident,
                        _colon,
                        type_,
                        default_value: None,
                    },
                    end,
                ),
            )
        }
    }
}

} // verus!

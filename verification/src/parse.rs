//! Parsing from a position in a sequence of tokens.
//!
//! A parser reads a value from the tokens that start at a position and says
//! where it stopped, or reports the one problem that stopped it.

use vstd::prelude::*;
use crate::diag::{error, Diagnostic, DiagnosticView};
use crate::model::{lemma_view_all_push, result_view, view_all};
use crate::token::{lemma_views_push, views, Span, Tok, Token};

verus! {

/// The value of what a parser returns.
pub open spec fn parse_view<T: View>(r: Result<(T, usize), Diagnostic>) -> Result<
    (T::V, int),
    DiagnosticView,
> {
    match r {
        Ok((value, next)) => Ok((value@, next as int)),
        Err(d) => Err(d@),
    }
}

/// The place of the token at `at`; at the end of the tokens, the place
/// `scope` of what encloses them.
pub open spec fn place(ts: Seq<Tok>, at: int, scope: Span) -> Span {
    if 0 <= at < ts.len() {
        ts[at].span()
    } else {
        scope
    }
}

/// The place of the token at `at`, or `scope` at the end of the tokens.
pub fn span_at(tokens: &Vec<Token>, at: usize, scope: Span) -> (r: Span)
    ensures
        r == place(views(tokens@), at as int, scope),
{
    if at < tokens.len() {
        tokens[at].span()
    } else {
        scope
    }
}

/// Whether the punctuation `c` stands at `at`.
pub open spec fn punct_at(ts: Seq<Tok>, at: int, c: char) -> bool {
    0 <= at < ts.len() && ts[at].is_punct(c)
}

/// Whether the punctuation `c` stands at `at`.
pub fn peek(tokens: &Vec<Token>, at: usize, c: char) -> (r: bool)
    ensures
        r == punct_at(views(tokens@), at as int, c),
{
    at < tokens.len() && tokens[at].is_punct(c)
}

/// A problem with the message `message` at `span`.
pub fn problem(span: Span, message: &str) -> (r: Diagnostic)
    ensures
        r@ == error(span, message@),
{
    Diagnostic { span, message: String::from_str(message), help: None }
}

/// A value that is read from tokens.
pub trait Parse: Sized + View {
    /// What reading from the position `at` of `ts` gives: the value and the
    /// position behind it, or the problem. `scope` is the place of what
    /// encloses the tokens.
    spec fn parsed(ts: Seq<Tok>, at: int, scope: Span) -> Result<(Self::V, int), DiagnosticView>;

    /// Reads a value from the position `at` of `tokens`.
    fn parse(tokens: &Vec<Token>, at: usize, scope: Span) -> (r: Result<(Self, usize), Diagnostic>)
        requires
            at <= tokens.len(),
        ensures
            parse_view(r) == Self::parsed(views(tokens@), at as int, scope),
            r matches Ok((_, next)) ==> at <= next <= tokens.len(),
    ;
}

/// What reading a list from the position `at` to the end gives: values
/// with `,` between them, and perhaps behind the last.
pub open spec fn terminated<T: Parse>(ts: Seq<Tok>, at: int, scope: Span) -> Result<
    Seq<T::V>,
    DiagnosticView,
>
    decreases ts.len() - at,
{
    if at >= ts.len() {
        Ok(Seq::empty())
    } else {
        match T::parsed(ts, at, scope) {
            Err(d) => Err(d),
            Ok((value, next)) => if next >= ts.len() {
                Ok(seq![value])
            } else if at <= next && ts[next].is_punct(',') {
                match terminated::<T>(ts, next + 1, scope) {
                    Ok(rest) => Ok(seq![value] + rest),
                    Err(d) => Err(d),
                }
            } else {
                Err(error(ts[next].span(), "expected `,`"@))
            },
        }
    }
}

/// Reads a list from the position `at` to the end of `tokens`.
pub fn parse_terminated<T: Parse>(tokens: &Vec<Token>, at: usize, scope: Span) -> (r: Result<
    Vec<T>,
    Diagnostic,
>)
    requires
        at <= tokens.len(),
    ensures
        (match r {
            Ok(list) => Ok(view_all(list@)),
            Err(d) => Err(d@),
        }) == terminated::<T>(views(tokens@), at as int, scope),
{
    let ghost ts = views(tokens@);
    let ghost whole = terminated::<T>(ts, at as int, scope);
    let mut list: Vec<T> = Vec::new();
    let mut i: usize = at;
    assert(view_all(list@) =~= Seq::empty());
    loop
        invariant
            at <= i <= tokens.len(),
            ts == views(tokens@),
            whole == terminated::<T>(ts, at as int, scope),
            whole == (match terminated::<T>(ts, i as int, scope) {
                Ok(rest) => Ok(view_all(list@) + rest),
                Err(d) => Err(d),
            }),
        decreases tokens.len() - i,
    {
        if i >= tokens.len() {
            assert(view_all(list@) + Seq::<T::V>::empty() =~= view_all(list@));
            return Ok(list);
        }
        match T::parse(tokens, i, scope) {
            Err(d) => {
                return Err(d);
            },
            Ok((value, next)) => {
                let ghost before = view_all(list@);
                proof {
                    lemma_view_all_push(list@, value);
                }
                list.push(value);
                if next >= tokens.len() {
                    assert(before + seq![value@] =~= view_all(list@));
                    return Ok(list);
                }
                if !tokens[next].is_punct(',') {
                    return Err(problem(tokens[next].span(), "expected `,`"));
                }
                proof {
                    match terminated::<T>(ts, next + 1, scope) {
                        Ok(rest) => {
                            assert(before + (seq![value@] + rest) =~= view_all(list@) + rest);
                        },
                        Err(_) => {},
                    }
                }
                i = next + 1;
            },
        }
    }
}

/// What reading all of `ts` as one value gives: a token behind the value is
/// a problem.
pub open spec fn parsed_whole<T: Parse>(ts: Seq<Tok>, scope: Span) -> Result<T::V, DiagnosticView> {
    match T::parsed(ts, 0, scope) {
        Ok((value, next)) => if 0 <= next < ts.len() {
            Err(error(ts[next].span(), "unexpected token"@))
        } else {
            Ok(value)
        },
        Err(d) => Err(d),
    }
}

/// Reads all of `tokens` as one value.
pub fn parse2<T: Parse>(tokens: &Vec<Token>, scope: Span) -> (r: Result<T, Diagnostic>)
    ensures
        result_view(r) == parsed_whole::<T>(views(tokens@), scope),
{
    match T::parse(tokens, 0, scope) {
        Ok((value, next)) => {
            if next < tokens.len() {
                Err(problem(tokens[next].span(), "unexpected token"))
            } else {
                Ok(value)
            }
        },
        Err(d) => Err(d),
    }
}

/// A value that is written as tokens.
pub trait ToTokens: View {
    /// The tokens that the value is written as.
    spec fn tokens(v: Self::V) -> Seq<Tok>;

    /// Writes the value behind the tokens in `out`.
    fn to_tokens(&self, out: &mut Vec<Token>)
        ensures
            views(final(out)@) == views(old(out)@) + Self::tokens(self@),
    ;
}

/// Writes copies of `tokens` behind the tokens in `out`.
pub fn extend(out: &mut Vec<Token>, tokens: &Vec<Token>)
    ensures
        views(final(out)@) == views(old(out)@) + views(tokens@),
{
    let mut i: usize = 0;
    assert(views(out@) =~= views(old(out)@) + views(tokens@).take(0));
    while i < tokens.len()
        invariant
            i <= tokens.len(),
            views(out@) == views(old(out)@) + views(tokens@).take(i as int),
        decreases tokens.len() - i,
    {
        let copy = tokens[i].duplicate();
        proof {
            lemma_views_push(out@, copy);
            assert(views(out@).push(copy@) =~= views(old(out)@) + views(tokens@).take(i + 1));
        }
        out.push(copy);
        i += 1;
    }
    assert(views(tokens@).take(tokens@.len() as int) =~= views(tokens@));
}

/// A sequence of tokens, as a value of its own.
#[derive(Debug, PartialEq, Eq)]
pub struct TokenStream {
    pub tokens: Vec<Token>,
}

impl View for TokenStream {
    type V = Seq<Tok>;

    open spec fn view(&self) -> Seq<Tok> {
        views(self.tokens@)
    }
}

impl ToTokens for TokenStream {
    open spec fn tokens(v: Seq<Tok>) -> Seq<Tok> {
        v
    }

    fn to_tokens(&self, out: &mut Vec<Token>) {
        extend(out, &self.tokens);
    }
}

} // verus!

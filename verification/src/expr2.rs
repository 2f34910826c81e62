//! Where an expression ends: at the first `,` that stands outside every
//! group, or at the end of the tokens.

use vstd::prelude::*;
use crate::diag::{error, Diagnostic, DiagnosticView};
use crate::node::{Expr, ExprView};
use crate::parse::{extend, place, problem, Parse, ToTokens};
use crate::token::{slice, views, Span, Tok, Token};

verus! {

/// The position of the first `,` at or behind `at`; the end of the tokens
/// where there is none.
pub open spec fn boundary(ts: Seq<Tok>, at: int) -> int
    decreases ts.len() - at,
{
    if at < 0 || at >= ts.len() {
        ts.len() as int
    } else if ts[at].is_punct(',') {
        at
    } else {
        boundary(ts, at + 1)
    }
}

/// The boundary is the first `,`: none stands before it.
pub proof fn lemma_boundary(ts: Seq<Tok>, at: int)
    requires
        0 <= at <= ts.len(),
    ensures
        at <= boundary(ts, at) <= ts.len(),
        forall|j: int| at <= j < boundary(ts, at) ==> !ts[j].is_punct(','),
        boundary(ts, at) < ts.len() ==> ts[boundary(ts, at)].is_punct(','),
    decreases ts.len() - at,
{
    if at < ts.len() && !ts[at].is_punct(',') {
        lemma_boundary(ts, at + 1);
    }
}

/// The position of the first `,` at or behind `at`, or the end of the
/// tokens.
pub fn find_boundary(tokens: &Vec<Token>, at: usize) -> (stop: usize)
    requires
        at <= tokens.len(),
    ensures
        stop as int == boundary(views(tokens@), at as int),
        at <= stop <= tokens.len(),
        forall|j: int| at <= j < stop ==> !views(tokens@)[j].is_punct(','),
        stop < tokens.len() ==> views(tokens@)[stop as int].is_punct(','),
{
    let ghost ts = views(tokens@);
    let mut i: usize = at;
    while i < tokens.len() && !tokens[i].is_punct(',')
        invariant
            at <= i <= tokens.len(),
            ts == views(tokens@),
            boundary(ts, at as int) == boundary(ts, i as int),
        decreases tokens.len() - i,
    {
        i += 1;
    }
    proof {
        lemma_boundary(ts, at as int);
    }
    i
}

/// The position of the first `a` or `b` at or behind `at`; the end of the
/// tokens where there is none.
pub open spec fn first_of(ts: Seq<Tok>, at: int, a: char, b: char) -> int
    decreases ts.len() - at,
{
    if at < 0 || at >= ts.len() {
        ts.len() as int
    } else if ts[at].is_punct(a) || ts[at].is_punct(b) {
        at
    } else {
        first_of(ts, at + 1, a, b)
    }
}

/// The first of two characters is the first: neither stands before it.
pub proof fn lemma_first_of(ts: Seq<Tok>, at: int, a: char, b: char)
    requires
        0 <= at <= ts.len(),
    ensures
        at <= first_of(ts, at, a, b) <= ts.len(),
        forall|j: int|
            at <= j < first_of(ts, at, a, b) ==> !ts[j].is_punct(a) && !ts[j].is_punct(b),
        first_of(ts, at, a, b) < ts.len() ==> ts[first_of(ts, at, a, b)].is_punct(a) || ts[first_of(
            ts,
            at,
            a,
            b,
        )].is_punct(b),
    decreases ts.len() - at,
{
    if at < ts.len() && !ts[at].is_punct(a) && !ts[at].is_punct(b) {
        lemma_first_of(ts, at + 1, a, b);
    }
}

/// The position of the first `a` or `b` at or behind `at`, or the end of the
/// tokens.
pub fn find_first_of(tokens: &Vec<Token>, at: usize, a: char, b: char) -> (stop: usize)
    requires
        at <= tokens.len(),
    ensures
        stop as int == first_of(views(tokens@), at as int, a, b),
        at <= stop <= tokens.len(),
        forall|j: int|
            at <= j < stop ==> !views(tokens@)[j].is_punct(a) && !views(tokens@)[j].is_punct(b),
        stop < tokens.len() ==> views(tokens@)[stop as int].is_punct(a) || views(
            tokens@,
        )[stop as int].is_punct(b),
{
    let ghost ts = views(tokens@);
    let mut i: usize = at;
    while i < tokens.len() && !tokens[i].is_punct(a) && !tokens[i].is_punct(b)
        invariant
            at <= i <= tokens.len(),
            ts == views(tokens@),
            first_of(ts, at as int, a, b) == first_of(ts, i as int, a, b),
        decreases tokens.len() - i,
    {
        i += 1;
    }
    proof {
        lemma_first_of(ts, at as int, a, b);
    }
    i
}

/// The place that a missing expression is reported at: the `,` that ended
/// the scan; at the end of the tokens their last token, or `scope` where
/// the scan began at the end.
pub open spec fn last_place(ts: Seq<Tok>, at: int, scope: Span) -> Span {
    let stop = boundary(ts, at);
    if stop < ts.len() {
        ts[stop].span()
    } else if at < ts.len() {
        ts.last().span()
    } else {
        scope
    }
}

/// The tokens from `at` up to, not including, the first `,` outside every
/// group; the place that a missing expression is reported at; and the
/// position of that `,`, or the end.
pub fn get_token_stream(tokens: &Vec<Token>, at: usize, scope: Span) -> (r: (
    Vec<Token>,
    Span,
    usize,
))
    requires
        at <= tokens.len(),
    ensures
        r.2 as int == boundary(views(tokens@), at as int),
        at <= r.2 <= tokens.len(),
        views(r.0@) == views(tokens@).subrange(at as int, r.2 as int),
        r.1 == last_place(views(tokens@), at as int, scope),
{
    let stop = find_boundary(tokens, at);
    let last_span = if stop < tokens.len() {
        tokens[stop].span()
    } else if at < tokens.len() {
        tokens[tokens.len() - 1].span()
    } else {
        scope
    };
    (slice(tokens, at, stop), last_span, stop)
}

/// What reading an expression from the position `at` gives: the tokens up to
/// the boundary, taken as one expression. No token before the boundary is a
/// problem at the boundary; tokens that the grammar refuses are a problem,
/// with the grammar's message, at the last of them.
pub open spec fn expression(ts: Seq<Tok>, at: int, scope: Span) -> Result<
    (ExprView, int),
    DiagnosticView,
> {
    let stop = boundary(ts, at);
    if stop == at {
        Err(error(last_place(ts, at, scope), "Expected expression."@))
    } else {
        match Expr::of(ts.subrange(at, stop)) {
            Ok(e) => Ok((e, stop)),
            Err(message) => Err(error(ts[stop - 1].span(), message)),
        }
    }
}

/// Where the expression that begins at `at` ends, among the boundaries
/// from `stop` on: at the first of them up to which the tokens are an
/// expression. A `,` may stand inside an expression, as between the
/// parameters of a closure, so that the tokens up to the first boundary
/// need not be the whole of it.
pub open spec fn expression_end(ts: Seq<Tok>, at: int, stop: int) -> Option<int>
    decreases ts.len() - stop,
{
    let next = boundary(ts, stop + 1);
    if Expr::of(ts.subrange(at, stop)) is Ok {
        Some(stop)
    } else if 0 <= stop < next <= ts.len() {
        expression_end(ts, at, next)
    } else {
        None
    }
}

/// What reading an expression from the position `at` gives, where the
/// grammar decides how far the expression goes: the tokens up to the first
/// boundary up to which they are an expression. No token before the first
/// boundary is a problem at that boundary; where the tokens are an
/// expression up to no boundary, the problem is that of the tokens up to
/// the first, with the grammar's message, at the last of them.
pub open spec fn whole_expression(ts: Seq<Tok>, at: int, scope: Span) -> Result<
    (ExprView, int),
    DiagnosticView,
> {
    let first = boundary(ts, at);
    if first == at {
        Err(error(last_place(ts, at, scope), "Expected expression."@))
    } else {
        match expression_end(ts, at, first) {
            Some(stop) => Ok((Expr::of(ts.subrange(at, stop))->Ok_0, stop)),
            None => Err(error(ts[first - 1].span(), Expr::of(ts.subrange(at, first))->Err_0)),
        }
    }
}

impl Parse for Expr {
    open spec fn parsed(ts: Seq<Tok>, at: int, scope: Span) -> Result<
        (ExprView, int),
        DiagnosticView,
    > {
        whole_expression(ts, at, scope)
    }

    fn parse(tokens: &Vec<Token>, at: usize, scope: Span) -> (r: Result<(Expr, usize), Diagnostic>) {
        let ghost ts = views(tokens@);
        let (found, last_span, first) = get_token_stream(tokens, at, scope);
        if first == at {
            return Err(problem(last_span, "Expected expression."));
        }
        let message = match Expr::from_tokens(found) {
            Ok(e) => {
                return Ok((e, first));
            },
            Err(message) => message,
        };
        let mut stop = first;
        while stop < tokens.len()
            invariant
                at < first <= stop <= tokens.len(),
                ts == views(tokens@),
                first as int == boundary(ts, at as int),
                Expr::of(ts.subrange(at as int, stop as int)) is Err,
                expression_end(ts, at as int, first as int) == expression_end(
                    ts,
                    at as int,
                    stop as int,
                ),
            decreases tokens.len() - stop,
        {
            let next = find_boundary(tokens, stop + 1);
            assert(expression_end(ts, at as int, stop as int) == expression_end(
                ts,
                at as int,
                next as int,
            ));
            match Expr::from_tokens(slice(tokens, at, next)) {
                Ok(e) => {
                    assert(expression_end(ts, at as int, next as int) == Some(next as int));
                    return Ok((e, next));
                },
                Err(_) => {},
            }
            stop = next;
        }
        assert(expression_end(ts, at as int, stop as int) is None);
        Err(Diagnostic { span: tokens[first - 1].span(), message, help: None })
    }
}

impl ToTokens for Expr {
    open spec fn tokens(v: ExprView) -> Seq<Tok> {
        v.tokens
    }

    fn to_tokens(&self, out: &mut Vec<Token>) {
        extend(out, &self.tokens);
    }
}

/// An expression that ends at the first boundary.
#[derive(Debug, PartialEq, Eq)]
pub struct Expr2 {
    pub expr: Expr,
}

impl View for Expr2 {
    type V = ExprView;

    open spec fn view(&self) -> ExprView {
        self.expr@
    }
}

impl Expr2 {
    /// The expression.
    pub fn expr(&self) -> (r: &Expr)
        ensures
            r@ == self@,
    {
        &self.expr
    }
}

impl ToTokens for Expr2 {
    open spec fn tokens(v: ExprView) -> Seq<Tok> {
        v.tokens
    }

    fn to_tokens(&self, out: &mut Vec<Token>) {
        self.expr.to_tokens(out);
    }
}

impl Parse for Expr2 {
    open spec fn parsed(ts: Seq<Tok>, at: int, scope: Span) -> Result<
        (ExprView, int),
        DiagnosticView,
    > {
        expression(ts, at, scope)
    }

    fn parse(tokens: &Vec<Token>, at: usize, scope: Span) -> (r: Result<(Expr2, usize), Diagnostic>) {
        let (found, last_span, stop) = get_token_stream(tokens, at, scope);
        if stop == at {
            return Err(problem(last_span, "Expected expression."));
        }
        match Expr::from_tokens(found) {
            Ok(expr) => Ok((Expr2 { expr }, stop)),
            Err(message) => Err(
                Diagnostic { span: tokens[stop - 1].span(), message, help: None },
            ),
        }
    }
}

} // verus!

//! References to the fields of a variant.
//!
//! Inside a value, `#self.field` stands for the field `field` of the variant
//! that the value is assigned for, and `#self.0` for its first positional
//! field. The resolver rewrites each such reference into a plain identifier
//! and records which fields were named, and where.

use vstd::prelude::*;
use crate::diag::{diagnostics, emit_error, error, Diagnostic, DiagnosticView};
use crate::model::{
    lemma_position_absent, lemma_position_found, lemma_view_all_push, option_view, position,
    view_all,
};
use crate::node::{cover, span_of};
use crate::syntax::{read_lit, syn_lit, LiteralShape, LiteralShapeView};
use crate::expr2::{boundary, find_boundary};
use crate::parse::{extend, place, span_at, Parse, ToTokens, TokenStream};
use crate::syntax::{is_readable, readable};
use crate::token::{lemma_views_push, slice, views, Delimiter, Span, Tok, Token};

verus! {

/// A name that was referred to, with every place it was written at.
#[derive(Debug, PartialEq, Eq)]
pub struct Reference {
    pub name: String,
    pub spans: Vec<Span>,
}

/// The mathematical value of a [`Reference`].
pub struct ReferenceView {
    pub name: Seq<char>,
    pub spans: Seq<Span>,
}

impl View for Reference {
    type V = ReferenceView;

    open spec fn view(&self) -> ReferenceView {
        ReferenceView { name: self.name@, spans: self.spans@ }
    }
}

/// The fields that were referred to through one root, such as `self`.
#[derive(Debug, PartialEq, Eq)]
pub struct ReferenceList {
    pub name: Reference,
    pub list: Vec<Reference>,
}

/// The mathematical value of a [`ReferenceList`].
pub struct ReferenceListView {
    pub name: ReferenceView,
    pub list: Seq<ReferenceView>,
}

impl View for ReferenceList {
    type V = ReferenceListView;

    open spec fn view(&self) -> ReferenceListView {
        ReferenceListView { name: self.name@, list: view_all(self.list@) }
    }
}

/// The names of the references in `list`.
pub open spec fn names(list: Seq<ReferenceView>) -> Seq<Seq<char>> {
    Seq::new(list.len(), |i: int| list[i].name)
}

/// The names of the roots in `lists`.
pub open spec fn roots(lists: Seq<ReferenceListView>) -> Seq<Seq<char>> {
    Seq::new(lists.len(), |i: int| lists[i].name.name)
}

/// `list` after `name` was written at `span`: the place is added to the
/// reference of that name, or a new reference is added at the end.
pub open spec fn record(list: Seq<ReferenceView>, name: Seq<char>, span: Span) -> Seq<
    ReferenceView,
> {
    match position(names(list), name) {
        Some(i) => list.update(i, ReferenceView { name: list[i].name, spans: list[i].spans.push(span) }),
        None => list.push(ReferenceView { name, spans: seq![span] }),
    }
}

/// `lists` after the field `name` was written at `span` behind the root at
/// `index`; unchanged where there is no such root.
pub open spec fn record_at(
    lists: Seq<ReferenceListView>,
    index: int,
    name: Seq<char>,
    span: Span,
) -> Seq<ReferenceListView> {
    if 0 <= index < lists.len() {
        lists.update(
            index,
            ReferenceListView {
                name: lists[index].name,
                list: record(lists[index].list, name, span),
            },
        )
    } else {
        lists
    }
}

impl Reference {
    /// The name `name`, written at `span`.
    pub fn new(name: String, span: Span) -> (r: Reference)
        ensures
            r@ == (ReferenceView { name: name@, spans: seq![span] }),
    {
        let mut spans: Vec<Span> = Vec::new();
        spans.push(span);
        assert(spans@ =~= seq![span]);
        Reference { name, spans }
    }

    /// The name.
    pub fn name(&self) -> (r: &str)
        ensures
            r@ == self@.name,
    {
        self.name.as_str()
    }

    /// Reports `msg` at every place the name was written at.
    pub fn emit_error(&self, msg: &str, diags: &mut Vec<Diagnostic>)
        ensures
            diagnostics(final(diags)@) == diagnostics(old(diags)@) + Seq::new(
                self@.spans.len(),
                |i: int| error(self@.spans[i], msg@),
            ),
    {
        let mut i: usize = 0;
        assert(diagnostics(diags@) =~= diagnostics(old(diags)@) + Seq::new(
            0,
            |i: int| error(self@.spans[i], msg@),
        ));
        while i < self.spans.len()
            invariant
                i <= self.spans.len(),
                diagnostics(diags@) == diagnostics(old(diags)@) + Seq::new(
                    i as nat,
                    |i: int| error(self@.spans[i], msg@),
                ),
            decreases self.spans.len() - i,
        {
            emit_error(diags, self.spans[i], String::from_str(msg));
            assert(diagnostics(diags@) =~= diagnostics(old(diags)@) + Seq::new(
                (i + 1) as nat,
                |i: int| error(self@.spans[i], msg@),
            ));
            i += 1;
        }
    }
}

impl ReferenceList {
    /// The root `name`, without fields.
    pub fn new(name: Reference) -> (r: ReferenceList)
        ensures
            r@ == (ReferenceListView { name: name@, list: Seq::empty() }),
    {
        let r = ReferenceList { name, list: Vec::new() };
        assert(r@.list =~= Seq::empty());
        r
    }

    /// The root.
    pub fn name(&self) -> (r: &Reference)
        ensures
            r@ == self@.name,
    {
        &self.name
    }

    /// The fields that were referred to through the root.
    pub fn into_list(self) -> (r: Vec<Reference>)
        ensures
            view_all(r@) == self@.list,
    {
        self.list
    }
}

/// Where the scanner stands between two tokens.
#[derive(Clone, Copy, Debug, PartialEq, Eq, Structural)]
pub enum State {
    /// Outside a reference.
    Outside,
    /// Behind `#`: the root's name is due.
    ExpectingReference,
    /// Behind the root's name: `.` is due.
    ExpectingPoint,
    /// Behind `.`: the field's name or number is due.
    ExpectingIdent,
}

/// What the scanner holds between two tokens.
pub struct Scan {
    /// The rewritten tokens so far.
    pub out: Seq<Tok>,
    /// The references so far.
    pub references: Seq<ReferenceListView>,
    /// The problems found so far.
    pub diags: Seq<DiagnosticView>,
    pub state: State,
    /// The place in `references` of the root that was named last.
    pub index: int,
    /// Whether a problem was found.
    pub errored: bool,
}

/// The scanner before the first token.
pub open spec fn start(references: Seq<ReferenceListView>) -> Scan {
    Scan {
        out: Seq::empty(),
        references,
        diags: Seq::empty(),
        state: State::Outside,
        index: 0,
        errored: false,
    }
}

/// The scanner after a problem: the problem is reported and the reference
/// given up.
pub open spec fn fail(s: Scan, span: Span, message: Seq<char>) -> Scan {
    Scan { diags: s.diags.push(error(span, message)), state: State::Outside, errored: true, ..s }
}

/// The scanner after a group outside a reference: the group stays, with what
/// the scan of its own tokens, `inner`, made of them.
pub open spec fn enter(s: Scan, delimiter: Delimiter, span: Span, inner: Scan) -> Scan {
    Scan {
        out: s.out.push(Tok::Group { delimiter, span, stream: inner.out }),
        references: inner.references,
        diags: s.diags + inner.diags,
        state: State::Outside,
        index: s.index,
        errored: s.errored || inner.errored,
    }
}

/// The scanner after the root's name `text`, written at `span`. The one
/// root is `self`: its list is found or made. Any other name is a problem,
/// after which the scan goes on behind the name.
pub open spec fn root(s: Scan, text: Seq<char>, span: Span) -> Scan {
    if text == "self"@ {
        match position(roots(s.references), "self"@) {
            Some(i) => Scan { index: i, state: State::ExpectingPoint, ..s },
            None => Scan {
                references: s.references.push(
                    ReferenceListView {
                        name: ReferenceView { name: text, spans: seq![span] },
                        list: Seq::empty(),
                    },
                ),
                index: s.references.len() as int,
                state: State::ExpectingPoint,
                ..s
            },
        }
    } else {
        Scan {
            diags: s.diags.push(error(span, "Unknown reference."@)),
            state: State::ExpectingPoint,
            errored: true,
            ..s
        }
    }
}

/// The scanner after the field's name: the token `field` takes the place of
/// the whole reference, and `name` is recorded at `span`.
pub open spec fn field(s: Scan, token: Tok, name: Seq<char>, span: Span) -> Scan {
    Scan {
        out: s.out.push(token),
        references: record_at(s.references, s.index, name, span),
        state: State::Outside,
        ..s
    }
}

/// The number that the literal `text` is, in its source form: the grammar
/// can be asked about the text, and takes it for an integer literal.
pub open spec fn number(text: Seq<char>) -> Option<Seq<char>> {
    if readable(text) {
        match syn_lit(text) {
            LiteralShapeView::Int { digits } => Some(digits),
            _ => None,
        }
    } else {
        None
    }
}

/// The number that the literal `text` is, in its source form.
fn read_number(text: &str) -> (r: Option<String>)
    ensures
        option_view(r) == number(text@),
{
    if !is_readable(text) {
        return None;
    }
    match read_lit(text) {
        LiteralShape::Int { digits } => Some(digits),
        _ => None,
    }
}

/// The identifier that a positional field is referred to by: `_` and the
/// field's number.
pub open spec fn positional(digits: Seq<char>) -> Seq<char> {
    "_"@ + digits
}

/// The scanner after one more token.
///
/// Outside a reference every token stays, but for the marker `#`, which
/// begins a reference and is never written. Behind the marker a group is no
/// reference: the scanner is outside again, and the group is read as
/// outside, so that it stays, with the references inside it resolved.
pub open spec fn step(s: Scan, t: Tok) -> Scan
    decreases t, 0nat,
{
    match s.state {
        State::Outside => match t {
            Tok::Group { delimiter, span, stream } => enter(
                s,
                delimiter,
                span,
                resolve(stream, s.references),
            ),
            Tok::Punct { ch, .. } => if ch == '#' {
                Scan { state: State::ExpectingReference, ..s }
            } else {
                Scan { out: s.out.push(t), ..s }
            },
            _ => Scan { out: s.out.push(t), ..s },
        },
        State::ExpectingReference => match t {
            Tok::Group { delimiter, span, stream } => enter(
                s,
                delimiter,
                span,
                resolve(stream, s.references),
            ),
            Tok::Ident { text, span } => root(s, text, span),
            _ => fail(s, t.span(), "Expecting reference ident or `[`."@),
        },
        State::ExpectingPoint => if t.is_punct('.') {
            Scan { state: State::ExpectingIdent, ..s }
        } else {
            fail(s, t.span(), "Expecting `.`."@)
        },
        State::ExpectingIdent => match t {
            Tok::Ident { text, span } => field(s, t, text, span),
            Tok::Literal { text, span } => match number(text) {
                Some(digits) => field(
                    s,
                    Tok::Ident { text: positional(digits), span },
                    digits,
                    span,
                ),
                None => fail(s, span, "Expecting ident or integer."@),
            },
            _ => fail(s, t.span(), "Expecting ident."@),
        },
    }
}

/// The scanner after the tokens `ts`, one after the other.
pub open spec fn scan(ts: Seq<Tok>, s: Scan) -> Scan
    decreases ts, 1nat,
{
    if ts.len() == 0 {
        s
    } else {
        step(scan(ts.drop_last(), s), ts.last())
    }
}

/// The scanner at the end of the tokens: a reference that was begun and not
/// ended is a problem at the place `last` of the last token.
pub open spec fn finish(s: Scan, last: Span) -> Scan {
    match s.state {
        State::Outside => s,
        State::ExpectingReference => fail(s, last, "Expecting reference ident or `[`."@),
        State::ExpectingPoint => fail(s, last, "Expecting `.`."@),
        State::ExpectingIdent => fail(s, last, "Expecting field ident."@),
    }
}

/// The whole scan of the tokens `ts`, begun with the references
/// `references`: the rewritten tokens, the references, the problems.
pub open spec fn resolve(ts: Seq<Tok>, references: Seq<ReferenceListView>) -> Scan
    decreases ts, 2nat,
{
    if ts.len() == 0 {
        start(references)
    } else {
        finish(scan(ts, start(references)), ts.last().span())
    }
}

/// The scan of one more token is one step behind the scan before it.
pub proof fn lemma_scan_step(ts: Seq<Tok>, i: int, s: Scan)
    requires
        0 <= i < ts.len(),
    ensures
        scan(ts.take(i + 1), s) == step(scan(ts.take(i), s), ts[i]),
{
    assert(ts.take(i + 1).drop_last() =~= ts.take(i));
}

/// The first place in `list` of the reference named `name`.
pub fn find_reference(list: &Vec<Reference>, name: &str) -> (r: Option<usize>)
    ensures
        (match r {
            Some(i) => Some(i as int),
            None => None,
        }) == position(names(view_all(list@)), name@),
{
    let ghost all = names(view_all(list@));
    let mut i: usize = 0;
    while i < list.len()
        invariant
            i <= list.len(),
            all == names(view_all(list@)),
            forall|j: int| 0 <= j < i ==> all[j] != name@,
        decreases list.len() - i,
    {
        if list[i].name.as_str().eq(name) {
            proof {
                assert(all[i as int] == name@);
                lemma_position_found(all, name@, i as int);
            }
            return Some(i);
        }
        assert(all[i as int] != name@);
        i += 1;
    }
    proof {
        lemma_position_absent(all, name@);
    }
    None
}

/// The first place in `lists` of the root named `name`.
fn find_root(lists: &Vec<ReferenceList>, name: &str) -> (r: Option<usize>)
    ensures
        (match r {
            Some(i) => Some(i as int),
            None => None,
        }) == position(roots(view_all(lists@)), name@),
{
    let ghost all = roots(view_all(lists@));
    let mut i: usize = 0;
    while i < lists.len()
        invariant
            i <= lists.len(),
            all == roots(view_all(lists@)),
            forall|j: int| 0 <= j < i ==> all[j] != name@,
        decreases lists.len() - i,
    {
        if lists[i].name.name.as_str().eq(name) {
            proof {
                assert(all[i as int] == name@);
                lemma_position_found(all, name@, i as int);
            }
            return Some(i);
        }
        assert(all[i as int] != name@);
        i += 1;
    }
    proof {
        lemma_position_absent(all, name@);
    }
    None
}

/// Records that `name` was written at `span`.
fn record_reference(list: &mut Vec<Reference>, name: String, span: Span)
    ensures
        view_all(final(list)@) == record(view_all(old(list)@), name@, span),
{
    match find_reference(list, name.as_str()) {
        Some(i) => {
            let mut reference = list.remove(i);
            reference.spans.push(span);
            list.insert(i, reference);
            assert(view_all(list@) =~= record(view_all(old(list)@), name@, span));
        },
        None => {
            list.push(Reference::new(name, span));
            assert(view_all(list@) =~= record(view_all(old(list)@), name@, span));
        },
    }
}

/// Records that the field `name` was written at `span` behind the root at
/// `index`.
fn record_field(lists: &mut Vec<ReferenceList>, index: usize, name: String, span: Span)
    ensures
        view_all(final(lists)@) == record_at(view_all(old(lists)@), index as int, name@, span),
{
    if index < lists.len() {
        let mut root = lists.remove(index);
        record_reference(&mut root.list, name, span);
        lists.insert(index, root);
        assert(view_all(lists@) =~= record_at(view_all(old(lists)@), index as int, name@, span));
    }
}

/// Rewrites the references in `tokens` and records them in `references`;
/// problems go to `diags`. Returns the rewritten tokens, and whether a
/// problem was found.
pub fn parse_references(
    tokens: &Vec<Token>,
    references: &mut Vec<ReferenceList>,
    diags: &mut Vec<Diagnostic>,
) -> (r: (Vec<Token>, bool))
    ensures
        ({
            let s = resolve(views(tokens@), view_all(old(references)@));
            &&& views(r.0@) == s.out
            &&& r.1 == s.errored
            &&& view_all(final(references)@) == s.references
            &&& diagnostics(final(diags)@) == diagnostics(old(diags)@) + s.diags
        }),
    decreases tokens,
{
    let ghost ts = views(tokens@);
    let ghost first = start(view_all(old(references)@));
    let ghost before = diagnostics(old(diags)@);
    let mut new_tokens: Vec<Token> = Vec::new();
    let mut state = State::Outside;
    let mut index: usize = 0;
    let mut errored = false;
    let mut i: usize = 0;
    proof {
        assert(ts.take(0) =~= Seq::<Tok>::empty());
        assert(views(new_tokens@) =~= Seq::<Tok>::empty());
        assert(diagnostics(diags@) =~= before + first.diags);
    }
    while i < tokens.len()
        invariant
            i <= tokens.len(),
            ts == views(tokens@),
            first == start(view_all(old(references)@)),
            before == diagnostics(old(diags)@),
            ({
                let s = scan(ts.take(i as int), first);
                &&& views(new_tokens@) == s.out
                &&& view_all(references@) == s.references
                &&& diagnostics(diags@) == before + s.diags
                &&& state == s.state
                &&& index as int == s.index
                &&& errored == s.errored
            }),
        decreases tokens.len() - i,
    {
        let tt = &tokens[i];
        let ghost s = scan(ts.take(i as int), first);
        let ghost next = step(s, tt@);
        proof {
            lemma_scan_step(ts, i as int, first);
            assert(ts[i as int] == tt@);
        }
        match state {
            State::Outside => {
                match tt {
                    Token::Group { delimiter, span, stream } => {
                        let (inner, inner_errored) = parse_references(stream, references, diags);
                        proof {
                            lemma_views_push(
                                new_tokens@,
                                Token::Group { delimiter: *delimiter, span: *span, stream: inner },
                            );
                            assert(diagnostics(diags@) =~= before + next.diags);
                        }
                        new_tokens.push(
                            Token::Group { delimiter: *delimiter, span: *span, stream: inner },
                        );
                        errored = errored || inner_errored;
                    },
                    Token::Punct { ch, .. } => {
                        if *ch == '#' {
                            state = State::ExpectingReference;
                        } else {
                            let copy = tt.duplicate();
                            proof {
                                lemma_views_push(new_tokens@, copy);
                            }
                            new_tokens.push(copy);
                        }
                    },
                    _ => {
                        let copy = tt.duplicate();
                        proof {
                            lemma_views_push(new_tokens@, copy);
                        }
                        new_tokens.push(copy);
                    },
                }
            },
            State::ExpectingReference => {
                match tt {
                    Token::Group { delimiter, span, stream } => {
                        let (inner, inner_errored) = parse_references(stream, references, diags);
                        proof {
                            lemma_views_push(
                                new_tokens@,
                                Token::Group { delimiter: *delimiter, span: *span, stream: inner },
                            );
                            assert(diagnostics(diags@) =~= before + next.diags);
                        }
                        new_tokens.push(
                            Token::Group { delimiter: *delimiter, span: *span, stream: inner },
                        );
                        errored = errored || inner_errored;
                        state = State::Outside;
                    },
                    Token::Ident { text, span } => {
                        if text.as_str().eq("self") {
                            match find_root(references, "self") {
                                Some(found) => {
                                    index = found;
                                },
                                None => {
                                    index = references.len();
                                    let list = ReferenceList::new(
                                        Reference::new(text.clone(), *span),
                                    );
                                    proof {
                                        lemma_view_all_push(references@, list);
                                    }
                                    references.push(list);
                                },
                            }
                        } else {
                            emit_error(diags, *span, String::from_str("Unknown reference."));
                            assert(diagnostics(diags@) =~= before + next.diags);
                            errored = true;
                        }
                        state = State::ExpectingPoint;
                    },
                    _ => {
                        emit_error(
                            diags,
                            tt.span(),
                            String::from_str("Expecting reference ident or `[`."),
                        );
                        assert(diagnostics(diags@) =~= before + next.diags);
                        state = State::Outside;
                        errored = true;
                    },
                }
            },
            State::ExpectingPoint => {
                if tt.is_punct('.') {
                    state = State::ExpectingIdent;
                } else {
                    emit_error(diags, tt.span(), String::from_str("Expecting `.`."));
                    assert(diagnostics(diags@) =~= before + next.diags);
                    state = State::Outside;
                    errored = true;
                }
            },
            State::ExpectingIdent => {
                match tt {
                    Token::Ident { text, span } => {
                        let copy = tt.duplicate();
                        proof {
                            lemma_views_push(new_tokens@, copy);
                        }
                        new_tokens.push(copy);
                        record_field(references, index, text.clone(), *span);
                        state = State::Outside;
                    },
                    Token::Literal { text, span } => {
                        match read_number(text.as_str()) {
                            Some(digits) => {
                                let mut name = String::from_str("_");
                                name.append(digits.as_str());
                                let field = Token::Ident { text: name, span: *span };
                                proof {
                                    lemma_views_push(new_tokens@, field);
                                }
                                new_tokens.push(field);
                                record_field(references, index, digits, *span);
                                state = State::Outside;
                            },
                            None => {
                                emit_error(
                                    diags,
                                    *span,
                                    String::from_str("Expecting ident or integer."),
                                );
                                assert(diagnostics(diags@) =~= before + next.diags);
                                state = State::Outside;
                                errored = true;
                            },
                        }
                    },
                    _ => {
                        emit_error(diags, tt.span(), String::from_str("Expecting ident."));
                        assert(diagnostics(diags@) =~= before + next.diags);
                        state = State::Outside;
                        errored = true;
                    },
                }
            },
        }
        i += 1;
    }
    proof {
        assert(ts.take(tokens@.len() as int) =~= ts);
    }
    if tokens.len() > 0 {
        let last_span = tokens[tokens.len() - 1].span();
        match state {
            State::Outside => {},
            State::ExpectingReference => {
                emit_error(diags, last_span, String::from_str("Expecting reference ident or `[`."));
                errored = true;
            },
            State::ExpectingPoint => {
                emit_error(diags, last_span, String::from_str("Expecting `.`."));
                errored = true;
            },
            State::ExpectingIdent => {
                emit_error(diags, last_span, String::from_str("Expecting field ident."));
                errored = true;
            },
        }
        proof {
            let s = resolve(ts, first.references);
            assert(diagnostics(diags@) =~= before + s.diags);
        }
    }
    (new_tokens, errored)
}

/// Whether no token of `ts`, inside groups or outside, is the marker `#`.
pub open spec fn plain(ts: Seq<Tok>) -> bool
    decreases ts,
{
    forall|i: int| 0 <= i < ts.len() ==> plain_token(#[trigger] ts[i])
}

/// Whether the token `t` is not the marker `#` and, if it is a group, holds
/// no marker.
pub open spec fn plain_token(t: Tok) -> bool
    decreases t,
{
    match t {
        Tok::Punct { ch, .. } => ch != '#',
        Tok::Group { stream, .. } => plain(stream),
        _ => true,
    }
}

/// The scan of the first `n` of tokens without a marker: the tokens stay.
proof fn lemma_plain_scan(ts: Seq<Tok>, n: int, references: Seq<ReferenceListView>)
    requires
        plain(ts),
        0 <= n <= ts.len(),
    ensures
        scan(ts.take(n), start(references)) == (Scan { out: ts.take(n), ..start(references) }),
    decreases ts, n,
{
    let first = start(references);
    if n == 0 {
        assert(ts.take(0) =~= Seq::<Tok>::empty());
    } else {
        lemma_plain_scan(ts, n - 1, references);
        lemma_scan_step(ts, n - 1, first);
        let t = ts[n - 1];
        assert(plain_token(t));
        match t {
            Tok::Group { delimiter, span, stream } => {
                lemma_tokens_without_marker_stay(stream, references);
            },
            _ => {},
        }
        assert(ts.take(n - 1).push(t) =~= ts.take(n));
    }
}

/// Tokens without a marker stay as they are: in tokens of which none, inside
/// groups or outside, is `#`, nothing is rewritten, nothing recorded and
/// nothing reported.
pub proof fn lemma_tokens_without_marker_stay(ts: Seq<Tok>, references: Seq<ReferenceListView>)
    requires
        plain(ts),
    ensures
        resolve(ts, references) == (Scan { out: ts, ..start(references) }),
    decreases ts, ts.len() + 1,
{
    lemma_plain_scan(ts, ts.len() as int, references);
    assert(ts.take(ts.len() as int) =~= ts);
    if ts.len() == 0 {
        assert(ts =~= Seq::<Tok>::empty());
    }
}

/// The scan of the first `n` tokens found a problem exactly if it reported
/// one.
proof fn lemma_scan_reports(ts: Seq<Tok>, n: int, references: Seq<ReferenceListView>)
    requires
        0 <= n <= ts.len(),
    ensures
        scan(ts.take(n), start(references)).errored <==> scan(
            ts.take(n),
            start(references),
        ).diags.len() > 0,
    decreases ts, n,
{
    let first = start(references);
    if n == 0 {
        assert(ts.take(0) =~= Seq::<Tok>::empty());
    } else {
        lemma_scan_reports(ts, n - 1, references);
        lemma_scan_step(ts, n - 1, first);
        let before = scan(ts.take(n - 1), first);
        match ts[n - 1] {
            Tok::Group { delimiter, span, stream } => {
                lemma_refused_means_reported(stream, before.references);
            },
            _ => {},
        }
    }
}

/// A value is refused exactly if a problem is reported: the scan of tokens
/// says that it found a problem if and only if it holds at least one.
pub proof fn lemma_refused_means_reported(ts: Seq<Tok>, references: Seq<ReferenceListView>)
    ensures
        resolve(ts, references).errored <==> resolve(ts, references).diags.len() > 0,
    decreases ts, ts.len() + 1,
{
    lemma_scan_reports(ts, ts.len() as int, references);
    assert(ts.take(ts.len() as int) =~= ts);
}

/// What the scan of the four tokens of one reference comes to, written out:
/// the scanner after `#`, the root `self` at `at`, and `.`.
proof fn lemma_reference_head(pound: Tok, root_token: Tok, point: Tok, last: Tok, at: Span)
    requires
        pound.is_punct('#'),
        root_token == (Tok::Ident { text: "self"@, span: at }),
        point.is_punct('.'),
    ensures
        scan(seq![pound, root_token, point, last], start(Seq::empty())) == step(
            Scan {
                references: seq![
                    ReferenceListView {
                        name: ReferenceView { name: "self"@, spans: seq![at] },
                        list: Seq::empty(),
                    },
                ],
                state: State::ExpectingIdent,
                ..start(Seq::empty())
            },
            last,
        ),
{
    let s0 = start(Seq::empty());
    let ts = seq![pound, root_token, point, last];
    assert(ts.take(0) =~= Seq::<Tok>::empty());
    assert(ts.take(4) =~= ts);
    assert(scan(ts.take(0), s0) == s0);
    lemma_scan_step(ts, 0, s0);
    lemma_scan_step(ts, 1, s0);
    lemma_scan_step(ts, 2, s0);
    lemma_scan_step(ts, 3, s0);
    let s1 = scan(ts.take(1), s0);
    assert(s1 == Scan { state: State::ExpectingReference, ..s0 });
    assert(roots(s0.references) =~= Seq::<Seq<char>>::empty());
    lemma_position_absent(roots(s0.references), "self"@);
    let s2 = scan(ts.take(2), s0);
    assert(s2 == root(s1, "self"@, at));
    assert(s2.references =~= seq![
        ReferenceListView {
            name: ReferenceView { name: "self"@, spans: seq![at] },
            list: Seq::empty(),
        },
    ]);
}

/// A reference to a named field: `#self.field` is rewritten to the
/// identifier `field` alone, nothing is reported, and `field` is recorded
/// once, at the place it was written at.
pub proof fn lemma_named_reference(
    pound: Tok,
    root_token: Tok,
    point: Tok,
    name: Seq<char>,
    at: Span,
    span: Span,
)
    requires
        pound.is_punct('#'),
        root_token == (Tok::Ident { text: "self"@, span: at }),
        point.is_punct('.'),
    ensures
        ({
            let field_token = Tok::Ident { text: name, span };
            let s = resolve(seq![pound, root_token, point, field_token], Seq::empty());
            &&& s.out == seq![field_token]
            &&& !s.errored
            &&& s.diags == Seq::<DiagnosticView>::empty()
            &&& s.references == seq![
                ReferenceListView {
                    name: ReferenceView { name: "self"@, spans: seq![at] },
                    list: seq![ReferenceView { name, spans: seq![span] }],
                },
            ]
        }),
{
    let field_token = Tok::Ident { text: name, span };
    lemma_reference_head(pound, root_token, point, field_token, at);
    let s = resolve(seq![pound, root_token, point, field_token], Seq::empty());
    assert(names(Seq::<ReferenceView>::empty()) =~= Seq::<Seq<char>>::empty());
    lemma_position_absent(names(Seq::<ReferenceView>::empty()), name);
    assert(s.out =~= seq![field_token]);
    assert(s.references =~= seq![
        ReferenceListView {
            name: ReferenceView { name: "self"@, spans: seq![at] },
            list: seq![ReferenceView { name, spans: seq![span] }],
        },
    ]);
}

/// A reference to a positional field: `#self.N`, where `N` is an integer
/// literal, is rewritten to the identifier `_N` alone, nothing is reported,
/// and `N` is recorded once, at the place it was written at.
pub proof fn lemma_positional_reference(
    pound: Tok,
    root_token: Tok,
    point: Tok,
    literal: Seq<char>,
    digits: Seq<char>,
    at: Span,
    span: Span,
)
    requires
        pound.is_punct('#'),
        root_token == (Tok::Ident { text: "self"@, span: at }),
        point.is_punct('.'),
        number(literal) == Some(digits),
    ensures
        ({
            let number = Tok::Literal { text: literal, span };
            let s = resolve(seq![pound, root_token, point, number], Seq::empty());
            &&& s.out == seq![Tok::Ident { text: positional(digits), span }]
            &&& !s.errored
            &&& s.diags == Seq::<DiagnosticView>::empty()
            &&& s.references == seq![
                ReferenceListView {
                    name: ReferenceView { name: "self"@, spans: seq![at] },
                    list: seq![ReferenceView { name: digits, spans: seq![span] }],
                },
            ]
        }),
{
    let number = Tok::Literal { text: literal, span };
    lemma_reference_head(pound, root_token, point, number, at);
    let s = resolve(seq![pound, root_token, point, number], Seq::empty());
    assert(names(Seq::<ReferenceView>::empty()) =~= Seq::<Seq<char>>::empty());
    lemma_position_absent(names(Seq::<ReferenceView>::empty()), digits);
    assert(s.out =~= seq![Tok::Ident { text: positional(digits), span }]);
    assert(s.references =~= seq![
        ReferenceListView {
            name: ReferenceView { name: "self"@, spans: seq![at] },
            list: seq![ReferenceView { name: digits, spans: seq![span] }],
        },
    ]);
}

/// The tokens of a value whose references are not resolved yet.
///
/// A `,` is written behind them where the value was the last of its list,
/// and in place of them where there were none, so that a missing or broken
/// value is reported at the place where it ends.
#[derive(Debug, PartialEq, Eq)]
pub struct ReferenceTokens {
    pub tokens: Vec<Token>,
    pub last_span: Option<Span>,
}

/// The mathematical value of a [`ReferenceTokens`].
pub struct ReferenceTokensView {
    pub tokens: Seq<Tok>,
    pub last_span: Option<Span>,
}

impl View for ReferenceTokens {
    type V = ReferenceTokensView;

    open spec fn view(&self) -> ReferenceTokensView {
        ReferenceTokensView { tokens: views(self.tokens@), last_span: self.last_span }
    }
}

/// The token `,` at `span`.
pub open spec fn comma(span: Span) -> Tok {
    Tok::Punct { ch: ',', joint: false, span }
}

/// The tokens from `at` up to the first `,` outside every group, whether
/// the end was reached without one, and where the scan stopped.
pub fn get_tokens(tokens: &Vec<Token>, at: usize) -> (r: (Vec<Token>, bool, usize))
    requires
        at <= tokens.len(),
    ensures
        r.2 as int == boundary(views(tokens@), at as int),
        at <= r.2 <= tokens.len(),
        views(r.0@) == views(tokens@).subrange(at as int, r.2 as int),
        r.1 == (r.2 == tokens.len()),
{
    let stop = find_boundary(tokens, at);
    (slice(tokens, at, stop), stop == tokens.len(), stop)
}

impl Parse for ReferenceTokens {
    open spec fn parsed(ts: Seq<Tok>, at: int, scope: Span) -> Result<
        (ReferenceTokensView, int),
        DiagnosticView,
    > {
        let stop = boundary(ts, at);
        if stop == at {
            Ok(
                (
                    ReferenceTokensView {
                        tokens: seq![comma(place(ts, stop, scope))],
                        last_span: None,
                    },
                    stop,
                ),
            )
        } else {
            Ok(
                (
                    ReferenceTokensView {
                        tokens: ts.subrange(at, stop),
                        last_span: if stop == ts.len() {
                            Some(scope)
                        } else {
                            None
                        },
                    },
                    stop,
                ),
            )
        }
    }

    fn parse(tokens: &Vec<Token>, at: usize, scope: Span) -> (r: Result<
        (ReferenceTokens, usize),
        Diagnostic,
    >) {
        let (mut found, add_comma, stop) = get_tokens(tokens, at);
        assert(views(found@).len() == found@.len());
        if found.len() == 0 {
            let t = Token::punct(',', span_at(tokens, stop, scope));
            proof {
                lemma_views_push(found@, t);
                assert(views(found@).push(t@) =~= seq![comma(place(views(tokens@), stop as int, scope))]);
            }
            found.push(t);
            return Ok((ReferenceTokens { tokens: found, last_span: None }, stop));
        }
        let last_span = if add_comma {
            Some(scope)
        } else {
            None
        };
        Ok((ReferenceTokens { tokens: found, last_span }, stop))
    }
}

impl ToTokens for ReferenceTokens {
    open spec fn tokens(v: ReferenceTokensView) -> Seq<Tok> {
        match v.last_span {
            Some(span) => v.tokens.push(comma(span)),
            None => v.tokens,
        }
    }

    fn to_tokens(&self, out: &mut Vec<Token>) {
        extend(out, &self.tokens);
        match self.last_span {
            Some(span) => {
                let t = Token::punct(',', span);
                proof {
                    lemma_views_push(out@, t);
                    assert(views(out@).push(t@) =~= views(old(out)@) + Self::tokens(self@));
                }
                out.push(t);
            },
            None => {},
        }
    }
}

/// A value whose references are resolved: the rewritten tokens, the
/// references that were found, and the place of the value as it was written.
#[derive(Debug, PartialEq, Eq)]
pub struct ReferenceProcessor {
    pub tokens: Vec<Token>,
    pub references: Vec<ReferenceList>,
    pub span: Span,
}

/// The mathematical value of a [`ReferenceProcessor`].
pub struct ReferenceProcessorView {
    pub tokens: Seq<Tok>,
    pub references: Seq<ReferenceListView>,
    pub span: Span,
}

impl View for ReferenceProcessor {
    type V = ReferenceProcessorView;

    open spec fn view(&self) -> ReferenceProcessorView {
        ReferenceProcessorView {
            tokens: views(self.tokens@),
            references: view_all(self.references@),
            span: self.span,
        }
    }
}

/// What resolving the references in `ts` gives, where no problem is found.
pub open spec fn processed(ts: Seq<Tok>) -> Option<ReferenceProcessorView> {
    let s = resolve(ts, Seq::empty());
    if s.errored {
        None
    } else {
        Some(
            ReferenceProcessorView {
                tokens: s.out,
                references: s.references,
                span: cover(ts, Span::site()),
            },
        )
    }
}

impl ReferenceProcessor {
    /// The rewritten tokens, the references, and the place of the value.
    pub fn into_parts(self) -> (r: (Vec<Token>, Vec<ReferenceList>, Span))
        ensures
            views(r.0@) == self@.tokens,
            view_all(r.1@) == self@.references,
            r.2 == self@.span,
    {
        (self.tokens, self.references, self.span)
    }

    /// Resolves the references in `tokens`. Every problem goes to `diags`;
    /// with a problem there is no result.
    pub fn parse(tokens: TokenStream, diags: &mut Vec<Diagnostic>) -> (r: Result<Self, ()>)
        ensures
            diagnostics(final(diags)@) == diagnostics(old(diags)@) + resolve(
                tokens@,
                Seq::empty(),
            ).diags,
            (match r {
                Ok(p) => Some(p@),
                Err(_) => None,
            }) == processed(tokens@),
    {
        let span = span_of(&tokens.tokens, Span::call_site());
        let mut references: Vec<ReferenceList> = Vec::new();
        assert(view_all(references@) =~= Seq::empty());
        let (new_tokens, errored) = parse_references(&tokens.tokens, &mut references, diags);
        if errored {
            return Err(());
        }
        Ok(ReferenceProcessor { tokens: new_tokens, references, span })
    }
}

impl ToTokens for ReferenceProcessor {
    open spec fn tokens(v: ReferenceProcessorView) -> Seq<Tok> {
        v.tokens
    }

    fn to_tokens(&self, out: &mut Vec<Token>) {
        extend(out, &self.tokens);
    }
}

} // verus!

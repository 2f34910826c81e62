//! The configuration of an attribute: the documentation of its accessor and
//! the accessor's name.
//!
//! A configuration is written before the attribute's declaration, as
//! `#[doc = "text"]` or `#[function = "name"]`. Problems are collected; what
//! is well written still counts.

use vstd::prelude::*;
use crate::diag::{
    diagnostics, duplicate, emit_error, error, error_duplicate, Diagnostic, DiagnosticView,
};
use crate::model::{option_view, view_all};
use crate::node::{cover, span_of, ExprView, Ident, IdentView, LitStr, LitStrView, PathView};
use crate::opt::{is_path1, path1};
use crate::parse::{
    parse_terminated, peek, place, problem, punct_at, span_at, terminated, Parse,
};
use crate::syntax::{LiteralShape, LiteralShapeView};
use crate::token::{views, Delimiter, Span, Tok, Token};
use crate::value::{ConfigValueAssignment, IdentOptionalValueAssignmentView};

verus! {

/// The value of one configuration as it was written.
pub type DirectiveView = IdentOptionalValueAssignmentView<PathView, ExprView>;

/// The configurations written in one pair of square brackets.
#[derive(Debug, PartialEq, Eq)]
pub struct ConfigDeclarationList {
    pub _pound: Span,
    pub _bracket: Span,
    pub declarations: Vec<ConfigValueAssignment>,
}

/// The mathematical value of a [`ConfigDeclarationList`].
pub struct ConfigDeclarationListView {
    pub pound: Span,
    pub bracket: Span,
    pub declarations: Seq<DirectiveView>,
}

impl View for ConfigDeclarationList {
    type V = ConfigDeclarationListView;

    open spec fn view(&self) -> ConfigDeclarationListView {
        ConfigDeclarationListView {
            pound: self._pound,
            bracket: self._bracket,
            declarations: view_all(self.declarations@),
        }
    }
}

/// What reading one list of configurations from the position `at` gives:
/// `#`, then square brackets around configurations with `,` between them.
pub open spec fn config_list(ts: Seq<Tok>, at: int, scope: Span) -> Result<
    (ConfigDeclarationListView, int),
    DiagnosticView,
> {
    if !punct_at(ts, at, '#') {
        Err(error(place(ts, at, scope), "expected `#`"@))
    } else if at + 1 < ts.len() && ts[at + 1] is Group && ts[at + 1]->Group_delimiter
        == Delimiter::Bracket {
        let bracket = ts[at + 1]->Group_span;
        match terminated::<ConfigValueAssignment>(ts[at + 1]->Group_stream, 0, bracket) {
            Ok(declarations) => Ok(
                (ConfigDeclarationListView { pound: ts[at].span(), bracket, declarations }, at + 2),
            ),
            Err(d) => Err(d),
        }
    } else {
        Err(error(place(ts, at + 1, scope), "expected square brackets"@))
    }
}

impl Parse for ConfigDeclarationList {
    open spec fn parsed(ts: Seq<Tok>, at: int, scope: Span) -> Result<
        (ConfigDeclarationListView, int),
        DiagnosticView,
    > {
        config_list(ts, at, scope)
    }

    fn parse(tokens: &Vec<Token>, at: usize, scope: Span) -> (r: Result<
        (ConfigDeclarationList, usize),
        Diagnostic,
    >) {
        if !peek(tokens, at, '#') {
            return Err(problem(span_at(tokens, at, scope), "expected `#`"));
        }
        if at + 1 < tokens.len() {
            match &tokens[at + 1] {
                Token::Group { delimiter: Delimiter::Bracket, span, stream } => {
                    return match parse_terminated::<ConfigValueAssignment>(stream, 0, *span) {
                        Ok(declarations) => Ok(
                            (
                                ConfigDeclarationList {
                                    _pound: tokens[at].span(),
                                    _bracket: *span,
                                    declarations,
                                },
                                at + 2,
                            ),
                        ),
                        Err(d) => Err(d),
                    };
                },
                _ => {},
            }
        }
        Err(problem(span_at(tokens, at + 1, scope), "expected square brackets"))
    }
}

/// What reading every list of configurations from the position `at` gives:
/// the lists that follow one another, each begun by `#`, and the position
/// behind the last.
pub open spec fn config_lists(ts: Seq<Tok>, at: int, scope: Span) -> Result<
    (Seq<ConfigDeclarationListView>, int),
    DiagnosticView,
>
    decreases ts.len() - at,
{
    if punct_at(ts, at, '#') {
        match config_list(ts, at, scope) {
            Ok((list, next)) => match config_lists(ts, next, scope) {
                Ok((rest, end)) => Ok((seq![list] + rest, end)),
                Err(d) => Err(d),
            },
            Err(d) => Err(d),
        }
    } else {
        Ok((Seq::empty(), at))
    }
}

impl ConfigDeclarationList {
    /// Reads every list of configurations that stands at `at`.
    pub fn parse_all(tokens: &Vec<Token>, at: usize, scope: Span) -> (r: Result<
        (Vec<ConfigDeclarationList>, usize),
        Diagnostic,
    >)
        requires
            at <= tokens.len(),
        ensures
            (match r {
                Ok((lists, next)) => Ok((view_all(lists@), next as int)),
                Err(d) => Err(d@),
            }) == config_lists(views(tokens@), at as int, scope),
            r matches Ok((_, next)) ==> at <= next <= tokens.len(),
    {
        let ghost ts = views(tokens@);
        let ghost whole = config_lists(ts, at as int, scope);
        let mut all_declarations: Vec<ConfigDeclarationList> = Vec::new();
        let mut i: usize = at;
        assert(view_all(all_declarations@) =~= Seq::empty());
        while peek(tokens, i, '#')
            invariant
                at <= i <= tokens.len(),
                ts == views(tokens@),
                whole == config_lists(ts, at as int, scope),
                whole == (match config_lists(ts, i as int, scope) {
                    Ok((rest, end)) => Ok((view_all(all_declarations@) + rest, end)),
                    Err(d) => Err(d),
                }),
            decreases tokens.len() - i,
        {
            match ConfigDeclarationList::parse(tokens, i, scope) {
                Ok((list, next)) => {
                    let ghost before = view_all(all_declarations@);
                    proof {
                        crate::model::lemma_view_all_push(all_declarations@, list);
                        match config_lists(ts, next as int, scope) {
                            Ok((rest, end)) => {
                                assert(before + (seq![list@] + rest) =~= before.push(list@) + rest);
                            },
                            Err(_) => {},
                        }
                    }
                    all_declarations.push(list);
                    i = next;
                },
                Err(d) => {
                    return Err(d);
                },
            }
        }
        assert(view_all(all_declarations@) + Seq::<ConfigDeclarationListView>::empty()
            =~= view_all(all_declarations@));
        Ok((all_declarations, i))
    }
}

/// The configuration of one attribute.
#[derive(Debug, PartialEq, Eq)]
pub struct Config {
    pub comment: String,
    pub function_name: Option<LitStr>,
}

/// The mathematical value of a [`Config`].
pub struct ConfigView {
    pub comment: Seq<char>,
    pub function_name: Option<LitStrView>,
}

impl View for Config {
    type V = ConfigView;

    open spec fn view(&self) -> ConfigView {
        ConfigView { comment: self.comment@, function_name: option_view(self.function_name) }
    }
}

/// A configuration and the problems that were found on the way to it.
pub struct Configured {
    pub config: ConfigView,
    pub diags: Seq<DiagnosticView>,
}

/// The configuration that nothing was written for.
pub open spec fn unset() -> ConfigView {
    ConfigView { comment: Seq::empty(), function_name: None }
}

/// The place of an expression.
pub open spec fn expr_place(e: ExprView) -> Span {
    cover(e.tokens, Span::site())
}

/// The place of a configuration: from its name to its value.
pub open spec fn directive_place(d: DirectiveView) -> Span {
    match d.value {
        Some(assignment) => d.ident.span.spec_to(expr_place(assignment.value)),
        None => d.ident.span,
    }
}

/// The string that a configuration sets, or the problem: the value is
/// missing (`usage` says what was expected), is no literal, or is no string.
pub open spec fn string_of(d: DirectiveView, usage: Seq<char>) -> Result<
    LitStrView,
    DiagnosticView,
> {
    match d.value {
        None => Err(error(d.ident.span, usage)),
        Some(assignment) => match assignment.value.literal {
            LiteralShapeView::Absent => Err(
                error(expr_place(assignment.value), "Expected a literal expression."@),
            ),
            LiteralShapeView::Int { .. } | LiteralShapeView::Other => Err(
                error(expr_place(assignment.value), "Expected a string literal."@),
            ),
            LiteralShapeView::Str { value } => Ok(
                LitStrView { value, span: expr_place(assignment.value) },
            ),
        },
    }
}

/// The documentation after one more text: texts are joined by line breaks.
pub open spec fn joined(comment: Seq<char>, text: Seq<char>) -> Seq<char> {
    if comment.len() == 0 {
        text
    } else {
        comment.push('\n') + text
    }
}

/// The configuration after `doc`.
pub open spec fn documented(c: ConfigView, d: DirectiveView) -> Configured {
    match string_of(d, "Expected `doc = ...`"@) {
        Ok(text) => Configured {
            config: ConfigView { comment: joined(c.comment, text.value), ..c },
            diags: Seq::empty(),
        },
        Err(p) => Configured { config: c, diags: seq![p] },
    }
}

/// The configuration after `function`: the name is set once, and is not
/// empty. A second name is a conflict with the first.
pub open spec fn named(c: ConfigView, d: DirectiveView) -> Configured {
    match string_of(d, "Expected `function = ...`"@) {
        Ok(name) => match c.function_name {
            Some(first) => Configured {
                config: c,
                diags: seq![
                    duplicate(
                        directive_place(d),
                        "This config is already set."@,
                        first.span,
                        "Value for config `function` is already set here."@,
                    ),
                ],
            },
            None => if name.value.len() == 0 {
                Configured {
                    config: c,
                    diags: seq![error(name.span, "The function name must not be empty."@)],
                }
            } else {
                Configured {
                    config: ConfigView { function_name: Some(name), ..c },
                    diags: Seq::empty(),
                }
            },
        },
        Err(p) => Configured { config: c, diags: seq![p] },
    }
}

/// The configuration after one more directive: `doc` and `function` are
/// the two that are known; any other is reported and ignored.
pub open spec fn directed(c: ConfigView, d: DirectiveView) -> Configured {
    if d.ident.segments == path1("doc"@) {
        documented(c, d)
    } else if d.ident.segments == path1("function"@) {
        named(c, d)
    } else {
        Configured { config: c, diags: seq![error(d.ident.span, "Unknown config."@)] }
    }
}

/// The configuration after the directives `ds`, one after the other.
pub open spec fn directed_all(s: Configured, ds: Seq<DirectiveView>) -> Configured
    decreases ds.len(),
{
    if ds.len() == 0 {
        s
    } else {
        let before = directed_all(s, ds.drop_last());
        let after = directed(before.config, ds.last());
        Configured { config: after.config, diags: before.diags + after.diags }
    }
}

/// The configuration after the lists `lists`, one after the other.
pub open spec fn configured(s: Configured, lists: Seq<ConfigDeclarationListView>) -> Configured
    decreases lists.len(),
{
    if lists.len() == 0 {
        s
    } else {
        directed_all(configured(s, lists.drop_last()), lists.last().declarations)
    }
}

/// The name of the accessor is set once: with a name set, `function` sets
/// no other, and with a value that is a string it reports a conflict that
/// points at the literal that set the name.
pub proof fn lemma_accessor_name_is_set_once(c: ConfigView, d: DirectiveView)
    requires
        c.function_name is Some,
    ensures
        named(c, d).config == c,
        named(c, d).diags.len() == 1,
        string_of(d, "Expected `function = ...`"@) is Ok ==> (named(c, d).diags[0].help matches Some(
            note,
        ) && note.span == c.function_name->0.span),
{
}

/// The string that a configuration sets.
fn string_value(attr: &ConfigValueAssignment, usage: &str) -> (r: Result<LitStr, Diagnostic>)
    ensures
        (match r {
            Ok(s) => Ok(s@),
            Err(d) => Err(d@),
        }) == string_of(attr@, usage@),
{
    match &attr.value {
        None => Err(problem(attr.ident.span, usage)),
        Some(assignment) => {
            let span = span_of(&assignment.value.tokens, Span::call_site());
            match &assignment.value.literal {
                LiteralShape::Absent => Err(problem(span, "Expected a literal expression.")),
                LiteralShape::Int { .. } | LiteralShape::Other => Err(
                    problem(span, "Expected a string literal."),
                ),
                LiteralShape::Str { value } => Ok(LitStr { value: value.clone(), span }),
            }
        },
    }
}

/// The place of a configuration.
fn directive_span(attr: &ConfigValueAssignment) -> (r: Span)
    ensures
        r == directive_place(attr@),
{
    match &attr.value {
        Some(assignment) => attr.ident.span.to(
            span_of(&assignment.value.tokens, Span::call_site()),
        ),
        None => attr.ident.span,
    }
}

impl Config {
    /// The configuration that the lists `attributes` come to. Problems go to
    /// `diags`.
    pub fn new(attributes: &Vec<ConfigDeclarationList>, diags: &mut Vec<Diagnostic>) -> (r: Config)
        ensures
            ({
                let s = configured(
                    Configured { config: unset(), diags: Seq::empty() },
                    view_all(attributes@),
                );
                &&& r@ == s.config
                &&& diagnostics(final(diags)@) == diagnostics(old(diags)@) + s.diags
            }),
    {
        let ghost lists = view_all(attributes@);
        let ghost first = Configured { config: unset(), diags: Seq::empty() };
        let ghost before = diagnostics(old(diags)@);
        let mut self_ = Config { comment: String::new(), function_name: None };
        let mut i: usize = 0;
        proof {
            assert(lists.take(0) =~= Seq::empty());
            assert(diagnostics(diags@) =~= before + first.diags);
        }
        while i < attributes.len()
            invariant
                i <= attributes.len(),
                lists == view_all(attributes@),
                ({
                    let s = configured(first, lists.take(i as int));
                    &&& self_@ == s.config
                    &&& diagnostics(diags@) == before + s.diags
                }),
            decreases attributes.len() - i,
        {
            let list = &attributes[i];
            let ghost ds = view_all(list.declarations@);
            let ghost outer = configured(first, lists.take(i as int));
            let mut j: usize = 0;
            proof {
                assert(lists.take(i + 1).drop_last() =~= lists.take(i as int));
                assert(lists.take(i + 1).last().declarations == ds);
                assert(ds.take(0) =~= Seq::empty());
            }
            while j < list.declarations.len()
                invariant
                    j <= list.declarations.len(),
                    ds == view_all(list.declarations@),
                    ({
                        let s = directed_all(outer, ds.take(j as int));
                        &&& self_@ == s.config
                        &&& diagnostics(diags@) == before + s.diags
                    }),
                decreases list.declarations.len() - j,
            {
                let config = &list.declarations[j];
                let ghost s = directed_all(outer, ds.take(j as int));
                proof {
                    assert(ds.take(j + 1).drop_last() =~= ds.take(j as int));
                    assert(ds.take(j + 1).last() == config@);
                }
                let ghost after = directed(s.config, config@);
                if is_path1(&config.ident.segments, "doc") {
                    self_.parse_documentation(config, diags);
                } else if is_path1(&config.ident.segments, "function") {
                    self_.parse_function(config, diags);
                } else {
                    emit_error(diags, config.ident.span, String::from_str("Unknown config."));
                }
                assert(diagnostics(diags@) =~= before + (s.diags + after.diags));
                j += 1;
            }
            proof {
                assert(ds.take(list.declarations@.len() as int) =~= ds);
            }
            i += 1;
        }
        proof {
            assert(lists.take(attributes@.len() as int) =~= lists);
        }
        self_
    }

    fn parse_documentation(&mut self, attr: &ConfigValueAssignment, diags: &mut Vec<Diagnostic>)
        ensures
            ({
                let s = documented(old(self)@, attr@);
                &&& final(self)@ == s.config
                &&& diagnostics(final(diags)@) == diagnostics(old(diags)@) + s.diags
            }),
    {
        match string_value(attr, "Expected `doc = ...`") {
            Ok(text) => {
                if !self.comment.as_str().is_empty() {
                    self.comment.push('\n');
                }
                self.comment.append(text.value.as_str());
                assert(diagnostics(diags@) =~= diagnostics(old(diags)@) + Seq::empty());
            },
            Err(d) => {
                diags.push(d);
                assert(diagnostics(diags@) =~= diagnostics(old(diags)@) + seq![d@]);
            },
        }
    }

    fn parse_function(&mut self, attr: &ConfigValueAssignment, diags: &mut Vec<Diagnostic>)
        ensures
            ({
                let s = named(old(self)@, attr@);
                &&& final(self)@ == s.config
                &&& diagnostics(final(diags)@) == diagnostics(old(diags)@) + s.diags
            }),
    {
        let ghost s = named(old(self)@, attr@);
        match string_value(attr, "Expected `function = ...`") {
            Ok(name) => {
                match &self.function_name {
                    Some(first) => {
                        error_duplicate(
                            diags,
                            directive_span(attr),
                            String::from_str("This config is already set."),
                            first.span,
                            String::from_str("Value for config `function` is already set here."),
                        );
                        assert(diagnostics(diags@) =~= diagnostics(old(diags)@) + s.diags);
                    },
                    None => {
                        if name.value.as_str().is_empty() {
                            emit_error(
                                diags,
                                name.span,
                                String::from_str("The function name must not be empty."),
                            );
                            assert(diagnostics(diags@) =~= diagnostics(old(diags)@) + s.diags);
                        } else {
                            self.function_name = Some(name);
                            assert(diagnostics(diags@) =~= diagnostics(old(diags)@) + s.diags);
                        }
                    },
                }
            },
            Err(d) => {
                diags.push(d);
                assert(diagnostics(diags@) =~= diagnostics(old(diags)@) + seq![d@]);
            },
        }
    }

    /// The documentation of the accessor.
    pub fn comment(&self) -> (r: &str)
        ensures
            r@ == self@.comment,
    {
        self.comment.as_str()
    }

    /// The accessor's name, where one is set: an identifier at the place of
    /// the literal that set it.
    pub fn function_name(&self) -> (r: Option<Ident>)
        ensures
            option_view(r) == (match self@.function_name {
                Some(name) => Some(IdentView { name: name.value, span: name.span }),
                None => None,
            }),
    {
        match &self.function_name {
            Some(name) => Some(Ident { name: name.value.clone(), span: name.span }),
            None => None,
        }
    }

    /// The literal that set the accessor's name.
    pub fn function_name_lit(&self) -> (r: Option<&LitStr>)
        ensures
            (match r {
                Some(name) => Some(name@),
                None => None,
            }) == self@.function_name,
    {
        self.function_name.as_ref()
    }
}

} // verus!

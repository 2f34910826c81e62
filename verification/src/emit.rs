//! The accessors that are generated: one function for each attribute, which
//! tries the variants that have a value one after the other and falls back
//! to the default.

use vstd::prelude::*;
use crate::attribute::{
    variants_of, Attribute, AttributeMetadata, AttributeMetadataView, AttributeValue,
    AttributeValueView, AttributeView,
};
use crate::input::{Fields, FieldsView, Variant, VariantView};
use crate::model::{
    lemma_position_absent, lemma_position_bounds, lemma_position_found, lemma_view_all_push,
    option_view, position, view_all,
};
use crate::node::{Expr, ExprView, Ident, IdentView};
use crate::opt::{is_option_wrapped, option_wrapped};
use crate::parse::{extend, ToTokens};
use crate::reference::{comma, find_reference, names, positional, ReferenceView};
use crate::syntax::{string_literal, write_string};
use crate::text::{decimal, push_unraw, to_decimal, unraw};
use crate::token::{duplicate_all, lemma_views_push, views, Delimiter, Span, Tok, Token};

verus! {

/// A word that the generator writes.
pub open spec fn word(text: Seq<char>) -> Tok {
    Tok::Ident { text, span: Span::site() }
}

/// A punctuation character that the generator writes, with a space behind
/// it.
pub open spec fn mark(ch: char) -> Tok {
    Tok::Punct { ch, joint: false, span: Span::site() }
}

/// A punctuation character that the generator writes, joined to the next.
pub open spec fn glued(ch: char) -> Tok {
    Tok::Punct { ch, joint: true, span: Span::site() }
}

/// A group that the generator writes.
pub open spec fn grouped(delimiter: Delimiter, stream: Seq<Tok>) -> Tok {
    Tok::Group { delimiter, span: Span::site(), stream }
}

fn push_word(out: &mut Vec<Token>, text: &str)
    ensures
        views(final(out)@) == views(old(out)@).push(word(text@)),
{
    let t = Token::ident(text, Span::call_site());
    proof {
        lemma_views_push(out@, t);
    }
    out.push(t);
}

fn push_mark(out: &mut Vec<Token>, ch: char)
    ensures
        views(final(out)@) == views(old(out)@).push(mark(ch)),
{
    let t = Token::punct(ch, Span::call_site());
    proof {
        lemma_views_push(out@, t);
    }
    out.push(t);
}

fn push_glued(out: &mut Vec<Token>, ch: char)
    ensures
        views(final(out)@) == views(old(out)@).push(glued(ch)),
{
    let t = Token::joint(ch, Span::call_site());
    proof {
        lemma_views_push(out@, t);
    }
    out.push(t);
}

fn push_group(out: &mut Vec<Token>, delimiter: Delimiter, stream: Vec<Token>)
    ensures
        views(final(out)@) == views(old(out)@).push(grouped(delimiter, views(stream@))),
{
    let t = Token::group(delimiter, Span::call_site(), stream);
    proof {
        lemma_views_push(out@, t);
    }
    out.push(t);
}

/// How one field of a variant is matched: bound to a name, or discarded.
#[derive(Debug, PartialEq, Eq)]
pub struct Binding {
    /// The field's name; for a positional field `_` and its number.
    pub name: String,
    /// Whether the field is bound to the name.
    pub bound: bool,
}

/// The mathematical value of a [`Binding`].
pub struct BindingView {
    pub name: Seq<char>,
    pub bound: bool,
}

impl View for Binding {
    type V = BindingView;

    open spec fn view(&self) -> BindingView {
        BindingView { name: self.name@, bound: self.bound }
    }
}

/// How the fields of a variant are matched.
#[derive(Debug, PartialEq, Eq)]
pub enum Pattern {
    /// The variant has no fields.
    Unit,
    /// The variant has positional fields.
    Unnamed(Vec<Binding>),
    /// The variant has named fields.
    Named(Vec<Binding>),
}

/// The mathematical value of a [`Pattern`].
pub enum PatternView {
    Unit,
    Unnamed(Seq<BindingView>),
    Named(Seq<BindingView>),
}

impl View for Pattern {
    type V = PatternView;

    open spec fn view(&self) -> PatternView {
        match self {
            Pattern::Unit => PatternView::Unit,
            Pattern::Unnamed(bindings) => PatternView::Unnamed(view_all(bindings@)),
            Pattern::Named(bindings) => PatternView::Named(view_all(bindings@)),
        }
    }
}

/// Whether a value refers to the field `key`: a named field by its name, a
/// positional one by its number.
pub open spec fn referenced(metadata: Option<AttributeMetadataView>, key: Seq<char>) -> bool {
    match metadata {
        Some(m) => position(names(m.references), key) is Some,
        None => false,
    }
}

/// How the fields `fields` are matched for a value with the references
/// `metadata`: the fields that the value refers to are bound, all others
/// discarded.
pub open spec fn pattern_of(fields: FieldsView, metadata: Option<AttributeMetadataView>) -> PatternView {
    match fields {
        FieldsView::Named(fields) => PatternView::Named(
            Seq::new(
                fields.len(),
                |i: int| BindingView { name: fields[i], bound: referenced(metadata, fields[i]) },
            ),
        ),
        FieldsView::Unnamed(n) => PatternView::Unnamed(
            Seq::new(
                n as nat,
                |i: int|
                    BindingView {
                        name: positional(decimal(i as nat)),
                        bound: referenced(metadata, decimal(i as nat)),
                    },
            ),
        ),
        FieldsView::Unit => PatternView::Unit,
    }
}

/// The tokens that match one field.
pub open spec fn binding_tokens(b: BindingView, named: bool) -> Seq<Tok> {
    if b.bound {
        seq![word(b.name)]
    } else if named {
        seq![word(b.name), mark(':'), word("_"@)]
    } else {
        seq![word("_"@)]
    }
}

/// The tokens that match the fields `bs`, with `,` between them.
pub open spec fn bindings_tokens(bs: Seq<BindingView>, named: bool) -> Seq<Tok>
    decreases bs.len(),
{
    if bs.len() == 0 {
        Seq::empty()
    } else if bs.len() == 1 {
        binding_tokens(bs[0], named)
    } else {
        bindings_tokens(bs.drop_last(), named).push(comma(Span::site())) + binding_tokens(
            bs.last(),
            named,
        )
    }
}

/// The tokens of a pattern: nothing, the bindings in parentheses, or the
/// bindings in braces.
pub open spec fn pattern_tokens(p: PatternView) -> Seq<Tok> {
    match p {
        PatternView::Unit => Seq::empty(),
        PatternView::Unnamed(bs) => seq![
            grouped(Delimiter::Parenthesis, bindings_tokens(bs, false)),
        ],
        PatternView::Named(bs) => seq![grouped(Delimiter::Brace, bindings_tokens(bs, true))],
    }
}

/// Whether the references of `metadata` hold the name `key`.
fn is_referenced(metadata: &Option<AttributeMetadata>, key: &str) -> (r: bool)
    ensures
        r == referenced(option_view(*metadata), key@),
{
    match metadata {
        Some(m) => find_reference(&m.references, key).is_some(),
        None => false,
    }
}

impl Pattern {
    /// How `fields` are matched for a value with the references `metadata`.
    pub fn new(fields: &Fields, metadata: &Option<AttributeMetadata>) -> (r: Pattern)
        ensures
            r@ == pattern_of(fields@, option_view(*metadata)),
    {
        match fields {
            Fields::Named(fields) => {
                let mut bindings: Vec<Binding> = Vec::new();
                let mut i: usize = 0;
                while i < fields.len()
                    invariant
                        i <= fields.len(),
                        bindings@.len() == i,
                        forall|j: int|
                            0 <= j < i ==> bindings@[j]@ == (BindingView {
                                name: fields@[j]@,
                                bound: referenced(option_view(*metadata), fields@[j]@),
                            }),
                    decreases fields.len() - i,
                {
                    let bound = is_referenced(metadata, fields[i].as_str());
                    bindings.push(Binding { name: fields[i].clone(), bound });
                    i += 1;
                }
                assert(view_all(bindings@) =~= pattern_of(
                    FieldsView::Named(view_all(fields@)),
                    option_view(*metadata),
                )->Named_0);
                Pattern::Named(bindings)
            },
            Fields::Unnamed(n) => {
                let mut bindings: Vec<Binding> = Vec::new();
                let mut i: usize = 0;
                while i < *n
                    invariant
                        i <= *n,
                        bindings@.len() == i,
                        forall|j: int|
                            0 <= j < i ==> bindings@[j]@ == (BindingView {
                                name: positional(decimal(j as nat)),
                                bound: referenced(option_view(*metadata), decimal(j as nat)),
                            }),
                    decreases *n - i,
                {
                    let number = to_decimal(i);
                    let bound = is_referenced(metadata, number.as_str());
                    let mut name = String::from_str("_");
                    name.append(number.as_str());
                    bindings.push(Binding { name, bound });
                    i += 1;
                }
                assert(view_all(bindings@) =~= pattern_of(
                    FieldsView::Unnamed(*n),
                    option_view(*metadata),
                )->Unnamed_0);
                Pattern::Unnamed(bindings)
            },
            Fields::Unit => Pattern::Unit,
        }
    }
}

fn push_binding(out: &mut Vec<Token>, b: &Binding, named: bool)
    ensures
        views(final(out)@) == views(old(out)@) + binding_tokens(b@, named),
{
    if b.bound {
        push_word(out, b.name.as_str());
    } else if named {
        push_word(out, b.name.as_str());
        push_mark(out, ':');
        push_word(out, "_");
    } else {
        push_word(out, "_");
    }
    assert(views(out@) =~= views(old(out)@) + binding_tokens(b@, named));
}

fn bindings_to_tokens(bindings: &Vec<Binding>, named: bool) -> (stream: Vec<Token>)
    ensures
        views(stream@) == bindings_tokens(view_all(bindings@), named),
{
    let ghost bs = view_all(bindings@);
    let mut stream: Vec<Token> = Vec::new();
    let mut i: usize = 0;
    proof {
        assert(bs.take(0) =~= Seq::empty());
        assert(views(stream@) =~= bindings_tokens(bs.take(0), named));
    }
    while i < bindings.len()
        invariant
            i <= bindings.len(),
            bs == view_all(bindings@),
            views(stream@) == bindings_tokens(bs.take(i as int), named),
        decreases bindings.len() - i,
    {
        proof {
            assert(bs.take(i + 1).drop_last() =~= bs.take(i as int));
            assert(bs.take(i + 1).last() == bindings@[i as int]@);
        }
        if i > 0 {
            push_mark(&mut stream, ',');
        } else {
            assert(views(stream@) =~= Seq::empty());
            assert(bindings_tokens(bs.take(1), named) =~= Seq::empty() + binding_tokens(
                bs.take(1)[0],
                named,
            ));
        }
        push_binding(&mut stream, &bindings[i], named);
        i += 1;
    }
    proof {
        assert(bs.take(bindings@.len() as int) =~= bs);
    }
    stream
}

impl ToTokens for Pattern {
    open spec fn tokens(v: PatternView) -> Seq<Tok> {
        pattern_tokens(v)
    }

    fn to_tokens(&self, out: &mut Vec<Token>) {
        match self {
            Pattern::Unit => {
                assert(views(out@) =~= views(old(out)@) + pattern_tokens(self@));
            },
            Pattern::Unnamed(bindings) => {
                let stream = bindings_to_tokens(bindings, false);
                push_group(out, Delimiter::Parenthesis, stream);
                assert(views(out@) =~= views(old(out)@) + pattern_tokens(self@));
            },
            Pattern::Named(bindings) => {
                let stream = bindings_to_tokens(bindings, true);
                push_group(out, Delimiter::Brace, stream);
                assert(views(out@) =~= views(old(out)@) + pattern_tokens(self@));
            },
        }
    }
}

/// One step of an accessor: where the value is the variant `variant`, its
/// fields are matched by `pattern` and `value` is returned.
#[derive(Debug, PartialEq, Eq)]
pub struct Arm {
    pub variant: Ident,
    pub pattern: Pattern,
    pub value: Vec<Token>,
}

/// The mathematical value of an [`Arm`].
pub struct ArmView {
    pub variant: IdentView,
    pub pattern: PatternView,
    pub value: Seq<Tok>,
}

impl View for Arm {
    type V = ArmView;

    open spec fn view(&self) -> ArmView {
        ArmView { variant: self.variant@, pattern: self.pattern@, value: views(self.value@) }
    }
}

/// The expression `value` inside `Some(..)`.
pub open spec fn wrapped(value: Seq<Tok>) -> Seq<Tok> {
    seq![word("Some"@), grouped(Delimiter::Parenthesis, value)]
}

/// What an accessor returns for the expression `e`: the expression itself
/// for a required attribute; for an optional one the expression inside
/// `Some(..)`, unless it builds the wrapper already.
pub open spec fn returned(e: ExprView, required: bool) -> Seq<Tok> {
    if !required && !option_wrapped(e) {
        wrapped(e.tokens)
    } else {
        e.tokens
    }
}

/// The step of an accessor that the value `v` makes for the variant
/// `variant`.
pub open spec fn arm_of(v: AttributeValueView, variant: VariantView) -> ArmView {
    ArmView {
        variant: variant.ident,
        pattern: pattern_of(variant.fields, v.self_references),
        value: returned(v.value, v.required),
    }
}

/// The tokens of one step:
/// `if let Self::Variant pattern = self { return value }`.
pub open spec fn arm_tokens(a: ArmView) -> Seq<Tok> {
    seq![
        word("if"@),
        word("let"@),
        word("Self"@),
        glued(':'),
        mark(':'),
        Tok::Ident { text: a.variant.name, span: a.variant.span },
    ] + pattern_tokens(a.pattern) + seq![
        mark('='),
        word("self"@),
        grouped(Delimiter::Brace, seq![word("return"@)] + a.value),
    ]
}

impl ToTokens for Arm {
    open spec fn tokens(v: ArmView) -> Seq<Tok> {
        arm_tokens(v)
    }

    fn to_tokens(&self, out: &mut Vec<Token>) {
        push_word(out, "if");
        push_word(out, "let");
        push_word(out, "Self");
        push_glued(out, ':');
        push_mark(out, ':');
        let name = self.variant.to_token();
        proof {
            lemma_views_push(out@, name);
        }
        out.push(name);
        self.pattern.to_tokens(out);
        push_mark(out, '=');
        push_word(out, "self");
        let mut body: Vec<Token> = Vec::new();
        assert(views(body@) =~= Seq::empty());
        push_word(&mut body, "return");
        extend(&mut body, &self.value);
        assert(views(body@) =~= seq![word("return"@)] + self@.value);
        push_group(out, Delimiter::Brace, body);
        assert(views(out@) =~= views(old(out)@) + arm_tokens(self@));
    }
}

/// The tokens that an accessor returns for `value`.
fn returned_tokens(value: &Expr, required: bool) -> (r: Vec<Token>)
    ensures
        views(r@) == returned(value@, required),
{
    if !required && !is_option_wrapped(value) {
        let mut r: Vec<Token> = Vec::new();
        assert(views(r@) =~= Seq::empty());
        push_word(&mut r, "Some");
        push_group(&mut r, Delimiter::Parenthesis, duplicate_all(&value.tokens));
        assert(views(r@) =~= wrapped(value@.tokens));
        r
    } else {
        duplicate_all(&value.tokens)
    }
}

impl AttributeValue {
    /// The step of an accessor that this value makes for `variant`.
    pub fn arm(&self, variant: &Variant) -> (r: Arm)
        ensures
            r@ == arm_of(self@, variant@),
    {
        Arm {
            variant: variant.ident.duplicate(),
            pattern: Pattern::new(&variant.fields, &self.self_references),
            value: returned_tokens(&self.value, self.required),
        }
    }

    /// The tokens of the step that this value makes for `variant`.
    pub fn to_tokens(&self, variant: &Variant) -> (r: Vec<Token>)
        ensures
            views(r@) == arm_tokens(arm_of(self@, variant@)),
    {
        let mut r: Vec<Token> = Vec::new();
        assert(views(r@) =~= Seq::empty());
        self.arm(variant).to_tokens(&mut r);
        assert(views(r@) =~= arm_tokens(arm_of(self@, variant@)));
        r
    }
}

/// One accessor: a function that returns the value of one attribute.
#[derive(Debug, PartialEq, Eq)]
pub struct Accessor {
    /// The documentation of the function.
    pub comment: String,
    /// The visibility of the function.
    pub vis: Vec<Token>,
    /// The name of the function.
    pub name: Ident,
    /// The type that the function returns.
    pub type_: Vec<Token>,
    /// The steps, in the order in which they are tried.
    pub arms: Vec<Arm>,
    /// What is returned where no step applies.
    pub fallback: Vec<Token>,
}

/// The mathematical value of an [`Accessor`].
pub struct AccessorView {
    pub comment: Seq<char>,
    pub vis: Seq<Tok>,
    pub name: IdentView,
    pub type_: Seq<Tok>,
    pub arms: Seq<ArmView>,
    pub fallback: Seq<Tok>,
}

impl View for Accessor {
    type V = AccessorView;

    open spec fn view(&self) -> AccessorView {
        AccessorView {
            comment: self.comment@,
            vis: views(self.vis@),
            name: self.name@,
            type_: views(self.type_@),
            arms: view_all(self.arms@),
            fallback: views(self.fallback@),
        }
    }
}

/// The names of the variants `variants`.
pub open spec fn variant_names(variants: Seq<VariantView>) -> Seq<Seq<char>> {
    Seq::new(variants.len(), |i: int| variants[i].ident.name)
}

/// The name of the accessor of `a`: the name that was configured, at the
/// place of the configuration; else `get_` and the attribute's name, at the
/// place of the attribute's name. The name of a raw identifier is taken
/// without its mark `r#`.
pub open spec fn accessor_name(a: AttributeView) -> IdentView {
    match a.config.function_name {
        Some(name) => IdentView { name: name.value, span: name.span },
        None => IdentView { name: "get_"@ + unraw(a.ident.name), span: a.ident.span },
    }
}

/// What the accessor of `a` returns where no step applies: the default; for
/// an optional attribute without one `None`; for a required one without one
/// `unreachable!()`.
pub open spec fn fallback_of(a: AttributeView) -> Seq<Tok> {
    match a.default {
        Some(e) => returned(e, a.required),
        None => if !a.required {
            seq![word("None"@)]
        } else {
            seq![word("unreachable"@), mark('!'), grouped(Delimiter::Parenthesis, Seq::empty())]
        },
    }
}

/// The steps that the values `values` make, in their order: one for each
/// value whose variant is among `variants`.
pub open spec fn arms_of(values: Seq<AttributeValueView>, variants: Seq<VariantView>) -> Seq<ArmView>
    decreases values.len(),
{
    if values.len() == 0 {
        Seq::empty()
    } else {
        let before = arms_of(values.drop_last(), variants);
        match position(variant_names(variants), values.last().variant.name) {
            Some(k) => before.push(arm_of(values.last(), variants[k])),
            None => before,
        }
    }
}

/// The accessor of the attribute `a` of an enum with the variants
/// `variants`.
pub open spec fn accessor_of(a: AttributeView, variants: Seq<VariantView>) -> AccessorView {
    AccessorView {
        comment: a.config.comment,
        vis: a.vis.tokens,
        name: accessor_name(a),
        type_: a.type_.tokens,
        arms: arms_of(a.values, variants),
        fallback: fallback_of(a),
    }
}

/// The tokens of the steps `arms`, one after the other.
pub open spec fn arms_tokens(arms: Seq<ArmView>) -> Seq<Tok>
    decreases arms.len(),
{
    if arms.len() == 0 {
        Seq::empty()
    } else {
        arms_tokens(arms.drop_last()) + arm_tokens(arms.last())
    }
}

/// The tokens of an accessor:
/// `#[doc = "comment"] vis fn name(&self) -> type { steps fallback }`.
pub open spec fn accessor_tokens(a: AccessorView) -> Seq<Tok> {
    seq![
        mark('#'),
        grouped(
            Delimiter::Bracket,
            seq![
                word("doc"@),
                mark('='),
                Tok::Literal { text: string_literal(a.comment), span: Span::site() },
            ],
        ),
    ] + a.vis + seq![
        word("fn"@),
        Tok::Ident { text: a.name.name, span: a.name.span },
        grouped(Delimiter::Parenthesis, seq![mark('&'), word("self"@)]),
        glued('-'),
        mark('>'),
    ] + a.type_ + seq![grouped(Delimiter::Brace, arms_tokens(a.arms) + a.fallback)]
}

/// What an accessor returns for a value of the variant named `variant`: what
/// the first step for that variant returns; the fallback where there is no
/// such step.
pub open spec fn selected(a: AccessorView, variant: Seq<char>) -> Seq<Tok> {
    match position(Seq::new(a.arms.len(), |i: int| a.arms[i].variant.name), variant) {
        Some(i) => a.arms[i].value,
        None => a.fallback,
    }
}

/// The first place in `variants` of the variant named `name`.
pub fn find_variant(variants: &Vec<Variant>, name: &str) -> (r: Option<usize>)
    ensures
        (match r {
            Some(i) => Some(i as int),
            None => None,
        }) == position(variant_names(view_all(variants@)), name@),
        r matches Some(i) ==> i < variants.len(),
{
    let ghost all = variant_names(view_all(variants@));
    let mut i: usize = 0;
    while i < variants.len()
        invariant
            i <= variants.len(),
            all == variant_names(view_all(variants@)),
            forall|j: int| 0 <= j < i ==> all[j] != name@,
        decreases variants.len() - i,
    {
        if variants[i].ident.name.as_str().eq(name) {
            proof {
                assert(all[i as int] == name@);
                lemma_position_found(all, name@, i as int);
            }
            return Some(i);
        }
        assert(all[i as int] != name@);
        i += 1;
    }
    proof {
        lemma_position_absent(all, name@);
    }
    None
}

impl ToTokens for Accessor {
    open spec fn tokens(v: AccessorView) -> Seq<Tok> {
        accessor_tokens(v)
    }

    fn to_tokens(&self, out: &mut Vec<Token>) {
        push_mark(out, '#');
        let mut doc: Vec<Token> = Vec::new();
        assert(views(doc@) =~= Seq::empty());
        push_word(&mut doc, "doc");
        push_mark(&mut doc, '=');
        let literal = Token::Literal {
            text: write_string(self.comment.as_str()),
            span: Span::call_site(),
        };
        proof {
            lemma_views_push(doc@, literal);
        }
        doc.push(literal);
        push_group(out, Delimiter::Bracket, doc);
        let ghost head = seq![
            mark('#'),
            grouped(
                Delimiter::Bracket,
                seq![
                    word("doc"@),
                    mark('='),
                    Tok::Literal { text: string_literal(self@.comment), span: Span::site() },
                ],
            ),
        ];
        assert(views(doc@) =~= seq![
            word("doc"@),
            mark('='),
            Tok::Literal { text: string_literal(self@.comment), span: Span::site() },
        ]);
        assert(views(out@) =~= views(old(out)@) + head);
        extend(out, &self.vis);
        push_word(out, "fn");
        let name = self.name.to_token();
        proof {
            lemma_views_push(out@, name);
        }
        out.push(name);
        let mut receiver: Vec<Token> = Vec::new();
        assert(views(receiver@) =~= Seq::empty());
        push_mark(&mut receiver, '&');
        push_word(&mut receiver, "self");
        push_group(out, Delimiter::Parenthesis, receiver);
        push_glued(out, '-');
        push_mark(out, '>');
        let ghost signature = seq![
            word("fn"@),
            Tok::Ident { text: self@.name.name, span: self@.name.span },
            grouped(Delimiter::Parenthesis, seq![mark('&'), word("self"@)]),
            glued('-'),
            mark('>'),
        ];
        assert(views(receiver@) =~= seq![mark('&'), word("self"@)]);
        assert(views(out@) =~= views(old(out)@) + head + self@.vis + signature);
        extend(out, &self.type_);
        let ghost arms = view_all(self.arms@);
        let mut body: Vec<Token> = Vec::new();
        let mut i: usize = 0;
        proof {
            assert(arms.take(0) =~= Seq::empty());
            assert(views(body@) =~= arms_tokens(arms.take(0)));
        }
        while i < self.arms.len()
            invariant
                i <= self.arms.len(),
                arms == view_all(self.arms@),
                views(body@) == arms_tokens(arms.take(i as int)),
            decreases self.arms.len() - i,
        {
            proof {
                assert(arms.take(i + 1).drop_last() =~= arms.take(i as int));
                assert(arms.take(i + 1).last() == self.arms@[i as int]@);
            }
            self.arms[i].to_tokens(&mut body);
            i += 1;
        }
        proof {
            assert(arms.take(self.arms@.len() as int) =~= arms);
        }
        extend(&mut body, &self.fallback);
        push_group(out, Delimiter::Brace, body);
        assert(views(out@) =~= views(old(out)@) + (head + self@.vis + signature + self@.type_
            + seq![grouped(Delimiter::Brace, arms_tokens(self@.arms) + self@.fallback)]));
        assert(views(out@) =~= views(old(out)@) + accessor_tokens(self@));
    }
}

impl Accessor {
    /// What the accessor returns for a value of the variant named
    /// `variant`.
    pub fn select(&self, variant: &str) -> (r: &Vec<Token>)
        ensures
            views(r@) == selected(self@, variant@),
    {
        let ghost all = Seq::new(self@.arms.len(), |i: int| self@.arms[i].variant.name);
        let mut i: usize = 0;
        while i < self.arms.len()
            invariant
                i <= self.arms.len(),
                all == Seq::new(self@.arms.len(), |i: int| self@.arms[i].variant.name),
                forall|j: int| 0 <= j < i ==> all[j] != variant@,
            decreases self.arms.len() - i,
        {
            if self.arms[i].variant.name.as_str().eq(variant) {
                proof {
                    assert(all[i as int] == variant@);
                    lemma_position_found(all, variant@, i as int);
                }
                return &self.arms[i].value;
            }
            assert(all[i as int] != variant@);
            i += 1;
        }
        proof {
            lemma_position_absent(all, variant@);
        }
        &self.fallback
    }
}

impl Attribute {
    /// The accessor of the attribute, for an enum with the variants
    /// `all_variants`.
    pub fn accessor(&self, all_variants: &Vec<Variant>) -> (r: Accessor)
        ensures
            r@ == accessor_of(self@, view_all(all_variants@)),
    {
        let name = match self.config.function_name() {
            Some(name) => name,
            None => {
                let mut text = String::from_str("get_");
                push_unraw(&mut text, self.ident.name.as_str());
                Ident { name: text, span: self.ident.span }
            },
        };
        let ghost values = view_all(self.values@);
        let ghost variants = view_all(all_variants@);
        let mut arms: Vec<Arm> = Vec::new();
        let mut i: usize = 0;
        proof {
            assert(values.take(0) =~= Seq::empty());
            assert(view_all(arms@) =~= arms_of(values.take(0), variants));
        }
        while i < self.values.len()
            invariant
                i <= self.values.len(),
                values == view_all(self.values@),
                variants == view_all(all_variants@),
                view_all(arms@) == arms_of(values.take(i as int), variants),
            decreases self.values.len() - i,
        {
            let v = &self.values[i];
            proof {
                assert(values.take(i + 1).drop_last() =~= values.take(i as int));
                assert(values.take(i + 1).last() == v@);
            }
            match find_variant(all_variants, v.variant.name.as_str()) {
                Some(k) => {
                    let arm = v.arm(&all_variants[k]);
                    proof {
                        lemma_view_all_push(arms@, arm);
                    }
                    arms.push(arm);
                },
                None => {},
            }
            i += 1;
        }
        proof {
            assert(values.take(self.values@.len() as int) =~= values);
        }
        let fallback = match &self.default {
            Some(value) => returned_tokens(value, self.required),
            None => {
                let mut r: Vec<Token> = Vec::new();
                assert(views(r@) =~= Seq::empty());
                if !self.required {
                    push_word(&mut r, "None");
                    assert(views(r@) =~= fallback_of(self@));
                } else {
                    push_word(&mut r, "unreachable");
                    push_mark(&mut r, '!');
                    let inner: Vec<Token> = Vec::new();
                    assert(views(inner@) =~= Seq::empty());
                    push_group(&mut r, Delimiter::Parenthesis, inner);
                    assert(views(r@) =~= fallback_of(self@));
                }
                r
            },
        };
        Accessor {
            comment: self.config.comment.clone(),
            vis: duplicate_all(&self.vis.tokens),
            name,
            type_: duplicate_all(&self.type_.tokens),
            arms,
            fallback,
        }
    }

    /// The tokens of the accessor of the attribute.
    pub fn to_tokens(&self, all_variants: &Vec<Variant>) -> (r: Vec<Token>)
        ensures
            views(r@) == accessor_tokens(accessor_of(self@, view_all(all_variants@))),
    {
        let mut r: Vec<Token> = Vec::new();
        assert(views(r@) =~= Seq::empty());
        self.accessor(all_variants).to_tokens(&mut r);
        assert(views(r@) =~= accessor_tokens(accessor_of(self@, view_all(all_variants@))));
        r
    }
}

/// The names of the variants that the steps `arms` are for.
pub open spec fn arm_names(arms: Seq<ArmView>) -> Seq<Seq<char>> {
    Seq::new(arms.len(), |i: int| arms[i].variant.name)
}

/// The steps that values make: the first step for a variant that is among
/// `variants` is the step of the first value for that variant, and a
/// variant without a value has no step.
proof fn lemma_arms_follow_values(
    values: Seq<AttributeValueView>,
    variants: Seq<VariantView>,
    name: Seq<char>,
)
    ensures
        position(variants_of(values), name) is None ==> position(
            arm_names(arms_of(values, variants)),
            name,
        ) is None,
        position(variants_of(values), name) matches Some(i) ==> (position(
            variant_names(variants),
            name,
        ) matches Some(k) ==> (position(arm_names(arms_of(values, variants)), name) matches Some(j)
            && arms_of(values, variants)[j] == arm_of(values[i], variants[k]))),
    decreases values.len(),
{
    let arms = arms_of(values, variants);
    lemma_position_bounds(variants_of(values), name);
    lemma_position_bounds(variant_names(variants), name);
    if values.len() == 0 {
        lemma_position_absent(arm_names(arms), name);
    } else {
        let init = values.drop_last();
        let last = values.last();
        let before = arms_of(init, variants);
        lemma_arms_follow_values(init, variants, name);
        lemma_position_bounds(variants_of(init), name);
        lemma_position_bounds(arm_names(before), name);
        lemma_position_bounds(variant_names(variants), last.variant.name);
        assert forall|j: int| 0 <= j < init.len() implies variants_of(init)[j] == variants_of(
            values,
        )[j] by {}
        assert forall|j: int| 0 <= j < before.len() implies arm_names(before)[j] == arm_names(
            arms,
        )[j] by {}
        match position(variants_of(init), name) {
            Some(i) => {
                assert(variants_of(values)[i] == name);
                lemma_position_found(variants_of(values), name, i);
                if position(variant_names(variants), name) is Some {
                    let j = position(arm_names(before), name)->0;
                    assert(arm_names(arms)[j] == name);
                    lemma_position_found(arm_names(arms), name, j);
                    assert(values[i] == init[i]);
                }
            },
            None => {
                if last.variant.name == name {
                    let n = values.len() - 1;
                    assert(variants_of(values)[n] == name);
                    assert forall|j: int| 0 <= j < n implies variants_of(values)[j] != name by {
                        assert(variants_of(init)[j] != name);
                    }
                    lemma_position_found(variants_of(values), name, n);
                    if position(variant_names(variants), name) is Some {
                        let m = before.len() as int;
                        assert(arm_names(arms)[m] == name);
                        assert forall|j: int| 0 <= j < m implies arm_names(arms)[j] != name by {
                            assert(arm_names(before)[j] != name);
                        }
                        lemma_position_found(arm_names(arms), name, m);
                    }
                } else {
                    assert forall|j: int| 0 <= j < values.len() implies variants_of(values)[j]
                        != name by {
                        if j < init.len() {
                            assert(variants_of(init)[j] != name);
                        }
                    }
                    lemma_position_absent(variants_of(values), name);
                    assert forall|j: int| 0 <= j < arms.len() implies arm_names(arms)[j]
                        != name by {
                        if j < before.len() {
                            assert(arm_names(before)[j] != name);
                        } else {
                            let k = position(variant_names(variants), last.variant.name)->0;
                            assert(variant_names(variants)[k] == last.variant.name);
                        }
                    }
                    lemma_position_absent(arm_names(arms), name);
                }
            },
        }
    }
}

/// The steps that values make, where every variant has at most one value:
/// a variant of the enum that has a value has a first step, and no second
/// step for the same variant.
pub proof fn lemma_steps_of_values(
    values: Seq<AttributeValueView>,
    variants: Seq<VariantView>,
    name: Seq<char>,
)
    requires
        crate::attribute::one_value_per_variant(values),
    ensures
        position(variants_of(values), name) is Some && position(variant_names(variants), name)
            is Some ==> position(arm_names(arms_of(values, variants)), name) is Some,
        forall|p: int, q: int|
            0 <= p < q < arms_of(values, variants).len() ==> !(arms_of(
                values,
                variants,
            )[p].variant.name == name && arms_of(values, variants)[q].variant.name == name),
    decreases values.len(),
{
    lemma_arms_follow_values(values, variants, name);
    let arms = arms_of(values, variants);
    if values.len() > 0 {
        let init = values.drop_last();
        let last = values.last();
        let before = arms_of(init, variants);
        assert forall|i: int, j: int| 0 <= i < j < init.len() implies init[i].variant.name
            != init[j].variant.name by {
            assert(init[i] == values[i] && init[j] == values[j]);
        }
        lemma_steps_of_values(init, variants, name);
        lemma_arms_follow_values(init, variants, name);
        lemma_position_bounds(variant_names(variants), last.variant.name);
        lemma_position_bounds(variants_of(init), name);
        lemma_position_bounds(arm_names(before), name);
        assert forall|p: int, q: int| 0 <= p < q < arms.len() implies !(arms[p].variant.name == name
            && arms[q].variant.name == name) by {
            if q < before.len() {
                assert(arms[p] == before[p] && arms[q] == before[q]);
            } else if arms[q].variant.name == name && arms[p].variant.name == name {
                // The last step is for `name`: `last` is the value for it,
                // so that no value before it is, and no step before it.
                let k = position(variant_names(variants), last.variant.name)->0;
                assert(variant_names(variants)[k] == last.variant.name);
                assert(last.variant.name == name);
                assert(arms[p] == before[p]);
                assert(arm_names(before)[p] == name);
                if position(variants_of(init), name) is Some {
                    let i = position(variants_of(init), name)->0;
                    assert(variants_of(init)[i] == name);
                    assert(values[i].variant.name == values[values.len() - 1].variant.name);
                }
            }
        }
    }
}

/// The accessor returns what was assigned: for a variant of the enum that
/// has a value, the accessor of the attribute returns that value; for an
/// optional attribute inside `Some(..)`, unless the value builds the
/// wrapper itself.
pub proof fn lemma_assigned_value_is_returned(
    a: AttributeView,
    variants: Seq<VariantView>,
    name: Seq<char>,
)
    requires
        position(variants_of(a.values), name) is Some,
        position(variant_names(variants), name) is Some,
    ensures
        ({
            let v = a.values[position(variants_of(a.values), name)->0];
            selected(accessor_of(a, variants), name) == returned(v.value, v.required)
        }),
{
    lemma_arms_follow_values(a.values, variants, name);
    assert(arm_names(arms_of(a.values, variants)) =~= Seq::new(
        arms_of(a.values, variants).len(),
        |i: int| arms_of(a.values, variants)[i].variant.name,
    ));
}

/// For a variant without a value the accessor returns the fallback: the
/// default where there is one, else `None` for an optional attribute.
pub proof fn lemma_unassigned_variant_gets_fallback(
    a: AttributeView,
    variants: Seq<VariantView>,
    name: Seq<char>,
)
    requires
        position(variants_of(a.values), name) is None,
    ensures
        selected(accessor_of(a, variants), name) == fallback_of(a),
        a.default matches Some(e) ==> fallback_of(a) == returned(e, a.required),
        a.default is None && !a.required ==> fallback_of(a) == seq![word("None"@)],
{
    lemma_arms_follow_values(a.values, variants, name);
    assert(arm_names(arms_of(a.values, variants)) =~= Seq::new(
        arms_of(a.values, variants).len(),
        |i: int| arms_of(a.values, variants)[i].variant.name,
    ));
}

/// A value that refers to one field binds that field and no other: with
/// the one reference `field`, a named field is bound where its name is
/// `field`, a positional one where its number is `field`, and every other
/// field is discarded.
pub proof fn lemma_only_referenced_field_is_bound(
    fields: FieldsView,
    metadata: AttributeMetadataView,
    field: ReferenceView,
)
    requires
        metadata.references == seq![field],
    ensures
        match (fields, pattern_of(fields, Some(metadata))) {
            (FieldsView::Named(all), PatternView::Named(bindings)) => {
                &&& bindings.len() == all.len()
                &&& forall|i: int|
                    0 <= i < all.len() ==> bindings[i].name == all[i] && (bindings[i].bound <==> all[i]
                        == field.name)
            },
            (FieldsView::Unnamed(n), PatternView::Unnamed(bindings)) => {
                &&& bindings.len() == n
                &&& forall|i: int|
                    0 <= i < n ==> bindings[i].name == positional(decimal(i as nat)) && (
                    bindings[i].bound <==> decimal(i as nat) == field.name)
            },
            (FieldsView::Unit, PatternView::Unit) => true,
            _ => false,
        },
{
    assert forall|key: Seq<char>| referenced(Some(metadata), key) <==> key == field.name by {
        let all = names(metadata.references);
        assert(all.len() == 1);
        assert(all[0] == field.name);
        lemma_position_bounds(all, key);
        if key == field.name {
            lemma_position_found(all, key, 0);
        }
    }
}

} // verus!

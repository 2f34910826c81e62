//! The attributes of an enum: what was declared, and the values that the
//! variants assign.

use vstd::prelude::*;
use crate::config::{configured, expr_place, unset, Config, ConfigView, Configured};
use crate::declaration::{AttributeDeclaration, AttributeDeclarationView};
use crate::diag::{
    diagnostics, duplicate, emit_error, error, error_duplicate, Diagnostic, DiagnosticView,
};
use crate::input::{Variant, VariantView};
use crate::model::{
    lemma_position_absent, lemma_position_bounds, lemma_position_found, lemma_view_all_push,
    option_view, position, view_all,
};
use crate::node::{span_of, Expr, ExprView, Ident, IdentView, Type, TypeView, Visibility, VisibilityView};
use crate::opt::{extract_type_from_option, type_from_option};
use crate::reference::{Reference, ReferenceView};
use crate::token::Span;
use crate::value::{AttributeValueAssignment, IdentValueAssignmentView};

verus! {

/// What the resolver found in the value of one attribute for one variant:
/// the fields that the value refers to, and the place of the value as it was
/// written.
#[derive(Debug, PartialEq, Eq)]
pub struct AttributeMetadata {
    pub attribute_ident: String,
    pub value_real_span: Span,
    pub references: Vec<Reference>,
}

/// The mathematical value of an [`AttributeMetadata`].
pub struct AttributeMetadataView {
    pub attribute_ident: Seq<char>,
    pub value_real_span: Span,
    pub references: Seq<ReferenceView>,
}

impl View for AttributeMetadata {
    type V = AttributeMetadataView;

    open spec fn view(&self) -> AttributeMetadataView {
        AttributeMetadataView {
            attribute_ident: self.attribute_ident@,
            value_real_span: self.value_real_span,
            references: view_all(self.references@),
        }
    }
}

impl AttributeMetadata {
    /// The metadata of the value for the attribute `attribute_ident`.
    pub fn new(attribute_ident: String, references: Vec<Reference>, value_real_span: Span) -> (r:
        Self)
        ensures
            r@ == (AttributeMetadataView {
                attribute_ident: attribute_ident@,
                value_real_span,
                references: view_all(references@),
            }),
    {
        Self { attribute_ident, references, value_real_span }
    }
}

/// The value of one attribute for one variant.
#[derive(Debug, PartialEq, Eq)]
pub struct AttributeValue {
    pub variant: Ident,
    pub value: Expr,
    pub self_references: Option<AttributeMetadata>,
    pub required: bool,
}

/// The mathematical value of an [`AttributeValue`].
pub struct AttributeValueView {
    pub variant: IdentView,
    pub value: ExprView,
    pub self_references: Option<AttributeMetadataView>,
    pub required: bool,
}

impl View for AttributeValue {
    type V = AttributeValueView;

    open spec fn view(&self) -> AttributeValueView {
        AttributeValueView {
            variant: self.variant@,
            value: self.value@,
            self_references: option_view(self.self_references),
            required: self.required,
        }
    }
}

impl AttributeValueView {
    /// The place of the value as it was written.
    pub open spec fn place(self) -> Span {
        match self.self_references {
            Some(metadata) => metadata.value_real_span,
            None => expr_place(self.value),
        }
    }
}

impl AttributeValue {
    /// The value `value` for the variant `variant`.
    pub fn new(variant: Ident, required: bool, value: Expr, metadata: Option<AttributeMetadata>) -> (r:
        Self)
        ensures
            r@ == (AttributeValueView {
                variant: variant@,
                value: value@,
                self_references: option_view(metadata),
                required,
            }),
    {
        Self { variant, value, self_references: metadata, required }
    }

    /// The place of the value as it was written.
    pub fn get_span(&self) -> (r: Span)
        ensures
            r == self@.place(),
    {
        match &self.self_references {
            Some(metadata) => metadata.value_real_span,
            None => span_of(&self.value.tokens, Span::call_site()),
        }
    }
}

/// One attribute: its declaration, and the values that were assigned to it.
#[derive(Debug, PartialEq, Eq)]
pub struct Attribute {
    pub vis: Visibility,
    pub ident: Ident,
    /// Whether every variant owes a value: the type is not the optional
    /// wrapper.
    pub required: bool,
    pub type_: Type,
    pub values: Vec<AttributeValue>,
    pub default: Option<Expr>,
    pub config: Config,
}

/// The mathematical value of an [`Attribute`].
pub struct AttributeView {
    pub vis: VisibilityView,
    pub ident: IdentView,
    pub required: bool,
    pub type_: TypeView,
    pub values: Seq<AttributeValueView>,
    pub default: Option<ExprView>,
    pub config: ConfigView,
}

impl View for Attribute {
    type V = AttributeView;

    open spec fn view(&self) -> AttributeView {
        AttributeView {
            vis: self.vis@,
            ident: self.ident@,
            required: self.required,
            type_: self.type_@,
            values: view_all(self.values@),
            default: option_view(self.default),
            config: self.config@,
        }
    }
}

/// The names of the variants that `values` are for.
pub open spec fn variants_of(values: Seq<AttributeValueView>) -> Seq<Seq<char>> {
    Seq::new(values.len(), |i: int| values[i].variant.name)
}

/// What the configurations of a declaration come to.
pub open spec fn declared_config(d: AttributeDeclarationView) -> Configured {
    configured(Configured { config: unset(), diags: Seq::empty() }, d.attributes)
}

/// The attribute that a declaration makes: without values, optional where
/// the declared type is the optional wrapper, required where it is not.
pub open spec fn declared(d: AttributeDeclarationView) -> AttributeView {
    AttributeView {
        vis: d.vis,
        ident: d.ident,
        required: type_from_option(d.type_) is None,
        type_: d.type_,
        values: Seq::empty(),
        default: match d.default_value {
            Some(assignment) => Some(assignment.value),
            None => None,
        },
        config: declared_config(d).config,
    }
}

/// The place of an assignment: from the name to the end of the value.
pub open spec fn assignment_place(v: IdentValueAssignmentView<IdentView, ExprView>) -> Span {
    v.ident.span.spec_to(expr_place(v.value.value))
}

/// `First value of `name` is set here.`
pub open spec fn first_value_message(name: Seq<char>) -> Seq<char> {
    "First value of `"@ + name + "` is set here."@
}

/// `Value not set for `name`.`
pub open spec fn not_set_message(name: Seq<char>) -> Seq<char> {
    "Value not set for `"@ + name + "`."@
}

/// An attribute after a value was assigned to it, and the problem that the
/// assignment made.
pub struct Assigned {
    pub attribute: AttributeView,
    pub diags: Seq<DiagnosticView>,
}

/// The attribute `a` after `value` was assigned for the variant `variant`.
/// The first value for a variant is kept; a second one is a conflict with
/// the first, and changes nothing.
pub open spec fn assigned(
    a: AttributeView,
    variant: IdentView,
    value: IdentValueAssignmentView<IdentView, ExprView>,
    metadata: Option<AttributeMetadataView>,
) -> Assigned {
    match position(variants_of(a.values), variant.name) {
        Some(i) => Assigned {
            attribute: a,
            diags: seq![
                duplicate(
                    assignment_place(value),
                    "The value is already set for this attribute."@,
                    a.values[i].place(),
                    first_value_message(a.ident.name),
                ),
            ],
        },
        None => Assigned {
            attribute: AttributeView {
                values: a.values.push(
                    AttributeValueView {
                        variant,
                        value: value.value.value,
                        self_references: metadata,
                        required: a.required,
                    },
                ),
                ..a
            },
            diags: Seq::empty(),
        },
    }
}

/// Whether the variant named `variant` owes `a` a value and has none: `a`
/// is required, has no default, and no value for the variant.
pub open spec fn missing(a: AttributeView, variant: Seq<char>) -> bool {
    &&& a.required
    &&& a.default is None
    &&& position(variants_of(a.values), variant) is None
}

/// The problems of completeness of `a`: one for each variant, in order,
/// that owes a value and has none, at the variant's name.
pub open spec fn validated(a: AttributeView, variants: Seq<VariantView>) -> Seq<DiagnosticView>
    decreases variants.len(),
{
    if variants.len() == 0 {
        Seq::empty()
    } else {
        let before = validated(a, variants.drop_last());
        let v = variants.last();
        if missing(a, v.ident.name) {
            before.push(error(v.ident.span, not_set_message(a.ident.name)))
        } else {
            before
        }
    }
}

/// The first place in `values` of the value for the variant named `name`.
pub fn find_value(values: &Vec<AttributeValue>, name: &str) -> (r: Option<usize>)
    ensures
        (match r {
            Some(i) => Some(i as int),
            None => None,
        }) == position(variants_of(view_all(values@)), name@),
        r matches Some(i) ==> i < values.len(),
{
    let ghost all = variants_of(view_all(values@));
    let mut i: usize = 0;
    while i < values.len()
        invariant
            i <= values.len(),
            all == variants_of(view_all(values@)),
            forall|j: int| 0 <= j < i ==> all[j] != name@,
        decreases values.len() - i,
    {
        if values[i].variant.name.as_str().eq(name) {
            proof {
                assert(all[i as int] == name@);
                lemma_position_found(all, name@, i as int);
            }
            return Some(i);
        }
        assert(all[i as int] != name@);
        i += 1;
    }
    proof {
        lemma_position_absent(all, name@);
    }
    None
}

impl Attribute {
    /// The attribute that `declaration` makes. The problems of its
    /// configurations go to `diags`.
    pub fn new(declaration: AttributeDeclaration, diags: &mut Vec<Diagnostic>) -> (r: Self)
        ensures
            r@ == declared(declaration@),
            diagnostics(final(diags)@) == diagnostics(old(diags)@) + declared_config(
                declaration@,
            ).diags,
    {
        let required = extract_type_from_option(&declaration.type_).is_none();
        let config = Config::new(&declaration.attributes, diags);
        let default = match declaration.default_value {
            Some(assignment) => Some(assignment.into_value()),
            None => None,
        };
        let r = Self {
            vis: declaration.vis,
            ident: declaration.ident,
            required,
            type_: declaration.type_,
            values: Vec::new(),
            default,
            config,
        };
        assert(r@.values =~= Seq::empty());
        r
    }

    /// Assigns `value` for `variant`, unless the variant has a value
    /// already: that is a conflict, which goes to `diags`.
    pub fn set(
        &mut self,
        variant: &Variant,
        value: AttributeValueAssignment,
        metadata: Option<AttributeMetadata>,
        diags: &mut Vec<Diagnostic>,
    )
        ensures
            ({
                let s = assigned(old(self)@, variant@.ident, value@, option_view(metadata));
                &&& final(self)@ == s.attribute
                &&& diagnostics(final(diags)@) == diagnostics(old(diags)@) + s.diags
            }),
    {
        let ghost s = assigned(old(self)@, variant@.ident, value@, option_view(metadata));
        match find_value(&self.values, variant.ident.name.as_str()) {
            Some(i) => {
                let place = value.ident.span.to(span_of(&value.value.value.tokens, Span::call_site()));
                let mut message = String::from_str("First value of `");
                message.append(self.ident.name.as_str());
                message.append("` is set here.");
                error_duplicate(
                    diags,
                    place,
                    String::from_str("The value is already set for this attribute."),
                    self.values[i].get_span(),
                    message,
                );
                assert(diagnostics(diags@) =~= diagnostics(old(diags)@) + s.diags);
            },
            None => {
                let new_value = AttributeValue::new(
                    variant.ident.duplicate(),
                    self.required,
                    value.into_value(),
                    metadata,
                );
                proof {
                    lemma_view_all_push(self.values@, new_value);
                    assert(diagnostics(diags@) =~= diagnostics(old(diags)@) + s.diags);
                }
                self.values.push(new_value);
            },
        }
    }

    /// Reports every variant that owes the attribute a value and has none.
    pub fn validate(&self, all_variants: &Vec<Variant>, diags: &mut Vec<Diagnostic>)
        ensures
            diagnostics(final(diags)@) == diagnostics(old(diags)@) + validated(
                self@,
                view_all(all_variants@),
            ),
    {
        let ghost vs = view_all(all_variants@);
        let ghost before = diagnostics(old(diags)@);
        let mut i: usize = 0;
        proof {
            assert(vs.take(0) =~= Seq::empty());
            assert(diagnostics(diags@) =~= before + validated(self@, vs.take(0)));
        }
        while i < all_variants.len()
            invariant
                i <= all_variants.len(),
                vs == view_all(all_variants@),
                diagnostics(diags@) == before + validated(self@, vs.take(i as int)),
            decreases all_variants.len() - i,
        {
            let variant = &all_variants[i];
            proof {
                assert(vs.take(i + 1).drop_last() =~= vs.take(i as int));
                assert(vs.take(i + 1).last() == variant@);
            }
            let found = find_value(&self.values, variant.ident.name.as_str());
            if found.is_none() && self.default.is_none() && self.required {
                let mut message = String::from_str("Value not set for `");
                message.append(self.ident.name.as_str());
                message.append("`.");
                emit_error(diags, variant.ident.span, message);
                assert(diagnostics(diags@) =~= before + validated(self@, vs.take(i + 1)));
            }
            i += 1;
        }
        proof {
            assert(vs.take(all_variants@.len() as int) =~= vs);
        }
    }
}

/// An attribute that is optional, or that has a default, is complete
/// whatever the variants assign: no variant is reported.
pub proof fn lemma_optional_or_defaulted_is_complete(a: AttributeView, variants: Seq<VariantView>)
    requires
        !a.required || a.default is Some,
    ensures
        validated(a, variants) == Seq::<DiagnosticView>::empty(),
    decreases variants.len(),
{
    if variants.len() > 0 {
        lemma_optional_or_defaulted_is_complete(a, variants.drop_last());
    }
}

/// Where no variant owes a value without having one, nothing is reported.
pub proof fn lemma_complete(a: AttributeView, variants: Seq<VariantView>)
    requires
        forall|j: int| 0 <= j < variants.len() ==> !missing(a, variants[j].ident.name),
    ensures
        validated(a, variants) == Seq::<DiagnosticView>::empty(),
    decreases variants.len(),
{
    if variants.len() > 0 {
        lemma_complete(a, variants.drop_last());
    }
}

/// A required attribute without a default, for which every variant but the
/// one at `k` has a value: exactly one problem is reported. It names the
/// attribute, and stands at the name of the variant at `k`.
pub proof fn lemma_one_missing_value(a: AttributeView, variants: Seq<VariantView>, k: int)
    requires
        a.required,
        a.default is None,
        0 <= k < variants.len(),
        position(variants_of(a.values), variants[k].ident.name) is None,
        forall|j: int|
            0 <= j < variants.len() && j != k ==> position(
                variants_of(a.values),
                #[trigger] variants[j].ident.name,
            ) is Some,
    ensures
        validated(a, variants) == seq![
            error(variants[k].ident.span, not_set_message(a.ident.name)),
        ],
    decreases variants.len(),
{
    let before = variants.drop_last();
    if k == variants.len() - 1 {
        assert forall|j: int| 0 <= j < before.len() implies !missing(a, before[j].ident.name) by {
            assert(before[j] == variants[j]);
        }
        lemma_complete(a, before);
        assert(validated(a, variants) =~= seq![
            error(variants[k].ident.span, not_set_message(a.ident.name)),
        ]);
    } else {
        assert(before[k] == variants[k]);
        assert forall|j: int| 0 <= j < before.len() && j != k implies position(
            variants_of(a.values),
            #[trigger] before[j].ident.name,
        ) is Some by {
            assert(before[j] == variants[j]);
        }
        lemma_one_missing_value(a, before, k);
        let last = variants.len() - 1;
        assert(position(variants_of(a.values), variants[last].ident.name) is Some);
    }
}

/// A second value for a variant is a conflict: the attribute keeps the
/// first value, and one problem is reported, which stands at the second
/// assignment and points at the first value.
pub proof fn lemma_second_value_conflicts(
    a: AttributeView,
    variant: IdentView,
    first: IdentValueAssignmentView<IdentView, ExprView>,
    first_metadata: Option<AttributeMetadataView>,
    second: IdentValueAssignmentView<IdentView, ExprView>,
    second_metadata: Option<AttributeMetadataView>,
)
    requires
        position(variants_of(a.values), variant.name) is None,
    ensures
        ({
            let once = assigned(a, variant, first, first_metadata);
            let twice = assigned(once.attribute, variant, second, second_metadata);
            &&& once.diags.len() == 0
            &&& twice.attribute == once.attribute
            &&& twice.diags.len() == 1
            &&& twice.diags[0].span == assignment_place(second)
            &&& twice.diags[0].help matches Some(note) && note.span == once.attribute.values.last().place()
            &&& once.attribute.values.last().value == first.value.value
        }),
{
    let once = assigned(a, variant, first, first_metadata);
    let names = variants_of(once.attribute.values);
    let n = a.values.len() as int;
    lemma_position_bounds(variants_of(a.values), variant.name);
    assert(names[n] == variant.name);
    assert forall|j: int| 0 <= j < n implies names[j] != variant.name by {
        assert(names[j] == variants_of(a.values)[j]);
    }
    lemma_position_found(names, variant.name, n);
}

/// Whether every variant has at most one of the values `values`.
pub open spec fn one_value_per_variant(values: Seq<AttributeValueView>) -> bool {
    forall|i: int, j: int|
        0 <= i < j < values.len() ==> values[i].variant.name != values[j].variant.name
}

/// Assigning keeps what was fixed when the attribute was made, and never
/// gives a variant a second value: whether the attribute is required, its
/// name, type, default and configuration stay, the values that were there
/// stay, and where every variant had at most one value before, every
/// variant has at most one after.
pub proof fn lemma_assigning_keeps_the_attribute(
    a: AttributeView,
    variant: IdentView,
    value: IdentValueAssignmentView<IdentView, ExprView>,
    metadata: Option<AttributeMetadataView>,
)
    ensures
        ({
            let after = assigned(a, variant, value, metadata).attribute;
            &&& after.required == a.required
            &&& after.ident == a.ident
            &&& after.type_ == a.type_
            &&& after.default == a.default
            &&& after.config == a.config
            &&& after.vis == a.vis
            &&& after.values.len() >= a.values.len()
            &&& after.values.take(a.values.len() as int) == a.values
            &&& one_value_per_variant(a.values) ==> one_value_per_variant(after.values)
        }),
{
    let after = assigned(a, variant, value, metadata).attribute;
    assert(after.values.take(a.values.len() as int) =~= a.values);
    lemma_position_bounds(variants_of(a.values), variant.name);
    if one_value_per_variant(a.values) && position(variants_of(a.values), variant.name) is None {
        assert forall|i: int, j: int| 0 <= i < j < after.values.len() implies after.values[i].variant.name
            != after.values[j].variant.name by {
            if j == a.values.len() {
                assert(variants_of(a.values)[i] != variant.name);
            }
        }
    }
}

} // verus!

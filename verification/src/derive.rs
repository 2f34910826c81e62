//! The generator: from an enum with its annotations to the accessors of its
//! attributes, or to the problems that were found.
//!
//! The work goes in phases: the declarations, the values of each variant,
//! completeness, the accessors' names, the accessors. All problems of a
//! phase are collected; the phases behind one that found a problem do not
//! run.

use vstd::prelude::*;
use crate::attribute::{
    assigned, declared, declared_config, lemma_assigning_keeps_the_attribute, missing,
    one_value_per_variant, validated, Attribute, AttributeMetadata, AttributeMetadataView, AttributeView,
};
use crate::declaration::{
    AttributeDeclaration, AttributeDeclarationView, ParenList, ParenListView,
};
use crate::diag::{
    diagnostics, duplicate, emit, emit_error, error, error_duplicate, Diagnostic, DiagnosticView,
};
use crate::emit::{
    accessor_of, accessor_tokens, arm_names, grouped, lemma_steps_of_values, selected,
    variant_names, word, Accessor, AccessorView,
};
use crate::input::{
    Annotation, AnnotationView, Data, DataView, DeriveInput, DeriveInputView, Variant,
    VariantView,
};
use crate::model::{
    lemma_position_absent, lemma_position_found, lemma_view_all_add, lemma_view_all_push,
    lemma_view_all_remove_first, position, view_all,
};
use crate::node::{ExprView, IdentView};
use crate::parse::{extend, parse2, parsed_whole, ToTokens, TokenStream};
use crate::reference::{
    processed, resolve, ReferenceList, ReferenceListView, ReferenceProcessor, ReferenceTokens,
    ReferenceTokensView,
};
use crate::value::{
    AttributeValueAssignment, AttributeValueAssignmentTokenStream, AttributeValueAssignmentTokens,
    IdentValueAssignmentView, ValueAssignmentView,
};
use crate::token::{lemma_views_push, render, views, Delimiter, Span, Tok, Token};

verus! {

/// The declarations that were accepted, and the problems that were found on
/// the way.
pub struct Declared {
    pub declarations: Seq<AttributeDeclarationView>,
    pub diags: Seq<DiagnosticView>,
}

/// The names of the attributes that `ds` declare.
pub open spec fn declared_names(ds: Seq<AttributeDeclarationView>) -> Seq<Seq<char>> {
    Seq::new(ds.len(), |i: int| ds[i].ident.name)
}

/// `` `name` is already declared here.``
pub open spec fn declared_here_message(name: Seq<char>) -> Seq<char> {
    "`"@ + name + "` is already declared here."@
}

/// The declarations after one more: a name that was declared before is a
/// conflict with the first declaration, and the later one is dropped.
pub open spec fn declare(s: Declared, d: AttributeDeclarationView) -> Declared {
    match position(declared_names(s.declarations), d.ident.name) {
        Some(i) => Declared {
            diags: s.diags.push(
                duplicate(
                    d.ident.span,
                    "This attribute is already declared."@,
                    s.declarations[i].ident.span,
                    declared_here_message(s.declarations[i].ident.name),
                ),
            ),
            ..s
        },
        None => Declared { declarations: s.declarations.push(d), ..s },
    }
}

/// The declarations after the declarations `ds`, one after the other.
pub open spec fn declare_all(s: Declared, ds: Seq<AttributeDeclarationView>) -> Declared
    decreases ds.len(),
{
    if ds.len() == 0 {
        s
    } else {
        declare(declare_all(s, ds.drop_last()), ds.last())
    }
}

/// The declarations after one more annotation of the enum. An annotation
/// of the attribute language holds a list of declarations in parentheses; a
/// list that cannot be read is one problem, and declares nothing.
pub open spec fn annotate(s: Declared, a: AnnotationView) -> Declared {
    if !a.is_attr() {
        s
    } else {
        match parsed_whole::<ParenList<AttributeDeclaration>>(a.tokens, a.span) {
            Ok(list) => declare_all(s, list.elements),
            Err(d) => Declared { diags: s.diags.push(d), ..s },
        }
    }
}

/// The declarations after the annotations `attrs`, one after the other.
pub open spec fn annotate_all(s: Declared, attrs: Seq<AnnotationView>) -> Declared
    decreases attrs.len(),
{
    if attrs.len() == 0 {
        s
    } else {
        annotate(annotate_all(s, attrs.drop_last()), attrs.last())
    }
}

/// The attributes that were made, and the problems that were found on the
/// way.
pub struct Attributes {
    pub attributes: Seq<AttributeView>,
    pub diags: Seq<DiagnosticView>,
}

/// The attributes that the declarations `ds` make, with the problems of
/// their configurations.
pub open spec fn attributes_of(ds: Seq<AttributeDeclarationView>) -> Attributes
    decreases ds.len(),
{
    if ds.len() == 0 {
        Attributes { attributes: Seq::empty(), diags: Seq::empty() }
    } else {
        let before = attributes_of(ds.drop_last());
        Attributes {
            attributes: before.attributes.push(declared(ds.last())),
            diags: before.diags + declared_config(ds.last()).diags,
        }
    }
}

/// The attributes that the annotations of an enum declare, and the problems
/// of the declarations: those of reading and of names first, those of the
/// configurations behind them.
pub open spec fn enum_attributes(attrs: Seq<AnnotationView>) -> Attributes {
    let d = annotate_all(Declared { declarations: Seq::empty(), diags: Seq::empty() }, attrs);
    let a = attributes_of(d.declarations);
    Attributes { attributes: a.attributes, diags: d.diags + a.diags }
}

/// Declaring a name twice is a conflict: the first declaration stays, the
/// second is dropped, and one problem is reported, which stands at the
/// second name and points at the first.
pub proof fn lemma_second_declaration_conflicts(
    s: Declared,
    first: AttributeDeclarationView,
    second: AttributeDeclarationView,
)
    requires
        position(declared_names(s.declarations), first.ident.name) is None,
        second.ident.name == first.ident.name,
    ensures
        declare(declare(s, first), second) == (Declared {
            declarations: s.declarations.push(first),
            diags: s.diags.push(
                duplicate(
                    second.ident.span,
                    "This attribute is already declared."@,
                    first.ident.span,
                    declared_here_message(first.ident.name),
                ),
            ),
        }),
{
    let once = declare(s, first);
    let all = declared_names(once.declarations);
    let n = s.declarations.len() as int;
    crate::model::lemma_position_bounds(declared_names(s.declarations), first.ident.name);
    assert(all[n] == first.ident.name);
    assert forall|j: int| 0 <= j < n implies all[j] != first.ident.name by {
        assert(all[j] == declared_names(s.declarations)[j]);
    }
    lemma_position_found(all, second.ident.name, n);
}

/// The first place in `declarations` of the declaration of `name`.
fn find_declaration(declarations: &Vec<AttributeDeclaration>, name: &str) -> (r: Option<usize>)
    ensures
        (match r {
            Some(i) => Some(i as int),
            None => None,
        }) == position(declared_names(view_all(declarations@)), name@),
        r matches Some(i) ==> i < declarations.len(),
{
    let ghost all = declared_names(view_all(declarations@));
    let mut i: usize = 0;
    while i < declarations.len()
        invariant
            i <= declarations.len(),
            all == declared_names(view_all(declarations@)),
            forall|j: int| 0 <= j < i ==> all[j] != name@,
        decreases declarations.len() - i,
    {
        if declarations[i].ident.name.as_str().eq(name) {
            proof {
                assert(all[i as int] == name@);
                lemma_position_found(all, name@, i as int);
            }
            return Some(i);
        }
        assert(all[i as int] != name@);
        i += 1;
    }
    proof {
        lemma_position_absent(all, name@);
    }
    None
}

/// Adds the declarations of `list` to `declarations`.
fn declare_list(
    declarations: &mut Vec<AttributeDeclaration>,
    list: Vec<AttributeDeclaration>,
    diags: &mut Vec<Diagnostic>,
)
    ensures
        ({
            let s = declare_all(
                Declared { declarations: view_all(old(declarations)@), diags: Seq::empty() },
                view_all(list@),
            );
            &&& view_all(final(declarations)@) == s.declarations
            &&& diagnostics(final(diags)@) == diagnostics(old(diags)@) + s.diags
        }),
{
    let ghost all = view_all(list@);
    let ghost first = Declared { declarations: view_all(old(declarations)@), diags: Seq::empty() };
    let ghost before = diagnostics(old(diags)@);
    let mut rest = list;
    let mut done: Ghost<int> = Ghost(0);
    proof {
        assert(all.take(0) =~= Seq::empty());
        assert(diagnostics(diags@) =~= before + first.diags);
        assert(all.skip(0) =~= all);
    }
    while rest.len() > 0
        invariant
            0 <= done@ <= all.len(),
            view_all(rest@) == all.skip(done@),
            ({
                let s = declare_all(first, all.take(done@));
                &&& view_all(declarations@) == s.declarations
                &&& diagnostics(diags@) == before + s.diags
            }),
        decreases rest.len(),
    {
        let ghost s = declare_all(first, all.take(done@));
        proof {
            assert(view_all(rest@).len() == rest@.len());
            assert(done@ < all.len());
            lemma_view_all_remove_first(rest@);
        }
        let declaration = rest.remove(0);
        proof {
            assert(all.skip(done@).skip(1) =~= all.skip(done@ + 1));
            assert(view_all(rest@) =~= all.skip(done@ + 1));
            assert(all.take(done@ + 1).drop_last() =~= all.take(done@));
            assert(all.take(done@ + 1).last() == declaration@);
            assert(all.skip(done@)[0] == declaration@);
        }
        match find_declaration(declarations, declaration.ident.name.as_str()) {
            Some(i) => {
                let earlier = &declarations[i];
                let mut message = String::from_str("`");
                message.append(earlier.ident.name.as_str());
                message.append("` is already declared here.");
                error_duplicate(
                    diags,
                    declaration.ident.span,
                    String::from_str("This attribute is already declared."),
                    earlier.ident.span,
                    message,
                );
                assert(diagnostics(diags@) =~= before + declare(s, declaration@).diags);
            },
            None => {
                proof {
                    lemma_view_all_push(declarations@, declaration);
                }
                declarations.push(declaration);
            },
        }
        proof {
            done@ = done@ + 1;
        }
    }
    proof {
        assert(view_all(rest@).len() == 0);
        assert(all.take(done@) =~= all);
    }
}

/// The attributes that the annotations `attrs` of an enum declare. Problems
/// go to `diags`.
pub fn parse_enum_attributes(attrs: &Vec<Annotation>, diags: &mut Vec<Diagnostic>) -> (r: Vec<
    Attribute,
>)
    ensures
        view_all(r@) == enum_attributes(view_all(attrs@)).attributes,
        diagnostics(final(diags)@) == diagnostics(old(diags)@) + enum_attributes(
            view_all(attrs@),
        ).diags,
{
    let ghost all = view_all(attrs@);
    let ghost first = Declared { declarations: Seq::empty(), diags: Seq::empty() };
    let ghost before = diagnostics(old(diags)@);
    let mut attribute_declarations: Vec<AttributeDeclaration> = Vec::new();
    let mut i: usize = 0;
    proof {
        assert(all.take(0) =~= Seq::empty());
        assert(view_all(attribute_declarations@) =~= first.declarations);
        assert(diagnostics(diags@) =~= before + first.diags);
    }
    while i < attrs.len()
        invariant
            i <= attrs.len(),
            all == view_all(attrs@),
            ({
                let s = annotate_all(first, all.take(i as int));
                &&& view_all(attribute_declarations@) == s.declarations
                &&& diagnostics(diags@) == before + s.diags
            }),
        decreases attrs.len() - i,
    {
        let attr = &attrs[i];
        let ghost s = annotate_all(first, all.take(i as int));
        proof {
            assert(all.take(i + 1).drop_last() =~= all.take(i as int));
            assert(all.take(i + 1).last() == attr@);
        }
        if attr.is_attr() {
            match parse2::<ParenList<AttributeDeclaration>>(&attr.tokens, attr.span) {
                Ok(declaration_list) => {
                    let ghost list = declaration_list@.elements;
                    let (_, elements) = declaration_list.into_parts();
                    declare_list(&mut attribute_declarations, elements, diags);
                    proof {
                        lemma_declare_all_diags(s, list);
                        assert(diagnostics(diags@) =~= before + declare_all(s, list).diags);
                    }
                },
                Err(d) => {
                    emit(diags, d);
                    assert(diagnostics(diags@) =~= before + s.diags.push(d@));
                },
            }
        }
        i += 1;
    }
    proof {
        assert(all.take(attrs@.len() as int) =~= all);
    }
    let ghost declared_all = annotate_all(first, all);
    let ghost ds = view_all(attribute_declarations@);
    let mut attributes: Vec<Attribute> = Vec::new();
    let mut done: Ghost<int> = Ghost(0);
    proof {
        assert(ds.take(0) =~= Seq::empty());
        assert(ds.skip(0) =~= ds);
        assert(view_all(attributes@) =~= attributes_of(ds.take(0)).attributes);
        assert(diagnostics(diags@) =~= before + declared_all.diags + attributes_of(
            ds.take(0),
        ).diags);
    }
    while attribute_declarations.len() > 0
        invariant
            0 <= done@ <= ds.len(),
            view_all(attribute_declarations@) == ds.skip(done@),
            view_all(attributes@) == attributes_of(ds.take(done@)).attributes,
            diagnostics(diags@) == before + declared_all.diags + attributes_of(
                ds.take(done@),
            ).diags,
        decreases attribute_declarations.len(),
    {
        proof {
            assert(view_all(attribute_declarations@).len() == attribute_declarations@.len());
            assert(done@ < ds.len());
            lemma_view_all_remove_first(attribute_declarations@);
        }
        let declaration = attribute_declarations.remove(0);
        proof {
            assert(ds.skip(done@).skip(1) =~= ds.skip(done@ + 1));
            assert(view_all(attribute_declarations@) =~= ds.skip(done@ + 1));
            assert(ds.take(done@ + 1).drop_last() =~= ds.take(done@));
            assert(ds.skip(done@)[0] == declaration@);
            assert(ds.take(done@ + 1).last() == declaration@);
        }
        let attribute = Attribute::new(declaration, diags);
        proof {
            lemma_view_all_push(attributes@, attribute);
            assert(diagnostics(diags@) =~= before + declared_all.diags + attributes_of(
                ds.take(done@ + 1),
            ).diags);
        }
        attributes.push(attribute);
        proof {
            done@ = done@ + 1;
        }
    }
    proof {
        assert(ds.skip(done@).len() == 0);
        assert(ds.take(done@) =~= ds);
        assert(diagnostics(diags@) =~= before + (declared_all.diags + attributes_of(ds).diags));
    }
    attributes
}

/// The problems of a run of declarations come behind those that it began
/// with, and the declarations do not depend on those problems.
proof fn lemma_declare_all_diags(s: Declared, ds: Seq<AttributeDeclarationView>)
    ensures
        ({
            let fresh = declare_all(
                Declared { declarations: s.declarations, diags: Seq::empty() },
                ds,
            );
            &&& declare_all(s, ds).declarations == fresh.declarations
            &&& declare_all(s, ds).diags == s.diags + fresh.diags
        }),
    decreases ds.len(),
{
    let zero = Declared { declarations: s.declarations, diags: Seq::empty() };
    if ds.len() == 0 {
        assert(s.diags + zero.diags =~= s.diags);
    } else {
        lemma_declare_all_diags(s, ds.drop_last());
        let a = declare_all(s, ds.drop_last());
        let b = declare_all(zero, ds.drop_last());
        assert(declare(a, ds.last()).diags =~= s.diags + declare(b, ds.last()).diags);
    }
}

/// Whether the accessor of `a` was given the name `name`.
pub open spec fn uses_name(a: AttributeView, name: Seq<char>) -> bool {
    a.config.function_name matches Some(literal) && literal.value == name
}

/// Whether the attribute at `j` is the first of `attrs` whose accessor was
/// given the name `name`.
pub open spec fn is_first_use(attrs: Seq<AttributeView>, name: Seq<char>, j: int) -> bool {
    &&& 0 <= j < attrs.len()
    &&& uses_name(attrs[j], name)
    &&& forall|k: int| 0 <= k < j ==> !uses_name(attrs[k], name)
}

/// The place of the first of `attrs` whose accessor was given the name
/// `name`.
pub open spec fn first_use(attrs: Seq<AttributeView>, name: Seq<char>) -> Option<int> {
    if exists|j: int| is_first_use(attrs, name, j) {
        Some(choose|j: int| is_first_use(attrs, name, j))
    } else {
        None
    }
}

/// ``The attribute `name` already use this function name.``
pub open spec fn already_used_message(name: Seq<char>) -> Seq<char> {
    "The attribute `"@ + name + "` already use this function name."@
}

/// ``First use of `name` here.``
pub open spec fn first_use_message(name: Seq<char>) -> Seq<char> {
    "First use of `"@ + name + "` here."@
}

/// The conflict that the attribute at `i` makes: its accessor was given a
/// name that an earlier attribute's accessor was given. The problem stands
/// at the later name and points at the first use.
pub open spec fn conflict(attrs: Seq<AttributeView>, i: int) -> Option<DiagnosticView> {
    match attrs[i].config.function_name {
        Some(literal) => match first_use(attrs.take(i), literal.value) {
            Some(j) => Some(
                duplicate(
                    literal.span,
                    already_used_message(attrs[j].ident.name),
                    attrs[j].config.function_name->0.span,
                    first_use_message(literal.value),
                ),
            ),
            None => None,
        },
        None => None,
    }
}

/// The conflicts that the first `n` of `attrs` make, in order.
pub open spec fn conflicts(attrs: Seq<AttributeView>, n: int) -> Seq<DiagnosticView>
    decreases n,
{
    if n <= 0 {
        Seq::empty()
    } else {
        match conflict(attrs, n - 1) {
            Some(d) => conflicts(attrs, n - 1).push(d),
            None => conflicts(attrs, n - 1),
        }
    }
}

proof fn lemma_first_use_found(attrs: Seq<AttributeView>, name: Seq<char>, j: int)
    requires
        is_first_use(attrs, name, j),
    ensures
        first_use(attrs, name) == Some(j),
{
    let k = choose|k: int| is_first_use(attrs, name, k);
    assert(is_first_use(attrs, name, k));
    if k < j {
        assert(!uses_name(attrs[k], name));
    } else if j < k {
        assert(!uses_name(attrs[j], name));
    }
}

/// If the attribute at `j` uses `name`, there is a first that does.
proof fn lemma_first_use_exists(attrs: Seq<AttributeView>, name: Seq<char>, j: int)
    requires
        0 <= j < attrs.len(),
        uses_name(attrs[j], name),
    ensures
        first_use(attrs, name) matches Some(k) && k <= j && is_first_use(attrs, name, k),
    decreases j,
{
    if forall|k: int| 0 <= k < j ==> !uses_name(attrs[k], name) {
        assert(is_first_use(attrs, name, j));
        lemma_first_use_found(attrs, name, j);
    } else {
        let k = choose|k: int| 0 <= k < j && uses_name(attrs[k], name);
        lemma_first_use_exists(attrs, name, k);
    }
}

/// Reports every attribute whose accessor was given a name that an earlier
/// attribute's accessor was given.
pub fn check_for_conflicts(attrs: &Vec<Attribute>, diags: &mut Vec<Diagnostic>)
    ensures
        diagnostics(final(diags)@) == diagnostics(old(diags)@) + conflicts(
            view_all(attrs@),
            attrs@.len() as int,
        ),
{
    let ghost all = view_all(attrs@);
    let ghost before = diagnostics(old(diags)@);
    let mut i: usize = 0;
    assert(diagnostics(diags@) =~= before + conflicts(all, 0));
    while i < attrs.len()
        invariant
            i <= attrs.len(),
            all == view_all(attrs@),
            diagnostics(diags@) == before + conflicts(all, i as int),
        decreases attrs.len() - i,
    {
        match &attrs[i].config.function_name {
            Some(literal) => {
                let ghost earlier = all.take(i as int);
                let mut j: usize = 0;
                let mut found: Option<(usize, Span)> = None;
                while j < i && found.is_none()
                    invariant
                        j <= i <= attrs.len(),
                        all == view_all(attrs@),
                        earlier == all.take(i as int),
                        forall|k: int|
                            0 <= k < j && found is None ==> !uses_name(earlier[k], literal@.value),
                        found matches Some((f, span)) ==> is_first_use(
                            earlier,
                            literal@.value,
                            f as int,
                        ) && span == earlier[f as int].config.function_name->0.span,
                    decreases i - j + (if found is None { 1int } else { 0int }),
                {
                    let first = match &attrs[j].config.function_name {
                        Some(other) => if other.value.as_str().eq(literal.value.as_str()) {
                            Some((j, other.span))
                        } else {
                            None
                        },
                        None => None,
                    };
                    assert(first is Some == uses_name(earlier[j as int], literal@.value));
                    if first.is_some() {
                        found = first;
                    } else {
                        j += 1;
                    }
                }
                match found {
                    Some((f, first_span)) => {
                        proof {
                            lemma_first_use_found(earlier, literal@.value, f as int);
                        }
                        let mut message = String::from_str("The attribute `");
                        message.append(attrs[f].ident.name.as_str());
                        message.append("` already use this function name.");
                        let mut note = String::from_str("First use of `");
                        note.append(literal.value.as_str());
                        note.append("` here.");
                        error_duplicate(diags, literal.span, message, first_span, note);
                        assert(diagnostics(diags@) =~= before + conflicts(all, i + 1));
                    },
                    None => {
                        proof {
                            if first_use(earlier, literal@.value) is Some {
                                let k = first_use(earlier, literal@.value)->0;
                                assert(is_first_use(earlier, literal@.value, k));
                            }
                        }
                    },
                }
            },
            None => {},
        }
        i += 1;
    }
}

/// Two attributes whose accessors were given the same name are a conflict:
/// the later one is reported, at the place of its name, and the report
/// points at the place of the first use of that name.
pub proof fn lemma_same_name_conflicts(attrs: Seq<AttributeView>, j: int, i: int)
    requires
        0 <= j < i < attrs.len(),
        attrs[i].config.function_name is Some,
        uses_name(attrs[j], attrs[i].config.function_name->0.value),
    ensures
        ({
            let name = attrs[i].config.function_name->0;
            &&& conflict(attrs, i) matches Some(d) && d.span == name.span && (d.help matches Some(
                note,
            ) && exists|k: int|
                0 <= k <= j && uses_name(attrs[k], name.value) && note.span
                    == attrs[k].config.function_name->0.span)
            &&& conflicts(attrs, attrs.len() as int).contains(conflict(attrs, i)->0)
        }),
{
    let name = attrs[i].config.function_name->0;
    let earlier = attrs.take(i);
    assert(earlier[j] == attrs[j]);
    lemma_first_use_exists(earlier, name.value, j);
    let k = first_use(earlier, name.value)->0;
    assert(earlier[k] == attrs[k]);
    lemma_conflicts_hold(attrs, attrs.len() as int, i);
}

/// The conflict of the attribute at `i` is among the conflicts of the first
/// `n`, where `i` is one of them.
proof fn lemma_conflicts_hold(attrs: Seq<AttributeView>, n: int, i: int)
    requires
        0 <= i < n,
        conflict(attrs, i) is Some,
    ensures
        conflicts(attrs, n).contains(conflict(attrs, i)->0),
    decreases n,
{
    let d = conflict(attrs, i)->0;
    if i == n - 1 {
        let all = conflicts(attrs, n);
        assert(all[all.len() - 1] == d);
    } else {
        lemma_conflicts_hold(attrs, n - 1, i);
        let before = conflicts(attrs, n - 1);
        let k = choose|k: int| 0 <= k < before.len() && before[k] == d;
        assert(conflicts(attrs, n)[k] == d);
    }
}

/// A value as it stands in a variant's annotation before its references
/// are resolved.
pub type RawValueView = IdentValueAssignmentView<IdentView, ReferenceTokensView>;

/// A value whose references are resolved, as plain tokens.
pub type PlainValueView = IdentValueAssignmentView<IdentView, Seq<Tok>>;

/// A value as an expression.
pub type ValueView = IdentValueAssignmentView<IdentView, ExprView>;

/// What was found in the values of a variant: the metadata of the values
/// that refer to fields, and the problems.
pub struct Found {
    pub metadata: Seq<AttributeMetadataView>,
    pub diags: Seq<DiagnosticView>,
}

/// What the references of one value come to. Each list of references whose
/// root is `self` makes the metadata of the value for the attribute `name`;
/// a list with any other root is reported at every place of the root.
pub open spec fn metadata_of(name: Seq<char>, lists: Seq<ReferenceListView>, span: Span) -> Found
    decreases lists.len(),
{
    if lists.len() == 0 {
        Found { metadata: Seq::empty(), diags: Seq::empty() }
    } else {
        let before = metadata_of(name, lists.drop_last(), span);
        let list = lists.last();
        if list.name.name == "self"@ {
            Found {
                metadata: before.metadata.push(
                    AttributeMetadataView {
                        attribute_ident: name,
                        value_real_span: span,
                        references: list.list,
                    },
                ),
                ..before
            }
        } else {
            Found {
                diags: before.diags + Seq::new(
                    list.name.spans.len(),
                    |i: int| error(list.name.spans[i], "Unknown reference."@),
                ),
                ..before
            }
        }
    }
}

/// The values of one annotation with their references resolved, and what
/// was found in them.
pub struct Rewritten {
    pub elements: Seq<PlainValueView>,
    pub found: Found,
}

/// The values after one more: its references are resolved. A value with a
/// broken reference is dropped; the problems of the reference are kept.
pub open spec fn rewrite(s: Rewritten, e: RawValueView) -> Rewritten {
    let ts = ReferenceTokens::tokens(e.value.value);
    let problems = resolve(ts, Seq::empty()).diags;
    match processed(ts) {
        None => Rewritten {
            found: Found { diags: s.found.diags + problems, ..s.found },
            ..s
        },
        Some(p) => {
            let m = metadata_of(e.ident.name, p.references, p.span);
            Rewritten {
                elements: s.elements.push(
                    IdentValueAssignmentView {
                        ident: e.ident,
                        value: ValueAssignmentView { equal: e.value.equal, value: p.tokens },
                    },
                ),
                found: Found {
                    metadata: s.found.metadata + m.metadata,
                    diags: s.found.diags + problems + m.diags,
                },
            }
        },
    }
}

/// The values after the values `es`, one after the other.
pub open spec fn rewrite_all(s: Rewritten, es: Seq<RawValueView>) -> Rewritten
    decreases es.len(),
{
    if es.len() == 0 {
        s
    } else {
        rewrite(rewrite_all(s, es.drop_last()), es.last())
    }
}

/// The annotations of a variant with the references in their values
/// resolved, and what was found in the values.
pub struct Expanded {
    pub attrs: Seq<AnnotationView>,
    pub found: Found,
}

/// The annotations after one more. An annotation of the attribute language
/// holds a list of values in parentheses: it is written anew, with the
/// references resolved. A list that cannot be read is one problem, and the
/// annotation stays as it is. Any other annotation stays as it is.
pub open spec fn expand(s: Expanded, a: AnnotationView) -> Expanded {
    if !a.is_attr() {
        Expanded { attrs: s.attrs.push(a), ..s }
    } else {
        match parsed_whole::<ParenList<AttributeValueAssignmentTokens>>(a.tokens, a.span) {
            Err(d) => Expanded {
                attrs: s.attrs.push(a),
                found: Found { diags: s.found.diags.push(d), ..s.found },
            },
            Ok(list) => {
                let r = rewrite_all(
                    Rewritten { elements: Seq::empty(), found: s.found },
                    list.elements,
                );
                Expanded {
                    attrs: s.attrs.push(
                        AnnotationView {
                            tokens: ParenList::<AttributeValueAssignmentTokenStream>::tokens(
                                ParenListView { paren: list.paren, elements: r.elements },
                            ),
                            ..a
                        },
                    ),
                    found: r.found,
                }
            },
        }
    }
}

/// The annotations after the annotations `attrs`, one after the other.
pub open spec fn expand_all(s: Expanded, attrs: Seq<AnnotationView>) -> Expanded
    decreases attrs.len(),
{
    if attrs.len() == 0 {
        s
    } else {
        expand(expand_all(s, attrs.drop_last()), attrs.last())
    }
}

/// The annotations `attrs` of a variant with the references in their
/// values resolved.
pub open spec fn expanded(attrs: Seq<AnnotationView>) -> Expanded {
    expand_all(
        Expanded {
            attrs: Seq::empty(),
            found: Found { metadata: Seq::empty(), diags: Seq::empty() },
        },
        attrs,
    )
}

/// Turns the references of one value into metadata.
fn collect_metadata(
    name: &str,
    lists: Vec<ReferenceList>,
    span: Span,
    metadata: &mut Vec<AttributeMetadata>,
    diags: &mut Vec<Diagnostic>,
)
    ensures
        ({
            let m = metadata_of(name@, view_all(lists@), span);
            &&& view_all(final(metadata)@) == view_all(old(metadata)@) + m.metadata
            &&& diagnostics(final(diags)@) == diagnostics(old(diags)@) + m.diags
        }),
{
    let ghost all = view_all(lists@);
    let ghost before = diagnostics(old(diags)@);
    let ghost held = view_all(old(metadata)@);
    let mut rest = lists;
    let mut done: Ghost<int> = Ghost(0);
    proof {
        assert(all.take(0) =~= Seq::empty());
        assert(all.skip(0) =~= all);
        assert(view_all(metadata@) =~= held + metadata_of(name@, all.take(0), span).metadata);
        assert(diagnostics(diags@) =~= before + metadata_of(name@, all.take(0), span).diags);
    }
    while rest.len() > 0
        invariant
            0 <= done@ <= all.len(),
            view_all(rest@) == all.skip(done@),
            view_all(metadata@) == held + metadata_of(name@, all.take(done@), span).metadata,
            diagnostics(diags@) == before + metadata_of(name@, all.take(done@), span).diags,
        decreases rest.len(),
    {
        proof {
            assert(view_all(rest@).len() == rest@.len());
            lemma_view_all_remove_first(rest@);
        }
        let list = rest.remove(0);
        proof {
            assert(all.skip(done@).skip(1) =~= all.skip(done@ + 1));
            assert(all.take(done@ + 1).drop_last() =~= all.take(done@));
            assert(all.skip(done@)[0] == list@);
            assert(all.take(done@ + 1).last() == list@);
        }
        let ghost m = metadata_of(name@, all.take(done@), span);
        if list.name().name().eq("self") {
            let item = AttributeMetadata::new(String::from_str(name), list.into_list(), span);
            proof {
                lemma_view_all_push(metadata@, item);
                assert(view_all(metadata@).push(item@) =~= held + m.metadata.push(item@));
            }
            metadata.push(item);
        } else {
            list.name().emit_error("Unknown reference.", diags);
            assert(diagnostics(diags@) =~= before + metadata_of(
                name@,
                all.take(done@ + 1),
                span,
            ).diags);
        }
        proof {
            done@ = done@ + 1;
        }
    }
    proof {
        assert(view_all(rest@).len() == rest@.len());
        assert(all.take(done@) =~= all);
    }
}

/// Resolves the references in the values `elements`.
fn rewrite_elements(
    elements: Vec<AttributeValueAssignmentTokens>,
    metadata: &mut Vec<AttributeMetadata>,
    diags: &mut Vec<Diagnostic>,
) -> (new_elements: Vec<AttributeValueAssignmentTokenStream>)
    ensures
        ({
            let r = rewrite_all(
                Rewritten {
                    elements: Seq::empty(),
                    found: Found {
                        metadata: view_all(old(metadata)@),
                        diags: diagnostics(old(diags)@),
                    },
                },
                view_all(elements@),
            );
            &&& view_all(new_elements@) == r.elements
            &&& view_all(final(metadata)@) == r.found.metadata
            &&& diagnostics(final(diags)@) == r.found.diags
        }),
{
    let ghost all = view_all(elements@);
    let ghost first = Rewritten {
        elements: Seq::empty(),
        found: Found { metadata: view_all(old(metadata)@), diags: diagnostics(old(diags)@) },
    };
    let mut new_elements: Vec<AttributeValueAssignmentTokenStream> = Vec::new();
    let mut rest = elements;
    let mut done: Ghost<int> = Ghost(0);
    proof {
        assert(all.take(0) =~= Seq::empty());
        assert(all.skip(0) =~= all);
        assert(view_all(new_elements@) =~= first.elements);
    }
    while rest.len() > 0
        invariant
            0 <= done@ <= all.len(),
            view_all(rest@) == all.skip(done@),
            ({
                let r = rewrite_all(first, all.take(done@));
                &&& view_all(new_elements@) == r.elements
                &&& view_all(metadata@) == r.found.metadata
                &&& diagnostics(diags@) == r.found.diags
            }),
        decreases rest.len(),
    {
        proof {
            assert(view_all(rest@).len() == rest@.len());
            lemma_view_all_remove_first(rest@);
        }
        let element = rest.remove(0);
        proof {
            assert(all.skip(done@).skip(1) =~= all.skip(done@ + 1));
            assert(all.take(done@ + 1).drop_last() =~= all.take(done@));
            assert(all.skip(done@)[0] == element@);
            assert(all.take(done@ + 1).last() == element@);
        }
        let ghost s = rewrite_all(first, all.take(done@));
        let ghost e = element@;
        let (ident, equal, value) = element.into_parts();
        let mut written: Vec<Token> = Vec::new();
        assert(views(written@) =~= Seq::empty());
        value.to_tokens(&mut written);
        assert(views(written@) =~= ReferenceTokens::tokens(e.value.value));
        match ReferenceProcessor::parse(TokenStream { tokens: written }, diags) {
            Ok(processor) => {
                let (tokens, reference_lists, real_span) = processor.into_parts();
                collect_metadata(ident.name.as_str(), reference_lists, real_span, metadata, diags);
                let new_element = AttributeValueAssignmentTokenStream::from_parts(
                    ident,
                    equal,
                    TokenStream { tokens },
                );
                proof {
                    lemma_view_all_push(new_elements@, new_element);
                    assert(diagnostics(diags@) =~= rewrite(s, e).found.diags);
                }
                new_elements.push(new_element);
            },
            Err(_) => {},
        }
        proof {
            done@ = done@ + 1;
        }
    }
    proof {
        assert(view_all(rest@).len() == rest@.len());
        assert(all.take(done@) =~= all);
    }
    new_elements
}

/// Resolves the references in the values that the annotations of `variant`
/// hold, and writes the annotations anew. Returns the metadata of the
/// values that refer to fields; problems go to `diags`.
pub fn expand_variant_attributes(variant: &mut Variant, diags: &mut Vec<Diagnostic>) -> (r: Vec<
    AttributeMetadata,
>)
    ensures
        ({
            let e = expanded(old(variant)@.attrs);
            &&& final(variant)@ == (VariantView { attrs: e.attrs, ..old(variant)@ })
            &&& view_all(r@) == e.found.metadata
            &&& diagnostics(final(diags)@) == diagnostics(old(diags)@) + e.found.diags
        }),
{
    let ghost all = old(variant)@.attrs;
    let ghost before = diagnostics(old(diags)@);
    let ghost first = Expanded {
        attrs: Seq::empty(),
        found: Found { metadata: Seq::empty(), diags: Seq::empty() },
    };
    let mut self_references: Vec<AttributeMetadata> = Vec::new();
    let mut new_attrs: Vec<Annotation> = Vec::new();
    let mut i: usize = 0;
    proof {
        assert(all.take(0) =~= Seq::empty());
        assert(view_all(new_attrs@) =~= first.attrs);
        assert(view_all(self_references@) =~= first.found.metadata);
        assert(diagnostics(diags@) =~= before + first.found.diags);
    }
    while i < variant.attrs.len()
        invariant
            i <= variant.attrs.len(),
            *variant == *old(variant),
            all == old(variant)@.attrs,
            before == diagnostics(old(diags)@),
            ({
                let s = expand_all(first, all.take(i as int));
                &&& view_all(new_attrs@) == s.attrs
                &&& view_all(self_references@) == s.found.metadata
                &&& diagnostics(diags@) == before + s.found.diags
            }),
        decreases variant.attrs.len() - i,
    {
        let attr = &variant.attrs[i];
        let ghost s = expand_all(first, all.take(i as int));
        proof {
            assert(all.take(i + 1).drop_last() =~= all.take(i as int));
            assert(all.take(i + 1).last() == attr@);
        }
        if !attr.is_attr() {
            let copy = attr.duplicate();
            proof {
                lemma_view_all_push(new_attrs@, copy);
            }
            new_attrs.push(copy);
        } else {
            match parse2::<ParenList<AttributeValueAssignmentTokens>>(&attr.tokens, attr.span) {
                Err(d) => {
                    let copy = attr.duplicate();
                    proof {
                        lemma_view_all_push(new_attrs@, copy);
                    }
                    new_attrs.push(copy);
                    emit(diags, d);
                    assert(diagnostics(diags@) =~= before + s.found.diags.push(d@));
                },
                Ok(list) => {
                    let ghost listed = list@;
                    let (list_span, elements) = list.into_parts();
                    let new_elements = rewrite_elements(elements, &mut self_references, diags);
                    proof {
                        lemma_rewrite_all_diags(
                            Rewritten { elements: Seq::empty(), found: s.found },
                            before,
                            listed.elements,
                        );
                    }
                    let new_list = ParenList::<AttributeValueAssignmentTokenStream>::from_parts(
                        list_span,
                        new_elements,
                    );
                    let mut tokens: Vec<Token> = Vec::new();
                    assert(views(tokens@) =~= Seq::empty());
                    new_list.to_tokens(&mut tokens);
                    assert(views(tokens@) =~= ParenList::<
                        AttributeValueAssignmentTokenStream,
                    >::tokens(new_list@));
                    let copy = Annotation {
                        name: match &attr.name {
                            Some(name) => Some(name.clone()),
                            None => None,
                        },
                        tokens,
                        span: attr.span,
                    };
                    proof {
                        lemma_view_all_push(new_attrs@, copy);
                    }
                    new_attrs.push(copy);
                },
            }
        }
        i += 1;
    }
    proof {
        assert(all.take(variant.attrs@.len() as int) =~= all);
    }
    variant.attrs = new_attrs;
    self_references
}

/// The problems of a run of values come behind those that were there
/// before, and nothing else depends on those.
proof fn lemma_rewrite_all_diags(s: Rewritten, before: Seq<DiagnosticView>, es: Seq<RawValueView>)
    ensures
        ({
            let shifted = Rewritten {
                found: Found { diags: before + s.found.diags, ..s.found },
                ..s
            };
            let a = rewrite_all(s, es);
            let b = rewrite_all(shifted, es);
            &&& b.elements == a.elements
            &&& b.found.metadata == a.found.metadata
            &&& b.found.diags == before + a.found.diags
        }),
    decreases es.len(),
{
    if es.len() > 0 {
        lemma_rewrite_all_diags(s, before, es.drop_last());
        let shifted = Rewritten {
            found: Found { diags: before + s.found.diags, ..s.found },
            ..s
        };
        let a = rewrite_all(s, es.drop_last());
        let b = rewrite_all(shifted, es.drop_last());
        assert(rewrite(b, es.last()).found.diags =~= before + rewrite(a, es.last()).found.diags);
    }
}

/// The values that were read, and the problems of reading them.
pub struct Values {
    pub values: Seq<ValueView>,
    pub diags: Seq<DiagnosticView>,
}

/// The values after one more annotation of a variant. An annotation of the
/// attribute language holds a list of values in parentheses; a list that
/// cannot be read is one problem, and assigns nothing.
pub open spec fn read_values(s: Values, a: AnnotationView) -> Values {
    if !a.is_attr() {
        s
    } else {
        match parsed_whole::<ParenList<AttributeValueAssignment>>(a.tokens, a.span) {
            Ok(list) => Values { values: s.values + list.elements, ..s },
            Err(d) => Values { diags: s.diags.push(d), ..s },
        }
    }
}

/// The values that the annotations `attrs` of a variant hold.
pub open spec fn variant_values(attrs: Seq<AnnotationView>) -> Values
    decreases attrs.len(),
{
    if attrs.len() == 0 {
        Values { values: Seq::empty(), diags: Seq::empty() }
    } else {
        read_values(variant_values(attrs.drop_last()), attrs.last())
    }
}

/// The values that the annotations of `variant` hold. Problems go to
/// `diags`.
pub fn parse_variant_attributes(variant: &Variant, diags: &mut Vec<Diagnostic>) -> (r: Vec<
    AttributeValueAssignment,
>)
    ensures
        view_all(r@) == variant_values(variant@.attrs).values,
        diagnostics(final(diags)@) == diagnostics(old(diags)@) + variant_values(
            variant@.attrs,
        ).diags,
{
    let ghost all = variant@.attrs;
    let ghost before = diagnostics(old(diags)@);
    let mut variant_attrs: Vec<AttributeValueAssignment> = Vec::new();
    let mut i: usize = 0;
    proof {
        assert(all.take(0) =~= Seq::empty());
        assert(view_all(variant_attrs@) =~= variant_values(all.take(0)).values);
        assert(diagnostics(diags@) =~= before + variant_values(all.take(0)).diags);
    }
    while i < variant.attrs.len()
        invariant
            i <= variant.attrs.len(),
            all == variant@.attrs,
            view_all(variant_attrs@) == variant_values(all.take(i as int)).values,
            diagnostics(diags@) == before + variant_values(all.take(i as int)).diags,
        decreases variant.attrs.len() - i,
    {
        let attr = &variant.attrs[i];
        let ghost s = variant_values(all.take(i as int));
        proof {
            assert(all.take(i + 1).drop_last() =~= all.take(i as int));
            assert(all.take(i + 1).last() == attr@);
        }
        if attr.is_attr() {
            match parse2::<ParenList<AttributeValueAssignment>>(&attr.tokens, attr.span) {
                Ok(list) => {
                    let (_, mut elements) = list.into_parts();
                    proof {
                        lemma_view_all_add(variant_attrs@, elements@);
                    }
                    variant_attrs.append(&mut elements);
                },
                Err(d) => {
                    emit(diags, d);
                    assert(diagnostics(diags@) =~= before + s.diags.push(d@));
                },
            }
        }
        i += 1;
    }
    proof {
        assert(all.take(variant.attrs@.len() as int) =~= all);
    }
    variant_attrs
}

/// The attributes while the values of one variant are assigned: the
/// attributes, the metadata that is not handed out yet, and the problems.
pub struct Bound {
    pub attributes: Seq<AttributeView>,
    pub metadata: Seq<AttributeMetadataView>,
    pub diags: Seq<DiagnosticView>,
}

/// The names of the attributes `attrs`.
pub open spec fn attribute_names(attrs: Seq<AttributeView>) -> Seq<Seq<char>> {
    Seq::new(attrs.len(), |i: int| attrs[i].ident.name)
}

/// The names of the attributes that the metadata `metadata` belong to.
pub open spec fn metadata_names(metadata: Seq<AttributeMetadataView>) -> Seq<Seq<char>> {
    Seq::new(metadata.len(), |i: int| metadata[i].attribute_ident)
}

/// The attributes after `value` was assigned for `variant`. A value for an
/// attribute that is not declared is reported and skipped. Else the value
/// goes to the attribute of its name, with the first metadata of that
/// name, which leaves the metadata: the last takes its place.
pub open spec fn bind(s: Bound, variant: VariantView, value: ValueView) -> Bound {
    match position(attribute_names(s.attributes), value.ident.name) {
        None => Bound { diags: s.diags.push(error(value.ident.span, "Unknown attribute."@)), ..s },
        Some(k) => match position(metadata_names(s.metadata), value.ident.name) {
            Some(m) => {
                let a = assigned(s.attributes[k], variant.ident, value, Some(s.metadata[m]));
                Bound {
                    attributes: s.attributes.update(k, a.attribute),
                    metadata: s.metadata.update(m, s.metadata.last()).drop_last(),
                    diags: s.diags + a.diags,
                }
            },
            None => {
                let a = assigned(s.attributes[k], variant.ident, value, None);
                Bound {
                    attributes: s.attributes.update(k, a.attribute),
                    metadata: s.metadata,
                    diags: s.diags + a.diags,
                }
            },
        },
    }
}

/// The attributes after the values `values` were assigned for `variant`,
/// one after the other.
pub open spec fn bind_all(s: Bound, variant: VariantView, values: Seq<ValueView>) -> Bound
    decreases values.len(),
{
    if values.len() == 0 {
        s
    } else {
        bind(bind_all(s, variant, values.drop_last()), variant, values.last())
    }
}

/// The first place in `attributes` of the attribute named `name`.
fn find_attribute(attributes: &Vec<Attribute>, name: &str) -> (r: Option<usize>)
    ensures
        (match r {
            Some(i) => Some(i as int),
            None => None,
        }) == position(attribute_names(view_all(attributes@)), name@),
        r matches Some(i) ==> i < attributes.len(),
{
    let ghost all = attribute_names(view_all(attributes@));
    let mut i: usize = 0;
    while i < attributes.len()
        invariant
            i <= attributes.len(),
            all == attribute_names(view_all(attributes@)),
            forall|j: int| 0 <= j < i ==> all[j] != name@,
        decreases attributes.len() - i,
    {
        if attributes[i].ident.name.as_str().eq(name) {
            proof {
                assert(all[i as int] == name@);
                lemma_position_found(all, name@, i as int);
            }
            return Some(i);
        }
        assert(all[i as int] != name@);
        i += 1;
    }
    proof {
        lemma_position_absent(all, name@);
    }
    None
}

/// The first place in `metadata` of the metadata for the attribute named
/// `name`.
fn find_metadata(metadata: &Vec<AttributeMetadata>, name: &str) -> (r: Option<usize>)
    ensures
        (match r {
            Some(i) => Some(i as int),
            None => None,
        }) == position(metadata_names(view_all(metadata@)), name@),
        r matches Some(i) ==> i < metadata.len(),
{
    let ghost all = metadata_names(view_all(metadata@));
    let mut i: usize = 0;
    while i < metadata.len()
        invariant
            i <= metadata.len(),
            all == metadata_names(view_all(metadata@)),
            forall|j: int| 0 <= j < i ==> all[j] != name@,
        decreases metadata.len() - i,
    {
        if metadata[i].attribute_ident.as_str().eq(name) {
            proof {
                assert(all[i as int] == name@);
                lemma_position_found(all, name@, i as int);
            }
            return Some(i);
        }
        assert(all[i as int] != name@);
        i += 1;
    }
    proof {
        lemma_position_absent(all, name@);
    }
    None
}

/// Assigns the values `values` of `variant` to the attributes.
fn bind_values(
    attributes: &mut Vec<Attribute>,
    variant: &Variant,
    values: Vec<AttributeValueAssignment>,
    self_references: Vec<AttributeMetadata>,
    diags: &mut Vec<Diagnostic>,
)
    ensures
        ({
            let s = bind_all(
                Bound {
                    attributes: view_all(old(attributes)@),
                    metadata: view_all(self_references@),
                    diags: Seq::empty(),
                },
                variant@,
                view_all(values@),
            );
            &&& view_all(final(attributes)@) == s.attributes
            &&& diagnostics(final(diags)@) == diagnostics(old(diags)@) + s.diags
        }),
{
    let ghost all = view_all(values@);
    let ghost before = diagnostics(old(diags)@);
    let ghost first = Bound {
        attributes: view_all(old(attributes)@),
        metadata: view_all(self_references@),
        diags: Seq::empty(),
    };
    let mut rest = values;
    let mut self_references = self_references;
    let mut done: Ghost<int> = Ghost(0);
    proof {
        assert(all.take(0) =~= Seq::empty());
        assert(all.skip(0) =~= all);
        assert(diagnostics(diags@) =~= before + first.diags);
    }
    while rest.len() > 0
        invariant
            0 <= done@ <= all.len(),
            view_all(rest@) == all.skip(done@),
            ({
                let s = bind_all(first, variant@, all.take(done@));
                &&& view_all(attributes@) == s.attributes
                &&& view_all(self_references@) == s.metadata
                &&& diagnostics(diags@) == before + s.diags
            }),
        decreases rest.len(),
    {
        proof {
            assert(view_all(rest@).len() == rest@.len());
            lemma_view_all_remove_first(rest@);
        }
        let attr = rest.remove(0);
        proof {
            assert(all.skip(done@).skip(1) =~= all.skip(done@ + 1));
            assert(all.take(done@ + 1).drop_last() =~= all.take(done@));
            assert(all.skip(done@)[0] == attr@);
            assert(all.take(done@ + 1).last() == attr@);
        }
        let ghost s = bind_all(first, variant@, all.take(done@));
        let ghost next = bind(s, variant@, attr@);
        match find_attribute(attributes, attr.ident.name.as_str()) {
            None => {
                emit_error(diags, attr.ident.span, String::from_str("Unknown attribute."));
                assert(diagnostics(diags@) =~= before + next.diags);
            },
            Some(k) => {
                let metadata = match find_metadata(&self_references, attr.ident.name.as_str()) {
                    Some(m) => {
                        proof {
                            assert(view_all(self_references@).len() == self_references@.len());
                            assert(view_all(self_references@)[m as int] == self_references@[m as int]@);
                            assert(view_all(
                                self_references@.update(m as int, self_references@.last()).drop_last(),
                            ) =~= view_all(self_references@).update(
                                m as int,
                                view_all(self_references@).last(),
                            ).drop_last());
                        }
                        Some(self_references.swap_remove(m))
                    },
                    None => None,
                };
                let mut attribute = attributes.remove(k);
                let ghost held = attributes@;
                attribute.set(variant, attr, metadata, diags);
                proof {
                    assert(view_all(held.insert(k as int, attribute)) =~= s.attributes.update(
                        k as int,
                        attribute@,
                    ));
                    assert(diagnostics(diags@) =~= before + next.diags);
                }
                attributes.insert(k, attribute);
            },
        }
        proof {
            done@ = done@ + 1;
        }
    }
    proof {
        assert(view_all(rest@).len() == rest@.len());
        assert(all.take(done@) =~= all);
    }
}

/// The attributes while the variants are gone through: the attributes with
/// the values so far, the variants with their annotations written anew, and
/// the problems.
pub struct Resolved {
    pub attributes: Seq<AttributeView>,
    pub variants: Seq<VariantView>,
    pub diags: Seq<DiagnosticView>,
}

/// The attributes after one more variant: the references in its values are
/// resolved, the values are read, and each is assigned to its attribute.
pub open spec fn resolve_variant(s: Resolved, variant: VariantView) -> Resolved {
    let e = expanded(variant.attrs);
    let rewritten = VariantView { attrs: e.attrs, ..variant };
    let v = variant_values(rewritten.attrs);
    let b = bind_all(
        Bound { attributes: s.attributes, metadata: e.found.metadata, diags: Seq::empty() },
        rewritten,
        v.values,
    );
    Resolved {
        attributes: b.attributes,
        variants: s.variants.push(rewritten),
        diags: s.diags + e.found.diags + v.diags + b.diags,
    }
}

/// The attributes after the variants `variants`, one after the other.
pub open spec fn resolve_variants(s: Resolved, variants: Seq<VariantView>) -> Resolved
    decreases variants.len(),
{
    if variants.len() == 0 {
        s
    } else {
        resolve_variant(resolve_variants(s, variants.drop_last()), variants.last())
    }
}

/// The problems of completeness of the attributes `attrs`, attribute by
/// attribute.
pub open spec fn validated_all(attrs: Seq<AttributeView>, variants: Seq<VariantView>) -> Seq<
    DiagnosticView,
>
    decreases attrs.len(),
{
    if attrs.len() == 0 {
        Seq::empty()
    } else {
        validated_all(attrs.drop_last(), variants) + validated(attrs.last(), variants)
    }
}

/// The accessors of the attributes `attrs`, in their order.
pub open spec fn accessors_of(attrs: Seq<AttributeView>, variants: Seq<VariantView>) -> Seq<
    AccessorView,
> {
    Seq::new(attrs.len(), |i: int| accessor_of(attrs[i], variants))
}

/// The tokens of the accessors `accessors`, one after the other.
pub open spec fn accessors_tokens(accessors: Seq<AccessorView>) -> Seq<Tok>
    decreases accessors.len(),
{
    if accessors.len() == 0 {
        Seq::empty()
    } else {
        accessors_tokens(accessors.drop_last()) + accessor_tokens(accessors.last())
    }
}

/// The tokens that are generated for an enum:
/// `impl generics Name generics where-clause { accessors }`.
pub open spec fn implementation(input: DeriveInputView, accessors: Seq<AccessorView>) -> Seq<Tok> {
    seq![word("impl"@)] + input.impl_generics + seq![
        Tok::Ident { text: input.ident.name, span: input.ident.span },
    ] + input.type_generics + input.where_clause + seq![
        grouped(Delimiter::Brace, accessors_tokens(accessors)),
    ]
}

/// The accessors of the attributes that the annotations `attrs` declare
/// for a type with the content `data`, or the problems of the first phase
/// that found any. A type that is no enum is one problem.
pub open spec fn resolved(attrs: Seq<AnnotationView>, data: DataView) -> Result<
    Seq<AccessorView>,
    Seq<DiagnosticView>,
> {
    match data {
        DataView::Struct(span) => Err(seq![error(span, "Not implemented for structs."@)]),
        DataView::Union(span) => Err(seq![error(span, "Not implemented for unions."@)]),
        DataView::Enum(variants) => {
            let declared = enum_attributes(attrs);
            let resolved = resolve_variants(
                Resolved {
                    attributes: declared.attributes,
                    variants: Seq::empty(),
                    diags: Seq::empty(),
                },
                variants,
            );
            let incomplete = validated_all(resolved.attributes, resolved.variants);
            let conflicting = conflicts(resolved.attributes, resolved.attributes.len() as int);
            if declared.diags.len() > 0 {
                Err(declared.diags)
            } else if resolved.diags.len() > 0 {
                Err(resolved.diags)
            } else if incomplete.len() > 0 {
                Err(incomplete)
            } else if conflicting.len() > 0 {
                Err(conflicting)
            } else {
                Ok(accessors_of(resolved.attributes, resolved.variants))
            }
        },
    }
}

/// What is generated for `input`: the accessors of its attributes as
/// tokens, or the problems that were found.
pub open spec fn generated(input: DeriveInputView) -> Result<Seq<Tok>, Seq<DiagnosticView>> {
    match resolved(input.attrs, input.data) {
        Ok(accessors) => Ok(implementation(input, accessors)),
        Err(diags) => Err(diags),
    }
}

/// Goes through the variants: resolves, reads and assigns their values.
/// Returns the variants with their annotations written anew.
fn resolve_all(
    attributes: &mut Vec<Attribute>,
    variants: Vec<Variant>,
    diags: &mut Vec<Diagnostic>,
) -> (r: Vec<Variant>)
    ensures
        ({
            let s = resolve_variants(
                Resolved {
                    attributes: view_all(old(attributes)@),
                    variants: Seq::empty(),
                    diags: Seq::empty(),
                },
                view_all(variants@),
            );
            &&& view_all(final(attributes)@) == s.attributes
            &&& view_all(r@) == s.variants
            &&& diagnostics(final(diags)@) == diagnostics(old(diags)@) + s.diags
        }),
{
    let ghost all = view_all(variants@);
    let ghost before = diagnostics(old(diags)@);
    let ghost first = Resolved {
        attributes: view_all(old(attributes)@),
        variants: Seq::empty(),
        diags: Seq::empty(),
    };
    let mut rest = variants;
    let mut rewritten: Vec<Variant> = Vec::new();
    let mut done: Ghost<int> = Ghost(0);
    proof {
        assert(all.take(0) =~= Seq::empty());
        assert(all.skip(0) =~= all);
        assert(view_all(rewritten@) =~= first.variants);
        assert(diagnostics(diags@) =~= before + first.diags);
    }
    while rest.len() > 0
        invariant
            0 <= done@ <= all.len(),
            view_all(rest@) == all.skip(done@),
            ({
                let s = resolve_variants(first, all.take(done@));
                &&& view_all(attributes@) == s.attributes
                &&& view_all(rewritten@) == s.variants
                &&& diagnostics(diags@) == before + s.diags
            }),
        decreases rest.len(),
    {
        proof {
            assert(view_all(rest@).len() == rest@.len());
            lemma_view_all_remove_first(rest@);
        }
        let mut variant = rest.remove(0);
        proof {
            assert(all.skip(done@).skip(1) =~= all.skip(done@ + 1));
            assert(all.take(done@ + 1).drop_last() =~= all.take(done@));
            assert(all.skip(done@)[0] == variant@);
            assert(all.take(done@ + 1).last() == variant@);
        }
        let ghost s = resolve_variants(first, all.take(done@));
        let ghost next = resolve_variant(s, variant@);
        let self_references = expand_variant_attributes(&mut variant, diags);
        let variant_attrs = parse_variant_attributes(&variant, diags);
        bind_values(attributes, &variant, variant_attrs, self_references, diags);
        proof {
            lemma_view_all_push(rewritten@, variant);
            assert(diagnostics(diags@) =~= before + next.diags);
        }
        rewritten.push(variant);
        proof {
            done@ = done@ + 1;
        }
    }
    proof {
        assert(view_all(rest@).len() == rest@.len());
        assert(all.take(done@) =~= all);
    }
    rewritten
}

/// Checks every attribute for completeness.
fn validate_all(attributes: &Vec<Attribute>, variants: &Vec<Variant>, diags: &mut Vec<Diagnostic>)
    ensures
        diagnostics(final(diags)@) == diagnostics(old(diags)@) + validated_all(
            view_all(attributes@),
            view_all(variants@),
        ),
{
    let ghost all = view_all(attributes@);
    let ghost vs = view_all(variants@);
    let ghost before = diagnostics(old(diags)@);
    let mut i: usize = 0;
    proof {
        assert(all.take(0) =~= Seq::empty());
        assert(diagnostics(diags@) =~= before + validated_all(all.take(0), vs));
    }
    while i < attributes.len()
        invariant
            i <= attributes.len(),
            all == view_all(attributes@),
            vs == view_all(variants@),
            diagnostics(diags@) == before + validated_all(all.take(i as int), vs),
        decreases attributes.len() - i,
    {
        proof {
            assert(all.take(i + 1).drop_last() =~= all.take(i as int));
            assert(all.take(i + 1).last() == attributes@[i as int]@);
        }
        attributes[i].validate(variants, diags);
        assert(diagnostics(diags@) =~= before + validated_all(all.take(i + 1), vs));
        i += 1;
    }
    proof {
        assert(all.take(attributes@.len() as int) =~= all);
    }
}

/// The accessors of the attributes that the annotations `attrs` declare
/// for a type with the content `data`, or the problems that were found.
pub fn derive_accessors(attrs: &Vec<Annotation>, data: Data) -> (r: Result<
    Vec<Accessor>,
    Vec<Diagnostic>,
>)
    ensures
        (match r {
            Ok(accessors) => Ok(view_all(accessors@)),
            Err(diags) => Err(diagnostics(diags@)),
        }) == resolved(view_all(attrs@), data@),
{
    let ghost given = data@;
    let mut diags: Vec<Diagnostic> = Vec::new();
    assert(diagnostics(diags@) =~= Seq::empty());
    let variants = match data {
        Data::Struct(span) => {
            emit_error(&mut diags, span, String::from_str("Not implemented for structs."));
            assert(diagnostics(diags@) =~= seq![error(span, "Not implemented for structs."@)]);
            return Err(diags);
        },
        Data::Union(span) => {
            emit_error(&mut diags, span, String::from_str("Not implemented for unions."));
            assert(diagnostics(diags@) =~= seq![error(span, "Not implemented for unions."@)]);
            return Err(diags);
        },
        Data::Enum(variants) => variants,
    };
    let mut attributes = parse_enum_attributes(attrs, &mut diags);
    assert(diagnostics(diags@) =~= enum_attributes(view_all(attrs@)).diags);
    if diags.len() > 0 {
        return Err(diags);
    }
    let variants = resolve_all(&mut attributes, variants, &mut diags);
    let ghost resolved = resolve_variants(
        Resolved {
            attributes: enum_attributes(view_all(attrs@)).attributes,
            variants: Seq::empty(),
            diags: Seq::empty(),
        },
        given->Enum_0,
    );
    assert(diagnostics(diags@) =~= resolved.diags);
    if diags.len() > 0 {
        return Err(diags);
    }
    validate_all(&attributes, &variants, &mut diags);
    assert(diagnostics(diags@) =~= validated_all(resolved.attributes, resolved.variants));
    if diags.len() > 0 {
        return Err(diags);
    }
    check_for_conflicts(&attributes, &mut diags);
    assert(view_all(attributes@).len() == attributes@.len());
    assert(diagnostics(diags@) =~= conflicts(
        resolved.attributes,
        resolved.attributes.len() as int,
    ));
    if diags.len() > 0 {
        return Err(diags);
    }
    let mut accessors: Vec<Accessor> = Vec::new();
    let mut i: usize = 0;
    while i < attributes.len()
        invariant
            i <= attributes.len(),
            accessors@.len() == i,
            forall|j: int|
                0 <= j < i ==> accessors@[j]@ == accessor_of(
                    attributes@[j]@,
                    view_all(variants@),
                ),
        decreases attributes.len() - i,
    {
        accessors.push(attributes[i].accessor(&variants));
        i += 1;
    }
    assert(view_all(accessors@) =~= accessors_of(view_all(attributes@), view_all(variants@)));
    Ok(accessors)
}

/// The accessors of the attributes of `input` as tokens, or the problems
/// that were found.
pub fn derive_custom_attrs(input: DeriveInput) -> (r: Result<Vec<Token>, Vec<Diagnostic>>)
    ensures
        (match r {
            Ok(tokens) => Ok(views(tokens@)),
            Err(diags) => Err(diagnostics(diags@)),
        }) == generated(input@),
{
    let ghost given = input@;
    let DeriveInput { attrs, ident, impl_generics, type_generics, where_clause, data } = input;
    let accessors = match derive_accessors(&attrs, data) {
        Ok(accessors) => accessors,
        Err(diags) => {
            return Err(diags);
        },
    };
    let ghost all = view_all(accessors@);
    let mut body: Vec<Token> = Vec::new();
    let mut i: usize = 0;
    proof {
        assert(all.take(0) =~= Seq::empty());
        assert(views(body@) =~= accessors_tokens(all.take(0)));
    }
    while i < accessors.len()
        invariant
            i <= accessors.len(),
            all == view_all(accessors@),
            views(body@) == accessors_tokens(all.take(i as int)),
        decreases accessors.len() - i,
    {
        proof {
            assert(all.take(i + 1).drop_last() =~= all.take(i as int));
            assert(all.take(i + 1).last() == accessors@[i as int]@);
        }
        accessors[i].to_tokens(&mut body);
        i += 1;
    }
    proof {
        assert(all.take(accessors@.len() as int) =~= all);
    }
    let mut tokens: Vec<Token> = Vec::new();
    assert(views(tokens@) =~= Seq::empty());
    let keyword = Token::ident("impl", Span::call_site());
    proof {
        lemma_views_push(tokens@, keyword);
    }
    tokens.push(keyword);
    extend(&mut tokens, &impl_generics);
    let name = ident.to_token();
    proof {
        lemma_views_push(tokens@, name);
    }
    tokens.push(name);
    extend(&mut tokens, &type_generics);
    extend(&mut tokens, &where_clause);
    let group = Token::group(Delimiter::Brace, Span::call_site(), body);
    proof {
        lemma_views_push(tokens@, group);
    }
    tokens.push(group);
    assert(views(tokens@) =~= implementation(given, all));
    Ok(tokens)
}

/// What assigning values keeps of the attributes `before`: their number
/// and, of each, whether it is required, its default and its name; and
/// where every variant had at most one value, every variant has at most
/// one.
pub open spec fn kept(before: Seq<AttributeView>, after: Seq<AttributeView>) -> bool {
    &&& after.len() == before.len()
    &&& forall|i: int|
        0 <= i < before.len() ==> {
            &&& (#[trigger] after[i]).required == before[i].required
            &&& after[i].default == before[i].default
            &&& after[i].ident == before[i].ident
            &&& one_value_per_variant(before[i].values) ==> one_value_per_variant(after[i].values)
        }
}

proof fn lemma_bind_keeps(s: Bound, variant: VariantView, value: ValueView)
    ensures
        kept(s.attributes, bind(s, variant, value).attributes),
{
    let after = bind(s, variant, value).attributes;
    crate::model::lemma_position_bounds(attribute_names(s.attributes), value.ident.name);
    match position(attribute_names(s.attributes), value.ident.name) {
        None => {},
        Some(k) => {
            crate::model::lemma_position_bounds(metadata_names(s.metadata), value.ident.name);
            match position(metadata_names(s.metadata), value.ident.name) {
                Some(m) => {
                    lemma_assigning_keeps_the_attribute(
                        s.attributes[k],
                        variant.ident,
                        value,
                        Some(s.metadata[m]),
                    );
                },
                None => {
                    lemma_assigning_keeps_the_attribute(s.attributes[k], variant.ident, value, None);
                },
            }
            assert forall|i: int| 0 <= i < s.attributes.len() implies {
                &&& (#[trigger] after[i]).required == s.attributes[i].required
                &&& after[i].default == s.attributes[i].default
                &&& after[i].ident == s.attributes[i].ident
                &&& one_value_per_variant(s.attributes[i].values) ==> one_value_per_variant(
                    after[i].values,
                )
            } by {
                if i != k {
                    assert(after[i] == s.attributes[i]);
                }
            }
        },
    }
}

proof fn lemma_kept_twice(a: Seq<AttributeView>, b: Seq<AttributeView>, c: Seq<AttributeView>)
    requires
        kept(a, b),
        kept(b, c),
    ensures
        kept(a, c),
{
    assert forall|i: int| 0 <= i < a.len() implies {
        &&& (#[trigger] c[i]).required == a[i].required
        &&& c[i].default == a[i].default
        &&& c[i].ident == a[i].ident
        &&& one_value_per_variant(a[i].values) ==> one_value_per_variant(c[i].values)
    } by {
        assert(b[i].required == a[i].required);
    }
}

proof fn lemma_bind_all_keeps(s: Bound, variant: VariantView, values: Seq<ValueView>)
    ensures
        kept(s.attributes, bind_all(s, variant, values).attributes),
    decreases values.len(),
{
    if values.len() > 0 {
        lemma_bind_all_keeps(s, variant, values.drop_last());
        let before = bind_all(s, variant, values.drop_last());
        lemma_bind_keeps(before, variant, values.last());
        lemma_kept_twice(
            s.attributes,
            before.attributes,
            bind(before, variant, values.last()).attributes,
        );
    }
}

proof fn lemma_resolve_variants_keeps(s: Resolved, variants: Seq<VariantView>)
    ensures
        ({
            let r = resolve_variants(s, variants);
            &&& kept(s.attributes, r.attributes)
            &&& r.variants.len() == s.variants.len() + variants.len()
            &&& forall|j: int|
                0 <= j < variants.len() ==> (#[trigger] r.variants[s.variants.len() + j]).ident
                    == variants[j].ident
        }),
    decreases variants.len(),
{
    if variants.len() > 0 {
        let init = variants.drop_last();
        let last = variants.last();
        lemma_resolve_variants_keeps(s, init);
        let before = resolve_variants(s, init);
        let e = expanded(last.attrs);
        let rewritten = VariantView { attrs: e.attrs, ..last };
        let first = Bound {
            attributes: before.attributes,
            metadata: e.found.metadata,
            diags: Seq::empty(),
        };
        lemma_bind_all_keeps(first, rewritten, variant_values(rewritten.attrs).values);
        let r = resolve_variants(s, variants);
        lemma_kept_twice(s.attributes, before.attributes, r.attributes);
        assert forall|j: int| 0 <= j < variants.len() implies (#[trigger] r.variants[s.variants.len()
            + j]).ident == variants[j].ident by {
            if j < init.len() {
                assert(r.variants[s.variants.len() + j] == before.variants[s.variants.len() + j]);
                assert(init[j] == variants[j]);
            }
        }
    }
}

/// Where nothing is reported for `a`, no variant owes it a value.
proof fn lemma_nothing_reported_nothing_missing(a: AttributeView, variants: Seq<VariantView>)
    requires
        validated(a, variants).len() == 0,
    ensures
        forall|j: int| 0 <= j < variants.len() ==> !missing(a, (#[trigger] variants[j]).ident.name),
    decreases variants.len(),
{
    if variants.len() > 0 {
        let init = variants.drop_last();
        lemma_nothing_reported_nothing_missing(a, init);
        assert forall|j: int| 0 <= j < variants.len() implies !missing(
            a,
            (#[trigger] variants[j]).ident.name,
        ) by {
            if j < init.len() {
                assert(init[j] == variants[j]);
            }
        }
    }
}

/// Where nothing is reported for any of `attrs`, nothing is reported for
/// each.
proof fn lemma_nothing_reported_for_each(attrs: Seq<AttributeView>, variants: Seq<VariantView>)
    requires
        validated_all(attrs, variants).len() == 0,
    ensures
        forall|i: int| 0 <= i < attrs.len() ==> validated(#[trigger] attrs[i], variants).len() == 0,
    decreases attrs.len(),
{
    if attrs.len() > 0 {
        let init = attrs.drop_last();
        lemma_nothing_reported_for_each(init, variants);
        assert forall|i: int| 0 <= i < attrs.len() implies validated(
            #[trigger] attrs[i],
            variants,
        ).len() == 0 by {
            if i < init.len() {
                assert(init[i] == attrs[i]);
            }
        }
    }
}

/// A whole run on an enum whose attributes are all required and without a
/// default, which generates accessors: every accessor has, for every
/// variant of the enum, exactly one step, so that it returns from a step
/// for every value of the enum and never reaches its fallback.
pub proof fn lemma_required_attributes_return_from_a_step(
    attrs: Seq<AnnotationView>,
    variants: Seq<VariantView>,
)
    requires
        resolved(attrs, DataView::Enum(variants)) is Ok,
        forall|i: int|
            0 <= i < enum_attributes(attrs).attributes.len() ==> {
                &&& (#[trigger] enum_attributes(attrs).attributes[i]).required
                &&& enum_attributes(attrs).attributes[i].default is None
            },
    ensures
        ({
            let accessors = resolved(attrs, DataView::Enum(variants))->Ok_0;
            &&& accessors.len() == enum_attributes(attrs).attributes.len()
            &&& forall|i: int, j: int|
                0 <= i < accessors.len() && 0 <= j < variants.len() ==> {
                    let name = (#[trigger] variants[j]).ident.name;
                    let arms = (#[trigger] accessors[i]).arms;
                    &&& position(arm_names(arms), name) matches Some(k) && selected(
                        accessors[i],
                        name,
                    ) == arms[k].value
                    &&& forall|p: int, q: int|
                        0 <= p < q < arms.len() ==> !(arms[p].variant.name == name
                            && arms[q].variant.name == name)
                }
        }),
{
    let declared = enum_attributes(attrs).attributes;
    let first = Resolved { attributes: declared, variants: Seq::empty(), diags: Seq::empty() };
    let r = resolve_variants(first, variants);
    let accessors = resolved(attrs, DataView::Enum(variants))->Ok_0;
    lemma_resolve_variants_keeps(first, variants);
    lemma_nothing_reported_for_each(r.attributes, r.variants);
    lemma_declared_have_no_values(attrs);
    assert forall|i: int, j: int|
        0 <= i < accessors.len() && 0 <= j < variants.len() implies {
        let name = (#[trigger] variants[j]).ident.name;
        let arms = (#[trigger] accessors[i]).arms;
        &&& position(arm_names(arms), name) matches Some(k) && selected(accessors[i], name)
            == arms[k].value
        &&& forall|p: int, q: int|
            0 <= p < q < arms.len() ==> !(arms[p].variant.name == name && arms[q].variant.name
                == name)
    } by {
        let a = r.attributes[i];
        let name = variants[j].ident.name;
        assert(accessors[i] == accessor_of(a, r.variants));
        assert(a.required == declared[i].required);
        assert(one_value_per_variant(declared[i].values));
        assert(one_value_per_variant(a.values));
        lemma_nothing_reported_nothing_missing(a, r.variants);
        assert(r.variants[0 + j].ident == variants[j].ident);
        assert(!missing(a, r.variants[j].ident.name));
        crate::model::lemma_first_exists(variant_names(r.variants), name, j);
        crate::model::lemma_position_bounds(variant_names(r.variants), name);
        lemma_steps_of_values(a.values, r.variants, name);
        assert(arm_names(accessors[i].arms) =~= Seq::new(
            accessors[i].arms.len(),
            |n: int| accessors[i].arms[n].variant.name,
        ));
    }
}

/// The attributes that are declared have no values yet.
proof fn lemma_declared_have_no_values(attrs: Seq<AnnotationView>)
    ensures
        forall|i: int|
            0 <= i < enum_attributes(attrs).attributes.len() ==> one_value_per_variant(
                (#[trigger] enum_attributes(attrs).attributes[i]).values,
            ),
{
    let d = annotate_all(Declared { declarations: Seq::empty(), diags: Seq::empty() }, attrs);
    lemma_attributes_of_have_no_values(d.declarations);
}

proof fn lemma_attributes_of_have_no_values(ds: Seq<AttributeDeclarationView>)
    ensures
        forall|i: int|
            0 <= i < attributes_of(ds).attributes.len() ==> (#[trigger] attributes_of(
                ds,
            ).attributes[i]).values.len() == 0,
    decreases ds.len(),
{
    if ds.len() > 0 {
        lemma_attributes_of_have_no_values(ds.drop_last());
    }
}

/// Two runs on the same enum come to the same end: the same tokens, and so
/// the same text, or the same problems.
pub proof fn lemma_same_input_same_output(first: DeriveInput, second: DeriveInput)
    requires
        first@ == second@,
    ensures
        generated(first@) == generated(second@),
        generated(first@) matches Ok(tokens) ==> render(tokens) == render(
            generated(second@)->Ok_0,
        ),
{
}

} // verus!

//! Diagnostics: the problems found in a declaration, each with the place it
//! was found at, and for a conflict the place of the earlier occurrence too.

use vstd::prelude::*;
use crate::token::Span;

verus! {

/// A note that points at a second place.
#[derive(Debug, PartialEq, Eq)]
pub struct Note {
    pub span: Span,
    pub message: String,
}

/// One problem, anchored to a place in the source.
#[derive(Debug, PartialEq, Eq)]
pub struct Diagnostic {
    pub span: Span,
    pub message: String,
    /// For a conflict: the earlier occurrence.
    pub help: Option<Note>,
}

/// The mathematical value of a [`Note`].
pub struct NoteView {
    pub span: Span,
    pub message: Seq<char>,
}

/// The mathematical value of a [`Diagnostic`].
pub struct DiagnosticView {
    pub span: Span,
    pub message: Seq<char>,
    pub help: Option<NoteView>,
}

impl View for Diagnostic {
    type V = DiagnosticView;

    open spec fn view(&self) -> DiagnosticView {
        DiagnosticView {
            span: self.span,
            message: self.message@,
            help: match self.help {
                Some(n) => Some(NoteView { span: n.span, message: n.message@ }),
                None => None,
            },
        }
    }
}

/// A problem at one place.
pub open spec fn error(span: Span, message: Seq<char>) -> DiagnosticView {
    DiagnosticView { span, message, help: None }
}

/// A conflict: the problem at `span`, and the earlier occurrence at `first`.
pub open spec fn duplicate(
    span: Span,
    message: Seq<char>,
    first: Span,
    first_message: Seq<char>,
) -> DiagnosticView {
    DiagnosticView { span, message, help: Some(NoteView { span: first, message: first_message }) }
}

/// The values of the diagnostics in `s`.
pub open spec fn diagnostics(s: Seq<Diagnostic>) -> Seq<DiagnosticView> {
    Seq::new(s.len(), |i: int| s[i]@)
}

/// Adds `d` to the collected diagnostics.
pub fn emit(diags: &mut Vec<Diagnostic>, d: Diagnostic)
    ensures
        diagnostics(final(diags)@) == diagnostics(old(diags)@).push(d@),
{
    diags.push(d);
    assert(diagnostics(diags@) =~= diagnostics(old(diags)@).push(d@));
}

/// Adds the problem `message` at `span` to the collected diagnostics.
pub fn emit_error(diags: &mut Vec<Diagnostic>, span: Span, message: String)
    ensures
        diagnostics(final(diags)@) == diagnostics(old(diags)@).push(error(span, message@)),
{
    diags.push(Diagnostic { span, message, help: None });
    assert(diagnostics(diags@) =~= diagnostics(old(diags)@).push(error(span, message@)));
}

/// Adds a conflict to the collected diagnostics: one diagnostic that holds
/// both places.
pub fn error_duplicate(
    diags: &mut Vec<Diagnostic>,
    span: Span,
    message: String,
    first: Span,
    first_message: String,
)
    ensures
        diagnostics(final(diags)@) == diagnostics(old(diags)@).push(
            duplicate(span, message@, first, first_message@),
        ),
{
    diags.push(
        Diagnostic { span, message, help: Some(Note { span: first, message: first_message }) },
    );
    assert(diagnostics(diags@) =~= diagnostics(old(diags)@).push(
        duplicate(span, message@, first, first_message@),
    ));
}

} // verus!

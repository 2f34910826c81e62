//! The optional wrapper: whether a type is `Option` of something, and
//! whether an expression already builds an `Option`.
//!
//! Both are told by the spelling of the path alone: a type of the user's
//! that is spelled `Option` counts as the wrapper.

use vstd::prelude::*;
use crate::model::view_all;
use crate::node::{Expr, ExprView, Type, TypeView};
use crate::syntax::{PathShape, TypePath, TypePathView};

verus! {

/// The path `a`.
pub open spec fn path1(a: Seq<char>) -> Seq<Seq<char>> {
    seq![a]
}

/// The path `a::b::c`.
pub open spec fn path3(a: Seq<char>, b: Seq<char>, c: Seq<char>) -> Seq<Seq<char>> {
    seq![a, b, c]
}

/// The path `a::b::c::d`.
pub open spec fn path4(a: Seq<char>, b: Seq<char>, c: Seq<char>, d: Seq<char>) -> Seq<Seq<char>> {
    seq![a, b, c, d]
}

/// The spellings of the wrapper type: `Option`, `std::option::Option` and
/// `core::option::Option`.
pub open spec fn names_option(segments: Seq<Seq<char>>) -> bool {
    ||| segments == path1("Option"@)
    ||| segments == path3("std"@, "option"@, "Option"@)
    ||| segments == path3("core"@, "option"@, "Option"@)
}

/// The spellings of the wrapper's variant `last`: alone, or behind one of the
/// spellings of the wrapper type that name a module.
pub open spec fn names_variant(segments: Seq<Seq<char>>, last: Seq<char>) -> bool {
    ||| segments == path1(last)
    ||| segments == path4("std"@, "option"@, "Option"@, last)
    ||| segments == path4("core"@, "option"@, "Option"@, last)
}

/// The path of a type that is a path without a qualified self type.
pub open spec fn type_path(ty: TypeView) -> Option<TypePathView> {
    match ty.path {
        Some(p) => if p.qualified {
            None
        } else {
            Some(p)
        },
        None => None,
    }
}

/// The type inside the wrapper, as source text: the type is a path spelled
/// like the wrapper, with exactly one generic argument, which is a type.
pub open spec fn type_from_option(ty: TypeView) -> Option<Seq<char>> {
    match type_path(ty) {
        Some(p) => if names_option(p.segments) && p.arguments.len() == 1 {
            p.arguments[0]
        } else {
            None
        },
        None => None,
    }
}

/// Whether an expression builds the wrapper itself: a call of `Some` with
/// exactly one argument, or the plain path `None`.
pub open spec fn option_wrapped(e: ExprView) -> bool {
    match e.shape.path {
        Some(p) => if e.shape.call {
            e.shape.args == 1 && names_variant(p.segments, "Some"@)
        } else {
            !p.qualified && p.bare && names_variant(p.segments, "None"@)
        },
        None => false,
    }
}

/// Whether `segments` are the path `a`.
pub fn is_path1(segments: &Vec<String>, a: &str) -> (r: bool)
    ensures
        r == (view_all(segments@) == path1(a@)),
{
    if segments.len() != 1 {
        assert(view_all(segments@).len() != path1(a@).len());
        return false;
    }
    let r = segments[0].as_str().eq(a);
    proof {
        if r {
            assert(view_all(segments@) =~= path1(a@));
        } else {
            assert(view_all(segments@)[0] != path1(a@)[0]);
        }
    }
    r
}

fn is_path3(segments: &Vec<String>, a: &str, b: &str, c: &str) -> (r: bool)
    ensures
        r == (view_all(segments@) == path3(a@, b@, c@)),
{
    if segments.len() != 3 {
        assert(view_all(segments@).len() != path3(a@, b@, c@).len());
        return false;
    }
    let r = segments[0].as_str().eq(a) && segments[1].as_str().eq(b) && segments[2].as_str().eq(c);
    proof {
        let s = view_all(segments@);
        let p = path3(a@, b@, c@);
        if r {
            assert(s =~= p);
        } else {
            assert(s[0] != p[0] || s[1] != p[1] || s[2] != p[2]);
        }
    }
    r
}

fn is_path4(segments: &Vec<String>, a: &str, b: &str, c: &str, d: &str) -> (r: bool)
    ensures
        r == (view_all(segments@) == path4(a@, b@, c@, d@)),
{
    if segments.len() != 4 {
        assert(view_all(segments@).len() != path4(a@, b@, c@, d@).len());
        return false;
    }
    let r = segments[0].as_str().eq(a) && segments[1].as_str().eq(b) && segments[2].as_str().eq(c)
        && segments[3].as_str().eq(d);
    proof {
        let s = view_all(segments@);
        let p = path4(a@, b@, c@, d@);
        if r {
            assert(s =~= p);
        } else {
            assert(s[0] != p[0] || s[1] != p[1] || s[2] != p[2] || s[3] != p[3]);
        }
    }
    r
}

/// The path of a type that is a path without a qualified self type.
pub fn extract_type_path(ty: &Type) -> (r: Option<&TypePath>)
    ensures
        (match r {
            Some(p) => Some(p@),
            None => None,
        }) == type_path(ty@),
{
    match &ty.path {
        Some(p) => {
            if p.qualified {
                None
            } else {
                Some(p)
            }
        },
        None => None,
    }
}

/// The last segment's name of a path that spells the wrapper type.
fn extract_option_declaration_segment(path: &TypePath) -> (r: Option<&String>)
    ensures
        r is Some == names_option(path@.segments),
        r matches Some(name) ==> name@ == path@.segments.last(),
{
    let s = &path.segments;
    if is_path1(s, "Option") || is_path3(s, "std", "option", "Option") || is_path3(
        s,
        "core",
        "option",
        "Option",
    ) {
        assert(view_all(s@).len() == s@.len());
        assert(view_all(s@).last() == s@[s@.len() - 1]@);
        Some(&s[s.len() - 1])
    } else {
        None
    }
}

/// The last segment's name of a path that spells the variant `last` of the
/// wrapper.
fn extract_option_segment<'a>(path: &'a PathShape, last: &str) -> (r: Option<&'a String>)
    ensures
        r is Some == names_variant(path@.segments, last@),
        r matches Some(name) ==> name@ == last@,
{
    let s = &path.segments;
    if is_path1(s, last) || is_path4(s, "std", "option", "Option", last) || is_path4(
        s,
        "core",
        "option",
        "Option",
        last,
    ) {
        assert(view_all(s@).len() == s@.len());
        assert(view_all(s@).last() == s@[s@.len() - 1]@);
        Some(&s[s.len() - 1])
    } else {
        None
    }
}

/// The type inside the wrapper, as source text, where `ty` is the wrapper
/// around exactly one type.
pub fn extract_type_from_option(ty: &Type) -> (r: Option<&String>)
    ensures
        (match r {
            Some(inner) => Some(inner@),
            None => None,
        }) == type_from_option(ty@),
{
    match extract_type_path(ty) {
        Some(path) => {
            if extract_option_declaration_segment(path).is_some() && path.arguments.len() == 1 {
                path.arguments[0].as_ref()
            } else {
                None
            }
        },
        None => None,
    }
}

/// Whether `expr` already builds the wrapper, so that it is not wrapped a
/// second time.
pub fn is_option_wrapped(expr: &Expr) -> (r: bool)
    ensures
        r == option_wrapped(expr@),
{
    match &expr.shape.path {
        Some(path) => {
            if expr.shape.call {
                expr.shape.args == 1 && extract_option_segment(path, "Some").is_some()
            } else {
                !path.qualified && path.bare && extract_option_segment(path, "None").is_some()
            }
        },
        None => false,
    }
}

} // verus!

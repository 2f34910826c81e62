//! Views of containers: the mathematical value of a vector, an option or a
//! result is the value of what it holds.

use vstd::prelude::*;

verus! {

/// The values of a sequence, one for one.
pub open spec fn view_all<T: View>(s: Seq<T>) -> Seq<T::V> {
    Seq::new(s.len(), |i: int| s[i]@)
}

/// The value of what an option holds.
pub open spec fn option_view<T: View>(o: Option<T>) -> Option<T::V> {
    match o {
        Some(t) => Some(t@),
        None => None,
    }
}

/// The value of what a result holds.
pub open spec fn result_view<T: View, E: View>(r: Result<T, E>) -> Result<T::V, E::V> {
    match r {
        Ok(t) => Ok(t@),
        Err(e) => Err(e@),
    }
}

/// The values of a sequence with one more element.
pub proof fn lemma_view_all_push<T: View>(s: Seq<T>, t: T)
    ensures
        view_all(s.push(t)) == view_all(s).push(t@),
{
    assert(view_all(s.push(t)) =~= view_all(s).push(t@));
}

/// The values of two sequences, one behind the other.
pub proof fn lemma_view_all_add<T: View>(a: Seq<T>, b: Seq<T>)
    ensures
        view_all(a + b) == view_all(a) + view_all(b),
{
    assert(view_all(a + b) =~= view_all(a) + view_all(b));
}

/// The values of a sequence without its first element.
pub proof fn lemma_view_all_remove_first<T: View>(s: Seq<T>)
    requires
        s.len() > 0,
    ensures
        view_all(s.remove(0)) == view_all(s).skip(1),
        view_all(s)[0] == s[0]@,
{
    assert(view_all(s.remove(0)) =~= view_all(s).skip(1));
}

/// Whether `i` is the first place at which `name` stands in `names`.
pub open spec fn is_first(names: Seq<Seq<char>>, name: Seq<char>, i: int) -> bool {
    &&& 0 <= i < names.len()
    &&& names[i] == name
    &&& forall|j: int| 0 <= j < i ==> names[j] != name
}

/// The first place at which `name` stands in `names`, if it stands there.
pub open spec fn position(names: Seq<Seq<char>>, name: Seq<char>) -> Option<int> {
    if exists|i: int| is_first(names, name, i) {
        Some(choose|i: int| is_first(names, name, i))
    } else {
        None
    }
}

/// The first place of a name is its position.
pub proof fn lemma_position_found(names: Seq<Seq<char>>, name: Seq<char>, i: int)
    requires
        is_first(names, name, i),
    ensures
        position(names, name) == Some(i),
{
    let k = choose|k: int| is_first(names, name, k);
    assert(is_first(names, name, k));
    if k < i {
        assert(names[k] != name);
    } else if i < k {
        assert(names[i] != name);
    }
}

/// A name that stands nowhere has no position.
pub proof fn lemma_position_absent(names: Seq<Seq<char>>, name: Seq<char>)
    requires
        forall|j: int| 0 <= j < names.len() ==> names[j] != name,
    ensures
        position(names, name) is None,
{
}

/// The position of a name is its first place; a name without a position
/// stands nowhere.
pub proof fn lemma_position_bounds(names: Seq<Seq<char>>, name: Seq<char>)
    ensures
        position(names, name) matches Some(i) ==> is_first(names, name, i),
        position(names, name) is None ==> forall|j: int|
            0 <= j < names.len() ==> names[j] != name,
{
    if position(names, name) is None {
        assert forall|j: int| 0 <= j < names.len() implies names[j] != name by {
            if names[j] == name {
                lemma_first_exists(names, name, j);
            }
        }
    }
}

/// If `name` stands at `j`, it has a first place.
pub proof fn lemma_first_exists(names: Seq<Seq<char>>, name: Seq<char>, j: int)
    requires
        0 <= j < names.len(),
        names[j] == name,
    ensures
        exists|i: int| is_first(names, name, i),
    decreases j,
{
    if forall|k: int| 0 <= k < j ==> names[k] != name {
        assert(is_first(names, name, j));
    } else {
        let k = choose|k: int| 0 <= k < j && names[k] == name;
        lemma_first_exists(names, name, k);
    }
}

/// `str`'s `==`: two strings are equal where they hold the same characters.
pub assume_specification[ <str as PartialEq>::eq ](a: &str, b: &str) -> (r: bool)
    ensures
        r == (a@ == b@),
;

/// `String::push`: the character is added at the end.
pub assume_specification[ String::push ](s: &mut String, ch: char)
    ensures
        final(s)@ == old(s)@.push(ch),
;

} // verus!

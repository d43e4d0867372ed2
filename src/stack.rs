//! The indentation stack of an open list, held in a `smallvec::SmallVec`.
use vstd::prelude::*;
use smallvec::SmallVec;

verus! {

/// The indentation stack of an open list. Verus does not take `SmallVec`
/// itself as a declared type (its `Array` bound), so the vector is held here,
/// hidden, and reached only through the functions below.
#[verifier::external_body]
pub struct Indents {
    items: SmallVec<[u8; 4]>,
}

/// The indentations held by a stack, bottom first.
pub uninterp spec fn indents_of(v: Indents) -> Seq<u8>;

/// Relies on `SmallVec::from_elem` with a count of one: a stack holding `x` alone.
#[verifier::external_body]
pub(crate) fn stack_of(x: u8) -> (r: Indents)
    ensures
        indents_of(r) == seq![x],
{
    Indents { items: SmallVec::from_elem(x, 1) }
}

/// Relies on `SmallVec::len`: the number of items held.
#[verifier::external_body]
pub(crate) fn stack_len(v: &Indents) -> (r: usize)
    ensures
        r == indents_of(*v).len(),
{
    v.items.len()
}

/// Relies on `SmallVec::last` (through `Deref` to a slice): the top item.
#[verifier::external_body]
pub(crate) fn stack_top(v: &Indents) -> (r: u8)
    requires
        indents_of(*v).len() > 0,
    ensures
        r == indents_of(*v).last(),
{
    *v.items.last().unwrap()
}

/// Relies on `Clone for SmallVec`: the copy holds the same items.
#[verifier::external_body]
pub(crate) fn stack_clone(v: &Indents) -> (r: Indents)
    ensures
        indents_of(r) == indents_of(*v),
{
    Indents { items: v.items.clone() }
}

/// Relies on `SmallVec::push`: `x` goes on top.
#[verifier::external_body]
pub(crate) fn stack_push(v: &mut Indents, x: u8)
    ensures
        indents_of(*final(v)) == indents_of(*old(v)).push(x),
{
    v.items.push(x)
}

/// Relies on `SmallVec::pop`: the top item leaves, and is returned.
#[verifier::external_body]
pub(crate) fn stack_pop(v: &mut Indents) -> (r: Option<u8>)
    ensures
        indents_of(*old(v)).len() == 0 ==> r is None && indents_of(*final(v)) == indents_of(*old(v)),
        indents_of(*old(v)).len() > 0 ==> r == Some(indents_of(*old(v)).last())
            && indents_of(*final(v)) == indents_of(*old(v)).drop_last(),
{
    v.items.pop()
}

} // verus!
